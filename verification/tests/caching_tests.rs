use rustci_core::caching::{belongs_to, full_key, CacheEntry, CacheStatsBook};

#[test]
fn entry_expires_after_its_lifetime() {
    let mut entry = CacheEntry::new_at("value1".to_string(), Some(100), 1_000);
    assert!(!entry.is_expired_at(1_000));
    assert_eq!(entry.access_at(1_050), "value1");
    assert!(!entry.is_expired_at(1_100));
    assert!(entry.is_expired_at(1_150));
}

#[test]
fn entry_without_lifetime_never_expires() {
    let entry = CacheEntry::new_at(7u32, None, 0);
    assert!(!entry.is_expired_at(u64::MAX));
}

#[test]
fn access_counts_and_dates() {
    let mut entry = CacheEntry::new_at(1u8, Some(10), 100);
    assert_eq!(entry.access_count, 1);
    entry.access_at(105);
    entry.access_at(107);
    assert_eq!(entry.access_count, 3);
    assert_eq!(entry.last_accessed, 107);
    assert_eq!(entry.created_at, 100);
}

#[test]
fn keys_are_prefixed_with_the_cache_name() {
    let k = full_key("test", "key1");
    assert_eq!(k, "test:key1");
    assert!(belongs_to(&k, "test"));
    assert!(!belongs_to(&k, "tes"));
    assert!(!belongs_to("other:key1", "test"));
}

#[test]
fn stats_book_counts_hits_and_misses() {
    let mut book = CacheStatsBook::new();
    book.record_hit("test");
    book.record_miss("test");
    book.record_miss("test");
    book.record_hit("test");
    let s = book.get_stats("test").unwrap();
    assert_eq!(s.hits, 2);
    assert_eq!(s.misses, 2);
    assert_eq!(s.hit_rate, 50);
    assert!(book.get_stats("none").is_none());
    assert_eq!(book.get_all_stats().len(), 1);
}

#[test]
fn hit_rate_rounds_down() {
    let mut book = CacheStatsBook::new();
    book.record_lookup("q", true);
    book.record_lookup("q", false);
    book.record_lookup("q", false);
    assert_eq!(book.get_stats("q").unwrap().hit_rate, 33);
}
