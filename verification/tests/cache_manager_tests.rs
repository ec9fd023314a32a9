use rustci_core::cache_manager::{CacheAsideManager, CacheManager, QueryCache, SessionCache};

#[test]
fn test_cache_manager() {
    let mut cache_manager = CacheManager::new(100, 60_000);
    let now = 1_000u64;
    cache_manager.set_at("test", "key1", b"value1".to_vec(), None, now);
    assert_eq!(cache_manager.get_at("test", "key1", now), Some(b"value1".to_vec()));
    assert_eq!(cache_manager.get_at("test", "nonexistent", now), None);
    cache_manager.remove("test", "key1");
    assert_eq!(cache_manager.get_at("test", "key1", now), None);
    let stats = cache_manager.get_stats("test").unwrap();
    assert_eq!(stats.hits, 1);
    assert_eq!(stats.misses, 2);
}

#[test]
fn test_query_cache() {
    let mut query_cache = QueryCache::new();
    let result = serde_json::to_vec(&vec!["user1".to_string(), "user2".to_string()]).unwrap();
    query_cache.cache_query_at("select_users_123", result.clone(), 60_000, 10);
    let cached = query_cache.get_cached_query_at("select_users_123", 20).unwrap();
    let users: Vec<String> = serde_json::from_slice(&cached).unwrap();
    assert_eq!(users, vec!["user1".to_string(), "user2".to_string()]);
    query_cache.invalidate_query("select_users_123");
    assert!(query_cache.get_cached_query_at("select_users_123", 30).is_none());
}

#[test]
fn test_cache_aside_manager() {
    let mut cache_aside = CacheAsideManager::new("test".to_string());
    let key = "test_key";
    assert!(cache_aside.lookup_at(key, 0).is_none());
    cache_aside.store_at(key, b"computed_value".to_vec(), 60_000, 0);
    assert_eq!(cache_aside.lookup_at(key, 1), Some(b"computed_value".to_vec()));
    let stats = cache_aside.get_stats().unwrap();
    assert_eq!(stats.hits, 1);
    assert_eq!(stats.misses, 1);
    cache_aside.invalidate(key);
    assert!(cache_aside.lookup_at(key, 2).is_none());
}

#[test]
fn test_cache_expiration() {
    let mut cache_manager = CacheManager::new(100, 50);
    cache_manager.set_at("test", "key1", b"value1".to_vec(), Some(100), 0);
    assert_eq!(cache_manager.get_at("test", "key1", 0), Some(b"value1".to_vec()));
    assert_eq!(cache_manager.get_at("test", "key1", 150), None);
    assert_eq!(cache_manager.size(), 0);
}

#[test]
fn clear_cache_keeps_other_caches() {
    let mut c = CacheManager::new(10, 1_000);
    c.set_at("a", "k", vec![1], None, 0);
    c.set_at("ab", "k", vec![2], None, 0);
    c.set_at("b", "k", vec![3], None, 0);
    c.clear_cache("a");
    assert_eq!(c.size(), 2);
    assert_eq!(c.get_at("ab", "k", 1), Some(vec![2]));
    assert_eq!(c.get_at("a", "k", 1), None);
}

#[test]
fn cleanup_drops_only_expired() {
    let mut c = CacheManager::new(10, 1_000);
    c.set_at("x", "short", vec![1], Some(10), 0);
    c.set_at("x", "long", vec![2], Some(1_000), 0);
    c.set_at("x", "forever", vec![3], None, 0);
    c.cleanup_expired_at(500);
    assert_eq!(c.size(), 2);
    assert_eq!(c.get_at("x", "long", 500), Some(vec![2]));
}

#[test]
fn sessions_live_for_their_lifetime() {
    let mut s = SessionCache::new();
    s.cache_session_at("sid", b"data".to_vec(), 100, 1_000);
    assert_eq!(s.get_session_at("sid", 1_100), Some(b"data".to_vec()));
    assert_eq!(s.get_session_at("sid", 1_101), None);
    s.cache_session_at("sid2", b"x".to_vec(), 100, 1_000);
    s.clear_all_sessions();
    assert_eq!(s.get_session_at("sid2", 1_001), None);
    s.remove_session("none");
}

#[test]
fn cache_aside_counts_each_lookup() {
    let mut c = CacheAsideManager::new("aside".to_string());
    assert!(c.lookup_at("k", 0).is_none());
    assert!(c.lookup_at("k", 1).is_none());
    c.store_at("k", vec![1, 2], 100, 2);
    assert_eq!(c.lookup_at("k", 3), Some(vec![1, 2]));
    assert!(c.lookup_at("k", 200).is_none());
    let stats = c.get_stats().unwrap();
    assert_eq!(stats.hits, 1);
    assert_eq!(stats.misses, 3);
}
