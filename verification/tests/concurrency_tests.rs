use rustci_core::concurrency::{AsyncSafeCounter, DeadlockDetector, DistributedLockManager, LockType, RateLimiter, TokenBucket};
use rustci_core::keyed::KeyedTable;

#[test]
fn test_distributed_lock_manager() {
    let mut lock_manager = DistributedLockManager::new();
    let holder_id = uuid::Uuid::new_v4().as_u128();
    let now = 1_000_000u64;
    let guard = lock_manager.try_acquire_exclusive_at("test_resource", holder_id, KeyedTable::new(), now).unwrap();

    let active_locks = lock_manager.get_active_locks_at(now + 1);
    assert_eq!(active_locks.len(), 1);
    assert_eq!(active_locks[0].1.holder_id, holder_id);
    assert_eq!(active_locks[0].1.lock_type, LockType::Exclusive);
    assert_eq!(active_locks[0].1.acquired_at, now);

    lock_manager.release_guard(guard).unwrap();
    assert_eq!(lock_manager.get_active_locks_at(now + 2).len(), 0);
}

#[test]
fn held_lock_refuses_another_holder() {
    let mut m = DistributedLockManager::new();
    assert!(m.try_acquire_exclusive_at("r", 1, KeyedTable::new(), 100).is_some());
    assert!(m.try_acquire_exclusive_at("r", 2, KeyedTable::new(), 101).is_none());
    assert!(m.release_lock("r", 2).is_err());
    assert!(m.release_lock("r", 1).is_ok());
    assert!(m.try_acquire_exclusive_at("r", 2, KeyedTable::new(), 102).is_some());
}

#[test]
fn test_rate_limiter() {
    let mut rate_limiter = RateLimiter::new();
    let now = 5_000u64;
    assert!(rate_limiter.is_allowed_at("test_key", 10, 1, 1, now));
    for _ in 0..9 {
        assert!(rate_limiter.is_allowed_at("test_key", 10, 1, 1, now));
    }
    assert!(!rate_limiter.is_allowed_at("test_key", 10, 1, 1, now));
}

#[test]
fn token_bucket_refills_over_time() {
    let mut b = TokenBucket::new_at(2, 1, 0);
    assert!(b.try_consume_at(2, 0));
    assert!(!b.try_consume_at(1, 500));
    assert!(b.try_consume_at(1, 1_000));
    assert!(!b.try_consume_at(3, 100_000));
}

#[test]
fn test_async_safe_counter() {
    let mut counter = AsyncSafeCounter::new("test_counter".to_string());
    assert_eq!(counter.get(), 0);
    assert_eq!(counter.increment(), 1);
    assert_eq!(counter.increment(), 2);
    assert_eq!(counter.decrement(), 1);
    assert_eq!(counter.get(), 1);
    counter.set(10);
    assert_eq!(counter.get(), 10);
}

#[test]
fn test_deadlock_detector() {
    let mut detector = DeadlockDetector::new();
    let thread1 = uuid::Uuid::new_v4().as_u128();
    let thread2 = uuid::Uuid::new_v4().as_u128();
    detector.register_wait(thread1, thread2);
    detector.register_wait(thread2, thread1);
    let deadlocks = detector.detect_deadlocks();
    assert!(!deadlocks.is_empty());
}

#[test]
fn no_cycle_no_deadlock() {
    let mut detector = DeadlockDetector::new();
    detector.register_wait(1, 2);
    detector.register_wait(2, 3);
    assert!(detector.detect_deadlocks().is_empty());
    detector.remove_wait(1, 2);
    detector.register_wait(3, 2);
    assert!(!detector.detect_deadlocks().is_empty());
}

#[test]
fn locks_read_and_cleaned_now() {
    let mut m = DistributedLockManager::new();
    let now = rustci_core::platform::now_millis();
    m.try_acquire_exclusive_at("fresh", 1, KeyedTable::new(), now).unwrap();
    m.try_acquire_exclusive_at("stale", 2, KeyedTable::new(), 1).unwrap();
    let active = m.get_active_locks();
    assert_eq!(active.len(), 1);
    assert_eq!(active[0].0, "fresh");
    assert_eq!(m.cleanup_expired_locks(), 1);
    assert_eq!(m.get_active_locks().len(), 1);
}

#[test]
fn rate_limiter_stats_list_each_key_once() {
    let mut r = RateLimiter::new();
    assert!(r.is_allowed_at("a", 5, 1, 2, 1_000));
    assert!(r.is_allowed_at("b", 3, 2, 1, 1_000));
    assert!(!r.is_allowed_at("b", 3, 2, 5, 1_000));
    let mut stats = r.get_stats();
    stats.sort_by(|x, y| x.0.cmp(&y.0));
    assert_eq!(stats.len(), 2);
    assert_eq!(stats[0].0, "a");
    assert_eq!(stats[0].1.capacity, 5);
    assert_eq!(stats[0].1.available_tokens, 3);
    assert_eq!(stats[0].1.requests_per_minute, 1);
    assert_eq!(stats[1].0, "b");
    assert_eq!(stats[1].1.available_tokens, 2);
    assert_eq!(stats[1].1.refill_rate, 2);
    assert_eq!(stats[1].1.requests_per_minute, 1);
}

#[test]
fn cleanup_drops_only_expired_locks() {
    let mut m = DistributedLockManager::new();
    m.try_acquire_exclusive_at("old", 1, KeyedTable::new(), 0).unwrap();
    m.try_acquire_exclusive_at("new", 2, KeyedTable::new(), 200_000).unwrap();
    assert_eq!(m.get_active_locks_at(300_000).len(), 1);
    assert_eq!(m.cleanup_expired_locks_at(300_000), 1);
    assert_eq!(m.cleanup_expired_locks_at(300_000), 0);
    let active = m.get_active_locks_at(300_000);
    assert_eq!(active.len(), 1);
    assert_eq!(active[0].0, "new");
    assert_eq!(active[0].1.holder_id, 2);
    assert_eq!(active[0].1.expires_at, 500_000);
    assert!(m.release_lock("old", 1).is_err());
    assert!(m.release_lock("new", 2).is_ok());
}

#[test]
fn long_cycle_found_and_diamond_is_not_one() {
    let mut d = DeadlockDetector::new();
    d.register_wait(1, 2);
    d.register_wait(1, 3);
    d.register_wait(2, 4);
    d.register_wait(3, 4);
    assert!(d.detect_deadlocks().is_empty());
    d.register_wait(4, 5);
    d.register_wait(5, 1);
    let found = d.detect_deadlocks();
    assert!(!found.is_empty());
    assert_eq!(found[0], vec![5u128, 1u128]);
}

#[test]
fn bucket_without_refill_counts_what_it_lets_through() {
    let mut b = TokenBucket::new(3, 0);
    assert!(b.try_consume(2));
    assert!(!b.try_consume(2));
    assert!(b.try_consume(1));
    assert!(!b.try_consume(1));
    assert_eq!(b.stats().available_tokens, 0);
    assert_eq!(b.get_requests_per_minute(), 2);
}

#[test]
fn two_thread_cycle_reported_once() {
    let mut d = DeadlockDetector::new();
    d.register_wait(7, 8);
    d.register_wait(8, 7);
    let found = d.detect_deadlocks();
    assert_eq!(found.len(), 1);
    assert!(found[0] == vec![7u128, 8u128] || found[0] == vec![8u128, 7u128]);
}
