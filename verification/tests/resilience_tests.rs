use rustci_core::errors::AppError;
use rustci_core::resilience::{
    BackoffStrategy, BulkheadConfig, BulkheadManager, RetryManager, ServiceEndpoint, ServiceMeshConfig,
    ServiceMeshManager,
};

#[test]
fn test_bulkhead_manager() {
    let mut manager = BulkheadManager::new();
    let config = BulkheadConfig { max_concurrent_requests: 2, queue_size: 10, timeout: 1000, rejection_threshold: 80 };
    manager.create_pool("test_pool".to_string(), config).unwrap();
    assert!(manager.try_admit(&"test_pool".to_string()).is_ok());
    assert!(manager.get_pool_stats(&"test_pool".to_string()).is_ok());
    assert!(manager.try_admit(&"missing".to_string()).is_err());
}

#[test]
fn test_backoff_strategies() {
    let fixed = BackoffStrategy::Fixed(100);
    assert_eq!(fixed.calculate_delay(0), 100);
    assert_eq!(fixed.calculate_delay(5), 100);

    let exponential = BackoffStrategy::Exponential { base: 100, multiplier: 2, max: 10_000 };
    assert_eq!(exponential.calculate_delay(0), 100);
    assert_eq!(exponential.calculate_delay(1), 200);
    assert_eq!(exponential.calculate_delay(2), 400);
    assert_eq!(exponential.calculate_delay(20), 10_000);
}

#[test]
fn jittered_delay_stays_within_bounds() {
    let s = BackoffStrategy::ExponentialWithJitter { base: 100, multiplier: 2, max: 30_000, jitter_factor: 10 };
    for _ in 0..50 {
        let d = s.calculate_delay(1);
        assert!((200..=220).contains(&d));
    }
    let linear = BackoffStrategy::Linear { base: 50, increment: 25 };
    assert_eq!(linear.calculate_delay(4), 150);
}

#[test]
fn test_retry_manager() {
    let retry_manager = RetryManager::new(BackoffStrategy::Fixed(10), 3).with_transient_errors();
    let transient = AppError::ExternalServiceError("Transient error".to_string());
    assert_eq!(retry_manager.retry_delay_after(&transient, 0), Some(10));
    assert_eq!(retry_manager.retry_delay_after(&transient, 1), Some(10));
    assert_eq!(retry_manager.retry_delay_after(&transient, 2), None);
    let final_error = AppError::ValidationError("bad".to_string());
    assert_eq!(retry_manager.retry_delay_after(&final_error, 0), None);
}

#[test]
fn test_service_mesh_manager() {
    let mut manager = ServiceMeshManager::new(ServiceMeshConfig::default_config());
    let endpoints = vec![
        ServiceEndpoint::new("localhost".to_string(), 8080),
        ServiceEndpoint::new("localhost".to_string(), 8081),
    ];
    manager.register_service("test_service".to_string(), endpoints).unwrap();
    let discovered = manager.discover_service(&"test_service".to_string()).unwrap();
    assert_eq!(discovered.len(), 2);
    let selected = manager.select_endpoint(&"test_service".to_string()).unwrap();
    assert!(selected.port == 8080 || selected.port == 8081);
}

#[test]
fn unknown_service_has_no_endpoint() {
    let manager = ServiceMeshManager::new(ServiceMeshConfig::default_config());
    match manager.select_endpoint(&"nope".to_string()) {
        Err(AppError::ExternalServiceError(m)) => {
            assert_eq!(m, "No healthy endpoints available for service: nope")
        }
        _ => panic!("expected an error"),
    }
}

#[test]
fn endpoint_url() {
    let e = ServiceEndpoint::new("example.org".to_string(), 443);
    assert_eq!(e.url(), "http://example.org:443");
}

#[test]
fn bulkhead_counts_requests_and_rejects_at_threshold() {
    let mut m = BulkheadManager::new();
    let name = "db".to_string();
    m.create_pool(name.clone(), BulkheadConfig { max_concurrent_requests: 2, queue_size: 10, timeout: 1_000, rejection_threshold: 50 })
        .unwrap();
    assert!(m.try_admit(&name).is_ok());
    m.start_request(&name).unwrap();
    let s = m.get_pool_stats(&name).unwrap();
    assert_eq!((s.active_requests, s.total_requests), (1, 1));
    assert!(m.try_admit(&name).is_err());
    assert_eq!(m.get_pool_stats(&name).unwrap().rejected_requests, 1);
    m.finish_request(&name, true, 30).unwrap();
    m.start_request(&name).unwrap();
    m.finish_request(&name, false, 10).unwrap();
    let s = m.get_pool_stats(&name).unwrap();
    assert_eq!((s.active_requests, s.total_requests, s.completed_requests, s.failed_requests), (0, 2, 1, 1));
    assert_eq!((s.total_duration, s.average_duration), (40, 20));
    assert!(m.try_admit(&name).is_ok());
    assert!(m.start_request(&"none".to_string()).is_err());
}

#[test]
fn get_pool_finds_named_pools() {
    let mut m = BulkheadManager::new();
    let config = BulkheadConfig { max_concurrent_requests: 4, queue_size: 8, timeout: 500, rejection_threshold: 30 };
    m.create_pool("p".to_string(), config).unwrap();
    let pool = m.get_pool(&"p".to_string()).unwrap();
    assert_eq!(pool.get_stats().total_requests, 0);
    assert!(matches!(m.get_pool(&"q".to_string()), Err(AppError::DependencyNotFound { .. })));
}
