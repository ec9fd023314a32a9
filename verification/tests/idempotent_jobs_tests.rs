use rustci_core::idempotent_jobs::{
    calculate_retry_delay, create_key_from_config, IdempotencyConfig, IdempotencyKey, IdempotentJobManager,
    JobExecutionResult, JobResult, RetryBackoffStrategy,
};

fn command_config(command: &str) -> String {
    let mut map = serde_json::Map::new();
    map.insert("command".to_string(), serde_json::Value::String(command.to_string()));
    serde_json::Value::Object(map).to_string()
}

#[test]
fn test_idempotent_job_manager_creation() {
    let config = IdempotencyConfig::default_config();
    let job_manager = IdempotentJobManager::new(config);
    let key = IdempotencyKey::new(uuid::Uuid::new_v4().as_u128(), "test-hash".to_string(), 1);
    assert!(job_manager.is_job_idempotent(&key));
}

#[test]
fn test_job_execution_lifecycle() {
    let config = IdempotencyConfig::default_config();
    let mut job_manager = IdempotentJobManager::new(config);
    let job_id = uuid::Uuid::new_v4().as_u128();
    let node_id = uuid::Uuid::new_v4().as_u128();
    let runner_id = uuid::Uuid::new_v4().as_u128();
    let key = IdempotencyKey::new(job_id, "test-hash".to_string(), 1);
    let now: u64 = 1_700_000_000_000;

    let result = job_manager.start_job_execution_at(key.clone(), node_id, runner_id, command_config("echo hello"), now);
    assert!(matches!(result, JobExecutionResult::Proceed));

    let result =
        job_manager.start_job_execution_at(key.clone(), node_id, runner_id, command_config("echo hello"), now + 10);
    assert!(matches!(result, JobExecutionResult::Duplicate(_)));

    let job_result = JobResult {
        success: true,
        exit_code: Some(0),
        output: Some("hello".to_string()),
        error: None,
        duration_ms: 100,
        resource_usage: None,
    };
    job_manager.complete_job_execution_at(key.clone(), job_result, now + 20);

    let result =
        job_manager.start_job_execution_at(key.clone(), node_id, runner_id, command_config("echo hello"), now + 30);
    match result {
        JobExecutionResult::Cached(r) => {
            assert!(r.success);
            assert_eq!(r.output, Some("hello".to_string()));
        }
        _ => panic!("expected the cached result"),
    }
}

#[test]
fn idempotent_jobs_test_retry_delay_calculation() {
    let mut config = IdempotencyConfig::default_config();
    config.retry_backoff = RetryBackoffStrategy::Exponential { base: 2, max_delay: 300 };
    let job_manager = IdempotentJobManager::new(config);

    assert_eq!(job_manager.calculate_retry_delay(0), 1);
    assert_eq!(job_manager.calculate_retry_delay(1), 2);
    assert_eq!(job_manager.calculate_retry_delay(2), 4);
    assert_eq!(job_manager.calculate_retry_delay(3), 8);
    assert_eq!(job_manager.calculate_retry_delay(10), 300);
}

#[test]
fn test_idempotency_key_creation() {
    let job_id = uuid::Uuid::new_v4().as_u128();
    let config = command_config("echo test");

    let key1 = create_key_from_config(job_id, &config, 1);
    let key2 = create_key_from_config(job_id, &config, 1);
    assert_eq!(key1, key2);

    let key3 = create_key_from_config(job_id, &config, 2);
    assert_ne!(key1, key3);

    let different_config = command_config("echo different");
    let key4 = create_key_from_config(job_id, &different_config, 1);
    assert_ne!(key1, key4);
}

#[test]
fn retry_delays_of_each_backoff() {
    assert_eq!(calculate_retry_delay(&RetryBackoffStrategy::Fixed { delay: 7 }, 5), 7);
    let linear = RetryBackoffStrategy::Linear { base_delay: 10, max_delay: 35 };
    assert_eq!(calculate_retry_delay(&linear, 0), 10);
    assert_eq!(calculate_retry_delay(&linear, 2), 30);
    assert_eq!(calculate_retry_delay(&linear, 3), 35);
    let custom = RetryBackoffStrategy::Custom { delays: vec![5, 15] };
    assert_eq!(calculate_retry_delay(&custom, 0), 5);
    assert_eq!(calculate_retry_delay(&custom, 1), 15);
    assert_eq!(calculate_retry_delay(&custom, 9), 15);
    assert_eq!(calculate_retry_delay(&RetryBackoffStrategy::Custom { delays: vec![] }, 0), 60);
}

#[test]
fn disabled_tracking_always_proceeds() {
    let mut config = IdempotencyConfig::default_config();
    config.enabled = false;
    let mut job_manager = IdempotentJobManager::new(config);
    let key = IdempotencyKey::new(1, "h".to_string(), 1);
    let a = job_manager.start_job_execution_at(key.clone(), 2, 3, command_config("x"), 1000);
    let b = job_manager.start_job_execution_at(key.clone(), 2, 3, command_config("x"), 1001);
    assert!(matches!(a, JobExecutionResult::Proceed));
    assert!(matches!(b, JobExecutionResult::Proceed));
}

#[test]
fn config_hash_differs_from_config_text() {
    let key = create_key_from_config(1, "abc", 1);
    assert_ne!(key.config_hash, "abc");
    assert!(!key.config_hash.is_empty());
}

#[test]
fn cancel_now_and_nothing_ready() {
    let mut m = IdempotentJobManager::new(IdempotencyConfig::default_config());
    let key = IdempotencyKey::new(3, "h".to_string(), 1);
    m.start_job_execution_at(key.clone(), 1, 2, command_config("x"), 1_000);
    m.cancel_job_execution(&key);
    let record = m.get_execution_record(&key).unwrap();
    assert!(record.completed_at.is_some());
    assert!(m.get_jobs_ready_for_retry().is_empty());
}

#[test]
fn key_text_is_job_hash_attempt() {
    let id: u128 = 0x0123_4567_89ab_cdef_fedc_ba98_7654_3210;
    let k = IdempotencyKey::new(id, "abc".to_string(), 2);
    assert_eq!(k.to_string(), format!("{}:abc:2", uuid::Uuid::from_u128(id)));
    assert_eq!(k.to_string(), "01234567-89ab-cdef-fedc-ba9876543210:abc:2");
}

#[test]
fn identifier_text_matches_uuid_display() {
    for id in [0u128, 1, u128::MAX, 0xdead_beef_0000_1111_2222_3333_4444_5555] {
        assert_eq!(rustci_core::platform::uuid_text(id), uuid::Uuid::from_u128(id).to_string());
    }
}
