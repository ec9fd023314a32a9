use rustci_core::error_manager::{CircuitBreaker, CircuitBreakerState, ErrorContext, ErrorManager};
use rustci_core::errors::AppError;

#[test]
fn test_circuit_breaker() {
    let mut breaker = CircuitBreaker::new(2, 100);

    let seen = breaker.before_call_at(0).unwrap();
    assert_eq!(seen, CircuitBreakerState::Closed);
    breaker.record_failure(1);
    assert_eq!(breaker.get_state(), CircuitBreakerState::Closed);

    breaker.before_call_at(2).unwrap();
    breaker.record_failure(3);
    assert_eq!(breaker.get_state(), CircuitBreakerState::Open);

    let r = breaker.before_call_at(4);
    assert!(matches!(r, Err(AppError::ServiceUnavailable(_))));
}

#[test]
fn test_error_context_builder() {
    let context = ErrorContext::new("test_operation", "test_component")
        .with_request_id("req-123".to_string())
        .with_user_id("user-456".to_string())
        .with_metadata("key".to_string(), "value".to_string());

    assert_eq!(context.operation, "test_operation");
    assert_eq!(context.component, "test_component");
    assert_eq!(context.request_id, Some("req-123".to_string()));
    assert_eq!(context.user_id, Some("user-456".to_string()));
    assert_eq!(context.metadata.get(&"key".to_string()), Some(&"value".to_string()));
}

#[test]
fn breaker_half_opens_after_timeout_and_closes_on_success() {
    let mut breaker = CircuitBreaker::new(1, 100);
    breaker.before_call_at(0).unwrap();
    breaker.record_failure(10);
    assert_eq!(breaker.get_state(), CircuitBreakerState::Open);
    assert!(breaker.before_call_at(110).is_err());
    let seen = breaker.before_call_at(111).unwrap();
    assert_eq!(breaker.get_state(), CircuitBreakerState::HalfOpen);
    assert_eq!(seen, CircuitBreakerState::Open);
    breaker.record_success(seen);
    assert_eq!(breaker.get_state(), CircuitBreakerState::HalfOpen);
    let seen = breaker.before_call_at(112).unwrap();
    assert_eq!(seen, CircuitBreakerState::HalfOpen);
    breaker.record_success(seen);
    assert_eq!(breaker.get_state(), CircuitBreakerState::Closed);
    assert_eq!(breaker.failure_count(), 0);
}

#[test]
fn error_stats_count_by_type_and_component() {
    let mut m = ErrorManager::new();
    let ctx = ErrorContext::new_at("op", "db", 1, 1_000);
    m.update_error_stats(&AppError::DatabaseError("x".to_string()), &ctx, 1_000);
    m.update_error_stats(&AppError::DatabaseError("y".to_string()), &ctx, 1_001);
    assert_eq!(m.total_errors(), 2);
    assert_eq!(m.errors_of_type(&"database_error".to_string()), 2);
    assert_eq!(m.errors_in_component(&"db".to_string()), 2);
    assert_eq!(m.recent_errors().len(), 2);
}

#[test]
fn breakers_are_made_once_and_listed() {
    let mut m = ErrorManager::new();
    let b = m.get_circuit_breaker("billing".to_string());
    assert_eq!(b.get_state(), CircuitBreakerState::Closed);
    let mut opened = CircuitBreaker::new(1, 1_000);
    opened.record_failure(5);
    m.put_circuit_breaker("mail".to_string(), opened);
    assert_eq!(m.get_circuit_breaker("mail".to_string()).get_state(), CircuitBreakerState::Open);
    let mut states = m.get_circuit_breaker_states();
    states.sort_by(|x, y| x.0.cmp(&y.0));
    assert_eq!(
        states,
        vec![("billing".to_string(), CircuitBreakerState::Closed), ("mail".to_string(), CircuitBreakerState::Open)]
    );
}

#[test]
fn error_stats_copy_the_counts() {
    let mut m = ErrorManager::new();
    let ctx = ErrorContext::new_at("op", "api", 1, 1_000);
    m.update_error_stats(&AppError::DatabaseError("x".to_string()), &ctx, 1_000);
    m.update_error_stats(&AppError::ValidationError("y".to_string()), &ctx, 1_002);
    let stats = m.get_error_stats();
    assert_eq!(stats.total_errors, 2);
    assert_eq!(stats.errors_by_type.get(&"database_error".to_string()), Some(&1));
    assert_eq!(stats.errors_by_component.get(&"api".to_string()), Some(&2));
    assert_eq!(stats.recent_errors.len(), 2);
    assert_eq!(stats.recent_errors[1].last_seen, 1_002);
    assert_eq!(stats.error_rate_per_minute, 0);
}
