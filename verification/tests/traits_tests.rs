use rustci_core::traits::{HealthStatus, ServiceHealth, ValidationError, ValidationResult};
use std::collections::HashMap;

#[test]
fn test_validation_result_success() {
    let result = ValidationResult::success();
    assert!(result.is_valid);
    assert!(result.errors.is_empty());
    assert!(result.warnings.is_empty());
}

#[test]
fn test_validation_result_failure() {
    let errors = vec![ValidationError {
        field: "name".to_string(),
        message: "Name is required".to_string(),
        code: "REQUIRED".to_string(),
    }];

    let result = ValidationResult::failure(errors);
    assert!(!result.is_valid);
    assert_eq!(result.errors.len(), 1);
}

#[test]
fn test_validation_result_add_error() {
    let mut result = ValidationResult::success();
    result.add_error("email", "Invalid email format", "INVALID_FORMAT");

    assert!(!result.is_valid);
    assert_eq!(result.errors.len(), 1);
    assert_eq!(result.errors[0].field, "email");
}

#[test]
fn test_validation_result_add_warning() {
    let mut result = ValidationResult::success();
    result.add_warning("password", "Password is weak", "WEAK_PASSWORD");

    assert!(result.is_valid);
    assert_eq!(result.warnings.len(), 1);
    assert_eq!(result.warnings[0].field, "password");
}

#[test]
fn test_health_status() {
    let health = ServiceHealth {
        service_name: "test-service".to_string(),
        status: HealthStatus::Healthy,
        message: Some("All systems operational".to_string()),
        details: HashMap::new(),
        checked_at: chrono::Utc::now().timestamp_millis(),
    };

    assert_eq!(health.status, HealthStatus::Healthy);
    assert_eq!(health.service_name, "test-service");
}

#[test]
fn validation_failure_with_no_errors_is_still_invalid() {
    let result = ValidationResult::failure(Vec::new());
    assert!(!result.is_valid);
    assert!(result.errors.is_empty());
}

#[test]
fn validation_errors_keep_their_order_and_text() {
    let mut result = ValidationResult::success();
    result.add_warning("a", "first", "W1");
    result.add_error("b", "second", "E1");
    result.add_error("c", "third", "E2");
    assert!(!result.is_valid);
    assert_eq!(result.errors.len(), 2);
    assert_eq!(result.errors[0].code, "E1");
    assert_eq!(result.errors[1].field, "c");
    assert_eq!(result.errors[1].message, "third");
    assert_eq!(result.warnings[0].message, "first");
}
