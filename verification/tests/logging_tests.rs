use rustci_core::logging::{logging_level, CorrelationTracker, LogEntry};

#[test]
fn test_log_entry_builder() {
    let entry = LogEntry::new("info", "Test message".to_string(), "test")
        .with_correlation_id(uuid::Uuid::new_v4().as_u128())
        .with_tag("test".to_string())
        .with_duration(100);

    assert_eq!(entry.level, "info");
    assert_eq!(entry.message, "Test message");
    assert_eq!(entry.module, "test");
    assert!(entry.correlation_id.is_some());
    assert_eq!(entry.tags, vec!["test"]);
    assert_eq!(entry.duration_ms, Some(100));
}

#[test]
fn test_correlation_tracker() {
    let mut tracker = CorrelationTracker::new();
    let correlation_id = uuid::Uuid::new_v4().as_u128();

    tracker.start_correlation(correlation_id);
    assert_eq!(tracker.get_current_correlation_id(), Some(correlation_id));

    tracker.end_correlation();
    assert_eq!(tracker.get_current_correlation_id(), None);
}

#[test]
fn log_entry_context_fields() {
    let entry = LogEntry::new_at("warn", "m".to_string(), "mod", "2024-01-01T00:00:00+00:00".to_string())
        .with_user_context(7, "s1".to_string())
        .with_request_id(9)
        .with_error("boom".to_string())
        .with_metadata("k".to_string(), serde_json::Value::from(1))
        .with_metadata("k".to_string(), serde_json::Value::from(2));
    assert_eq!(entry.timestamp, "2024-01-01T00:00:00+00:00");
    assert_eq!(entry.user_id, Some(7));
    assert_eq!(entry.session_id, Some("s1".to_string()));
    assert_eq!(entry.request_id, Some(9));
    assert_eq!(entry.error, Some("boom".to_string()));
    assert_eq!(entry.metadata.len(), 1);
    assert!(entry.correlation_id.is_none());
}

#[test]
fn log_entry_timestamp_is_rfc3339() {
    let entry = LogEntry::new("info", "x".to_string(), "m");
    assert!(chrono::DateTime::parse_from_rfc3339(&entry.timestamp).is_ok());
}

#[test]
fn logging_level_names() {
    assert_eq!(logging_level("DEBUG"), "debug");
    assert_eq!(logging_level("Warn"), "warn");
    assert_eq!(logging_level("trace"), "trace");
    assert_eq!(logging_level("error"), "error");
    assert_eq!(logging_level("verbose"), "info");
    assert_eq!(logging_level(""), "info");
}

#[test]
fn correlation_tracker_default_is_empty() {
    let tracker = CorrelationTracker::default();
    assert_eq!(tracker.get_current_correlation_id(), None);
}
