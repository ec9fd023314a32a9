use rustci_core::keyed::KeyedTable;
use rustci_core::metrics::{AlertChange, AlertCondition, AlertManager, AlertRule, PerformanceMonitor};

fn rule(name: &str, enabled: bool) -> AlertRule {
    AlertRule {
        name: name.to_string(),
        metric_name: "cpu_usage_percent".to_string(),
        condition: AlertCondition::GreaterThan,
        threshold_bits: 80.0f64.to_bits(),
        duration_seconds: 60,
        labels: KeyedTable::new(),
        annotations: KeyedTable::new(),
        enabled,
    }
}

#[test]
fn test_performance_monitor() {
    let mut monitor = PerformanceMonitor::new();
    let operation_id = monitor.start_operation("test_operation", KeyedTable::new());
    assert_eq!(monitor.get_active_operations_count(), 1);
    monitor.finish_operation(operation_id);
    assert_eq!(monitor.get_active_operations_count(), 0);
}

#[test]
fn test_alert_manager() {
    let mut alert_manager = AlertManager::new();
    alert_manager.add_alert_rule(rule("high_cpu", true));
    let rules = alert_manager.get_alert_rules();
    assert_eq!(rules.len(), 1);
    assert_eq!(rules[0].name, "high_cpu");
}

#[test]
fn finished_operation_names_and_duration() {
    let mut monitor = PerformanceMonitor::new();
    let mut labels = KeyedTable::new();
    labels.insert("component".to_string(), "api".to_string());
    monitor.start_operation_at(42, "db_query", labels, 1_000);
    let active = monitor.get_active_operations();
    assert_eq!(active.len(), 1);
    assert_eq!(active[0].0, 42);
    assert_eq!(active[0].1.operation_name, "db_query");
    let done = monitor.finish_operation_at(42, 1_250).unwrap();
    assert_eq!(done.duration_metric, "db_query_duration_seconds");
    assert_eq!(done.counter_metric, "db_query_total");
    assert_eq!(done.duration_ms, 250);
    assert_eq!(done.labels.len(), 1);
    assert!(monitor.finish_operation_at(42, 2_000).is_none());
}

#[test]
fn finishing_before_start_counts_zero() {
    let mut monitor = PerformanceMonitor::new();
    monitor.start_operation_at(1, "op", KeyedTable::new(), 5_000);
    assert_eq!(monitor.finish_operation_at(1, 4_000).unwrap().duration_ms, 0);
}

#[test]
fn error_labels_hold_type_and_operation() {
    let monitor = PerformanceMonitor::new();
    let mut labels = KeyedTable::new();
    labels.insert("region".to_string(), "eu".to_string());
    labels.insert("operation".to_string(), "old".to_string());
    let l = monitor.record_error("upload", "timeout", labels);
    assert_eq!(l.len(), 3);
    assert_eq!(l.get(&"error_type".to_string()), Some(&"timeout".to_string()));
    assert_eq!(l.get(&"operation".to_string()), Some(&"upload".to_string()));
    assert_eq!(l.get(&"region".to_string()), Some(&"eu".to_string()));
}

#[test]
fn alert_raise_and_resolve() {
    let mut m = AlertManager::new();
    m.add_alert_rule(rule("high_cpu", true));
    let c = m.check_rule_at(0, true, 95.0f64.to_bits(), 10_000);
    match c {
        AlertChange::Raised(a) => {
            assert_eq!(a.rule_name, "high_cpu");
            assert_eq!(a.started_at, 10_000);
            assert_eq!(f64::from_bits(a.current_value_bits), 95.0);
            assert_eq!(f64::from_bits(a.threshold_bits), 80.0);
        }
        _ => panic!("expected a raised alert"),
    }
    assert!(matches!(m.check_rule_at(0, true, 99.0f64.to_bits(), 11_000), AlertChange::Unchanged));
    assert_eq!(m.get_active_alerts().len(), 1);
    match m.check_rule_at(0, false, 10.0f64.to_bits(), 12_000) {
        AlertChange::Resolved(a) => assert_eq!(a.started_at, 10_000),
        _ => panic!("expected a resolved alert"),
    }
    assert!(matches!(m.check_rule_at(0, false, 10.0f64.to_bits(), 13_000), AlertChange::Unchanged));
    assert_eq!(m.get_active_alerts().len(), 0);
}

#[test]
fn disabled_rule_changes_nothing() {
    let mut m = AlertManager::new();
    m.add_alert_rule(rule("quiet", false));
    assert!(matches!(m.check_rule_at(0, true, 1.0f64.to_bits(), 1), AlertChange::Unchanged));
    assert!(m.get_active_alerts().is_empty());
}

#[test]
fn remove_rule_by_name() {
    let mut m = AlertManager::new();
    m.add_alert_rule(rule("a", true));
    m.add_alert_rule(rule("b", true));
    m.add_alert_rule(rule("a", false));
    m.remove_alert_rule("a");
    let rules = m.get_alert_rules();
    assert_eq!(rules.len(), 1);
    assert_eq!(rules[0].name, "b");
}

#[test]
fn operations_listed_each_once() {
    let mut monitor = PerformanceMonitor::new();
    monitor.start_operation_at(7, "a", KeyedTable::new(), 100);
    monitor.start_operation_at(9, "b", KeyedTable::new(), 200);
    let mut ops = monitor.get_active_operations();
    ops.sort_by(|x, y| x.0.cmp(&y.0));
    assert_eq!(ops.len(), 2);
    assert_eq!((ops[0].0, ops[0].1.operation_name.as_str(), ops[0].1.start_time), (7, "a", 100));
    assert_eq!((ops[1].0, ops[1].1.operation_name.as_str(), ops[1].1.start_time), (9, "b", 200));
    let f = monitor.finish_operation_at(9, 250).unwrap();
    assert_eq!(f.duration_ms, 50);
    assert!(monitor.finish_operation_at(9, 260).is_none());
    assert_eq!(monitor.get_active_operations_count(), 1);
}

#[test]
fn alerts_listed_by_rule() {
    let mut m = AlertManager::new();
    m.add_alert_rule(rule("x", true));
    m.add_alert_rule(rule("y", true));
    m.check_rule_at(0, true, 1.0f64.to_bits(), 1);
    m.check_rule_at(1, true, 2.0f64.to_bits(), 2);
    let mut names: Vec<String> = m.get_active_alerts().into_iter().map(|a| a.rule_name).collect();
    names.sort();
    assert_eq!(names, vec!["x".to_string(), "y".to_string()]);
}
