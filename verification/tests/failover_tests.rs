use rustci_core::failover::{determine_failover_strategy, FailoverAction, FailoverConfig, FailoverManager, FailoverStrategy, FailureType};

#[test]
fn test_failover_manager_creation() {
    let mut failover_manager = FailoverManager::new(FailoverConfig::default_config());
    let node_id = uuid::Uuid::new_v4().as_u128();
    failover_manager.register_node(node_id);
    assert!(failover_manager.node_health(node_id).is_some());
    failover_manager.unregister_node(node_id);
    assert!(failover_manager.node_health(node_id).is_none());
}

#[test]
fn test_failure_strategy_determination() {
    let strategy = determine_failover_strategy(&FailureType::NodeUnreachable);
    assert!(matches!(strategy, FailoverStrategy::RetryThenFailover { .. }));
    let strategy = determine_failover_strategy(&FailureType::LeaderFailure);
    assert!(matches!(strategy, FailoverStrategy::Immediate));
    let strategy = determine_failover_strategy(&FailureType::NodeUnhealthy);
    assert!(matches!(strategy, FailoverStrategy::Graceful { .. }));
}

#[test]
fn strategy_parameters() {
    assert_eq!(
        determine_failover_strategy(&FailureType::NetworkPartition),
        FailoverStrategy::RetryThenFailover { max_retries: 5, retry_interval: 15 }
    );
    assert_eq!(determine_failover_strategy(&FailureType::ResourceExhaustion), FailoverStrategy::Graceful { timeout: 30 });
    assert_eq!(determine_failover_strategy(&FailureType::JobFailure), FailoverStrategy::Immediate);
}

#[test]
fn no_target_without_healthy_nodes() {
    let m = FailoverManager::new(FailoverConfig::default_config());
    assert!(m.find_target_node().is_none());
    assert!(!m.is_failed(1));
    assert_eq!(m.failover_attempts(1), 0);
}

#[test]
fn failure_reported_by_leader_is_recorded() {
    let mut m = FailoverManager::new(FailoverConfig::default_config());
    m.register_node(4);
    assert!(m.report_failure(4, FailureType::LeaderFailure, "down".to_string(), false).is_ok());
    assert!(!m.is_failed(4));
    assert!(m.report_failure(4, FailureType::NodeUnreachable, "down".to_string(), true).is_ok());
    assert!(m.is_failed(4));
}

#[test]
fn immediate_failover_without_target_schedules_a_retry() {
    let mut m = FailoverManager::new(FailoverConfig::default_config());
    let r = m.execute_immediate_failover_at(9, None, 50).unwrap();
    assert_eq!(r, FailoverAction::RetryScheduled { failed_node_id: 9, delay: 10 });
}

#[test]
fn immediate_failover_without_target_asks_for_an_operator_when_out_of_attempts() {
    let mut config = FailoverConfig::default_config();
    config.max_failover_attempts = 1;
    let mut m = FailoverManager::new(config);
    let r = m.execute_immediate_failover_at(9, None, 50).unwrap();
    assert_eq!(r, FailoverAction::ManualIntervention { failed_node_id: 9 });
}
