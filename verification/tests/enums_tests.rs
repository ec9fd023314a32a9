use rustci_core::distributed_job_scheduler::{NodeSelectionStrategy, ReschedulingReason};
use rustci_core::distributed_scheduling::{DistributedSchedulingConfig, SystemHealthStatus};
use rustci_core::job_failure_recovery::{AlertSeverity, FailurePatternType, FailureReason};

#[test]
fn test_node_selection_strategies() {
    assert_eq!(NodeSelectionStrategy::LeastLoaded, NodeSelectionStrategy::LeastLoaded);
    assert_ne!(NodeSelectionStrategy::LeastLoaded, NodeSelectionStrategy::ResourceAware);
}

#[test]
fn test_rescheduling_reasons() {
    assert_eq!(ReschedulingReason::NodeFailure, ReschedulingReason::NodeFailure);
    assert_ne!(ReschedulingReason::NodeFailure, ReschedulingReason::LoadBalancing);
}

#[test]
fn test_system_health_status() {
    assert_eq!(SystemHealthStatus::Healthy, SystemHealthStatus::Healthy);
    assert_ne!(
        SystemHealthStatus::Healthy,
        SystemHealthStatus::Degraded {
            reason: "test".to_string()
        }
    );
}

#[test]
fn test_distributed_scheduling_config() {
    let config = DistributedSchedulingConfig::default_config();
    assert!(config.enable_monitoring);
    assert!(config.enable_optimization);
}

#[test]
fn test_failure_reason_categorization() {
    assert_eq!(FailureReason::NodeUnavailable, FailureReason::NodeUnavailable);
    assert_ne!(FailureReason::NodeUnavailable, FailureReason::ResourceExhaustion);
}

#[test]
fn test_failure_pattern_types() {
    assert_eq!(FailurePatternType::NodeSpecific, FailurePatternType::NodeSpecific);
    assert_ne!(FailurePatternType::NodeSpecific, FailurePatternType::Cascading);
}

#[test]
fn test_alert_severity_levels() {
    assert_eq!(AlertSeverity::Critical, AlertSeverity::Critical);
    assert_ne!(AlertSeverity::Critical, AlertSeverity::Low);
}
