use rustci_core::control_plane_metrics::{ControlPlaneMetrics, NodeResourceUsage};

#[test]
fn test_control_plane_metrics_creation() {
    let metrics = ControlPlaneMetrics::new_at(1_000);
    let s = metrics.get_metrics_snapshot_at(1_000);
    assert_eq!(s.jobs_scheduled_total, 0);
}

#[test]
fn test_job_metrics() {
    let mut metrics = ControlPlaneMetrics::new_at(1_000);
    metrics.record_job_scheduled();
    metrics.record_job_started();
    metrics.record_job_completed(100);
    let snapshot = metrics.get_metrics_snapshot_at(2_000);
    assert_eq!(snapshot.jobs_scheduled_total, 1);
    assert_eq!(snapshot.jobs_completed_total, 1);
    assert_eq!(snapshot.jobs_running, 0);
}

#[test]
fn test_node_metrics() {
    let mut metrics = ControlPlaneMetrics::new_at(1_000);
    metrics.record_node_joined();
    let usage = NodeResourceUsage::new(
        50,
        1024 * 1024 * 1024,
        2 * 1024 * 1024 * 1024,
        10 * 1024 * 1024 * 1024,
        100 * 1024 * 1024 * 1024,
        1000,
        2000,
    );
    metrics.update_node_resource_usage("test-node-1".to_string(), usage);
    let snapshot = metrics.get_metrics_snapshot_at(1_000);
    assert_eq!(snapshot.nodes_total, 1);
    assert_eq!(snapshot.nodes_healthy, 1);
}

#[test]
fn test_cluster_metrics() {
    let mut metrics = ControlPlaneMetrics::new_at(1_000);
    metrics.update_cluster_metrics(5, 10, 75);
    metrics.record_leader_election();
    let snapshot = metrics.get_metrics_snapshot_at(1_000);
    assert_eq!(snapshot.cluster_size, 5);
    assert_eq!(snapshot.cluster_capacity, 10);
    assert_eq!(snapshot.cluster_utilization_percent, 75);
    assert_eq!(snapshot.leader_elections_total, 1);
}

#[test]
fn join_then_leave_restores_node_counts() {
    let mut metrics = ControlPlaneMetrics::new_at(0);
    metrics.record_node_joined();
    metrics.record_node_left();
    let s = metrics.get_metrics_snapshot_at(0);
    assert_eq!(s.nodes_total, 0);
    assert_eq!(s.nodes_healthy, 0);
}

#[test]
fn uptime_and_prometheus_text() {
    let mut metrics = ControlPlaneMetrics::new_at(1_000);
    metrics.record_job_failed();
    let s = metrics.get_metrics_snapshot_at(61_000);
    assert_eq!(s.uptime_seconds, 60);
    assert_eq!(s.jobs_failed_total, 1);
    let text = metrics.get_prometheus_metrics_at(61_000);
    assert!(text.contains("rustci_control_plane_uptime_seconds 60"));
}

#[test]
fn snapshot_and_text_now() {
    let mut metrics = ControlPlaneMetrics::new_at(rustci_core::platform::now_millis());
    metrics.record_job_scheduled();
    assert_eq!(metrics.get_metrics_snapshot().jobs_scheduled_total, 1);
    assert!(metrics.get_prometheus_metrics().starts_with("# HELP rustci_control_plane_uptime_seconds"));
}
