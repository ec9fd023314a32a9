use rustci_core::control_plane_health::SystemInfo;
use rustci_core::control_plane_observability::{ControlPlaneObservability, JobTraceStatus, ObservabilityConfig};

fn system_info() -> SystemInfo {
    SystemInfo {
        hostname: "h".to_string(),
        platform: "linux".to_string(),
        architecture: "x86_64".to_string(),
        cpu_count: 1,
        cpu_usage_percent: 0,
        memory_total_bytes: 1,
        memory_used_bytes: 0,
        memory_available_bytes: 1,
        memory_usage_percent: 0,
        disk_total_bytes: 1,
        disk_used_bytes: 0,
        disk_available_bytes: 1,
        disk_usage_percent: 0,
        network_rx_bytes: 0,
        network_tx_bytes: 0,
        load_average: vec![],
    }
}

#[test]
fn test_observability_creation() {
    let o = ControlPlaneObservability::new_at(ObservabilityConfig::default_with("development".to_string()), 1_000);
    let s = o.get_observability_status_at(Vec::new(), system_info(), 2_000, "1.0".to_string(), "n".to_string());
    assert_eq!(s.active_job_traces, 0);
    assert_eq!(s.timestamp, 2);
}

#[test]
fn test_job_observability_lifecycle() {
    let mut o = ControlPlaneObservability::new_at(ObservabilityConfig::default_with("development".to_string()), 1_000);
    let job_id = uuid::Uuid::new_v4().as_u128();
    let mut context = o.start_job_observability_at(
        job_id,
        Some("test-pipeline".to_string()),
        Some("node-1".to_string()),
        7,
        1_000,
    );
    o.update_job_status_at(&mut context, JobTraceStatus::Running, Some("node-1".to_string()), None, 1_500);
    assert_eq!(context.job_trace.status, JobTraceStatus::Running);
    o.complete_job_observability_at(context, true, Some("node-1".to_string()), 2_000);
    let status = o.get_observability_status_at(Vec::new(), system_info(), 3_000, "1.0".to_string(), "n".to_string());
    assert_eq!(status.active_job_traces, 0);
    assert_eq!(status.metrics.jobs_completed_total, 1);
    assert_eq!(status.job_log_entries, 3);
}

#[test]
fn test_node_event_recording() {
    let mut o = ControlPlaneObservability::new_at(ObservabilityConfig::default_with("development".to_string()), 1_000);
    let usage = vec![("cpu_percent".to_string(), 75u64), ("memory_percent".to_string(), 60u64)];
    o.record_node_event_with(
        "test-node-1".to_string(),
        "node_joined",
        "Node joined the cluster",
        Some("healthy".to_string()),
        Some(usage),
        9,
    );
    let status = o.get_observability_status_at(Vec::new(), system_info(), 3_000, "1.0".to_string(), "n".to_string());
    assert!(status.metrics.nodes_total >= 1);
    assert_eq!(status.node_log_entries, 1);
}
