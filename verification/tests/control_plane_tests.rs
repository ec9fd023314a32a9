use rustci_core::cluster_coordinator::{ClusterStatus, NodeCandidate, NodeRegistryConfig};
use rustci_core::control_plane::{ControlPlaneConfig, ControlPlaneMaster, ControlPlaneState};

fn create_test_control_plane() -> ControlPlaneMaster {
    let config = ControlPlaneConfig::default_with(NodeRegistryConfig { heartbeat_interval: 30, failure_timeout: 90 });
    ControlPlaneMaster::new_at(config, 1_700_000_000_000)
}

#[test]
fn test_control_plane_creation() {
    let control_plane = create_test_control_plane();
    assert!(matches!(control_plane.get_state(), ControlPlaneState::Initializing));
}

#[test]
fn test_control_plane_metrics() {
    let control_plane = create_test_control_plane();
    let metrics = control_plane.get_metrics();
    assert_eq!(metrics.uptime, 0);
    assert_eq!(metrics.managed_clusters, 0);
    assert!(!metrics.is_healthy());
}

#[test]
fn test_control_plane_state_transitions() {
    let mut control_plane = create_test_control_plane();
    assert!(matches!(control_plane.get_state(), ControlPlaneState::Initializing));
    control_plane.update_state(ControlPlaneState::Starting, 1_700_000_000_001);
    assert!(matches!(control_plane.get_state(), ControlPlaneState::Starting));
    control_plane.update_state(ControlPlaneState::Running, 1_700_000_000_002);
    assert!(matches!(control_plane.get_state(), ControlPlaneState::Running));
    assert!(!control_plane.drain_events().is_empty());
}

#[test]
fn master_runs_its_cluster() {
    let mut control_plane = create_test_control_plane();
    assert_eq!(control_plane.get_cluster_status(), ClusterStatus::Starting);
    control_plane.begin_start(1_700_000_000_001);
    assert_eq!(control_plane.get_cluster_status(), ClusterStatus::Healthy);
    assert_eq!(control_plane.join_node(5).unwrap(), 5);
    let nodes = vec![
        NodeCandidate { id: 5, available_capacity: 3, first_runner: Some(50) },
        NodeCandidate { id: 6, available_capacity: 1, first_runner: None },
    ];
    let d = control_plane.distribute_job_at(11, &nodes, 1_700_000_000_002).unwrap();
    assert_eq!(d.target_node, 5);
    assert_eq!(d.target_runner, 50);
    control_plane.leave_node(5, "done".to_string());
    assert_eq!(control_plane.get_cluster_metrics().total_nodes, 0);
    control_plane.complete_stop("bye".to_string(), 1_700_000_000_003);
    assert_eq!(control_plane.get_cluster_status(), ClusterStatus::Stopping);
}
