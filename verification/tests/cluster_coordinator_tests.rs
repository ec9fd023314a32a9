use rustci_core::cluster_coordinator::{
    ClusterCoordinator, ClusterCoordinatorConfig, ClusterStatus, LoadBalancingStrategy, NodeCandidate,
    NodeRegistryConfig,
};

fn config() -> ClusterCoordinatorConfig {
    ClusterCoordinatorConfig::default_with(NodeRegistryConfig { heartbeat_interval: 30, failure_timeout: 90 })
}

#[test]
fn test_cluster_coordinator_creation() {
    let coordinator = ClusterCoordinator::new(config());
    assert_eq!(coordinator.get_cluster_status(), ClusterStatus::Starting);
}

#[test]
fn test_node_join_and_leave() {
    let mut coordinator = ClusterCoordinator::new(config());
    let node_id = uuid::Uuid::new_v4().as_u128();
    let joined = coordinator.join_node(node_id).unwrap();
    assert_eq!(joined, node_id);
    coordinator.leave_node(node_id, "Test leave".to_string());
    assert!(!coordinator.drain_events().is_empty());
}

#[test]
fn test_job_distribution() {
    let mut coordinator = ClusterCoordinator::new(config());
    let nodes = vec![NodeCandidate { id: 1, available_capacity: 4, first_runner: Some(10) }];
    let job_id = uuid::Uuid::new_v4().as_u128();
    let distribution = coordinator.distribute_job_at(job_id, &nodes, 1_000).unwrap();
    assert_eq!(distribution.job_id, job_id);
    assert_eq!(distribution.strategy, LoadBalancingStrategy::LeastLoaded);
    assert_eq!(distribution.target_node, 1);
    assert_eq!(distribution.target_runner, 10);
}

#[test]
fn least_loaded_picks_most_available() {
    let mut coordinator = ClusterCoordinator::new(config());
    let nodes = vec![
        NodeCandidate { id: 1, available_capacity: 2, first_runner: None },
        NodeCandidate { id: 2, available_capacity: 9, first_runner: Some(20) },
        NodeCandidate { id: 3, available_capacity: 5, first_runner: None },
    ];
    let d = coordinator.distribute_job_at(7, &nodes, 5).unwrap();
    assert_eq!(d.target_node, 2);
}

#[test]
fn no_nodes_no_distribution() {
    let mut coordinator = ClusterCoordinator::new(config());
    assert!(coordinator.distribute_job_at(7, &vec![], 5).is_err());
}

#[test]
fn distribute_job_now() {
    let mut coordinator = ClusterCoordinator::new(config());
    let nodes = vec![NodeCandidate { id: 8, available_capacity: 1, first_runner: Some(80) }];
    let d = coordinator.distribute_job(5, &nodes).unwrap();
    assert_eq!(d.job_id, 5);
    assert_eq!(d.target_node, 8);
    assert!(d.distributed_at > 0);
}

#[test]
fn least_loaded_breaks_ties_to_the_last() {
    let mut coordinator = ClusterCoordinator::new(config());
    let nodes = vec![
        NodeCandidate { id: 1, available_capacity: 2, first_runner: None },
        NodeCandidate { id: 2, available_capacity: 9, first_runner: Some(20) },
        NodeCandidate { id: 3, available_capacity: 9, first_runner: Some(30) },
    ];
    let d = coordinator.distribute_job_at(7, &nodes, 5).unwrap();
    assert_eq!(d.target_node, 3);
    assert_eq!(d.target_runner, 30);
}
