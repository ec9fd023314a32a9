use rustci_core::distributed_job_scheduler::{
    analyze_nodes_for_job, analyze_single_node, calculate_job_affinity_score, can_node_handle_job, select_best_node,
    DistributedJobSchedulerConfig, NodeResources, NodeSelectionStrategy, NodeStatus, PlacementRequest, SchedulingNode,
};
use rustci_core::distributed_scheduling::{SystemHealthStatus, SystemState};
use rustci_core::job_failure_recovery::FailureRecoveryConfig;

fn create_test_node(id: u128, cpu_usage: u64, memory_usage: u64) -> SchedulingNode {
    SchedulingNode {
        id,
        status: NodeStatus::Active,
        accepts_jobs: true,
        resources: NodeResources {
            total_cpu: 8,
            available_cpu: 6,
            total_memory: 16,
            available_memory: 8,
            total_disk: 100,
            available_disk: 50,
            cpu_usage,
            memory_usage,
            disk_usage: 50,
        },
        preferred_workload: None,
        specialization: None,
    }
}

fn request(name: &str) -> PlacementRequest {
    PlacementRequest { job_id: 1, name: name.to_string(), job_type: None, min_resources: None }
}

#[test]
fn test_system_state() {
    let state = SystemState {
        is_running: false,
        started_at: None,
        total_jobs_processed: 0,
        health_status: SystemHealthStatus::Healthy,
    };
    assert!(!state.is_running);
    assert_eq!(state.total_jobs_processed, 0);
    assert_eq!(state.health_status, SystemHealthStatus::Healthy);
}

#[test]
fn test_failure_recovery_config() {
    let config = FailureRecoveryConfig::default_config();
    assert!(config.enabled);
    assert_eq!(config.max_recovery_attempts, 3);
    assert_eq!(config.recovery_delay, 60);
}

#[test]
fn test_node_resource_analysis() {
    let config = DistributedJobSchedulerConfig::default_config();
    let node = create_test_node(5, 30, 40);
    assert_eq!(node.resources.cpu_usage, 30);
    assert_eq!(node.resources.memory_usage, 40);
    let a = analyze_single_node(&config, &request("build-job"), &node);
    assert!(a.can_handle);
    assert_eq!(a.cpu_score, 75);
    assert_eq!(a.memory_score, 50);
    assert_eq!(a.load_factor, 35);
    assert_eq!(a.resource_score, 45);
}

#[test]
fn overloaded_node_cannot_handle() {
    let config = DistributedJobSchedulerConfig::default_config();
    let node = create_test_node(5, 90, 90);
    assert!(!can_node_handle_job(&config, &request("x"), &node));
    assert_eq!(analyze_single_node(&config, &request("x"), &node).resource_score, 0);
}

#[test]
fn affinity_adds_up() {
    let config = DistributedJobSchedulerConfig::default_config();
    let mut node = create_test_node(5, 10, 10);
    node.preferred_workload = Some("build".to_string());
    node.specialization = Some("gpu".to_string());
    let mut req = request("nightly-build");
    req.job_type = Some("gpu".to_string());
    assert_eq!(calculate_job_affinity_score(&config, &req, &node), 25);
    let mut off = config;
    off.enable_job_affinity = false;
    assert_eq!(calculate_job_affinity_score(&off, &req, &node), 0);
}

#[test]
fn analyses_are_sorted_and_best_is_chosen() {
    let config = DistributedJobSchedulerConfig::default_config();
    let nodes = vec![create_test_node(1, 70, 70), create_test_node(2, 10, 10), create_test_node(3, 40, 40)];
    let analyses = analyze_nodes_for_job(&config, &request("job"), &nodes);
    assert_eq!(analyses.len(), 3);
    assert!(analyses[0].resource_score >= analyses[1].resource_score);
    assert!(analyses[1].resource_score >= analyses[2].resource_score);
    let (best, _) = select_best_node(NodeSelectionStrategy::ResourceAware, &analyses, 0).unwrap();
    assert_eq!(best.node_id, 2);
    assert!(select_best_node(NodeSelectionStrategy::LeastLoaded, &Vec::new(), 0).is_err());
}
