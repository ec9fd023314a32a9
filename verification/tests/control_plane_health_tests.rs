use rustci_core::control_plane_health::{
    http_status_code, overall_health, resource_level, usage_percent, ControlPlaneHealth, HealthCheckResult,
    HealthConfig, HealthStatus, ResourceLevel, SystemInfo,
};

fn check(name: &str, status: HealthStatus) -> HealthCheckResult {
    HealthCheckResult {
        name: name.to_string(),
        status,
        message: String::new(),
        duration_ms: 1,
        timestamp: 0,
        details: Vec::new(),
    }
}

fn system_info() -> SystemInfo {
    SystemInfo {
        hostname: "h".to_string(),
        platform: "linux".to_string(),
        architecture: "x86_64".to_string(),
        cpu_count: 4,
        cpu_usage_percent: 10,
        memory_total_bytes: 100,
        memory_used_bytes: 50,
        memory_available_bytes: 50,
        memory_usage_percent: 50,
        disk_total_bytes: 100,
        disk_used_bytes: 10,
        disk_available_bytes: 90,
        disk_usage_percent: 10,
        network_rx_bytes: 0,
        network_tx_bytes: 0,
        load_average: vec![0, 0, 0],
    }
}

#[test]
fn test_control_plane_health_creation() {
    let health = ControlPlaneHealth::new_at(HealthConfig::default_config(), 100);
    let r = health.check_health(Vec::new(), system_info(), 100, "1.0".to_string(), "node".to_string());
    assert_eq!(r.status, HealthStatus::Healthy);
}

#[test]
fn test_health_checks() {
    let health = ControlPlaneHealth::new_at(HealthConfig::default_config(), 100);
    let checks = vec![(check("test1", HealthStatus::Healthy), false), (check("test2", HealthStatus::Degraded), false)];
    let r = health.check_health(checks, system_info(), 160, "1.0".to_string(), "node".to_string());
    assert_eq!(r.status, HealthStatus::Degraded);
    assert_eq!(r.checks.len(), 2);
    assert_eq!(r.uptime_seconds, 60);
}

#[test]
fn test_critical_health_check_failure() {
    let health = ControlPlaneHealth::new_at(HealthConfig::default_config(), 100);
    let checks = vec![(check("critical", HealthStatus::Unhealthy), true)];
    let r = health.check_health(checks, system_info(), 100, "1.0".to_string(), "node".to_string());
    assert_eq!(r.status, HealthStatus::Unhealthy);
}

#[test]
fn non_critical_failure_only_degrades() {
    let checks = vec![(check("a", HealthStatus::Unhealthy), false), (check("b", HealthStatus::Healthy), true)];
    assert_eq!(overall_health(&checks), HealthStatus::Degraded);
}

#[test]
fn http_codes_and_levels() {
    assert_eq!(http_status_code(HealthStatus::Healthy), 200);
    assert_eq!(http_status_code(HealthStatus::Unhealthy), 503);
    assert_eq!(usage_percent(1, 3), 33);
    assert_eq!(usage_percent(5, 0), 0);
    assert_eq!(resource_level(95, 80, 90), ResourceLevel::Critical);
    assert_eq!(resource_level(85, 80, 90), ResourceLevel::Warning);
    assert_eq!(resource_level(10, 80, 90), ResourceLevel::Normal);
}
