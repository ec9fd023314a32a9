//! The distributed scheduling system: the placement of jobs, failure
//! recovery and the cluster, with the health of the whole judged from the
//! active nodes and the cluster's status.  Times are milliseconds since
//! the epoch.

use crate::cluster_coordinator::ClusterStatus;
use crate::distributed_job_scheduler::DistributedJobSchedulerConfig;
use crate::errors::AppError;
use crate::job_failure_recovery::FailureRecoveryConfig;
use vstd::prelude::*;

verus! {

/// Settings of the distributed scheduling system.
#[derive(Debug, Clone, Copy)]
pub struct DistributedSchedulingConfig {
    pub scheduler_config: DistributedJobSchedulerConfig,
    pub failure_recovery_config: FailureRecoveryConfig,
    pub enable_monitoring: bool,
    pub enable_optimization: bool,
}

impl DistributedSchedulingConfig {
    /// The default settings: the default scheduler and recovery, with
    /// monitoring and optimisation on.
    pub fn default_config() -> (c: Self)
        ensures
            c.enable_monitoring,
            c.enable_optimization,
            c.scheduler_config.max_reschedule_attempts == 3,
            c.failure_recovery_config.max_recovery_attempts == 3,
    {
        DistributedSchedulingConfig {
            scheduler_config: DistributedJobSchedulerConfig::default_config(),
            failure_recovery_config: FailureRecoveryConfig::default_config(),
            enable_monitoring: true,
            enable_optimization: true,
        }
    }
}

/// How the system is.
#[derive(Debug, Clone, PartialEq, Eq)]
pub enum SystemHealthStatus {
    Healthy,
    Degraded { reason: String },
    Unhealthy { reason: String },
}

/// The state of the system.
#[derive(Debug, Clone)]
pub struct SystemState {
    pub is_running: bool,
    pub started_at: Option<u64>,
    pub total_jobs_processed: u64,
    pub health_status: SystemHealthStatus,
}

/// Whether `h` is the health of a system with `active_nodes` active nodes
/// and a cluster in `status`: unhealthy without active nodes, then
/// degraded or unhealthy as the cluster is, healthy otherwise.
pub open spec fn judged_health(h: SystemHealthStatus, active_nodes: nat, status: ClusterStatus) -> bool {
    if active_nodes == 0 {
        h matches SystemHealthStatus::Unhealthy { reason } && reason@ == "No active nodes available"@
    } else if status == ClusterStatus::Degraded {
        h matches SystemHealthStatus::Degraded { reason } && reason@ == "Cluster is in degraded state"@
    } else if status == ClusterStatus::Unhealthy {
        h matches SystemHealthStatus::Unhealthy { reason } && reason@ == "Cluster is unhealthy"@
    } else {
        h == SystemHealthStatus::Healthy
    }
}

/// The health of a system with `active_nodes` active nodes and a cluster
/// in `status`.
pub fn health_for(active_nodes: usize, status: ClusterStatus) -> (h: SystemHealthStatus)
    ensures
        judged_health(h, active_nodes as nat, status),
{
    if active_nodes == 0 {
        SystemHealthStatus::Unhealthy { reason: String::from_str("No active nodes available") }
    } else {
        match status {
            ClusterStatus::Degraded => SystemHealthStatus::Degraded {
                reason: String::from_str("Cluster is in degraded state"),
            },
            ClusterStatus::Unhealthy => SystemHealthStatus::Unhealthy { reason: String::from_str("Cluster is unhealthy") },
            _ => SystemHealthStatus::Healthy,
        }
    }
}

/// A copy of a health status.
pub fn copy_health(h: &SystemHealthStatus) -> (c: SystemHealthStatus)
    ensures
        c == *h,
{
    match h {
        SystemHealthStatus::Healthy => SystemHealthStatus::Healthy,
        SystemHealthStatus::Degraded { reason } => SystemHealthStatus::Degraded { reason: reason.clone() },
        SystemHealthStatus::Unhealthy { reason } => SystemHealthStatus::Unhealthy { reason: reason.clone() },
    }
}

impl SystemState {
    /// A system not yet started, healthy, with no job processed.
    pub fn initial() -> (s: Self)
        ensures
            !s.is_running,
            s.started_at is None,
            s.total_jobs_processed == 0,
            s.health_status == SystemHealthStatus::Healthy,
    {
        SystemState { is_running: false, started_at: None, total_jobs_processed: 0, health_status: SystemHealthStatus::Healthy }
    }

    /// Marks the system started at `now` and healthy.
    pub fn start_at(&mut self, now: u64)
        ensures
            final(self).is_running,
            final(self).started_at == Some(now),
            final(self).health_status == SystemHealthStatus::Healthy,
            final(self).total_jobs_processed == old(self).total_jobs_processed,
    {
        self.is_running = true;
        self.started_at = Some(now);
        self.health_status = SystemHealthStatus::Healthy;
    }

    /// Marks the system stopped.
    pub fn stop(&mut self)
        ensures
            !final(self).is_running,
            final(self).started_at == old(self).started_at,
            final(self).health_status == old(self).health_status,
            final(self).total_jobs_processed == old(self).total_jobs_processed,
    {
        self.is_running = false;
    }

    /// Judges and keeps the health of the system from its `active_nodes`
    /// and the cluster's `status`; an unhealthy system refuses work with
    /// `ValidationError`, which names the reason.
    pub fn check_system_health(&mut self, active_nodes: usize, status: ClusterStatus) -> (r: Result<(), AppError>)
        ensures
            judged_health(final(self).health_status, active_nodes as nat, status),
            final(self).health_status is Unhealthy ==> (r matches Err(AppError::ValidationError(m)) && m@
                == "System is unhealthy: "@ + final(self).health_status->Unhealthy_reason@),
            !(final(self).health_status is Unhealthy) ==> r is Ok,
            final(self).is_running == old(self).is_running,
            final(self).started_at == old(self).started_at,
            final(self).total_jobs_processed == old(self).total_jobs_processed,
    {
        let h = health_for(active_nodes, status);
        let r = match &h {
            SystemHealthStatus::Unhealthy { reason } => {
                let mut m = String::from_str("System is unhealthy: ");
                m.append(reason.as_str());
                Err(AppError::ValidationError(m))
            },
            _ => Ok(()),
        };
        self.health_status = h;
        r
    }

    /// Counts one more job processed.
    pub fn count_job(&mut self)
        requires
            old(self).total_jobs_processed < u64::MAX,
        ensures
            final(self).total_jobs_processed == old(self).total_jobs_processed + 1,
            final(self).is_running == old(self).is_running,
            final(self).started_at == old(self).started_at,
            final(self).health_status == old(self).health_status,
    {
        self.total_jobs_processed = self.total_jobs_processed + 1;
    }
}

} // verus!
