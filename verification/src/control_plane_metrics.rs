//! Counters of the control plane: jobs, nodes and cluster events.
//! Durations are milliseconds; usages are whole percents.

use crate::keyed::{upserted, KeyedTable};
use vstd::prelude::*;

verus! {

/// Job counters.
#[derive(Debug, Clone, Copy, PartialEq, Eq, Structural)]
pub struct JobCounters {
    pub jobs_scheduled_total: u64,
    pub jobs_completed_total: u64,
    pub jobs_failed_total: u64,
    pub jobs_running: u64,
    pub jobs_queued: u64,
    pub job_queue_length: u64,
}

/// Node counters.
#[derive(Debug, Clone, Copy, PartialEq, Eq, Structural)]
pub struct NodeCounters {
    pub nodes_total: u64,
    pub nodes_healthy: u64,
    pub nodes_unhealthy: u64,
    pub nodes_joining: u64,
    pub nodes_leaving: u64,
    pub node_heartbeat_failures: u64,
}

/// Resources a node uses.
#[derive(Debug, Clone, Copy, PartialEq, Eq, Structural)]
pub struct NodeResourceUsage {
    pub cpu_usage_percent: u64,
    pub memory_usage_bytes: u64,
    pub memory_total_bytes: u64,
    pub disk_usage_bytes: u64,
    pub disk_total_bytes: u64,
    pub network_rx_bytes: u64,
    pub network_tx_bytes: u64,
}

impl NodeResourceUsage {
    /// A usage record.
    pub fn new(
        cpu_usage_percent: u64,
        memory_usage_bytes: u64,
        memory_total_bytes: u64,
        disk_usage_bytes: u64,
        disk_total_bytes: u64,
        network_rx_bytes: u64,
        network_tx_bytes: u64,
    ) -> (u: Self)
        ensures
            u == (NodeResourceUsage {
                cpu_usage_percent,
                memory_usage_bytes,
                memory_total_bytes,
                disk_usage_bytes,
                disk_total_bytes,
                network_rx_bytes,
                network_tx_bytes,
            }),
    {
        NodeResourceUsage {
            cpu_usage_percent,
            memory_usage_bytes,
            memory_total_bytes,
            disk_usage_bytes,
            disk_total_bytes,
            network_rx_bytes,
            network_tx_bytes,
        }
    }
}

/// Cluster counters.
#[derive(Debug, Clone, Copy, PartialEq, Eq, Structural)]
pub struct ClusterCounters {
    pub cluster_size: u64,
    pub cluster_capacity: u64,
    pub cluster_utilization_percent: u64,
    pub leader_elections_total: u64,
    pub network_partitions_total: u64,
    pub failovers_total: u64,
}

/// All counters at one moment.
#[derive(Debug, Clone, Copy, PartialEq, Eq, Structural)]
pub struct MetricsSnapshot {
    pub uptime_seconds: u64,
    pub jobs_scheduled_total: u64,
    pub jobs_completed_total: u64,
    pub jobs_failed_total: u64,
    pub jobs_running: u64,
    pub jobs_queued: u64,
    pub job_queue_length: u64,
    pub nodes_total: u64,
    pub nodes_healthy: u64,
    pub nodes_unhealthy: u64,
    pub cluster_size: u64,
    pub cluster_capacity: u64,
    pub cluster_utilization_percent: u64,
    pub leader_elections_total: u64,
    pub network_partitions_total: u64,
    pub failovers_total: u64,
}

/// One less, stopping at zero.
pub open spec fn dec(n: u64) -> u64 {
    if n > 0 {
        (n - 1) as u64
    } else {
        0
    }
}

/// The counters of the control plane.
pub struct ControlPlaneMetrics {
    start_time: u64,
    jobs: JobCounters,
    job_execution_times: Vec<u64>,
    nodes: NodeCounters,
    node_resource_usage: KeyedTable<NodeResourceUsage>,
    cluster: ClusterCounters,
}

impl ControlPlaneMetrics {
    /// Job counters.
    pub closed spec fn job_counters(&self) -> JobCounters {
        self.jobs
    }

    /// Node counters.
    pub closed spec fn node_counters(&self) -> NodeCounters {
        self.nodes
    }

    /// Cluster counters.
    pub closed spec fn cluster_counters(&self) -> ClusterCounters {
        self.cluster
    }

    /// Durations of completed jobs, oldest first.
    pub closed spec fn execution_times(&self) -> Seq<u64> {
        self.job_execution_times@
    }

    /// Resource usage by node.
    pub closed spec fn usage(&self) -> Seq<(String, NodeResourceUsage)> {
        self.node_resource_usage.entries()
    }

    /// When counting began, in milliseconds since the epoch.
    pub closed spec fn started(&self) -> u64 {
        self.start_time
    }

    /// One usage record per node.
    pub closed spec fn well_formed(&self) -> bool {
        self.node_resource_usage.well_formed()
    }

    /// All counters at zero, counting from `now`.
    pub fn new_at(now: u64) -> (m: Self)
        ensures
            m.well_formed(),
            m.started() == now,
            m.job_counters() == (JobCounters {
                jobs_scheduled_total: 0,
                jobs_completed_total: 0,
                jobs_failed_total: 0,
                jobs_running: 0,
                jobs_queued: 0,
                job_queue_length: 0,
            }),
            m.node_counters() == (NodeCounters {
                nodes_total: 0,
                nodes_healthy: 0,
                nodes_unhealthy: 0,
                nodes_joining: 0,
                nodes_leaving: 0,
                node_heartbeat_failures: 0,
            }),
            m.cluster_counters() == (ClusterCounters {
                cluster_size: 0,
                cluster_capacity: 0,
                cluster_utilization_percent: 0,
                leader_elections_total: 0,
                network_partitions_total: 0,
                failovers_total: 0,
            }),
            m.execution_times().len() == 0,
            m.usage().len() == 0,
    {
        ControlPlaneMetrics {
            start_time: now,
            jobs: JobCounters {
                jobs_scheduled_total: 0,
                jobs_completed_total: 0,
                jobs_failed_total: 0,
                jobs_running: 0,
                jobs_queued: 0,
                job_queue_length: 0,
            },
            job_execution_times: Vec::new(),
            nodes: NodeCounters {
                nodes_total: 0,
                nodes_healthy: 0,
                nodes_unhealthy: 0,
                nodes_joining: 0,
                nodes_leaving: 0,
                node_heartbeat_failures: 0,
            },
            node_resource_usage: KeyedTable::new(),
            cluster: ClusterCounters {
                cluster_size: 0,
                cluster_capacity: 0,
                cluster_utilization_percent: 0,
                leader_elections_total: 0,
                network_partitions_total: 0,
                failovers_total: 0,
            },
        }
    }

    /// A job was scheduled: one more scheduled and queued.
    pub fn record_job_scheduled(&mut self)
        requires
            old(self).job_counters().jobs_scheduled_total < u64::MAX,
            old(self).job_counters().jobs_queued < u64::MAX,
        ensures
            final(self).job_counters() == (JobCounters {
                jobs_scheduled_total: (old(self).job_counters().jobs_scheduled_total + 1) as u64,
                jobs_queued: (old(self).job_counters().jobs_queued + 1) as u64,
                ..old(self).job_counters()
            }),
            final(self).node_counters() == old(self).node_counters(),
            final(self).cluster_counters() == old(self).cluster_counters(),
            final(self).execution_times() == old(self).execution_times(),
            final(self).well_formed() == old(self).well_formed(),
    {
        self.jobs.jobs_scheduled_total = self.jobs.jobs_scheduled_total + 1;
        self.jobs.jobs_queued = self.jobs.jobs_queued + 1;
    }

    /// A job started: one more running, one less queued (not below zero).
    pub fn record_job_started(&mut self)
        requires
            old(self).job_counters().jobs_running < u64::MAX,
        ensures
            final(self).job_counters() == (JobCounters {
                jobs_running: (old(self).job_counters().jobs_running + 1) as u64,
                jobs_queued: dec(old(self).job_counters().jobs_queued),
                ..old(self).job_counters()
            }),
            final(self).node_counters() == old(self).node_counters(),
            final(self).cluster_counters() == old(self).cluster_counters(),
            final(self).execution_times() == old(self).execution_times(),
            final(self).well_formed() == old(self).well_formed(),
    {
        self.jobs.jobs_running = self.jobs.jobs_running + 1;
        self.jobs.jobs_queued = if self.jobs.jobs_queued > 0 {
            self.jobs.jobs_queued - 1
        } else {
            0
        };
    }

    /// A job completed after `duration` ms: one more completed, one less
    /// running, and its duration kept.
    pub fn record_job_completed(&mut self, duration: u64)
        requires
            old(self).job_counters().jobs_completed_total < u64::MAX,
        ensures
            final(self).job_counters() == (JobCounters {
                jobs_completed_total: (old(self).job_counters().jobs_completed_total + 1) as u64,
                jobs_running: dec(old(self).job_counters().jobs_running),
                ..old(self).job_counters()
            }),
            final(self).execution_times() == old(self).execution_times().push(duration),
            final(self).node_counters() == old(self).node_counters(),
            final(self).cluster_counters() == old(self).cluster_counters(),
            final(self).well_formed() == old(self).well_formed(),
    {
        self.jobs.jobs_completed_total = self.jobs.jobs_completed_total + 1;
        self.jobs.jobs_running = if self.jobs.jobs_running > 0 {
            self.jobs.jobs_running - 1
        } else {
            0
        };
        self.job_execution_times.push(duration);
    }

    /// A job failed: one more failed, one less running.
    pub fn record_job_failed(&mut self)
        requires
            old(self).job_counters().jobs_failed_total < u64::MAX,
        ensures
            final(self).job_counters() == (JobCounters {
                jobs_failed_total: (old(self).job_counters().jobs_failed_total + 1) as u64,
                jobs_running: dec(old(self).job_counters().jobs_running),
                ..old(self).job_counters()
            }),
            final(self).node_counters() == old(self).node_counters(),
            final(self).cluster_counters() == old(self).cluster_counters(),
            final(self).execution_times() == old(self).execution_times(),
            final(self).well_formed() == old(self).well_formed(),
    {
        self.jobs.jobs_failed_total = self.jobs.jobs_failed_total + 1;
        self.jobs.jobs_running = if self.jobs.jobs_running > 0 {
            self.jobs.jobs_running - 1
        } else {
            0
        };
    }

    /// Sets the queue length.
    pub fn update_job_queue_length(&mut self, length: u64)
        ensures
            final(self).job_counters() == (JobCounters { job_queue_length: length, ..old(self).job_counters() }),
            final(self).node_counters() == old(self).node_counters(),
            final(self).cluster_counters() == old(self).cluster_counters(),
            final(self).well_formed() == old(self).well_formed(),
    {
        self.jobs.job_queue_length = length;
    }

    /// A node joined: one more node, healthy.
    pub fn record_node_joined(&mut self)
        requires
            old(self).node_counters().nodes_total < u64::MAX,
            old(self).node_counters().nodes_healthy < u64::MAX,
        ensures
            final(self).node_counters() == (NodeCounters {
                nodes_total: (old(self).node_counters().nodes_total + 1) as u64,
                nodes_healthy: (old(self).node_counters().nodes_healthy + 1) as u64,
                ..old(self).node_counters()
            }),
            final(self).job_counters() == old(self).job_counters(),
            final(self).cluster_counters() == old(self).cluster_counters(),
            final(self).well_formed() == old(self).well_formed(),
    {
        self.nodes.nodes_total = self.nodes.nodes_total + 1;
        self.nodes.nodes_healthy = self.nodes.nodes_healthy + 1;
    }

    /// A node left: one less node and one less healthy (not below zero).
    pub fn record_node_left(&mut self)
        ensures
            final(self).node_counters() == (NodeCounters {
                nodes_total: dec(old(self).node_counters().nodes_total),
                nodes_healthy: dec(old(self).node_counters().nodes_healthy),
                ..old(self).node_counters()
            }),
            final(self).job_counters() == old(self).job_counters(),
            final(self).cluster_counters() == old(self).cluster_counters(),
            final(self).well_formed() == old(self).well_formed(),
    {
        self.nodes.nodes_total = if self.nodes.nodes_total > 0 {
            self.nodes.nodes_total - 1
        } else {
            0
        };
        self.nodes.nodes_healthy = if self.nodes.nodes_healthy > 0 {
            self.nodes.nodes_healthy - 1
        } else {
            0
        };
    }

    /// A node's health changed: one more on its new side, one less (not
    /// below zero) on the other.
    pub fn record_node_health_change(&mut self, is_healthy: bool)
        requires
            is_healthy ==> old(self).node_counters().nodes_healthy < u64::MAX,
            !is_healthy ==> old(self).node_counters().nodes_unhealthy < u64::MAX,
        ensures
            is_healthy ==> final(self).node_counters() == (NodeCounters {
                nodes_healthy: (old(self).node_counters().nodes_healthy + 1) as u64,
                nodes_unhealthy: dec(old(self).node_counters().nodes_unhealthy),
                ..old(self).node_counters()
            }),
            !is_healthy ==> final(self).node_counters() == (NodeCounters {
                nodes_unhealthy: (old(self).node_counters().nodes_unhealthy + 1) as u64,
                nodes_healthy: dec(old(self).node_counters().nodes_healthy),
                ..old(self).node_counters()
            }),
            final(self).job_counters() == old(self).job_counters(),
            final(self).cluster_counters() == old(self).cluster_counters(),
            final(self).well_formed() == old(self).well_formed(),
    {
        if is_healthy {
            self.nodes.nodes_healthy = self.nodes.nodes_healthy + 1;
            self.nodes.nodes_unhealthy = if self.nodes.nodes_unhealthy > 0 {
                self.nodes.nodes_unhealthy - 1
            } else {
                0
            };
        } else {
            self.nodes.nodes_unhealthy = self.nodes.nodes_unhealthy + 1;
            self.nodes.nodes_healthy = if self.nodes.nodes_healthy > 0 {
                self.nodes.nodes_healthy - 1
            } else {
                0
            };
        }
    }

    /// A node missed a heartbeat.
    pub fn record_node_heartbeat_failure(&mut self)
        requires
            old(self).node_counters().node_heartbeat_failures < u64::MAX,
        ensures
            final(self).node_counters() == (NodeCounters {
                node_heartbeat_failures: (old(self).node_counters().node_heartbeat_failures + 1) as u64,
                ..old(self).node_counters()
            }),
            final(self).job_counters() == old(self).job_counters(),
            final(self).cluster_counters() == old(self).cluster_counters(),
            final(self).well_formed() == old(self).well_formed(),
    {
        self.nodes.node_heartbeat_failures = self.nodes.node_heartbeat_failures + 1;
    }

    /// Records the resource usage of `node_id`, replacing an earlier one.
    pub fn update_node_resource_usage(&mut self, node_id: String, usage: NodeResourceUsage)
        requires
            old(self).well_formed(),
        ensures
            final(self).well_formed(),
            final(self).usage() == upserted(old(self).usage(), node_id, usage),
            final(self).node_counters() == old(self).node_counters(),
            final(self).job_counters() == old(self).job_counters(),
            final(self).cluster_counters() == old(self).cluster_counters(),
    {
        self.node_resource_usage.insert(node_id, usage);
    }

    /// A leader was elected.
    pub fn record_leader_election(&mut self)
        requires
            old(self).cluster_counters().leader_elections_total < u64::MAX,
        ensures
            final(self).cluster_counters() == (ClusterCounters {
                leader_elections_total: (old(self).cluster_counters().leader_elections_total + 1) as u64,
                ..old(self).cluster_counters()
            }),
            final(self).job_counters() == old(self).job_counters(),
            final(self).node_counters() == old(self).node_counters(),
            final(self).well_formed() == old(self).well_formed(),
    {
        self.cluster.leader_elections_total = self.cluster.leader_elections_total + 1;
    }

    /// A network partition was seen.
    pub fn record_network_partition(&mut self)
        requires
            old(self).cluster_counters().network_partitions_total < u64::MAX,
        ensures
            final(self).cluster_counters() == (ClusterCounters {
                network_partitions_total: (old(self).cluster_counters().network_partitions_total + 1) as u64,
                ..old(self).cluster_counters()
            }),
            final(self).job_counters() == old(self).job_counters(),
            final(self).node_counters() == old(self).node_counters(),
            final(self).well_formed() == old(self).well_formed(),
    {
        self.cluster.network_partitions_total = self.cluster.network_partitions_total + 1;
    }

    /// A failover completed.
    pub fn record_failover(&mut self)
        requires
            old(self).cluster_counters().failovers_total < u64::MAX,
        ensures
            final(self).cluster_counters() == (ClusterCounters {
                failovers_total: (old(self).cluster_counters().failovers_total + 1) as u64,
                ..old(self).cluster_counters()
            }),
            final(self).job_counters() == old(self).job_counters(),
            final(self).node_counters() == old(self).node_counters(),
            final(self).well_formed() == old(self).well_formed(),
    {
        self.cluster.failovers_total = self.cluster.failovers_total + 1;
    }

    /// Sets the size, capacity and utilization of the cluster.
    pub fn update_cluster_metrics(&mut self, size: u64, capacity: u64, utilization: u64)
        ensures
            final(self).cluster_counters() == (ClusterCounters {
                cluster_size: size,
                cluster_capacity: capacity,
                cluster_utilization_percent: utilization,
                ..old(self).cluster_counters()
            }),
            final(self).job_counters() == old(self).job_counters(),
            final(self).node_counters() == old(self).node_counters(),
            final(self).well_formed() == old(self).well_formed(),
    {
        self.cluster.cluster_size = size;
        self.cluster.cluster_capacity = capacity;
        self.cluster.cluster_utilization_percent = utilization;
    }

    /// All counters now.
    pub fn get_metrics_snapshot(&self) -> (s: MetricsSnapshot)
        ensures
            s.jobs_scheduled_total == self.job_counters().jobs_scheduled_total,
            s.jobs_completed_total == self.job_counters().jobs_completed_total,
            s.jobs_failed_total == self.job_counters().jobs_failed_total,
            s.jobs_running == self.job_counters().jobs_running,
            s.jobs_queued == self.job_counters().jobs_queued,
            s.job_queue_length == self.job_counters().job_queue_length,
            s.nodes_total == self.node_counters().nodes_total,
            s.nodes_healthy == self.node_counters().nodes_healthy,
            s.nodes_unhealthy == self.node_counters().nodes_unhealthy,
            s.cluster_size == self.cluster_counters().cluster_size,
            s.cluster_capacity == self.cluster_counters().cluster_capacity,
            s.cluster_utilization_percent == self.cluster_counters().cluster_utilization_percent,
            s.leader_elections_total == self.cluster_counters().leader_elections_total,
            s.network_partitions_total == self.cluster_counters().network_partitions_total,
            s.failovers_total == self.cluster_counters().failovers_total,
    {
        let now = crate::platform::now_millis();
        self.get_metrics_snapshot_at(now)
    }

    /// All counters at `now`, with the uptime in whole seconds.
    pub fn get_metrics_snapshot_at(&self, now: u64) -> (s: MetricsSnapshot)
        ensures
            s.uptime_seconds == if now >= self.started() { (now - self.started()) / 1000 } else { 0 },
            s.jobs_scheduled_total == self.job_counters().jobs_scheduled_total,
            s.jobs_completed_total == self.job_counters().jobs_completed_total,
            s.jobs_failed_total == self.job_counters().jobs_failed_total,
            s.jobs_running == self.job_counters().jobs_running,
            s.jobs_queued == self.job_counters().jobs_queued,
            s.job_queue_length == self.job_counters().job_queue_length,
            s.nodes_total == self.node_counters().nodes_total,
            s.nodes_healthy == self.node_counters().nodes_healthy,
            s.nodes_unhealthy == self.node_counters().nodes_unhealthy,
            s.cluster_size == self.cluster_counters().cluster_size,
            s.cluster_capacity == self.cluster_counters().cluster_capacity,
            s.cluster_utilization_percent == self.cluster_counters().cluster_utilization_percent,
            s.leader_elections_total == self.cluster_counters().leader_elections_total,
            s.network_partitions_total == self.cluster_counters().network_partitions_total,
            s.failovers_total == self.cluster_counters().failovers_total,
    {
        let uptime = if now >= self.start_time {
            (now - self.start_time) / 1000
        } else {
            0
        };
        MetricsSnapshot {
            uptime_seconds: uptime,
            jobs_scheduled_total: self.jobs.jobs_scheduled_total,
            jobs_completed_total: self.jobs.jobs_completed_total,
            jobs_failed_total: self.jobs.jobs_failed_total,
            jobs_running: self.jobs.jobs_running,
            jobs_queued: self.jobs.jobs_queued,
            job_queue_length: self.jobs.job_queue_length,
            nodes_total: self.nodes.nodes_total,
            nodes_healthy: self.nodes.nodes_healthy,
            nodes_unhealthy: self.nodes.nodes_unhealthy,
            cluster_size: self.cluster.cluster_size,
            cluster_capacity: self.cluster.cluster_capacity,
            cluster_utilization_percent: self.cluster.cluster_utilization_percent,
            leader_elections_total: self.cluster.leader_elections_total,
            network_partitions_total: self.cluster.network_partitions_total,
            failovers_total: self.cluster.failovers_total,
        }
    }

    /// The uptime gauge in the Prometheus text format, now.
    pub fn get_prometheus_metrics(&self) -> (s: String)
        ensures
            exists|uptime: nat|
                s@ == "# HELP rustci_control_plane_uptime_seconds Control plane uptime in seconds\n# TYPE rustci_control_plane_uptime_seconds gauge\nrustci_control_plane_uptime_seconds "@
                    + #[trigger] crate::text::decimal(uptime) + "\n"@,
    {
        let now = crate::platform::now_millis();
        self.get_prometheus_metrics_at(now)
    }

    /// The uptime in the Prometheus text format.
    pub fn get_prometheus_metrics_at(&self, now: u64) -> (s: String)
        ensures
            s@ == "# HELP rustci_control_plane_uptime_seconds Control plane uptime in seconds\n# TYPE rustci_control_plane_uptime_seconds gauge\nrustci_control_plane_uptime_seconds "@
                + crate::text::decimal((if now >= self.started() { (now - self.started()) / 1000 } else { 0 }) as nat) + "\n"@,
    {
        let uptime = if now >= self.start_time {
            (now - self.start_time) / 1000
        } else {
            0
        };
        let mut s = crate::text::text_with_number(
            "# HELP rustci_control_plane_uptime_seconds Control plane uptime in seconds\n# TYPE rustci_control_plane_uptime_seconds gauge\nrustci_control_plane_uptime_seconds ",
            uptime,
        );
        s.append("\n");
        s
    }
}

/// Counting never makes a number go below zero or past one removal: a
/// node that joins and then leaves leaves the node counters as they were,
/// when there was room to count it.
pub proof fn lemma_join_then_leave(n: NodeCounters)
    requires
        n.nodes_total < u64::MAX,
        n.nodes_healthy < u64::MAX,
    ensures
        ({
            let joined = NodeCounters {
                nodes_total: (n.nodes_total + 1) as u64,
                nodes_healthy: (n.nodes_healthy + 1) as u64,
                ..n
            };
            NodeCounters { nodes_total: dec(joined.nodes_total), nodes_healthy: dec(joined.nodes_healthy), ..joined } == n
        }),
{
}

} // verus!
