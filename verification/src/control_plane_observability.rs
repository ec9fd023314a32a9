//! Observability of the control plane: the traces of running jobs, the log
//! of job and node events, and the counters those events drive.
//! Times are milliseconds since the epoch unless a name says otherwise.

use crate::control_plane_health::{
    ControlPlaneHealth, ControlPlaneHealthResponse, HealthCheckResult, HealthConfig, SystemInfo,
};
use crate::control_plane_metrics::{dec, ControlPlaneMetrics, JobCounters, MetricsSnapshot, NodeCounters};
use crate::ids::{id_upserted, without_id, IdTable};
use vstd::prelude::*;

verus! {

/// Where a traced job stands.
#[derive(Debug, Clone, Copy, PartialEq, Eq, Structural)]
pub enum JobTraceStatus {
    Submitted,
    Scheduled,
    Running,
    Completed,
    Failed,
    Cancelled,
}

/// The event type logged when a job reaches `s`.
pub open spec fn status_event_type(s: JobTraceStatus) -> Seq<char> {
    match s {
        JobTraceStatus::Submitted => "job_submitted"@,
        JobTraceStatus::Scheduled => "job_scheduled"@,
        JobTraceStatus::Running => "job_started"@,
        JobTraceStatus::Completed => "job_completed"@,
        JobTraceStatus::Failed => "job_failed"@,
        JobTraceStatus::Cancelled => "job_cancelled"@,
    }
}

/// The message logged when a job reaches `s`.
pub open spec fn status_message(s: JobTraceStatus) -> Seq<char> {
    match s {
        JobTraceStatus::Completed => "Job completed successfully"@,
        JobTraceStatus::Failed => "Job execution failed"@,
        JobTraceStatus::Cancelled => "Job was cancelled"@,
        _ => "Job status updated"@,
    }
}

/// The event type logged when a job reaches `s`.
pub fn event_type_of(s: JobTraceStatus) -> (t: &'static str)
    ensures
        t@ == status_event_type(s),
{
    match s {
        JobTraceStatus::Submitted => "job_submitted",
        JobTraceStatus::Scheduled => "job_scheduled",
        JobTraceStatus::Running => "job_started",
        JobTraceStatus::Completed => "job_completed",
        JobTraceStatus::Failed => "job_failed",
        JobTraceStatus::Cancelled => "job_cancelled",
    }
}

/// The message logged when a job reaches `s`.
pub fn message_of(s: JobTraceStatus) -> (t: &'static str)
    ensures
        t@ == status_message(s),
{
    match s {
        JobTraceStatus::Completed => "Job completed successfully",
        JobTraceStatus::Failed => "Job execution failed",
        JobTraceStatus::Cancelled => "Job was cancelled",
        _ => "Job status updated",
    }
}

/// A copy of an optional text.
pub fn copy_text(o: &Option<String>) -> (r: Option<String>)
    ensures
        r == *o,
{
    match o {
        Some(s) => Some(s.clone()),
        None => None,
    }
}

/// The trace of one job.
#[derive(Debug)]
pub struct JobTrace {
    pub job_id: u128,
    pub correlation_id: u128,
    pub pipeline_id: Option<String>,
    pub status: JobTraceStatus,
    pub started_at: u64,
}

impl JobTrace {
    /// A copy of the trace.
    pub fn duplicate(&self) -> (r: Self)
        ensures
            r == *self,
    {
        JobTrace {
            job_id: self.job_id,
            correlation_id: self.correlation_id,
            pipeline_id: copy_text(&self.pipeline_id),
            status: self.status,
            started_at: self.started_at,
        }
    }
}

/// Settings of the observability service.
#[derive(Debug, Clone)]
pub struct ObservabilityConfig {
    pub service_name: String,
    pub environment: String,
    pub enable_health_checks: bool,
    pub enable_metrics: bool,
    pub enable_tracing: bool,
    pub enable_structured_logging: bool,
    pub health_config: HealthConfig,
    pub monitoring_interval_seconds: u64,
}

impl ObservabilityConfig {
    /// The default settings for the deployment `environment`: service
    /// "rustci-control-plane", everything enabled, the default health
    /// settings, and a look at the machine every 30 seconds.
    pub fn default_with(environment: String) -> (c: Self)
        ensures
            c.service_name@ == "rustci-control-plane"@,
            c.environment == environment,
            c.enable_health_checks,
            c.enable_metrics,
            c.enable_tracing,
            c.enable_structured_logging,
            c.health_config == HealthConfig::default_spec(),
            c.monitoring_interval_seconds == 30,
    {
        ObservabilityConfig {
            service_name: String::from_str("rustci-control-plane"),
            environment,
            enable_health_checks: true,
            enable_metrics: true,
            enable_tracing: true,
            enable_structured_logging: true,
            health_config: HealthConfig::default_config(),
            monitoring_interval_seconds: 30,
        }
    }
}

/// One logged job event.
#[derive(Debug)]
pub struct JobLogEntry {
    pub job_id: u128,
    pub event_type: String,
    pub message: String,
    pub correlation_id: u128,
    pub node_id: Option<String>,
    pub pipeline_id: Option<String>,
    pub duration_ms: Option<u64>,
    pub error: Option<String>,
}

/// Whether `e` logs the given job event.
pub open spec fn job_entry_is(
    e: JobLogEntry,
    job_id: u128,
    event_type: Seq<char>,
    message: Seq<char>,
    correlation_id: u128,
    node_id: Option<String>,
    pipeline_id: Option<String>,
    duration_ms: Option<u64>,
    error: Option<String>,
) -> bool {
    &&& e.job_id == job_id
    &&& e.event_type@ == event_type
    &&& e.message@ == message
    &&& e.correlation_id == correlation_id
    &&& e.node_id == node_id
    &&& e.pipeline_id == pipeline_id
    &&& e.duration_ms == duration_ms
    &&& e.error == error
}

/// One logged node event; resource figures are whole units by name.
#[derive(Debug)]
pub struct NodeLogEntry {
    pub node_id: String,
    pub event_type: String,
    pub message: String,
    pub correlation_id: u128,
    pub health_status: Option<String>,
    pub resource_usage: Option<Vec<(String, u64)>>,
}

/// What a job's observability carries from start to end.
#[derive(Debug)]
pub struct JobObservabilityContext {
    pub job_id: u128,
    pub correlation_id: u128,
    pub job_trace: JobTrace,
    pub start_time: u64,
}

/// Everything the service can tell at one moment.
#[derive(Debug)]
pub struct ObservabilityStatus {
    pub timestamp: u64,
    pub service_name: String,
    pub environment: String,
    pub health: ControlPlaneHealthResponse,
    pub metrics: MetricsSnapshot,
    pub job_log_entries: usize,
    pub node_log_entries: usize,
    pub active_job_traces: usize,
}

/// Milliseconds from `start` to `now`, zero for a clock that went back.
pub open spec fn elapsed(start: u64, now: u64) -> u64 {
    if now >= start {
        (now - start) as u64
    } else {
        0
    }
}

/// The job counters after a job reached `status`, counted only when it
/// names a node.
pub open spec fn job_counters_after(j: JobCounters, status: JobTraceStatus, on_node: bool) -> JobCounters {
    if !on_node {
        j
    } else {
        match status {
            JobTraceStatus::Scheduled => JobCounters {
                jobs_running: (j.jobs_running + 1) as u64,
                jobs_queued: dec(j.jobs_queued),
                ..j
            },
            JobTraceStatus::Running => JobCounters {
                jobs_running: (j.jobs_running + 1) as u64,
                jobs_queued: dec(j.jobs_queued),
                ..j
            },
            JobTraceStatus::Completed => JobCounters {
                jobs_completed_total: (j.jobs_completed_total + 1) as u64,
                jobs_running: dec(j.jobs_running),
                ..j
            },
            JobTraceStatus::Failed => JobCounters {
                jobs_failed_total: (j.jobs_failed_total + 1) as u64,
                jobs_running: dec(j.jobs_running),
                ..j
            },
            _ => j,
        }
    }
}

/// Whether the counter that `status` raises has room.
pub open spec fn job_room(j: JobCounters, status: JobTraceStatus, on_node: bool) -> bool {
    on_node ==> match status {
        JobTraceStatus::Scheduled => j.jobs_running < u64::MAX,
        JobTraceStatus::Running => j.jobs_running < u64::MAX,
        JobTraceStatus::Completed => j.jobs_completed_total < u64::MAX,
        JobTraceStatus::Failed => j.jobs_failed_total < u64::MAX,
        _ => true,
    }
}

/// The node counters after a node event of type `event_type`.
pub open spec fn node_counters_after(n: NodeCounters, event_type: Seq<char>, health_status: Option<String>) -> NodeCounters {
    if event_type == "node_joined"@ {
        NodeCounters { nodes_total: (n.nodes_total + 1) as u64, nodes_healthy: (n.nodes_healthy + 1) as u64, ..n }
    } else if event_type == "node_left"@ {
        NodeCounters { nodes_total: dec(n.nodes_total), nodes_healthy: dec(n.nodes_healthy), ..n }
    } else if event_type == "node_health_changed"@ && health_status is Some {
        if health_status->0@ == "healthy"@ {
            NodeCounters { nodes_healthy: (n.nodes_healthy + 1) as u64, nodes_unhealthy: dec(n.nodes_unhealthy), ..n }
        } else {
            NodeCounters { nodes_unhealthy: (n.nodes_unhealthy + 1) as u64, nodes_healthy: dec(n.nodes_healthy), ..n }
        }
    } else if event_type == "node_heartbeat_failure"@ {
        NodeCounters { node_heartbeat_failures: (n.node_heartbeat_failures + 1) as u64, ..n }
    } else {
        n
    }
}

/// Whether the node counters have room for a node event.
pub open spec fn node_room(n: NodeCounters) -> bool {
    &&& n.nodes_total < u64::MAX
    &&& n.nodes_healthy < u64::MAX
    &&& n.nodes_unhealthy < u64::MAX
    &&& n.node_heartbeat_failures < u64::MAX
}

/// The observability service of the control plane.
pub struct ControlPlaneObservability {
    health_monitor: ControlPlaneHealth,
    metrics_collector: ControlPlaneMetrics,
    active_job_traces: IdTable<JobTrace>,
    job_log: Vec<JobLogEntry>,
    node_log: Vec<NodeLogEntry>,
    config: ObservabilityConfig,
}

impl ControlPlaneObservability {
    /// The health monitor.
    pub closed spec fn health(&self) -> ControlPlaneHealth {
        self.health_monitor
    }

    /// The counters.
    pub closed spec fn metrics(&self) -> ControlPlaneMetrics {
        self.metrics_collector
    }

    /// Traces of the jobs under way, by job identifier.
    pub closed spec fn traces(&self) -> Seq<(u128, JobTrace)> {
        self.active_job_traces.entries()
    }

    /// Logged job events, oldest first.
    pub closed spec fn job_events(&self) -> Seq<JobLogEntry> {
        self.job_log@
    }

    /// Logged node events, oldest first.
    pub closed spec fn node_events(&self) -> Seq<NodeLogEntry> {
        self.node_log@
    }

    /// The settings.
    pub closed spec fn settings(&self) -> ObservabilityConfig {
        self.config
    }

    /// One trace per job, and sound parts.
    pub closed spec fn well_formed(&self) -> bool {
        &&& self.active_job_traces.well_formed()
        &&& self.health_monitor.well_formed()
        &&& self.metrics_collector.well_formed()
    }

    /// A service started at `now`, with its health monitor set up from the
    /// settings (or the defaults when health checks are off), counters at
    /// zero, no traces and an empty log.
    pub fn new_at(config: ObservabilityConfig, now: u64) -> (o: Self)
        ensures
            o.well_formed(),
            o.settings() == config,
            o.health().settings() == if config.enable_health_checks {
                config.health_config
            } else {
                HealthConfig::default_spec()
            },
            o.health().started_at() == now / 1000,
            o.health().nodes().len() == 0,
            o.metrics().started() == now,
            o.metrics().job_counters() == (JobCounters {
                jobs_scheduled_total: 0,
                jobs_completed_total: 0,
                jobs_failed_total: 0,
                jobs_running: 0,
                jobs_queued: 0,
                job_queue_length: 0,
            }),
            o.metrics().node_counters() == (NodeCounters {
                nodes_total: 0,
                nodes_healthy: 0,
                nodes_unhealthy: 0,
                nodes_joining: 0,
                nodes_leaving: 0,
                node_heartbeat_failures: 0,
            }),
            o.traces().len() == 0,
            o.job_events().len() == 0,
            o.node_events().len() == 0,
    {
        let health_config = if config.enable_health_checks {
            config.health_config
        } else {
            HealthConfig::default_config()
        };
        ControlPlaneObservability {
            health_monitor: ControlPlaneHealth::new_at(health_config, now / 1000),
            metrics_collector: ControlPlaneMetrics::new_at(now),
            active_job_traces: IdTable::new(),
            job_log: Vec::new(),
            node_log: Vec::new(),
            config,
        }
    }

    /// A service started now.
    pub fn new(config: ObservabilityConfig) -> (o: Self)
        ensures
            o.well_formed(),
            o.settings() == config,
            o.traces().len() == 0,
            o.job_events().len() == 0,
            o.node_events().len() == 0,
    {
        Self::new_at(config, crate::platform::now_millis())
    }

    /// Opens the observability of job `job_id` at `now` under the
    /// correlation `correlation_id`: a submitted trace is kept, a job
    /// scheduled on `node_id` is counted, and the submission is logged.
    pub fn start_job_observability_at(
        &mut self,
        job_id: u128,
        pipeline_id: Option<String>,
        node_id: Option<String>,
        correlation_id: u128,
        now: u64,
    ) -> (c: JobObservabilityContext)
        requires
            old(self).well_formed(),
            node_id is Some ==> old(self).metrics().job_counters().jobs_scheduled_total < u64::MAX,
            node_id is Some ==> old(self).metrics().job_counters().jobs_queued < u64::MAX,
        ensures
            final(self).well_formed(),
            c.job_id == job_id,
            c.correlation_id == correlation_id,
            c.start_time == now,
            c.job_trace == (JobTrace {
                job_id,
                correlation_id,
                pipeline_id,
                status: JobTraceStatus::Submitted,
                started_at: now,
            }),
            node_id is Some ==> final(self).metrics().job_counters() == (JobCounters {
                jobs_scheduled_total: (old(self).metrics().job_counters().jobs_scheduled_total + 1) as u64,
                jobs_queued: (old(self).metrics().job_counters().jobs_queued + 1) as u64,
                ..old(self).metrics().job_counters()
            }),
            node_id is None ==> final(self).metrics().job_counters() == old(self).metrics().job_counters(),
            final(self).metrics().node_counters() == old(self).metrics().node_counters(),
            final(self).traces() == id_upserted(old(self).traces(), job_id, c.job_trace),
            final(self).job_events().len() == old(self).job_events().len() + 1,
            final(self).job_events().drop_last() == old(self).job_events(),
            job_entry_is(
                final(self).job_events().last(),
                job_id,
                "job_submitted"@,
                "Job submitted for execution"@,
                correlation_id,
                node_id,
                pipeline_id,
                None,
                None,
            ),
            final(self).node_events() == old(self).node_events(),
            final(self).settings() == old(self).settings(),
            final(self).health() == old(self).health(),
    {
        let trace = JobTrace {
            job_id,
            correlation_id,
            pipeline_id: copy_text(&pipeline_id),
            status: JobTraceStatus::Submitted,
            started_at: now,
        };
        if node_id.is_some() {
            self.metrics_collector.record_job_scheduled();
        }
        let entry = JobLogEntry {
            job_id,
            event_type: String::from_str("job_submitted"),
            message: String::from_str("Job submitted for execution"),
            correlation_id,
            node_id,
            pipeline_id,
            duration_ms: None,
            error: None,
        };
        self.job_log.push(entry);
        self.active_job_traces.insert(job_id, trace.duplicate());
        proof {
            assert(self.job_log@.drop_last() =~= old(self).job_log@);
        }
        JobObservabilityContext { job_id, correlation_id, job_trace: trace, start_time: now }
    }

    /// Opens the observability of job `job_id` now, under a fresh
    /// correlation identifier.
    pub fn start_job_observability(
        &mut self,
        job_id: u128,
        pipeline_id: Option<String>,
        node_id: Option<String>,
    ) -> (c: JobObservabilityContext)
        requires
            old(self).well_formed(),
            node_id is Some ==> old(self).metrics().job_counters().jobs_scheduled_total < u64::MAX,
            node_id is Some ==> old(self).metrics().job_counters().jobs_queued < u64::MAX,
        ensures
            final(self).well_formed(),
            c.job_id == job_id,
            c.job_trace.status == JobTraceStatus::Submitted,
            final(self).traces() == id_upserted(old(self).traces(), job_id, c.job_trace),
    {
        let correlation_id = crate::platform::new_identifier();
        let now = crate::platform::now_millis();
        self.start_job_observability_at(job_id, pipeline_id, node_id, correlation_id, now)
    }

    /// Moves the job of `context` to `status` at `now`: the trace follows,
    /// a job on `node_id` is counted as started (when scheduled or
    /// running), completed after the time since its start, or failed, and
    /// the change is logged with that time and `error_message`.
    pub fn update_job_status_at(
        &mut self,
        context: &mut JobObservabilityContext,
        status: JobTraceStatus,
        node_id: Option<String>,
        error_message: Option<String>,
        now: u64,
    )
        requires
            old(self).well_formed(),
            job_room(old(self).metrics().job_counters(), status, node_id is Some),
        ensures
            final(self).well_formed(),
            final(context).job_trace == (JobTrace { status, ..old(context).job_trace }),
            final(context).job_id == old(context).job_id,
            final(context).correlation_id == old(context).correlation_id,
            final(context).start_time == old(context).start_time,
            final(self).metrics().job_counters() == job_counters_after(
                old(self).metrics().job_counters(),
                status,
                node_id is Some,
            ),
            final(self).metrics().execution_times() == if status == JobTraceStatus::Completed && node_id is Some {
                old(self).metrics().execution_times().push(elapsed(old(context).start_time, now))
            } else {
                old(self).metrics().execution_times()
            },
            final(self).metrics().node_counters() == old(self).metrics().node_counters(),
            final(self).traces() == id_upserted(old(self).traces(), old(context).job_id, final(context).job_trace),
            final(self).job_events().len() == old(self).job_events().len() + 1,
            final(self).job_events().drop_last() == old(self).job_events(),
            job_entry_is(
                final(self).job_events().last(),
                old(context).job_id,
                status_event_type(status),
                status_message(status),
                old(context).correlation_id,
                node_id,
                old(context).job_trace.pipeline_id,
                Some(elapsed(old(context).start_time, now)),
                error_message,
            ),
            final(self).node_events() == old(self).node_events(),
            final(self).settings() == old(self).settings(),
            final(self).health() == old(self).health(),
    {
        context.job_trace.status = status;
        let took = if now >= context.start_time {
            now - context.start_time
        } else {
            0
        };
        if node_id.is_some() {
            match status {
                JobTraceStatus::Scheduled => {
                    self.metrics_collector.record_job_started();
                },
                JobTraceStatus::Running => {
                    self.metrics_collector.record_job_started();
                },
                JobTraceStatus::Completed => {
                    self.metrics_collector.record_job_completed(took);
                },
                JobTraceStatus::Failed => {
                    self.metrics_collector.record_job_failed();
                },
                _ => {},
            }
        }
        let entry = JobLogEntry {
            job_id: context.job_id,
            event_type: String::from_str(event_type_of(status)),
            message: String::from_str(message_of(status)),
            correlation_id: context.correlation_id,
            node_id,
            pipeline_id: copy_text(&context.job_trace.pipeline_id),
            duration_ms: Some(took),
            error: error_message,
        };
        self.job_log.push(entry);
        self.active_job_traces.insert(context.job_id, context.job_trace.duplicate());
        proof {
            assert(self.job_log@.drop_last() =~= old(self).job_log@);
        }
    }

    /// Closes the observability of the job of `context` now.
    pub fn complete_job_observability(
        &mut self,
        context: JobObservabilityContext,
        success: bool,
        final_node_id: Option<String>,
    )
        requires
            old(self).well_formed(),
            final_node_id is Some && success ==> old(self).metrics().job_counters().jobs_completed_total < u64::MAX,
            final_node_id is Some && !success ==> old(self).metrics().job_counters().jobs_failed_total < u64::MAX,
        ensures
            final(self).well_formed(),
            final(self).metrics().job_counters() == job_counters_after(
                old(self).metrics().job_counters(),
                if success {
                    JobTraceStatus::Completed
                } else {
                    JobTraceStatus::Failed
                },
                final_node_id is Some,
            ),
            final(self).metrics().node_counters() == old(self).metrics().node_counters(),
            final(self).traces() == without_id(old(self).traces(), context.job_id),
            final(self).job_events().len() == old(self).job_events().len() + 1,
            final(self).job_events().drop_last() == old(self).job_events(),
            final(self).job_events().last().job_id == context.job_id,
            final(self).job_events().last().correlation_id == context.correlation_id,
            final(self).node_events() == old(self).node_events(),
    {
        let now = crate::platform::now_millis();
        self.complete_job_observability_at(context, success, final_node_id, now)
    }

    /// Closes the observability of the job of `context` at `now`: a job on
    /// `final_node_id` is counted as completed (after the time since its
    /// start) or failed, the end is logged, and its trace is dropped.
    pub fn complete_job_observability_at(
        &mut self,
        context: JobObservabilityContext,
        success: bool,
        final_node_id: Option<String>,
        now: u64,
    )
        requires
            old(self).well_formed(),
            final_node_id is Some && success ==> old(self).metrics().job_counters().jobs_completed_total < u64::MAX,
            final_node_id is Some && !success ==> old(self).metrics().job_counters().jobs_failed_total < u64::MAX,
        ensures
            final(self).well_formed(),
            final(self).metrics().job_counters() == job_counters_after(
                old(self).metrics().job_counters(),
                if success {
                    JobTraceStatus::Completed
                } else {
                    JobTraceStatus::Failed
                },
                final_node_id is Some,
            ),
            final(self).metrics().execution_times() == if success && final_node_id is Some {
                old(self).metrics().execution_times().push(elapsed(context.start_time, now))
            } else {
                old(self).metrics().execution_times()
            },
            final(self).metrics().node_counters() == old(self).metrics().node_counters(),
            final(self).traces() == without_id(old(self).traces(), context.job_id),
            final(self).job_events().len() == old(self).job_events().len() + 1,
            final(self).job_events().drop_last() == old(self).job_events(),
            success ==> job_entry_is(
                final(self).job_events().last(),
                context.job_id,
                "job_completed"@,
                "Job execution completed successfully"@,
                context.correlation_id,
                final_node_id,
                context.job_trace.pipeline_id,
                Some(elapsed(context.start_time, now)),
                None,
            ),
            !success ==> final(self).job_events().last().error is Some,
            !success ==> final(self).job_events().last().error->0@ == "Job execution failed"@,
            !success ==> final(self).job_events().last().event_type@ == "job_failed"@,
            !success ==> final(self).job_events().last().message@ == "Job execution completed with failure"@,
            !success ==> final(self).job_events().last().duration_ms == Some(elapsed(context.start_time, now)),
            !success ==> final(self).job_events().last().node_id == final_node_id,
            final(self).job_events().last().job_id == context.job_id,
            final(self).job_events().last().correlation_id == context.correlation_id,
            final(self).job_events().last().pipeline_id == context.job_trace.pipeline_id,
            final(self).node_events() == old(self).node_events(),
            final(self).settings() == old(self).settings(),
            final(self).health() == old(self).health(),
    {
        let took = if now >= context.start_time {
            now - context.start_time
        } else {
            0
        };
        if final_node_id.is_some() {
            if success {
                self.metrics_collector.record_job_completed(took);
            } else {
                self.metrics_collector.record_job_failed();
            }
        }
        let entry = if success {
            JobLogEntry {
                job_id: context.job_id,
                event_type: String::from_str("job_completed"),
                message: String::from_str("Job execution completed successfully"),
                correlation_id: context.correlation_id,
                node_id: final_node_id,
                pipeline_id: context.job_trace.pipeline_id,
                duration_ms: Some(took),
                error: None,
            }
        } else {
            JobLogEntry {
                job_id: context.job_id,
                event_type: String::from_str("job_failed"),
                message: String::from_str("Job execution completed with failure"),
                correlation_id: context.correlation_id,
                node_id: final_node_id,
                pipeline_id: context.job_trace.pipeline_id,
                duration_ms: Some(took),
                error: Some(String::from_str("Job execution failed")),
            }
        };
        self.job_log.push(entry);
        self.active_job_traces.remove(context.job_id);
        proof {
            assert(self.job_log@.drop_last() =~= old(self).job_log@);
        }
    }

    /// Records an event of node `node_id` under the correlation
    /// `correlation_id`: a join, a departure, a change of health (to
    /// healthy exactly when `health_status` reads "healthy") or a missed
    /// heartbeat moves the node counters; every event is logged.
    pub fn record_node_event_with(
        &mut self,
        node_id: String,
        event_type: &str,
        message: &str,
        health_status: Option<String>,
        resource_usage: Option<Vec<(String, u64)>>,
        correlation_id: u128,
    )
        requires
            old(self).well_formed(),
            node_room(old(self).metrics().node_counters()),
        ensures
            final(self).well_formed(),
            final(self).metrics().node_counters() == node_counters_after(
                old(self).metrics().node_counters(),
                event_type@,
                health_status,
            ),
            final(self).metrics().job_counters() == old(self).metrics().job_counters(),
            final(self).node_events().len() == old(self).node_events().len() + 1,
            final(self).node_events().drop_last() == old(self).node_events(),
            final(self).node_events().last().node_id == node_id,
            final(self).node_events().last().event_type@ == event_type@,
            final(self).node_events().last().message@ == message@,
            final(self).node_events().last().correlation_id == correlation_id,
            final(self).node_events().last().health_status == health_status,
            final(self).node_events().last().resource_usage == resource_usage,
            final(self).job_events() == old(self).job_events(),
            final(self).traces() == old(self).traces(),
            final(self).settings() == old(self).settings(),
            final(self).health() == old(self).health(),
    {
        if crate::text::text_is(event_type, "node_joined") {
            self.metrics_collector.record_node_joined();
        } else if crate::text::text_is(event_type, "node_left") {
            self.metrics_collector.record_node_left();
        } else if crate::text::text_is(event_type, "node_health_changed") && health_status.is_some() {
            let is_healthy = match &health_status {
                Some(s) => crate::text::text_is(s.as_str(), "healthy"),
                None => false,
            };
            self.metrics_collector.record_node_health_change(is_healthy);
        } else if crate::text::text_is(event_type, "node_heartbeat_failure") {
            self.metrics_collector.record_node_heartbeat_failure();
        }
        let entry = NodeLogEntry {
            node_id,
            event_type: String::from_str(event_type),
            message: String::from_str(message),
            correlation_id,
            health_status,
            resource_usage,
        };
        self.node_log.push(entry);
        proof {
            assert(self.node_log@.drop_last() =~= old(self).node_log@);
        }
    }

    /// Records an event of node `node_id` under a fresh correlation
    /// identifier.
    pub fn record_node_event(
        &mut self,
        node_id: String,
        event_type: &str,
        message: &str,
        health_status: Option<String>,
        resource_usage: Option<Vec<(String, u64)>>,
    )
        requires
            old(self).well_formed(),
            node_room(old(self).metrics().node_counters()),
        ensures
            final(self).well_formed(),
            final(self).metrics().node_counters() == node_counters_after(
                old(self).metrics().node_counters(),
                event_type@,
                health_status,
            ),
            final(self).node_events().len() == old(self).node_events().len() + 1,
    {
        let correlation_id = crate::platform::new_identifier();
        self.record_node_event_with(node_id, event_type, message, health_status, resource_usage, correlation_id);
    }

    /// Everything the service can tell now, from the results of the
    /// registered checks and the figures of the machine.
    pub fn get_observability_status(
        &self,
        checks: Vec<(HealthCheckResult, bool)>,
        system_info: SystemInfo,
        version: String,
        node_id: String,
    ) -> (s: ObservabilityStatus)
        requires
            self.well_formed(),
        ensures
            s.service_name == self.settings().service_name,
            s.environment == self.settings().environment,
            s.health.node_id == node_id,
            s.metrics.jobs_scheduled_total == self.metrics().job_counters().jobs_scheduled_total,
            s.metrics.jobs_completed_total == self.metrics().job_counters().jobs_completed_total,
            s.metrics.jobs_failed_total == self.metrics().job_counters().jobs_failed_total,
            s.metrics.jobs_running == self.metrics().job_counters().jobs_running,
            s.metrics.nodes_total == self.metrics().node_counters().nodes_total,
            s.metrics.nodes_healthy == self.metrics().node_counters().nodes_healthy,
            s.job_log_entries == self.job_events().len(),
            s.node_log_entries == self.node_events().len(),
            s.active_job_traces == self.traces().len(),
    {
        let now = crate::platform::now_millis();
        self.get_observability_status_at(checks, system_info, now, version, node_id)
    }

    /// Everything the service can tell at `now` (ms), with the results of
    /// the health checks that were run and the figures of the machine.
    pub fn get_observability_status_at(
        &self,
        checks: Vec<(HealthCheckResult, bool)>,
        system_info: SystemInfo,
        now: u64,
        version: String,
        node_id: String,
    ) -> (s: ObservabilityStatus)
        requires
            self.well_formed(),
        ensures
            s.timestamp == now / 1000,
            s.service_name == self.settings().service_name,
            s.environment == self.settings().environment,
            s.health.timestamp == now / 1000,
            s.health.node_id == node_id,
            s.metrics.jobs_scheduled_total == self.metrics().job_counters().jobs_scheduled_total,
            s.metrics.jobs_completed_total == self.metrics().job_counters().jobs_completed_total,
            s.metrics.jobs_failed_total == self.metrics().job_counters().jobs_failed_total,
            s.metrics.jobs_running == self.metrics().job_counters().jobs_running,
            s.metrics.nodes_total == self.metrics().node_counters().nodes_total,
            s.metrics.nodes_healthy == self.metrics().node_counters().nodes_healthy,
            s.job_log_entries == self.job_events().len(),
            s.node_log_entries == self.node_events().len(),
            s.active_job_traces == self.traces().len(),
    {
        let health = self.health_monitor.check_health(checks, system_info, now / 1000, version, node_id);
        let metrics = self.metrics_collector.get_metrics_snapshot_at(now);
        ObservabilityStatus {
            timestamp: now / 1000,
            service_name: self.config.service_name.clone(),
            environment: self.config.environment.clone(),
            health,
            metrics,
            job_log_entries: self.job_log.len(),
            node_log_entries: self.node_log.len(),
            active_job_traces: self.active_job_traces.len(),
        }
    }

    /// The health monitor.
    pub fn health_monitor(&self) -> (h: &ControlPlaneHealth)
        ensures
            *h == self.health(),
    {
        &self.health_monitor
    }

    /// The counters.
    pub fn metrics_collector(&self) -> (m: &ControlPlaneMetrics)
        ensures
            *m == self.metrics(),
    {
        &self.metrics_collector
    }
}

} // verus!
