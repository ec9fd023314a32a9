//! Automatic failover of failed nodes.
//!
//! The manager keeps the health of each monitored node and a record of each
//! failed node.  On a failure report it picks a strategy for the kind of
//! failure, picks the least loaded healthy node as target and either fails
//! over at once or tells its caller what to wait for first (recovery
//! retries, a graceful drain).  Every step is announced by an event in the
//! manager's outbox.  Times are milliseconds since the epoch; intervals and
//! timeouts are seconds.

use crate::errors::AppError;
use crate::ids::{has_id, id_upserted, value_at_id, without_id, IdTable};
use crate::text::decimal;
use vstd::prelude::*;

verus! {

/// Settings of the failover manager.
#[derive(Debug, Clone, Copy, PartialEq, Eq, Structural)]
pub struct FailoverConfig {
    /// Seconds without an answer before a node counts as failed.
    pub failure_detection_timeout: u64,
    /// Failover attempts before an operator is needed.
    pub max_failover_attempts: u32,
    /// Seconds between failover attempts.
    pub failover_retry_interval: u64,
    /// Whether the jobs of a failed node move to the target.
    pub auto_reschedule_jobs: bool,
    /// Whether the runners of a failed node move to the target.
    pub auto_replace_runners: bool,
    /// Seconds between health checks.
    pub health_check_interval: u64,
}

impl FailoverConfig {
    /// Detection after 30 s, three attempts 10 s apart, jobs and runners
    /// moved, health checks every 15 s.
    pub fn default_config() -> (c: Self)
        ensures
            c == (FailoverConfig {
                failure_detection_timeout: 30,
                max_failover_attempts: 3,
                failover_retry_interval: 10,
                auto_reschedule_jobs: true,
                auto_replace_runners: true,
                health_check_interval: 15,
            }),
    {
        FailoverConfig {
            failure_detection_timeout: 30,
            max_failover_attempts: 3,
            failover_retry_interval: 10,
            auto_reschedule_jobs: true,
            auto_replace_runners: true,
            health_check_interval: 15,
        }
    }
}

/// Kinds of failure that start a failover.
#[derive(Debug, Clone, Copy, PartialEq, Eq, Structural)]
pub enum FailureType {
    NodeUnreachable,
    NodeUnhealthy,
    NetworkPartition,
    LeaderFailure,
    RunnerFailure,
    JobFailure,
    ResourceExhaustion,
}

/// How a failed node is failed over.
#[derive(Debug, Clone, Copy, PartialEq, Eq, Structural)]
pub enum FailoverStrategy {
    /// At once.
    Immediate,
    /// After waiting `max_retries` times `retry_interval` seconds for the
    /// node to recover.
    RetryThenFailover { max_retries: u32, retry_interval: u64 },
    /// After draining the node for at most `timeout` seconds.
    Graceful { timeout: u64 },
    /// By an operator.
    Manual,
}

/// The strategy for a kind of failure.
pub open spec fn strategy_for(f: FailureType) -> FailoverStrategy {
    match f {
        FailureType::NodeUnreachable => FailoverStrategy::RetryThenFailover { max_retries: 3, retry_interval: 10 },
        FailureType::NodeUnhealthy => FailoverStrategy::Graceful { timeout: 60 },
        FailureType::NetworkPartition => FailoverStrategy::RetryThenFailover { max_retries: 5, retry_interval: 15 },
        FailureType::LeaderFailure => FailoverStrategy::Immediate,
        FailureType::RunnerFailure => FailoverStrategy::Immediate,
        FailureType::JobFailure => FailoverStrategy::Immediate,
        FailureType::ResourceExhaustion => FailoverStrategy::Graceful { timeout: 30 },
    }
}

/// The strategy for a kind of failure: an unreachable node gets three
/// recovery checks 10 s apart and a partition five 15 s apart; an
/// unhealthy node a 60 s drain and resource exhaustion a 30 s drain; the
/// other failures are failed over at once.
pub fn determine_failover_strategy(failure_type: &FailureType) -> (s: FailoverStrategy)
    ensures
        s == strategy_for(*failure_type),
{
    match failure_type {
        FailureType::NodeUnreachable => FailoverStrategy::RetryThenFailover { max_retries: 3, retry_interval: 10 },
        FailureType::NodeUnhealthy => FailoverStrategy::Graceful { timeout: 60 },
        FailureType::NetworkPartition => FailoverStrategy::RetryThenFailover { max_retries: 5, retry_interval: 15 },
        FailureType::LeaderFailure => FailoverStrategy::Immediate,
        FailureType::RunnerFailure => FailoverStrategy::Immediate,
        FailureType::JobFailure => FailoverStrategy::Immediate,
        FailureType::ResourceExhaustion => FailoverStrategy::Graceful { timeout: 30 },
    }
}

/// What the failover manager announces.
#[allow(inconsistent_fields)]
#[derive(Debug, Clone)]
pub enum FailoverEvent {
    FailureDetected { node_id: u128, failure_type: FailureType, details: String, timestamp: u64 },
    FailoverInitiated {
        failed_node_id: u128,
        target_node_id: Option<u128>,
        strategy: FailoverStrategy,
        timestamp: u64,
    },
    FailoverCompleted {
        failed_node_id: u128,
        target_node_id: u128,
        jobs_migrated: u32,
        runners_migrated: u32,
        timestamp: u64,
    },
    FailoverFailed {
        failed_node_id: u128,
        target_node_id: Option<u128>,
        reason: String,
        attempt: u32,
        timestamp: u64,
    },
    /// `downtime` in milliseconds.
    NodeRecovered { node_id: u128, downtime: u64, timestamp: u64 },
    JobsRescheduled { failed_node_id: u128, job_ids: Vec<u128>, target_nodes: Vec<u128>, timestamp: u64 },
}

/// The value of a failover event.
#[allow(inconsistent_fields)]
pub enum FailoverEventView {
    FailureDetected { node_id: u128, failure_type: FailureType, details: Seq<char>, timestamp: u64 },
    FailoverInitiated {
        failed_node_id: u128,
        target_node_id: Option<u128>,
        strategy: FailoverStrategy,
        timestamp: u64,
    },
    FailoverCompleted {
        failed_node_id: u128,
        target_node_id: u128,
        jobs_migrated: u32,
        runners_migrated: u32,
        timestamp: u64,
    },
    FailoverFailed {
        failed_node_id: u128,
        target_node_id: Option<u128>,
        reason: Seq<char>,
        attempt: u32,
        timestamp: u64,
    },
    NodeRecovered { node_id: u128, downtime: u64, timestamp: u64 },
    JobsRescheduled { failed_node_id: u128, job_ids: Seq<u128>, target_nodes: Seq<u128>, timestamp: u64 },
}

impl View for FailoverEvent {
    type V = FailoverEventView;

    open spec fn view(&self) -> FailoverEventView {
        match self {
            FailoverEvent::FailureDetected { node_id, failure_type, details, timestamp } => {
                FailoverEventView::FailureDetected {
                    node_id: *node_id,
                    failure_type: *failure_type,
                    details: details@,
                    timestamp: *timestamp,
                }
            },
            FailoverEvent::FailoverInitiated { failed_node_id, target_node_id, strategy, timestamp } => {
                FailoverEventView::FailoverInitiated {
                    failed_node_id: *failed_node_id,
                    target_node_id: *target_node_id,
                    strategy: *strategy,
                    timestamp: *timestamp,
                }
            },
            FailoverEvent::FailoverCompleted {
                failed_node_id,
                target_node_id,
                jobs_migrated,
                runners_migrated,
                timestamp,
            } => FailoverEventView::FailoverCompleted {
                failed_node_id: *failed_node_id,
                target_node_id: *target_node_id,
                jobs_migrated: *jobs_migrated,
                runners_migrated: *runners_migrated,
                timestamp: *timestamp,
            },
            FailoverEvent::FailoverFailed { failed_node_id, target_node_id, reason, attempt, timestamp } => {
                FailoverEventView::FailoverFailed {
                    failed_node_id: *failed_node_id,
                    target_node_id: *target_node_id,
                    reason: reason@,
                    attempt: *attempt,
                    timestamp: *timestamp,
                }
            },
            FailoverEvent::NodeRecovered { node_id, downtime, timestamp } => FailoverEventView::NodeRecovered {
                node_id: *node_id,
                downtime: *downtime,
                timestamp: *timestamp,
            },
            FailoverEvent::JobsRescheduled { failed_node_id, job_ids, target_nodes, timestamp } => {
                FailoverEventView::JobsRescheduled {
                    failed_node_id: *failed_node_id,
                    job_ids: job_ids@,
                    target_nodes: target_nodes@,
                    timestamp: *timestamp,
                }
            },
        }
    }
}

impl FailoverEvent {
    /// Name of the kind of event.
    pub fn event_type(&self) -> (s: &'static str)
        ensures
            self is FailureDetected ==> s@ == "failover.failure_detected"@,
            self is FailoverInitiated ==> s@ == "failover.failover_initiated"@,
            self is FailoverCompleted ==> s@ == "failover.failover_completed"@,
            self is FailoverFailed ==> s@ == "failover.failover_failed"@,
            self is NodeRecovered ==> s@ == "failover.node_recovered"@,
            self is JobsRescheduled ==> s@ == "failover.jobs_rescheduled"@,
    {
        let s = match self {
            FailoverEvent::FailureDetected { .. } => "failover.failure_detected",
            FailoverEvent::FailoverInitiated { .. } => "failover.failover_initiated",
            FailoverEvent::FailoverCompleted { .. } => "failover.failover_completed",
            FailoverEvent::FailoverFailed { .. } => "failover.failover_failed",
            FailoverEvent::NodeRecovered { .. } => "failover.node_recovered",
            FailoverEvent::JobsRescheduled { .. } => "failover.jobs_rescheduled",
        };
        s
    }

    /// The node the event is about.
    pub fn aggregate_id(&self) -> (id: u128)
        ensures
            id == event_node(self@),
    {
        match self {
            FailoverEvent::FailureDetected { node_id, .. } => *node_id,
            FailoverEvent::FailoverInitiated { failed_node_id, .. } => *failed_node_id,
            FailoverEvent::FailoverCompleted { failed_node_id, .. } => *failed_node_id,
            FailoverEvent::FailoverFailed { failed_node_id, .. } => *failed_node_id,
            FailoverEvent::NodeRecovered { node_id, .. } => *node_id,
            FailoverEvent::JobsRescheduled { failed_node_id, .. } => *failed_node_id,
        }
    }

    /// When the event happened.
    pub fn occurred_at(&self) -> (t: u64)
        ensures
            t == event_time(self@),
    {
        match self {
            FailoverEvent::FailureDetected { timestamp, .. } => *timestamp,
            FailoverEvent::FailoverInitiated { timestamp, .. } => *timestamp,
            FailoverEvent::FailoverCompleted { timestamp, .. } => *timestamp,
            FailoverEvent::FailoverFailed { timestamp, .. } => *timestamp,
            FailoverEvent::NodeRecovered { timestamp, .. } => *timestamp,
            FailoverEvent::JobsRescheduled { timestamp, .. } => *timestamp,
        }
    }

    /// Events of one node share its identifier as correlation.
    pub fn correlation_id(&self) -> (id: u128)
        ensures
            id == event_node(self@),
    {
        self.aggregate_id()
    }
}

/// The node an event is about.
pub open spec fn event_node(e: FailoverEventView) -> u128 {
    match e {
        FailoverEventView::FailureDetected { node_id, .. } => node_id,
        FailoverEventView::FailoverInitiated { failed_node_id, .. } => failed_node_id,
        FailoverEventView::FailoverCompleted { failed_node_id, .. } => failed_node_id,
        FailoverEventView::FailoverFailed { failed_node_id, .. } => failed_node_id,
        FailoverEventView::NodeRecovered { node_id, .. } => node_id,
        FailoverEventView::JobsRescheduled { failed_node_id, .. } => failed_node_id,
    }
}

/// When an event happened.
pub open spec fn event_time(e: FailoverEventView) -> u64 {
    match e {
        FailoverEventView::FailureDetected { timestamp, .. } => timestamp,
        FailoverEventView::FailoverInitiated { timestamp, .. } => timestamp,
        FailoverEventView::FailoverCompleted { timestamp, .. } => timestamp,
        FailoverEventView::FailoverFailed { timestamp, .. } => timestamp,
        FailoverEventView::NodeRecovered { timestamp, .. } => timestamp,
        FailoverEventView::JobsRescheduled { timestamp, .. } => timestamp,
    }
}

/// Views of a list of events.
pub open spec fn event_views(s: Seq<FailoverEvent>) -> Seq<FailoverEventView> {
    s.map_values(|e: FailoverEvent| e@)
}

/// Record of a failed node.
#[derive(Debug, Clone)]
pub struct FailedNode {
    pub id: u128,
    pub failure_type: FailureType,
    pub failed_at: u64,
    pub failover_attempts: u32,
    pub strategy: FailoverStrategy,
    pub running_jobs: Vec<u128>,
    pub runners: Vec<u128>,
    pub target_node: Option<u128>,
}

/// Health of a monitored node; usages in whole percent, latency in
/// milliseconds.
#[derive(Debug, Clone, Copy, PartialEq, Eq, Structural)]
pub struct NodeHealth {
    pub id: u128,
    pub reachable: bool,
    pub last_health_check: u64,
    pub consecutive_failures: u32,
    pub cpu_usage: u64,
    pub memory_usage: u64,
    pub disk_usage: u64,
    pub network_latency: u64,
}

/// What the caller of the failover manager does next.
#[derive(Debug, Clone, Copy, PartialEq, Eq, Structural)]
pub enum FailoverAction {
    /// Nothing more.
    Done,
    /// Up to `max_retries` times: wait `retry_interval` seconds and stop if
    /// the node has recovered; then fail over to the target.
    AwaitRecovery { failed_node_id: u128, target_node_id: Option<u128>, max_retries: u32, retry_interval: u64 },
    /// Drain the node for at most `timeout` seconds, then fail over to the
    /// target.
    DrainThenFailover { failed_node_id: u128, target_node_id: Option<u128>, timeout: u64 },
    /// An operator has to fail the node over.
    ManualIntervention { failed_node_id: u128 },
    /// Another failover attempt is due after `delay` seconds.
    RetryScheduled { failed_node_id: u128, delay: u64 },
}

/// Whether a node can take over: reachable with no failed check.
pub open spec fn is_candidate(h: NodeHealth) -> bool {
    h.reachable && h.consecutive_failures == 0
}

/// Load of a node: CPU plus memory usage.
pub open spec fn load_of(h: NodeHealth) -> int {
    h.cpu_usage + h.memory_usage
}

/// The jobs running on a node, as far as the manager knows: none.
pub fn get_running_jobs_for_node(_node_id: u128) -> (jobs: Vec<u128>)
    ensures
        jobs@.len() == 0,
{
    Vec::new()
}

/// The runners of a node, as far as the manager knows: none.
pub fn get_runners_for_node(_node_id: u128) -> (runners: Vec<u128>)
    ensures
        runners@.len() == 0,
{
    Vec::new()
}

/// The failover manager.
pub struct FailoverManager {
    config: FailoverConfig,
    failed_nodes: IdTable<FailedNode>,
    node_health: IdTable<NodeHealth>,
    events: Vec<FailoverEvent>,
}

impl FailoverManager {
    /// Records of failed nodes.
    pub closed spec fn failed(&self) -> Seq<(u128, FailedNode)> {
        self.failed_nodes.entries()
    }

    /// Health of monitored nodes.
    pub closed spec fn health(&self) -> Seq<(u128, NodeHealth)> {
        self.node_health.entries()
    }

    /// Events not yet handed out.
    pub closed spec fn outbox(&self) -> Seq<FailoverEventView> {
        event_views(self.events@)
    }

    /// The settings.
    pub closed spec fn settings(&self) -> FailoverConfig {
        self.config
    }

    /// One record per node.
    pub closed spec fn well_formed(&self) -> bool {
        self.failed_nodes.well_formed() && self.node_health.well_formed()
    }

    /// A manager with no monitored and no failed node.
    pub fn new(config: FailoverConfig) -> (m: Self)
        ensures
            m.well_formed(),
            m.settings() == config,
            m.failed().len() == 0,
            m.health().len() == 0,
            m.outbox().len() == 0,
    {
        FailoverManager { config, failed_nodes: IdTable::new(), node_health: IdTable::new(), events: Vec::new() }
    }

    fn publish(&mut self, e: FailoverEvent)
        ensures
            final(self).outbox() == old(self).outbox().push(e@),
            final(self).failed() == old(self).failed(),
            final(self).health() == old(self).health(),
            final(self).settings() == old(self).settings(),
            final(self).well_formed() == old(self).well_formed(),
    {
        let ghost before = self.events@;
        self.events.push(e);
        proof {
            assert(event_views(self.events@) =~= event_views(before).push(e@));
        }
    }

    /// Hands out the announced events, oldest first.
    pub fn drain_events(&mut self) -> (es: Vec<FailoverEvent>)
        ensures
            event_views(es@) == old(self).outbox(),
            final(self).outbox().len() == 0,
            final(self).failed() == old(self).failed(),
            final(self).health() == old(self).health(),
            final(self).settings() == old(self).settings(),
            final(self).well_formed() == old(self).well_formed(),
    {
        let mut out: Vec<FailoverEvent> = Vec::new();
        std::mem::swap(&mut out, &mut self.events);
        proof {
            assert(event_views(self.events@) =~= Seq::<FailoverEventView>::empty());
        }
        out
    }

    /// Starts monitoring `node_id` at `now`: reachable, no failed check, no
    /// usage yet.
    pub fn register_node_at(&mut self, node_id: u128, now: u64)
        requires
            old(self).well_formed(),
        ensures
            final(self).well_formed(),
            final(self).health() == id_upserted(
                old(self).health(),
                node_id,
                NodeHealth {
                    id: node_id,
                    reachable: true,
                    last_health_check: now,
                    consecutive_failures: 0,
                    cpu_usage: 0,
                    memory_usage: 0,
                    disk_usage: 0,
                    network_latency: 0,
                },
            ),
            final(self).failed() == old(self).failed(),
            final(self).outbox() == old(self).outbox(),
            final(self).settings() == old(self).settings(),
    {
        let h = NodeHealth {
            id: node_id,
            reachable: true,
            last_health_check: now,
            consecutive_failures: 0,
            cpu_usage: 0,
            memory_usage: 0,
            disk_usage: 0,
            network_latency: 0,
        };
        self.node_health.insert(node_id, h);
    }

    /// Starts monitoring `node_id` now.
    pub fn register_node(&mut self, node_id: u128)
        requires
            old(self).well_formed(),
        ensures
            final(self).well_formed(),
            has_id(final(self).health(), node_id),
            value_at_id(final(self).health(), node_id).reachable,
            value_at_id(final(self).health(), node_id).consecutive_failures == 0,
            final(self).failed() == old(self).failed(),
    {
        let now = crate::platform::now_millis();
        self.register_node_at(node_id, now);
        proof {
            crate::ids::lemma_id_upserted_unique(
                old(self).health(),
                node_id,
                NodeHealth {
                    id: node_id,
                    reachable: true,
                    last_health_check: now,
                    consecutive_failures: 0,
                    cpu_usage: 0,
                    memory_usage: 0,
                    disk_usage: 0,
                    network_latency: 0,
                },
            );
        }
    }

    /// Stops monitoring `node_id` and forgets its failure.
    pub fn unregister_node(&mut self, node_id: u128)
        requires
            old(self).well_formed(),
        ensures
            final(self).well_formed(),
            final(self).health() == without_id(old(self).health(), node_id),
            final(self).failed() == without_id(old(self).failed(), node_id),
            final(self).outbox() == old(self).outbox(),
            final(self).settings() == old(self).settings(),
    {
        let _ = self.node_health.remove(node_id);
        let _ = self.failed_nodes.remove(node_id);
    }

    /// Health of `node_id`.
    pub fn node_health(&self, node_id: u128) -> (r: Option<NodeHealth>)
        requires
            self.well_formed(),
        ensures
            has_id(self.health(), node_id) ==> r == Some(value_at_id(self.health(), node_id)),
            !has_id(self.health(), node_id) ==> r is None,
    {
        match self.node_health.get(node_id) {
            Some(h) => Some(*h),
            None => None,
        }
    }

    /// Failover attempts recorded for `node_id`; 0 without a record.
    pub fn failover_attempts(&self, node_id: u128) -> (n: u32)
        requires
            self.well_formed(),
        ensures
            n == attempts_of(self.failed(), node_id),
    {
        match self.failed_nodes.get(node_id) {
            Some(f) => f.failover_attempts,
            None => 0,
        }
    }

    /// Whether `node_id` has a failure record.
    pub fn is_failed(&self, node_id: u128) -> (b: bool)
        requires
            self.well_formed(),
        ensures
            b == has_id(self.failed(), node_id),
    {
        self.failed_nodes.find(node_id).is_some()
    }

    /// The least loaded node that can take over: reachable, without failed
    /// checks, and with the least CPU plus memory usage (the first such in
    /// the order of registration).
    pub fn find_target_node(&self) -> (t: Option<u128>)
        requires
            self.well_formed(),
        ensures
            t is None <==> forall|i: int| 0 <= i < self.health().len() ==> !is_candidate(#[trigger] self.health()[i].1),
            t matches Some(id) ==> exists|i: int| {
                &&& 0 <= i < self.health().len()
                &&& #[trigger] self.health()[i].0 == id
                &&& is_candidate(self.health()[i].1)
                &&& forall|j: int| 0 <= j < self.health().len() && is_candidate(#[trigger] self.health()[j].1) ==> load_of(
                    self.health()[i].1,
                ) <= load_of(self.health()[j].1)
            },
    {
        let mut best: Option<usize> = None;
        let mut i: usize = 0;
        let ghost h = self.health();
        while i < self.node_health.len()
            invariant
                h == self.health(),
                i <= h.len(),
                best is None ==> forall|j: int| 0 <= j < i ==> !is_candidate(#[trigger] h[j].1),
                best matches Some(b) ==> b < i && is_candidate(h[b as int].1) && forall|j: int|
                    0 <= j < i && is_candidate(#[trigger] h[j].1) ==> load_of(h[b as int].1) <= load_of(h[j].1),
            decreases h.len() - i,
        {
            let e = self.node_health.entry_at(i);
            if e.1.reachable && e.1.consecutive_failures == 0 {
                let load: u128 = e.1.cpu_usage as u128 + e.1.memory_usage as u128;
                match best {
                    None => {
                        best = Some(i);
                    },
                    Some(b) => {
                        let cur = self.node_health.entry_at(b);
                        let best_load: u128 = cur.1.cpu_usage as u128 + cur.1.memory_usage as u128;
                        if load < best_load {
                            best = Some(i);
                        }
                    },
                }
            }
            i = i + 1;
        }
        match best {
            Some(b) => {
                let e = self.node_health.entry_at(b);
                Some(e.0)
            },
            None => None,
        }
    }

    /// Whether `node_id` is monitored and reachable again.
    pub fn check_node_recovery(&self, node_id: u128) -> (b: bool)
        requires
            self.well_formed(),
        ensures
            b == (has_id(self.health(), node_id) && value_at_id(self.health(), node_id).reachable),
    {
        match self.node_health.get(node_id) {
            Some(h) => h.reachable,
            None => false,
        }
    }

    /// Records the outcome of a health probe of `node_id` at `now`.  A
    /// healthy node is reachable with no failed check and the probe's
    /// figures; an unhealthy one counts one more failed check, and at the
    /// third it is marked unreachable and a `NodeUnhealthy` failure is
    /// announced.  An unmonitored node is ignored.
    pub fn perform_health_check_at(&mut self, node_id: u128, is_healthy: bool, now: u64)
        requires
            old(self).well_formed(),
            has_id(old(self).health(), node_id) ==> value_at_id(old(self).health(), node_id).consecutive_failures
                < u32::MAX,
        ensures
            final(self).well_formed(),
            final(self).failed() == old(self).failed(),
            final(self).settings() == old(self).settings(),
            !has_id(old(self).health(), node_id) ==> final(self).health() == old(self).health()
                && final(self).outbox() == old(self).outbox(),
            has_id(old(self).health(), node_id) && is_healthy ==> {
                let h = value_at_id(old(self).health(), node_id);
                &&& final(self).health() == id_upserted(
                    old(self).health(),
                    node_id,
                    NodeHealth {
                        reachable: true,
                        last_health_check: now,
                        consecutive_failures: 0,
                        cpu_usage: 50,
                        memory_usage: 60,
                        disk_usage: 30,
                        network_latency: 10,
                        ..h
                    },
                )
                &&& final(self).outbox() == old(self).outbox()
            },
            has_id(old(self).health(), node_id) && !is_healthy ==> {
                let h = value_at_id(old(self).health(), node_id);
                let n = (h.consecutive_failures + 1) as u32;
                &&& final(self).health() == id_upserted(
                    old(self).health(),
                    node_id,
                    NodeHealth { consecutive_failures: n, reachable: if n >= 3 { false } else { h.reachable }, ..h },
                )
                &&& n >= 3 ==> final(self).outbox() == old(self).outbox().push(
                    FailoverEventView::FailureDetected {
                        node_id,
                        failure_type: FailureType::NodeUnhealthy,
                        details: "Health check failed "@ + decimal(n as nat) + " times"@,
                        timestamp: now,
                    },
                )
                &&& n < 3 ==> final(self).outbox() == old(self).outbox()
            },
    {
        match self.node_health.find(node_id) {
            None => {},
            Some(i) => {
                let h = self.node_health.entry_at(i).1;
                proof {
                    crate::ids::lemma_id_position(self.node_health.entries(), node_id, i as int);
                }
                if is_healthy {
                    let nh = NodeHealth {
                        reachable: true,
                        last_health_check: now,
                        consecutive_failures: 0,
                        cpu_usage: 50,
                        memory_usage: 60,
                        disk_usage: 30,
                        network_latency: 10,
                        ..h
                    };
                    self.node_health.insert(node_id, nh);
                } else {
                    let n = h.consecutive_failures + 1;
                    let reachable = if n >= 3 {
                        false
                    } else {
                        h.reachable
                    };
                    let nh = NodeHealth { consecutive_failures: n, reachable, ..h };
                    self.node_health.insert(node_id, nh);
                    if n >= 3 {
                        let mut details = crate::text::text_with_number("Health check failed ", n as u64);
                        details.append(" times");
                        self.publish(
                            FailoverEvent::FailureDetected {
                                node_id,
                                failure_type: FailureType::NodeUnhealthy,
                                details,
                                timestamp: now,
                            },
                        );
                    }
                }
            },
        }
    }

    /// Announces that the failover of `failed_node_id` failed at attempt
    /// `attempt`, records the attempt, and says what comes next: another
    /// attempt after the retry interval while attempts remain, else an
    /// operator.
    pub fn handle_failover_failure_at(
        &mut self,
        failed_node_id: u128,
        target_node_id: Option<u128>,
        reason: String,
        attempt: u32,
        now: u64,
    ) -> (a: FailoverAction)
        requires
            old(self).well_formed(),
        ensures
            final(self).well_formed(),
            final(self).health() == old(self).health(),
            final(self).settings() == old(self).settings(),
            has_id(old(self).failed(), failed_node_id) ==> final(self).failed() == crate::ids::id_upserted(
                old(self).failed(),
                failed_node_id,
                FailedNode { failover_attempts: attempt, ..value_at_id(old(self).failed(), failed_node_id) },
            ),
            !has_id(old(self).failed(), failed_node_id) ==> final(self).failed() == old(self).failed(),
            final(self).outbox() == old(self).outbox().push(
                FailoverEventView::FailoverFailed {
                    failed_node_id,
                    target_node_id,
                    reason: reason@,
                    attempt,
                    timestamp: now,
                },
            ),
            attempt < old(self).settings().max_failover_attempts ==> a == (FailoverAction::RetryScheduled {
                failed_node_id,
                delay: old(self).settings().failover_retry_interval,
            }),
            attempt >= old(self).settings().max_failover_attempts ==> a == (FailoverAction::ManualIntervention {
                failed_node_id,
            }),
    {
        match self.failed_nodes.find(failed_node_id) {
            Some(i) => {
                proof {
                    crate::ids::lemma_id_position(self.failed_nodes.entries(), failed_node_id, i as int);
                }
                let r = self.failed_nodes.value_mut_at(i);
                r.failover_attempts = attempt;
            },
            None => {},
        }
        self.publish(
            FailoverEvent::FailoverFailed { failed_node_id, target_node_id, reason, attempt, timestamp: now },
        );
        if attempt < self.config.max_failover_attempts {
            FailoverAction::RetryScheduled { failed_node_id, delay: self.config.failover_retry_interval }
        } else {
            FailoverAction::ManualIntervention { failed_node_id }
        }
    }

    /// Moves `job_ids` to `target_node_id`: none to move is 0; otherwise
    /// their number, announced in a `JobsRescheduled` event that names the
    /// target node in both places.
    fn migrate_jobs(&mut self, job_ids: &Vec<u128>, target_node_id: u128, now: u64) -> (n: u32)
        ensures
            n == (job_ids@.len() as u32),
            final(self).failed() == old(self).failed(),
            final(self).health() == old(self).health(),
            final(self).settings() == old(self).settings(),
            final(self).well_formed() == old(self).well_formed(),
            job_ids@.len() == 0 ==> final(self).outbox() == old(self).outbox(),
            job_ids@.len() > 0 ==> final(self).outbox() == old(self).outbox().push(
                FailoverEventView::JobsRescheduled {
                    failed_node_id: target_node_id,
                    job_ids: job_ids@,
                    target_nodes: seq![target_node_id],
                    timestamp: now,
                },
            ),
    {
        if job_ids.len() == 0 {
            return 0;
        }
        let n = job_ids.len() as u32;
        let mut ids: Vec<u128> = Vec::new();
        let mut i: usize = 0;
        while i < job_ids.len()
            invariant
                i <= job_ids@.len(),
                ids@ == job_ids@.take(i as int),
            decreases job_ids@.len() - i,
        {
            ids.push(job_ids[i]);
            proof {
                assert(ids@ =~= job_ids@.take(i as int + 1));
            }
            i = i + 1;
        }
        proof {
            assert(job_ids@.take(job_ids@.len() as int) =~= job_ids@);
        }
        let mut targets: Vec<u128> = Vec::new();
        targets.push(target_node_id);
        proof {
            assert(targets@ =~= seq![target_node_id]);
        }
        self.publish(
            FailoverEvent::JobsRescheduled {
                failed_node_id: target_node_id,
                job_ids: ids,
                target_nodes: targets,
                timestamp: now,
            },
        );
        n
    }

    /// Fails `failed_node_id` over to `target_node_id` at `now`.  Without a
    /// target the failover fails at attempt 1.  Without a record of the
    /// node it is refused with `ValidationError`.  Otherwise the node's
    /// jobs and runners move to the target (as the settings allow), the
    /// record names the target and counts one more attempt, and the
    /// completion is announced.
    pub fn execute_immediate_failover_at(&mut self, failed_node_id: u128, target_node_id: Option<u128>, now: u64) -> (r:
        Result<FailoverAction, AppError>)
        requires
            old(self).well_formed(),
            attempts_of(old(self).failed(), failed_node_id) < u32::MAX,
        ensures
            final(self).well_formed(),
            final(self).health() == old(self).health(),
            final(self).settings() == old(self).settings(),
            target_node_id is None ==> {
                &&& 1 < old(self).settings().max_failover_attempts ==> r == Ok::<FailoverAction, AppError>(
                    FailoverAction::RetryScheduled {
                        failed_node_id,
                        delay: old(self).settings().failover_retry_interval,
                    },
                )
                &&& 1 >= old(self).settings().max_failover_attempts ==> r == Ok::<FailoverAction, AppError>(
                    FailoverAction::ManualIntervention { failed_node_id },
                )
                &&& final(self).outbox() == old(self).outbox().push(
                    FailoverEventView::FailoverFailed {
                        failed_node_id,
                        target_node_id: None,
                        reason: "No target node available"@,
                        attempt: 1,
                        timestamp: now,
                    },
                )
                &&& has_id(old(self).failed(), failed_node_id) ==> final(self).failed() == id_upserted(
                    old(self).failed(),
                    failed_node_id,
                    FailedNode { failover_attempts: 1, ..value_at_id(old(self).failed(), failed_node_id) },
                )
                &&& !has_id(old(self).failed(), failed_node_id) ==> final(self).failed() == old(self).failed()
            },
            target_node_id is Some && !has_id(old(self).failed(), failed_node_id) ==> {
                &&& r matches Err(AppError::ValidationError(_))
                &&& final(self).failed() == old(self).failed()
                &&& final(self).outbox() == old(self).outbox()
            },
            target_node_id is Some && has_id(old(self).failed(), failed_node_id) ==> {
                let t = target_node_id->0;
                let f = value_at_id(old(self).failed(), failed_node_id);
                let moving = old(self).settings().auto_reschedule_jobs && f.running_jobs@.len() > 0;
                let jobs: u32 = if old(self).settings().auto_reschedule_jobs {
                    (f.running_jobs@.len() as u32)
                } else {
                    0
                };
                let runners: u32 = if old(self).settings().auto_replace_runners {
                    (f.runners@.len() as u32)
                } else {
                    0
                };
                let completed = FailoverEventView::FailoverCompleted {
                    failed_node_id,
                    target_node_id: t,
                    jobs_migrated: jobs,
                    runners_migrated: runners,
                    timestamp: now,
                };
                &&& r == Ok::<FailoverAction, AppError>(FailoverAction::Done)
                &&& final(self).failed() == id_upserted(
                    old(self).failed(),
                    failed_node_id,
                    FailedNode { target_node: Some(t), failover_attempts: (f.failover_attempts + 1) as u32, ..f },
                )
                &&& moving ==> final(self).outbox() == old(self).outbox().push(
                    FailoverEventView::JobsRescheduled {
                        failed_node_id: t,
                        job_ids: f.running_jobs@,
                        target_nodes: seq![t],
                        timestamp: now,
                    },
                ).push(completed)
                &&& !moving ==> final(self).outbox() == old(self).outbox().push(completed)
            },
    {
        let target = match target_node_id {
            None => {
                let a = self.handle_failover_failure_at(
                    failed_node_id,
                    None,
                    String::from_str("No target node available"),
                    1,
                    now,
                );
                return Ok(a);
            },
            Some(t) => t,
        };
        let i = match self.failed_nodes.find(failed_node_id) {
            None => {
                return Err(AppError::ValidationError(String::from_str("Failed node not found")));
            },
            Some(i) => i,
        };
        let ghost f0 = self.failed_nodes.entries()[i as int].1;
        let ghost failed0 = self.failed_nodes.entries();
        let jobs_migrated = if self.config.auto_reschedule_jobs {
            let e = self.failed_nodes.entry_at(i);
            let mut jobs: Vec<u128> = Vec::new();
            let mut k: usize = 0;
            while k < e.1.running_jobs.len()
                invariant
                    k <= e.1.running_jobs@.len(),
                    jobs@ == e.1.running_jobs@.take(k as int),
                decreases e.1.running_jobs@.len() - k,
            {
                jobs.push(e.1.running_jobs[k]);
                proof {
                    assert(jobs@ =~= e.1.running_jobs@.take(k as int + 1));
                }
                k = k + 1;
            }
            proof {
                assert(e.1.running_jobs@.take(e.1.running_jobs@.len() as int) =~= e.1.running_jobs@);
            }
            self.migrate_jobs(&jobs, target, now)
        } else {
            0
        };
        let runners_migrated = if self.config.auto_replace_runners {
            let e = self.failed_nodes.entry_at(i);
            if e.1.runners.len() == 0 {
                0
            } else {
                e.1.runners.len() as u32
            }
        } else {
            0
        };
        let r = self.failed_nodes.value_mut_at(i);
        r.target_node = Some(target);
        r.failover_attempts = r.failover_attempts + 1;
        proof {
            assert(self.failed_nodes.entries() =~= id_upserted(
                failed0,
                failed_node_id,
                FailedNode { target_node: Some(target), failover_attempts: (f0.failover_attempts + 1) as u32, ..f0 },
            ));
        }
        self.publish(
            FailoverEvent::FailoverCompleted {
                failed_node_id,
                target_node_id: target,
                jobs_migrated,
                runners_migrated,
                timestamp: now,
            },
        );
        Ok(FailoverAction::Done)
    }

    /// Reports a failure of `node_id` now.
    pub fn report_failure(
        &mut self,
        node_id: u128,
        failure_type: FailureType,
        details: String,
        is_leader: bool,
    ) -> (r: Result<FailoverAction, AppError>)
        requires
            old(self).well_formed(),
        ensures
            final(self).well_formed(),
            final(self).health() == old(self).health(),
            !is_leader ==> r == Ok::<FailoverAction, AppError>(FailoverAction::Done) && final(self).failed()
                == old(self).failed() && final(self).outbox() == old(self).outbox(),
            is_leader ==> r is Ok && has_id(final(self).failed(), node_id) && value_at_id(final(self).failed(), node_id).failure_type
                == failure_type && value_at_id(final(self).failed(), node_id).strategy == strategy_for(failure_type),
            is_leader ==> final(self).outbox().len() >= old(self).outbox().len() + 2,
            is_leader ==> (strategy_for(failure_type) matches FailoverStrategy::RetryThenFailover {
                max_retries,
                retry_interval,
            } ==> r matches Ok(FailoverAction::AwaitRecovery { failed_node_id, max_retries: m, retry_interval: ri, .. })
                && failed_node_id == node_id && m == max_retries && ri == retry_interval),
            is_leader ==> (strategy_for(failure_type) matches FailoverStrategy::Graceful { timeout } ==> r matches Ok(
                FailoverAction::DrainThenFailover { failed_node_id, timeout: t, .. },
            ) && failed_node_id == node_id && t == timeout),
    {
        let now = crate::platform::now_millis();
        self.report_failure_at(node_id, failure_type, details, is_leader, now)
    }

    /// Handles the report at `now` that `node_id` failed with
    /// `failure_type`.  Only the leader acts: elsewhere the report is
    /// ignored.  The leader announces the failure, records the node with
    /// the strategy for its kind of failure, picks the least loaded healthy
    /// node as target, announces the failover, and either fails over at
    /// once or says what to wait for first.
    pub fn report_failure_at(
        &mut self,
        node_id: u128,
        failure_type: FailureType,
        details: String,
        is_leader: bool,
        now: u64,
    ) -> (r: Result<FailoverAction, AppError>)
        requires
            old(self).well_formed(),
        ensures
            final(self).well_formed(),
            final(self).health() == old(self).health(),
            !is_leader ==> r == Ok::<FailoverAction, AppError>(FailoverAction::Done) && final(self).failed()
                == old(self).failed() && final(self).outbox() == old(self).outbox(),
            is_leader ==> {
                &&& r is Ok
                &&& has_id(final(self).failed(), node_id)
                &&& value_at_id(final(self).failed(), node_id).failure_type == failure_type
                &&& value_at_id(final(self).failed(), node_id).strategy == strategy_for(failure_type)
                &&& value_at_id(final(self).failed(), node_id).failed_at == now
                &&& final(self).outbox().len() >= old(self).outbox().len() + 2
                &&& final(self).outbox()[old(self).outbox().len() as int] == (FailoverEventView::FailureDetected {
                    node_id,
                    failure_type,
                    details: details@,
                    timestamp: now,
                })
                &&& final(self).outbox()[old(self).outbox().len() + 1int] matches FailoverEventView::FailoverInitiated {
                    failed_node_id,
                    strategy,
                    ..
                } && failed_node_id == node_id && strategy == strategy_for(failure_type)
                &&& strategy_for(failure_type) matches FailoverStrategy::RetryThenFailover {
                    max_retries,
                    retry_interval,
                } ==> r matches Ok(FailoverAction::AwaitRecovery { failed_node_id, max_retries: m, retry_interval: ri, .. })
                    && failed_node_id == node_id && m == max_retries && ri == retry_interval
                &&& strategy_for(failure_type) matches FailoverStrategy::Graceful { timeout } ==> r matches Ok(
                    FailoverAction::DrainThenFailover { failed_node_id, timeout: t, .. },
                ) && failed_node_id == node_id && t == timeout
            },
    {
        if !is_leader {
            return Ok(FailoverAction::Done);
        }
        let d = details.clone();
        self.publish(FailoverEvent::FailureDetected { node_id, failure_type, details: d, timestamp: now });
        let strategy = determine_failover_strategy(&failure_type);
        let record = FailedNode {
            id: node_id,
            failure_type,
            failed_at: now,
            failover_attempts: 0,
            strategy,
            running_jobs: get_running_jobs_for_node(node_id),
            runners: get_runners_for_node(node_id),
            target_node: None,
        };
        proof {
            crate::ids::lemma_id_upserted_unique(self.failed_nodes.entries(), node_id, record);
        }
        self.failed_nodes.insert(node_id, record);
        let target = self.find_target_node();
        self.publish(
            FailoverEvent::FailoverInitiated { failed_node_id: node_id, target_node_id: target, strategy, timestamp: now },
        );
        match strategy {
            FailoverStrategy::Immediate => {
                let ghost failed1 = self.failed();
                let r = self.execute_immediate_failover_at(node_id, target, now);
                proof {
                    let rec1 = value_at_id(failed1, node_id);
                    match target {
                        None => {
                            crate::ids::lemma_id_upserted_unique(
                                failed1,
                                node_id,
                                FailedNode { failover_attempts: 1, ..rec1 },
                            );
                        },
                        Some(t) => {
                            crate::ids::lemma_id_upserted_unique(
                                failed1,
                                node_id,
                                FailedNode { target_node: Some(t), failover_attempts: (rec1.failover_attempts + 1) as u32, ..rec1 },
                            );
                        },
                    }
                }
                r
            },
            FailoverStrategy::RetryThenFailover { max_retries, retry_interval } => Ok(
                FailoverAction::AwaitRecovery { failed_node_id: node_id, target_node_id: target, max_retries, retry_interval },
            ),
            FailoverStrategy::Graceful { timeout } => Ok(
                FailoverAction::DrainThenFailover { failed_node_id: node_id, target_node_id: target, timeout },
            ),
            FailoverStrategy::Manual => Ok(FailoverAction::ManualIntervention { failed_node_id: node_id }),
        }
    }

    /// Ends the failure of `node_id` at `now`: its record goes and its
    /// recovery is announced with the time it was down (0 without a record,
    /// or with a record dated later than `now`).
    pub fn handle_node_recovery_at(&mut self, node_id: u128, now: u64)
        requires
            old(self).well_formed(),
        ensures
            final(self).well_formed(),
            final(self).failed() == without_id(old(self).failed(), node_id),
            final(self).health() == old(self).health(),
            final(self).settings() == old(self).settings(),
            final(self).outbox() == old(self).outbox().push(
                FailoverEventView::NodeRecovered {
                    node_id,
                    downtime: if has_id(old(self).failed(), node_id) && now >= value_at_id(
                        old(self).failed(),
                        node_id,
                    ).failed_at {
                        (now - value_at_id(old(self).failed(), node_id).failed_at) as u64
                    } else {
                        0
                    },
                    timestamp: now,
                },
            ),
    {
        let downtime = match self.failed_nodes.remove(node_id) {
            Some(f) => if now >= f.failed_at {
                now - f.failed_at
            } else {
                0
            },
            None => 0,
        };
        self.publish(FailoverEvent::NodeRecovered { node_id, downtime, timestamp: now });
    }
}

/// Failover attempts recorded for a node; 0 without a record.
pub open spec fn attempts_of(s: Seq<(u128, FailedNode)>, id: u128) -> u32 {
    if has_id(s, id) {
        value_at_id(s, id).failover_attempts
    } else {
        0
    }
}

} // verus!
