//! The control plane master: its settings, its life cycle and its
//! high-availability parts.  With high availability on, leadership,
//! failover, snapshots and idempotent execution are each run by their
//! manager; with it off, the plane acts as its own leader and lets every job
//! run.  Starting the cluster services and the job scheduler is the
//! caller's part; the state changes around it are here.  Times are
//! milliseconds since the epoch.

use crate::cluster_coordinator::{
    capacity_sum, ClusterCoordinator, ClusterCoordinatorConfig, ClusterEvent, ClusterMetrics, ClusterStatus, JobDistribution,
    NodeCandidate, NodeRegistryConfig, DISTRIBUTION_HISTORY_LIMIT, balancer_picks,
};
use crate::text::decimal;
use crate::errors::AppError;
use crate::failover::{strategy_for, FailoverAction, FailoverConfig, FailoverManager, FailureType};
use crate::ids::{has_id, value_at_id};
use crate::idempotent_jobs::{
    completed_execution, started_execution, IdempotencyConfig, IdempotencyKey, IdempotentJobManager, JobExecutionResult,
    JobResult,
};
use crate::leader_election::{LeaderElectionConfig, LeaderElectionManager};
use crate::state_snapshot::{SnapshotConfig, StateSnapshotManager};
use vstd::prelude::*;

verus! {

/// Settings of the control plane itself.
#[derive(Debug, Clone)]
pub struct ControlPlaneSettings {
    pub high_availability: bool,
    /// Seconds.
    pub leader_election_timeout: u64,
    /// Seconds.
    pub heartbeat_interval: u64,
    pub auto_failover: bool,
    pub max_control_plane_instances: u32,
    pub api_port: u16,
    pub metrics_enabled: bool,
    /// Seconds.
    pub metrics_interval: u64,
    pub leader_election_config: LeaderElectionConfig,
    pub failover_config: FailoverConfig,
    pub snapshot_config: SnapshotConfig,
    pub idempotency_config: IdempotencyConfig,
}

impl ControlPlaneSettings {
    /// No high availability; elections time out after 30 s; heartbeats
    /// every 10 s; failover on; at most three instances; API on port 8080;
    /// metrics every 30 s; each part at its default.
    pub fn default_settings() -> (s: Self)
        ensures
            !s.high_availability,
            s.leader_election_timeout == 30,
            s.heartbeat_interval == 10,
            s.auto_failover,
            s.max_control_plane_instances == 3,
            s.api_port == 8080,
            s.metrics_enabled,
            s.metrics_interval == 30,
    {
        ControlPlaneSettings {
            high_availability: false,
            leader_election_timeout: 30,
            heartbeat_interval: 10,
            auto_failover: true,
            max_control_plane_instances: 3,
            api_port: 8080,
            metrics_enabled: true,
            metrics_interval: 30,
            leader_election_config: LeaderElectionConfig::default_config(),
            failover_config: FailoverConfig::default_config(),
            snapshot_config: SnapshotConfig::default_config(),
            idempotency_config: IdempotencyConfig::default_config(),
        }
    }
}

/// Settings of the control plane master.
#[derive(Debug, Clone)]
pub struct ControlPlaneConfig {
    pub id: u128,
    pub name: String,
    pub cluster_config: ClusterCoordinatorConfig,
    pub node_registry_config: NodeRegistryConfig,
    pub control_plane_settings: ControlPlaneSettings,
}

impl ControlPlaneConfig {
    /// A fresh identifier, the name "default-control-plane", the given
    /// registry timing, and every part at its default.
    pub fn default_with(node_registry_config: NodeRegistryConfig) -> (c: Self)
        ensures
            c.name@ == "default-control-plane"@,
            c.node_registry_config == node_registry_config,
            !c.control_plane_settings.high_availability,
    {
        ControlPlaneConfig {
            id: crate::platform::new_identifier(),
            name: String::from_str("default-control-plane"),
            cluster_config: ClusterCoordinatorConfig::default_with(node_registry_config),
            node_registry_config,
            control_plane_settings: ControlPlaneSettings::default_settings(),
        }
    }
}

/// Life cycle of the control plane.
#[derive(Debug, Clone)]
pub enum ControlPlaneState {
    Initializing,
    Starting,
    Running,
    ElectingLeader,
    Leader,
    Follower,
    Degraded { reason: String },
    Stopping,
    Stopped,
    Failed { reason: String },
}

/// The value of a state, its reason as text.
pub enum ControlPlaneStateView {
    Initializing,
    Starting,
    Running,
    ElectingLeader,
    Leader,
    Follower,
    Degraded { reason: Seq<char> },
    Stopping,
    Stopped,
    Failed { reason: Seq<char> },
}

impl View for ControlPlaneState {
    type V = ControlPlaneStateView;

    open spec fn view(&self) -> ControlPlaneStateView {
        match self {
            ControlPlaneState::Initializing => ControlPlaneStateView::Initializing,
            ControlPlaneState::Starting => ControlPlaneStateView::Starting,
            ControlPlaneState::Running => ControlPlaneStateView::Running,
            ControlPlaneState::ElectingLeader => ControlPlaneStateView::ElectingLeader,
            ControlPlaneState::Leader => ControlPlaneStateView::Leader,
            ControlPlaneState::Follower => ControlPlaneStateView::Follower,
            ControlPlaneState::Degraded { reason } => ControlPlaneStateView::Degraded { reason: reason@ },
            ControlPlaneState::Stopping => ControlPlaneStateView::Stopping,
            ControlPlaneState::Stopped => ControlPlaneStateView::Stopped,
            ControlPlaneState::Failed { reason } => ControlPlaneStateView::Failed { reason: reason@ },
        }
    }
}

impl ControlPlaneState {
    /// An equal copy.
    pub fn duplicate(&self) -> (s: Self)
        ensures
            s@ == self@,
    {
        match self {
            ControlPlaneState::Initializing => ControlPlaneState::Initializing,
            ControlPlaneState::Starting => ControlPlaneState::Starting,
            ControlPlaneState::Running => ControlPlaneState::Running,
            ControlPlaneState::ElectingLeader => ControlPlaneState::ElectingLeader,
            ControlPlaneState::Leader => ControlPlaneState::Leader,
            ControlPlaneState::Follower => ControlPlaneState::Follower,
            ControlPlaneState::Degraded { reason } => ControlPlaneState::Degraded { reason: reason.clone() },
            ControlPlaneState::Stopping => ControlPlaneState::Stopping,
            ControlPlaneState::Stopped => ControlPlaneState::Stopped,
            ControlPlaneState::Failed { reason } => ControlPlaneState::Failed { reason: reason.clone() },
        }
    }

    /// Whether two states are the same, reasons compared by text.
    pub fn same_as(&self, other: &Self) -> (b: bool)
        ensures
            b == (self@ == other@),
    {
        match (self, other) {
            (ControlPlaneState::Initializing, ControlPlaneState::Initializing) => true,
            (ControlPlaneState::Starting, ControlPlaneState::Starting) => true,
            (ControlPlaneState::Running, ControlPlaneState::Running) => true,
            (ControlPlaneState::ElectingLeader, ControlPlaneState::ElectingLeader) => true,
            (ControlPlaneState::Leader, ControlPlaneState::Leader) => true,
            (ControlPlaneState::Follower, ControlPlaneState::Follower) => true,
            (ControlPlaneState::Degraded { reason: a }, ControlPlaneState::Degraded { reason: b }) => *a == *b,
            (ControlPlaneState::Stopping, ControlPlaneState::Stopping) => true,
            (ControlPlaneState::Stopped, ControlPlaneState::Stopped) => true,
            (ControlPlaneState::Failed { reason: a }, ControlPlaneState::Failed { reason: b }) => *a == *b,
            _ => false,
        }
    }

    /// The debug text of the state: its name, and a reason in braces.
    pub fn debug_text(&self) -> (s: String)
        ensures
            s@ == state_text(self@),
    {
        match self {
            ControlPlaneState::Initializing => String::from_str("Initializing"),
            ControlPlaneState::Starting => String::from_str("Starting"),
            ControlPlaneState::Running => String::from_str("Running"),
            ControlPlaneState::ElectingLeader => String::from_str("ElectingLeader"),
            ControlPlaneState::Leader => String::from_str("Leader"),
            ControlPlaneState::Follower => String::from_str("Follower"),
            ControlPlaneState::Degraded { reason } => {
                let mut s = String::from_str("Degraded { reason: \"");
                s.append(reason.as_str());
                s.append("\" }");
                s
            },
            ControlPlaneState::Stopping => String::from_str("Stopping"),
            ControlPlaneState::Stopped => String::from_str("Stopped"),
            ControlPlaneState::Failed { reason } => {
                let mut s = String::from_str("Failed { reason: \"");
                s.append(reason.as_str());
                s.append("\" }");
                s
            },
        }
    }
}

/// The debug text of a state.
pub open spec fn state_text(s: ControlPlaneStateView) -> Seq<char> {
    match s {
        ControlPlaneStateView::Initializing => "Initializing"@,
        ControlPlaneStateView::Starting => "Starting"@,
        ControlPlaneStateView::Running => "Running"@,
        ControlPlaneStateView::ElectingLeader => "ElectingLeader"@,
        ControlPlaneStateView::Leader => "Leader"@,
        ControlPlaneStateView::Follower => "Follower"@,
        ControlPlaneStateView::Degraded { reason } => "Degraded { reason: \""@ + reason + "\" }"@,
        ControlPlaneStateView::Stopping => "Stopping"@,
        ControlPlaneStateView::Stopped => "Stopped"@,
        ControlPlaneStateView::Failed { reason } => "Failed { reason: \""@ + reason + "\" }"@,
    }
}

/// What the control plane announces.
#[derive(Debug, Clone)]
pub enum ControlPlaneEvent {
    Started { control_plane_id: u128, timestamp: u64 },
    Stopped { control_plane_id: u128, timestamp: u64, reason: String },
    LeaderElected { control_plane_id: u128, timestamp: u64 },
    LeaderLost { control_plane_id: u128, timestamp: u64, reason: String },
    StateChanged {
        control_plane_id: u128,
        old_state: ControlPlaneState,
        new_state: ControlPlaneState,
        timestamp: u64,
    },
    ClusterEvent { control_plane_id: u128, cluster_event: ClusterEvent, timestamp: u64 },
}

impl ControlPlaneEvent {
    /// Name of the kind of event.
    pub fn event_type(&self) -> (s: &'static str)
        ensures
            self is Started ==> s@ == "control_plane.started"@,
            self is Stopped ==> s@ == "control_plane.stopped"@,
            self is LeaderElected ==> s@ == "control_plane.leader_elected"@,
            self is LeaderLost ==> s@ == "control_plane.leader_lost"@,
            self is StateChanged ==> s@ == "control_plane.state_changed"@,
            self is ClusterEvent ==> s@ == "control_plane.cluster_event"@,
    {
        match self {
            ControlPlaneEvent::Started { .. } => "control_plane.started",
            ControlPlaneEvent::Stopped { .. } => "control_plane.stopped",
            ControlPlaneEvent::LeaderElected { .. } => "control_plane.leader_elected",
            ControlPlaneEvent::LeaderLost { .. } => "control_plane.leader_lost",
            ControlPlaneEvent::StateChanged { .. } => "control_plane.state_changed",
            ControlPlaneEvent::ClusterEvent { .. } => "control_plane.cluster_event",
        }
    }

    /// The control plane the event is about.
    pub fn aggregate_id(&self) -> (id: u128)
        ensures
            id == event_plane(*self),
    {
        match self {
            ControlPlaneEvent::Started { control_plane_id, .. } => *control_plane_id,
            ControlPlaneEvent::Stopped { control_plane_id, .. } => *control_plane_id,
            ControlPlaneEvent::LeaderElected { control_plane_id, .. } => *control_plane_id,
            ControlPlaneEvent::LeaderLost { control_plane_id, .. } => *control_plane_id,
            ControlPlaneEvent::StateChanged { control_plane_id, .. } => *control_plane_id,
            ControlPlaneEvent::ClusterEvent { control_plane_id, .. } => *control_plane_id,
        }
    }

    /// When the event happened.
    pub fn occurred_at(&self) -> (t: u64)
        ensures
            t == match *self {
                ControlPlaneEvent::Started { timestamp, .. } => timestamp,
                ControlPlaneEvent::Stopped { timestamp, .. } => timestamp,
                ControlPlaneEvent::LeaderElected { timestamp, .. } => timestamp,
                ControlPlaneEvent::LeaderLost { timestamp, .. } => timestamp,
                ControlPlaneEvent::StateChanged { timestamp, .. } => timestamp,
                ControlPlaneEvent::ClusterEvent { timestamp, .. } => timestamp,
            },
    {
        match self {
            ControlPlaneEvent::Started { timestamp, .. } => *timestamp,
            ControlPlaneEvent::Stopped { timestamp, .. } => *timestamp,
            ControlPlaneEvent::LeaderElected { timestamp, .. } => *timestamp,
            ControlPlaneEvent::LeaderLost { timestamp, .. } => *timestamp,
            ControlPlaneEvent::StateChanged { timestamp, .. } => *timestamp,
            ControlPlaneEvent::ClusterEvent { timestamp, .. } => *timestamp,
        }
    }

    /// Events of one plane share its identifier as correlation.
    pub fn correlation_id(&self) -> (id: u128)
        ensures
            id == event_plane(*self),
    {
        self.aggregate_id()
    }
}

/// The plane an event is about.
pub open spec fn event_plane(e: ControlPlaneEvent) -> u128 {
    match e {
        ControlPlaneEvent::Started { control_plane_id, .. } => control_plane_id,
        ControlPlaneEvent::Stopped { control_plane_id, .. } => control_plane_id,
        ControlPlaneEvent::LeaderElected { control_plane_id, .. } => control_plane_id,
        ControlPlaneEvent::LeaderLost { control_plane_id, .. } => control_plane_id,
        ControlPlaneEvent::StateChanged { control_plane_id, .. } => control_plane_id,
        ControlPlaneEvent::ClusterEvent { control_plane_id, .. } => control_plane_id,
    }
}

/// Figures of the control plane; durations in milliseconds, usages in
/// whole units.
#[derive(Debug, Clone)]
pub struct ControlPlaneMetrics {
    pub uptime: u64,
    pub state: ControlPlaneState,
    pub managed_clusters: u32,
    pub total_nodes: u32,
    pub active_nodes: u32,
    pub total_jobs_processed: u64,
    pub jobs_per_second: u64,
    pub avg_job_processing_time: u64,
    pub events_processed: u64,
    pub last_heartbeat: u64,
    pub memory_usage: u64,
    pub cpu_usage: u64,
}

impl ControlPlaneMetrics {
    /// Figures of a plane that has just been made at `now`.
    pub fn new_at(now: u64) -> (m: Self)
        ensures
            m.uptime == 0,
            m.state@ == ControlPlaneStateView::Initializing,
            m.managed_clusters == 0,
            m.total_nodes == 0,
            m.active_nodes == 0,
            m.total_jobs_processed == 0,
            m.events_processed == 0,
            m.last_heartbeat == now,
    {
        ControlPlaneMetrics {
            uptime: 0,
            state: ControlPlaneState::Initializing,
            managed_clusters: 0,
            total_nodes: 0,
            active_nodes: 0,
            total_jobs_processed: 0,
            jobs_per_second: 0,
            avg_job_processing_time: 0,
            events_processed: 0,
            last_heartbeat: now,
            memory_usage: 0,
            cpu_usage: 0,
        }
    }

    /// Whether the plane serves: running, leading or following.
    pub fn is_healthy(&self) -> (b: bool)
        ensures
            b == (self.state@ is Running || self.state@ is Leader || self.state@ is Follower),
    {
        match self.state {
            ControlPlaneState::Running | ControlPlaneState::Leader | ControlPlaneState::Follower => true,
            _ => false,
        }
    }
}

/// The control-plane part of a snapshot.
#[derive(Debug, Clone)]
pub struct ControlPlaneStateData {
    pub state: String,
    pub current_term: u64,
    pub current_leader: Option<u128>,
}

/// The control plane master.
pub struct ControlPlaneMaster {
    config: ControlPlaneConfig,
    state: ControlPlaneState,
    metrics: ControlPlaneMetrics,
    start_time: u64,
    leader_election: Option<LeaderElectionManager>,
    failover_manager: Option<FailoverManager>,
    snapshot_manager: Option<StateSnapshotManager>,
    idempotent_job_manager: Option<IdempotentJobManager>,
    cluster_coordinator: ClusterCoordinator,
    events: Vec<ControlPlaneEvent>,
}

impl ControlPlaneMaster {
    /// The settings.
    pub closed spec fn settings(&self) -> ControlPlaneConfig {
        self.config
    }

    /// The current state.
    pub closed spec fn spec_state(&self) -> ControlPlaneStateView {
        self.state@
    }

    /// Whether the high-availability parts run.
    pub closed spec fn has_ha(&self) -> bool {
        self.leader_election is Some
    }

    /// The leader election, when high availability is on.
    pub closed spec fn election(&self) -> Option<LeaderElectionManager> {
        self.leader_election
    }

    /// The failover manager, when high availability is on.
    pub closed spec fn failover(&self) -> Option<FailoverManager> {
        self.failover_manager
    }

    /// The idempotency manager, when high availability is on.
    pub closed spec fn idempotency(&self) -> Option<IdempotentJobManager> {
        self.idempotent_job_manager
    }

    /// Events not yet handed out.
    pub closed spec fn outbox(&self) -> Seq<ControlPlaneEvent> {
        self.events@
    }

    /// The coordinator of the managed cluster.
    pub closed spec fn coordinator(&self) -> ClusterCoordinator {
        self.cluster_coordinator
    }

    /// The figures.
    pub closed spec fn spec_metrics(&self) -> ControlPlaneMetrics {
        self.metrics
    }

    /// The parts of high availability are all there or all absent, and each
    /// is consistent.
    pub closed spec fn well_formed(&self) -> bool {
        &&& self.leader_election is Some <==> self.failover_manager is Some
        &&& self.leader_election is Some <==> self.snapshot_manager is Some
        &&& self.leader_election is Some <==> self.idempotent_job_manager is Some
        &&& (self.leader_election matches Some(le) ==> le.well_formed())
        &&& (self.failover_manager matches Some(f) ==> f.well_formed())
        &&& (self.snapshot_manager matches Some(s) ==> s.well_formed())
        &&& (self.idempotent_job_manager matches Some(m) ==> m.well_formed())
        &&& self.cluster_coordinator.well_formed()
    }

    /// A plane initializing at `now`, with its high-availability parts
    /// when the settings ask for them.
    pub fn new_at(config: ControlPlaneConfig, now: u64) -> (m: Self)
        requires
            config.control_plane_settings.high_availability ==> now
                + config.control_plane_settings.leader_election_config.election_timeout_range.1 <= u64::MAX,
            config.control_plane_settings.high_availability ==> config.control_plane_settings.idempotency_config.key_expiration
                * 1000 <= u64::MAX,
        ensures
            m.well_formed(),
            m.settings() == config,
            m.spec_state() == ControlPlaneStateView::Initializing,
            m.has_ha() == config.control_plane_settings.high_availability,
            m.outbox().len() == 0,
            m.spec_metrics().uptime == 0,
            m.spec_metrics().managed_clusters == 0,
            m.spec_metrics().state@ == ControlPlaneStateView::Initializing,
            m.coordinator().settings() == config.cluster_config,
            m.coordinator().spec_status() == ClusterStatus::Starting,
            m.coordinator().members().len() == 0,
            m.coordinator().outbox().len() == 0,
    {
        let ha = config.control_plane_settings.high_availability;
        let (le, fo, sn, idem) = if ha {
            let le = LeaderElectionManager::new_at(config.control_plane_settings.leader_election_config, now);
            let fo = FailoverManager::new(config.control_plane_settings.failover_config);
            let sn = StateSnapshotManager::new(config.control_plane_settings.snapshot_config.clone(), config.id);
            let idem = IdempotentJobManager::new(config.control_plane_settings.idempotency_config.duplicate());
            (Some(le), Some(fo), Some(sn), Some(idem))
        } else {
            (None, None, None, None)
        };
        let coordinator = ClusterCoordinator::new(config.cluster_config.duplicate());
        ControlPlaneMaster {
            config,
            state: ControlPlaneState::Initializing,
            metrics: ControlPlaneMetrics::new_at(now),
            start_time: now,
            leader_election: le,
            failover_manager: fo,
            snapshot_manager: sn,
            idempotent_job_manager: idem,
            cluster_coordinator: coordinator,
            events: Vec::new(),
        }
    }

    /// The current state.
    pub fn get_state(&self) -> (s: ControlPlaneState)
        ensures
            s@ == self.spec_state(),
    {
        self.state.duplicate()
    }

    /// The figures.
    pub fn get_metrics(&self) -> (m: ControlPlaneMetrics)
        ensures
            m.uptime == self.spec_metrics().uptime,
            m.managed_clusters == self.spec_metrics().managed_clusters,
            m.state@ == self.spec_metrics().state@,
    {
        ControlPlaneMetrics {
            uptime: self.metrics.uptime,
            state: self.metrics.state.duplicate(),
            managed_clusters: self.metrics.managed_clusters,
            total_nodes: self.metrics.total_nodes,
            active_nodes: self.metrics.active_nodes,
            total_jobs_processed: self.metrics.total_jobs_processed,
            jobs_per_second: self.metrics.jobs_per_second,
            avg_job_processing_time: self.metrics.avg_job_processing_time,
            events_processed: self.metrics.events_processed,
            last_heartbeat: self.metrics.last_heartbeat,
            memory_usage: self.metrics.memory_usage,
            cpu_usage: self.metrics.cpu_usage,
        }
    }

    /// Moves to `new_state` at `now`, announcing a change.
    pub fn update_state(&mut self, new_state: ControlPlaneState, now: u64)
        ensures
            final(self).spec_state() == new_state@,
            final(self).settings() == old(self).settings(),
            final(self).has_ha() == old(self).has_ha(),
            final(self).election() == old(self).election(),
            final(self).idempotency() == old(self).idempotency(),
            final(self).coordinator() == old(self).coordinator(),
            final(self).well_formed() == old(self).well_formed(),
            old(self).spec_state() != new_state@ ==> final(self).outbox().len() == old(self).outbox().len() + 1
                && (final(self).outbox().last() matches ControlPlaneEvent::StateChanged {
                control_plane_id,
                old_state,
                new_state: n,
                timestamp,
            } && control_plane_id == old(self).settings().id && old_state@ == old(self).spec_state() && n@
                == new_state@ && timestamp == now),
            old(self).spec_state() == new_state@ ==> final(self).outbox() == old(self).outbox(),
    {
        let changed = !self.state.same_as(&new_state);
        let old_state = self.state.duplicate();
        let copy = new_state.duplicate();
        self.state = new_state;
        if changed {
            self.events.push(
                ControlPlaneEvent::StateChanged {
                    control_plane_id: self.config.id,
                    old_state,
                    new_state: copy,
                    timestamp: now,
                },
            );
        }
    }

    /// Enters the starting state at `now` and starts the cluster
    /// coordinator; the caller then starts the node registry and the job
    /// scheduler and calls `complete_start`.
    pub fn begin_start(&mut self, now: u64)
        ensures
            final(self).spec_state() == ControlPlaneStateView::Starting,
            final(self).settings() == old(self).settings(),
            final(self).well_formed() == old(self).well_formed(),
            final(self).has_ha() == old(self).has_ha(),
            final(self).coordinator().spec_status() == ClusterStatus::Healthy,
            final(self).coordinator().members() == old(self).coordinator().members(),
    {
        self.update_state(ControlPlaneState::Starting, now);
        self.cluster_coordinator.start();
    }

    /// Starts the high-availability parts, enters the running state and
    /// announces the start at `now`.
    pub fn complete_start(&mut self, now: u64)
        requires
            old(self).well_formed(),
        ensures
            final(self).well_formed(),
            final(self).spec_state() == ControlPlaneStateView::Running,
            final(self).settings() == old(self).settings(),
            final(self).has_ha() == old(self).has_ha(),
            final(self).outbox().last() == (ControlPlaneEvent::Started { control_plane_id: old(self).settings().id, timestamp: now }),
    {
        if self.config.control_plane_settings.high_availability {
            match &mut self.leader_election {
                Some(le) => le.start(),
                None => {},
            }
        }
        self.update_state(ControlPlaneState::Running, now);
        self.events.push(ControlPlaneEvent::Started { control_plane_id: self.config.id, timestamp: now });
    }

    /// Enters the stopping state at `now`; the caller then stops the job
    /// scheduler and the cluster services and calls `complete_stop`.
    pub fn begin_stop(&mut self, now: u64)
        requires
            old(self).well_formed(),
        ensures
            final(self).well_formed(),
            final(self).spec_state() == ControlPlaneStateView::Stopping,
            final(self).settings() == old(self).settings(),
            final(self).has_ha() == old(self).has_ha(),
    {
        self.update_state(ControlPlaneState::Stopping, now);
        if self.config.control_plane_settings.high_availability {
            match &mut self.leader_election {
                Some(le) => le.stop(),
                None => {},
            }
        }
    }

    /// Stops the cluster coordinator, enters the stopped state and
    /// announces the stop at `now` for `reason`.
    pub fn complete_stop(&mut self, reason: String, now: u64)
        ensures
            final(self).spec_state() == ControlPlaneStateView::Stopped,
            final(self).settings() == old(self).settings(),
            final(self).well_formed() == old(self).well_formed(),
            final(self).outbox().last() == (ControlPlaneEvent::Stopped {
                control_plane_id: old(self).settings().id,
                timestamp: now,
                reason,
            }),
            final(self).coordinator().spec_status() == ClusterStatus::Stopping,
            final(self).coordinator().members() == old(self).coordinator().members(),
    {
        self.cluster_coordinator.stop();
        self.update_state(ControlPlaneState::Stopped, now);
        self.events.push(ControlPlaneEvent::Stopped { control_plane_id: self.config.id, timestamp: now, reason });
    }

    /// Whether this plane leads: by the election with high availability,
    /// always without it.
    pub fn is_leader(&self) -> (b: bool)
        ensures
            !self.has_ha() ==> b,
            self.election() matches Some(le) ==> b == (le.election().state == crate::leader_election::NodeState::Leader),
    {
        match &self.leader_election {
            Some(le) => le.is_leader(),
            None => true,
        }
    }

    /// The current leader: by the election with high availability, this
    /// plane without it.
    pub fn get_current_leader(&self) -> (l: Option<u128>)
        ensures
            !self.has_ha() ==> l == Some(self.settings().id),
            self.election() matches Some(le) ==> l == le.election().current_leader,
    {
        match &self.leader_election {
            Some(le) => le.get_current_leader(),
            None => Some(self.config.id),
        }
    }

    /// Hands a node failure reported at `now` to the failover manager;
    /// without high availability nothing happens.
    pub fn report_node_failure_at(&mut self, node_id: u128, failure_type: FailureType, details: String, now: u64) -> (r:
        Result<FailoverAction, AppError>)
        requires
            old(self).well_formed(),
        ensures
            final(self).well_formed(),
            final(self).settings() == old(self).settings(),
            final(self).spec_state() == old(self).spec_state(),
            final(self).election() == old(self).election(),
            final(self).idempotency() == old(self).idempotency(),
            r is Ok,
            !old(self).has_ha() ==> r == Ok::<FailoverAction, AppError>(FailoverAction::Done),
            old(self).election() matches Some(le) && le.election().state != crate::leader_election::NodeState::Leader
                ==> r == Ok::<FailoverAction, AppError>(FailoverAction::Done) && (final(self).failover() matches Some(f)
                && old(self).failover() matches Some(f0) && f.failed() == f0.failed() && f.outbox() == f0.outbox()),
            old(self).election() matches Some(le) && le.election().state == crate::leader_election::NodeState::Leader
                ==> (final(self).failover() matches Some(f) && has_id(f.failed(), node_id) && value_at_id(
                f.failed(),
                node_id,
            ).failure_type == failure_type && value_at_id(f.failed(), node_id).strategy == strategy_for(failure_type)
                && value_at_id(f.failed(), node_id).failed_at == now),
    {
        let leader = self.is_leader();
        match &mut self.failover_manager {
            Some(f) => f.report_failure_at(node_id, failure_type, details, leader, now),
            None => Ok(FailoverAction::Done),
        }
    }

    /// Whether a job with `key` may run: by the idempotency manager with
    /// high availability, always without it.
    pub fn is_job_idempotent(&self, key: &IdempotencyKey) -> (b: bool)
        requires
            self.well_formed(),
        ensures
            !self.has_ha() ==> b,
    {
        match &self.idempotent_job_manager {
            Some(m) => m.is_job_idempotent(key),
            None => true,
        }
    }

    /// Starts the execution of the job with `key` and configuration text
    /// `job_config` at `now` on `node_id` and `runner_id`: through the idempotency manager with high
    /// availability; without it the job simply proceeds.
    pub fn start_idempotent_job_execution_at(
        &mut self,
        key: IdempotencyKey,
        node_id: u128,
        runner_id: u128,
        job_config: String,
        now: u64,
    ) -> (r:
        JobExecutionResult)
        requires
            old(self).well_formed(),
            old(self).idempotency() matches Some(m) ==> now + m.lifetime_ms() <= u64::MAX,
        ensures
            final(self).well_formed(),
            final(self).settings() == old(self).settings(),
            final(self).election() == old(self).election(),
            !old(self).has_ha() ==> r is Proceed && final(self).idempotency() == old(self).idempotency(),
            old(self).idempotency() matches Some(m) ==> (final(self).idempotency() matches Some(m2)
                && started_execution(m, m2, key, node_id, runner_id, job_config, now, r)),
    {
        match &mut self.idempotent_job_manager {
            Some(m) => m.start_job_execution_at(key, node_id, runner_id, job_config, now),
            None => JobExecutionResult::Proceed,
        }
    }

    /// Records the result of the job with `key` at `now` with the
    /// idempotency manager; without high availability nothing is kept.
    pub fn complete_idempotent_job_execution_at(&mut self, key: IdempotencyKey, result: JobResult, now: u64)
        requires
            old(self).well_formed(),
            old(self).idempotency() matches Some(m) ==> (crate::idempotent_jobs::has_record(m.record_list(), key) ==> now
                + crate::idempotent_jobs::retry_delay(
                m.spec_config().retry_backoff,
                m.record_list()[crate::idempotent_jobs::record_position(m.record_list(), key)].retry_count as nat,
            ) * 1000 <= u64::MAX),
        ensures
            final(self).well_formed(),
            final(self).settings() == old(self).settings(),
            final(self).election() == old(self).election(),
            !old(self).has_ha() ==> final(self).idempotency() == old(self).idempotency(),
            old(self).idempotency() matches Some(m) ==> (final(self).idempotency() matches Some(m2)
                && completed_execution(m, m2, key, result, now)),
    {
        match &mut self.idempotent_job_manager {
            Some(m) => m.complete_job_execution_at(key, result, now),
            None => {},
        }
    }

    /// The control-plane part of a snapshot: the state's debug text, the
    /// election term (0 without high availability) and the leader.
    pub fn collect_control_plane_state(&self) -> (d: ControlPlaneStateData)
        ensures
            d.state@ == state_text(self.spec_state()),
            !self.has_ha() ==> d.current_term == 0 && d.current_leader == Some(self.settings().id),
            self.election() matches Some(le) ==> d.current_term == le.election().current_term && d.current_leader
                == le.election().current_leader,
    {
        let term = match &self.leader_election {
            Some(le) => le.get_current_term(),
            None => 0,
        };
        ControlPlaneStateData {
            state: self.state.debug_text(),
            current_term: term,
            current_leader: self.get_current_leader(),
        }
    }

    /// Whether snapshots can be taken and restored: only with high
    /// availability; without it a restore is refused with
    /// `ValidationError`.
    pub fn snapshot_manager(&mut self) -> (r: Result<&mut StateSnapshotManager, AppError>)
        requires
            old(self).well_formed(),
        ensures
            !old(self).has_ha() ==> (r matches Err(AppError::ValidationError(m)) && m@ == "Snapshot manager not available"@),
    {
        match &mut self.snapshot_manager {
            Some(s) => Ok(s),
            None => Err(AppError::ValidationError(String::from_str("Snapshot manager not available"))),
        }
    }

    /// Updates the figures at `now` from the cluster's node counts and the
    /// scheduler's completed jobs: uptime in whole seconds, one managed
    /// cluster, and the last heartbeat at `now`.
    pub fn collect_metrics_at(
        &mut self,
        total_nodes: u32,
        healthy_nodes: u32,
        total_completed: u64,
        jobs_per_second: u64,
        avg_job_duration: u64,
        now: u64,
    )
        ensures
            final(self).spec_metrics().uptime == if now >= old(self).start() { (now - old(self).start()) / 1000 } else { 0 },
            final(self).spec_metrics().managed_clusters == 1,
            final(self).spec_metrics().total_nodes == total_nodes,
            final(self).spec_metrics().active_nodes == healthy_nodes,
            final(self).spec_metrics().total_jobs_processed == total_completed,
            final(self).spec_metrics().last_heartbeat == now,
            final(self).spec_metrics().memory_usage == 0,
            final(self).spec_metrics().cpu_usage == 0,
            final(self).spec_state() == old(self).spec_state(),
            final(self).settings() == old(self).settings(),
            final(self).well_formed() == old(self).well_formed(),
    {
        self.metrics.uptime = if now >= self.start_time {
            (now - self.start_time) / 1000
        } else {
            0
        };
        self.metrics.managed_clusters = 1;
        self.metrics.total_nodes = total_nodes;
        self.metrics.active_nodes = healthy_nodes;
        self.metrics.total_jobs_processed = total_completed;
        self.metrics.jobs_per_second = jobs_per_second;
        self.metrics.avg_job_processing_time = avg_job_duration;
        self.metrics.last_heartbeat = now;
        self.metrics.memory_usage = 0;
        self.metrics.cpu_usage = 0;
    }

    /// When the plane was made.
    pub closed spec fn start(&self) -> u64 {
        self.start_time
    }

    /// Wraps an event of the cluster at `now` to pass it on.
    pub fn forward_cluster_event(&mut self, cluster_event: ClusterEvent, now: u64)
        ensures
            final(self).outbox() == old(self).outbox().push(
                ControlPlaneEvent::ClusterEvent { control_plane_id: old(self).settings().id, cluster_event, timestamp: now },
            ),
            final(self).spec_state() == old(self).spec_state(),
            final(self).settings() == old(self).settings(),
            final(self).well_formed() == old(self).well_formed(),
    {
        self.events.push(ControlPlaneEvent::ClusterEvent { control_plane_id: self.config.id, cluster_event, timestamp: now });
    }

    /// The status of the managed cluster.
    pub fn get_cluster_status(&self) -> (s: ClusterStatus)
        ensures
            s == self.coordinator().spec_status(),
    {
        self.cluster_coordinator.get_cluster_status()
    }

    /// The latest metrics of the managed cluster.
    pub fn get_cluster_metrics(&self) -> (m: ClusterMetrics)
        ensures
            m == self.coordinator().latest_metrics(),
    {
        self.cluster_coordinator.get_cluster_metrics()
    }

    /// Admits `node_id` to the managed cluster.
    pub fn join_node(&mut self, node_id: u128) -> (r: Result<u128, AppError>)
        requires
            old(self).well_formed(),
        ensures
            final(self).well_formed(),
            final(self).settings() == old(self).settings(),
            final(self).spec_state() == old(self).spec_state(),
            final(self).outbox() == old(self).outbox(),
            final(self).has_ha() == old(self).has_ha(),
            final(self).election() == old(self).election(),
            final(self).failover() == old(self).failover(),
            final(self).idempotency() == old(self).idempotency(),
            final(self).coordinator().settings() == old(self).coordinator().settings(),
            final(self).coordinator().spec_status() == old(self).coordinator().spec_status(),
            final(self).coordinator().balancer() == old(self).coordinator().balancer(),
            old(self).coordinator().members().len() >= old(self).coordinator().settings().max_nodes ==> {
                &&& (r matches Err(AppError::ValidationError(m)) && m@ == "Cluster is at maximum capacity of "@
                    + decimal(old(self).coordinator().settings().max_nodes as nat) + " nodes"@)
                &&& final(self).coordinator().members() == old(self).coordinator().members()
                &&& final(self).coordinator().outbox() == old(self).coordinator().outbox()
            },
            old(self).coordinator().members().len() < old(self).coordinator().settings().max_nodes ==> {
                &&& r == Ok::<u128, AppError>(node_id)
                &&& final(self).coordinator().members().contains(node_id)
                &&& old(self).coordinator().members().contains(node_id) ==> final(self).coordinator().members() == old(self).coordinator().members()
                &&& !old(self).coordinator().members().contains(node_id) ==> final(self).coordinator().members() == old(self).coordinator().members().push(node_id)
                &&& final(self).coordinator().outbox().len() == old(self).coordinator().outbox().len() + 1
                &&& (final(self).coordinator().outbox().last() matches ClusterEvent::NodeJoined { node_id: n } && n == node_id)
            },
    {
        self.cluster_coordinator.join_node(node_id)
    }

    /// Removes `node_id` from the managed cluster.
    pub fn leave_node(&mut self, node_id: u128, reason: String)
        requires
            old(self).well_formed(),
        ensures
            final(self).well_formed(),
            final(self).settings() == old(self).settings(),
            final(self).spec_state() == old(self).spec_state(),
            final(self).outbox() == old(self).outbox(),
            final(self).has_ha() == old(self).has_ha(),
            final(self).election() == old(self).election(),
            final(self).failover() == old(self).failover(),
            final(self).idempotency() == old(self).idempotency(),
            final(self).coordinator().members() == old(self).coordinator().members().filter(|n: u128| n != node_id),
            final(self).coordinator().outbox().len() == old(self).coordinator().outbox().len() + 1,
            (final(self).coordinator().outbox().last() matches ClusterEvent::NodeLeft { node_id: n, reason: why } && n == node_id
                && why == reason),
            final(self).coordinator().balancer() == old(self).coordinator().balancer(),
            final(self).coordinator().spec_status() == old(self).coordinator().spec_status(),
    {
        self.cluster_coordinator.leave_node(node_id, reason)
    }

    /// Places job `job_id` at `now` on one of the available `nodes` of the
    /// managed cluster.
    pub fn distribute_job_at(&mut self, job_id: u128, nodes: &Vec<NodeCandidate>, now: u64) -> (r: Result<
        JobDistribution,
        AppError,
    >)
        requires
            old(self).well_formed(),
            capacity_sum(nodes@) <= u64::MAX,
            forall|i: int| 0 <= i < nodes@.len() ==> (has_id(old(self).coordinator().balancer().loads(), #[trigger] nodes@[i].id)
                ==> value_at_id(old(self).coordinator().balancer().loads(), nodes@[i].id) < u64::MAX),
        ensures
            final(self).well_formed(),
            final(self).settings() == old(self).settings(),
            final(self).spec_state() == old(self).spec_state(),
            final(self).outbox() == old(self).outbox(),
            final(self).has_ha() == old(self).has_ha(),
            final(self).election() == old(self).election(),
            final(self).failover() == old(self).failover(),
            final(self).idempotency() == old(self).idempotency(),
            final(self).coordinator().members() == old(self).coordinator().members(),
            final(self).coordinator().spec_status() == old(self).coordinator().spec_status(),
            nodes@.len() == 0 ==> (r matches Err(AppError::ValidationError(m)) && m@
                == "No available nodes for job distribution"@ && final(self).coordinator().outbox() == old(self).coordinator().outbox()),
            nodes@.len() > 0 ==> (r matches Ok(d) && {
                &&& d.job_id == job_id
                &&& d.distributed_at == now
                &&& d.strategy == old(self).coordinator().settings().load_balancing_strategy
                &&& d.metadata@.len() == 0
                &&& exists|i: int| 0 <= i < nodes@.len() && #[trigger] nodes@[i].id == d.target_node && (nodes@[i].first_runner
                    matches Some(rn) ==> d.target_runner == rn)
                &&& exists|n: NodeCandidate| #[trigger] balancer_picks(old(self).coordinator().balancer(), nodes@, n) && n.id
                    == d.target_node && (n.first_runner matches Some(rn) ==> d.target_runner == rn)
                &&& final(self).coordinator().balancer().spec_strategy() == old(self).coordinator().balancer().spec_strategy()
                &&& final(self).coordinator().balancer().counter() == if old(self).coordinator().balancer().counter() == usize::MAX {
                    0
                } else {
                    (old(self).coordinator().balancer().counter() + 1) as usize
                }
                &&& final(self).coordinator().balancer().history() == if old(self).coordinator().balancer().history().len()
                    < DISTRIBUTION_HISTORY_LIMIT {
                    old(self).coordinator().balancer().history().push((job_id, d.target_node))
                } else {
                    old(self).coordinator().balancer().history().push((job_id, d.target_node)).drop_first()
                }
                &&& final(self).coordinator().outbox().len() == old(self).coordinator().outbox().len() + 1
            }),
    {
        self.cluster_coordinator.distribute_job_at(job_id, nodes, now)
    }

    /// Hands out the announced events, oldest first.
    pub fn drain_events(&mut self) -> (es: Vec<ControlPlaneEvent>)
        ensures
            es@ == old(self).outbox(),
            final(self).outbox().len() == 0,
            final(self).spec_state() == old(self).spec_state(),
            final(self).settings() == old(self).settings(),
            final(self).well_formed() == old(self).well_formed(),
    {
        let mut out: Vec<ControlPlaneEvent> = Vec::new();
        std::mem::swap(&mut out, &mut self.events);
        out
    }
}

} // verus!
