//! Cluster membership and the distribution of jobs over nodes.
//!
//! The coordinator keeps the member nodes, the cluster status and a load
//! balancer.  A job goes to one of the available nodes, chosen by the load
//! balancer's strategy: in turn, the node with the most available capacity,
//! at random, or at random in proportion to capacity.  Capacities are whole
//! units; times are milliseconds since the epoch.

use crate::errors::AppError;
use crate::ids::{has_id, id_upserted, value_at_id, IdTable};
use crate::text::decimal;
use vstd::prelude::*;

verus! {

/// How a node is chosen for a job.
#[derive(Debug, Clone, Copy, PartialEq, Eq, Structural)]
pub enum LoadBalancingStrategy {
    RoundRobin,
    LeastLoaded,
    Random,
    Weighted,
    Affinity,
}

/// Life cycle of the cluster.
#[derive(Debug, Clone, Copy, PartialEq, Eq, Structural)]
pub enum ClusterStatus {
    Starting,
    Healthy,
    Degraded,
    Unhealthy,
    Stopping,
    Stopped,
}

/// Timing of the node registry, in seconds.
#[derive(Debug, Clone, Copy, PartialEq, Eq, Structural)]
pub struct NodeRegistryConfig {
    pub heartbeat_interval: u64,
    pub failure_timeout: u64,
}

/// Settings of the cluster coordinator.
#[derive(Debug, Clone)]
pub struct ClusterCoordinatorConfig {
    pub cluster_id: u128,
    pub cluster_name: String,
    pub node_registry_config: NodeRegistryConfig,
    pub load_balancing_strategy: LoadBalancingStrategy,
    pub auto_healing: bool,
    /// Seconds between metric collections.
    pub metrics_interval: u64,
    pub max_nodes: u32,
}

impl ClusterCoordinatorConfig {
    /// A fresh cluster identifier, the name "default-cluster", least-loaded
    /// balancing, healing on, metrics every 60 s, at most 100 nodes.
    pub fn default_with(node_registry_config: NodeRegistryConfig) -> (c: Self)
        ensures
            c.cluster_name@ == "default-cluster"@,
            c.node_registry_config == node_registry_config,
            c.load_balancing_strategy == LoadBalancingStrategy::LeastLoaded,
            c.auto_healing,
            c.metrics_interval == 60,
            c.max_nodes == 100,
    {
        ClusterCoordinatorConfig {
            cluster_id: crate::platform::new_identifier(),
            cluster_name: String::from_str("default-cluster"),
            node_registry_config,
            load_balancing_strategy: LoadBalancingStrategy::LeastLoaded,
            auto_healing: true,
            metrics_interval: 60,
            max_nodes: 100,
        }
    }

    /// An equal copy.
    pub fn duplicate(&self) -> (d: Self)
        ensures
            d == *self,
    {
        ClusterCoordinatorConfig {
            cluster_id: self.cluster_id,
            cluster_name: self.cluster_name.clone(),
            node_registry_config: self.node_registry_config,
            load_balancing_strategy: self.load_balancing_strategy,
            auto_healing: self.auto_healing,
            metrics_interval: self.metrics_interval,
            max_nodes: self.max_nodes,
        }
    }
}

/// What the load balancer knows of an available node.
#[derive(Debug, Clone, Copy, PartialEq, Eq, Structural)]
pub struct NodeCandidate {
    pub id: u128,
    pub available_capacity: u64,
    pub first_runner: Option<u128>,
}

/// Whether position `i` holds the last of the nodes with the most
/// available capacity.
pub open spec fn is_last_most_available(c: Seq<NodeCandidate>, i: int) -> bool {
    &&& 0 <= i < c.len()
    &&& forall|j: int| 0 <= j < c.len() ==> #[trigger] c[j].available_capacity <= c[i].available_capacity
    &&& forall|j: int| i < j < c.len() ==> #[trigger] c[j].available_capacity < c[i].available_capacity
}

/// Position of the last node with the most available capacity.
pub fn most_available(c: &Vec<NodeCandidate>) -> (i: usize)
    requires
        c@.len() > 0,
    ensures
        is_last_most_available(c@, i as int),
{
    let mut best: usize = 0;
    let mut k: usize = 1;
    while k < c.len()
        invariant
            1 <= k <= c@.len(),
            best < k,
            forall|j: int| 0 <= j < k ==> #[trigger] c@[j].available_capacity <= c@[best as int].available_capacity,
            forall|j: int| best < j < k ==> #[trigger] c@[j].available_capacity < c@[best as int].available_capacity,
        decreases c@.len() - k,
    {
        if c[k].available_capacity >= c[best].available_capacity {
            best = k;
        }
        k = k + 1;
    }
    best
}

/// Total available capacity.
pub open spec fn capacity_sum(c: Seq<NodeCandidate>) -> nat
    decreases c.len(),
{
    if c.len() == 0 {
        0
    } else {
        capacity_sum(c.drop_last()) + c.last().available_capacity as nat
    }
}

/// The node a draw `r` below the total capacity picks: the first whose
/// capacity, added to those before it, reaches `r`; the last node if none
/// does.
pub open spec fn weighted_choice(c: Seq<NodeCandidate>, r: nat, i: int) -> bool {
    &&& 0 <= i < c.len()
    &&& (capacity_sum(c.take(i + 1)) >= r || i == c.len() - 1)
    &&& forall|j: int| 0 <= j < i ==> capacity_sum(#[trigger] c.take(j + 1)) < r
}

proof fn lemma_capacity_sum_step(c: Seq<NodeCandidate>, k: int)
    requires
        0 <= k < c.len(),
    ensures
        capacity_sum(c.take(k + 1)) == capacity_sum(c.take(k)) + c[k].available_capacity,
{
    assert(c.take(k + 1).drop_last() =~= c.take(k));
}

proof fn lemma_capacity_sum_monotone(c: Seq<NodeCandidate>, a: int, b: int)
    requires
        0 <= a <= b <= c.len(),
    ensures
        capacity_sum(c.take(a)) <= capacity_sum(c.take(b)),
    decreases b - a,
{
    if a < b {
        lemma_capacity_sum_monotone(c, a, b - 1);
        lemma_capacity_sum_step(c, b - 1);
    }
}

/// The node picked by draw `r` in proportion to capacity.
pub fn pick_by_weight(c: &Vec<NodeCandidate>, r: u64) -> (i: usize)
    requires
        c@.len() > 0,
        capacity_sum(c@) <= u64::MAX,
    ensures
        weighted_choice(c@, r as nat, i as int),
{
    let mut acc: u64 = 0;
    let mut k: usize = 0;
    while k < c.len()
        invariant
            k < c@.len(),
            capacity_sum(c@) <= u64::MAX,
            acc == capacity_sum(c@.take(k as int)),
            forall|j: int| 0 <= j < k ==> capacity_sum(#[trigger] c@.take(j + 1)) < r,
        decreases c@.len() - k,
    {
        proof {
            lemma_capacity_sum_step(c@, k as int);
            lemma_capacity_sum_monotone(c@, k as int + 1, c@.len() as int);
            assert(c@.take(c@.len() as int) =~= c@);
        }
        acc = acc + c[k].available_capacity;
        if acc >= r {
            return k;
        }
        if k == c.len() - 1 {
            return k;
        }
        k = k + 1;
    }
    0
}

/// A job placed on a node.
#[derive(Debug, Clone)]
pub struct JobDistribution {
    pub job_id: u128,
    pub target_node: u128,
    pub target_runner: u128,
    pub distributed_at: u64,
    pub strategy: LoadBalancingStrategy,
    pub metadata: Vec<(String, String)>,
}

impl JobDistribution {
    /// A copy with the same fields and metadata.
    pub fn duplicate(&self) -> (d: Self)
        ensures
            d.job_id == self.job_id,
            d.target_node == self.target_node,
            d.target_runner == self.target_runner,
            d.distributed_at == self.distributed_at,
            d.strategy == self.strategy,
            d.metadata@ == self.metadata@,
    {
        JobDistribution {
            job_id: self.job_id,
            target_node: self.target_node,
            target_runner: self.target_runner,
            distributed_at: self.distributed_at,
            strategy: self.strategy,
            metadata: crate::domain::copy_pairs(&self.metadata),
        }
    }
}

/// Placements kept in the history of the load balancer.
pub const DISTRIBUTION_HISTORY_LIMIT: usize = 1000;

/// State of the load balancer.
pub struct LoadBalancerState {
    strategy: LoadBalancingStrategy,
    round_robin_counter: usize,
    node_loads: IdTable<u64>,
    distribution_history: Vec<JobDistribution>,
}

/// Summary of a placement kept in the history.
pub open spec fn placement(d: JobDistribution) -> (u128, u128) {
    (d.job_id, d.target_node)
}

/// Whether `n` is a node that balancer `b` may choose among `nodes`: the
/// one in turn for round robin, the last of those with the most available
/// capacity for least-loaded and affinity, any of them at random, and for
/// weighted choice the one a draw below the total capacity picks (the first
/// node when all have none).
pub open spec fn balancer_picks(b: LoadBalancerState, nodes: Seq<NodeCandidate>, n: NodeCandidate) -> bool {
    match b.spec_strategy() {
        LoadBalancingStrategy::RoundRobin => nodes.len() > 0 && n == nodes[(b.counter() as int) % (nodes.len() as int)],
        LoadBalancingStrategy::LeastLoaded | LoadBalancingStrategy::Affinity => exists|i: int|
            #[trigger] is_last_most_available(nodes, i) && n == nodes[i],
        LoadBalancingStrategy::Random => exists|i: int| 0 <= i < nodes.len() && n == #[trigger] nodes[i],
        LoadBalancingStrategy::Weighted => if capacity_sum(nodes) == 0 {
            nodes.len() > 0 && n == nodes[0]
        } else {
            exists|d: nat, i: int| d < capacity_sum(nodes) && #[trigger] weighted_choice(nodes, d, i) && n == nodes[i]
        },
    }
}

impl LoadBalancerState {
    /// The strategy in use.
    pub closed spec fn spec_strategy(&self) -> LoadBalancingStrategy {
        self.strategy
    }

    /// The round-robin counter.
    pub closed spec fn counter(&self) -> usize {
        self.round_robin_counter
    }

    /// Jobs placed per node.
    pub closed spec fn loads(&self) -> Seq<(u128, u64)> {
        self.node_loads.entries()
    }

    /// Recent placements as (job, node), oldest first.
    pub closed spec fn history(&self) -> Seq<(u128, u128)> {
        self.distribution_history@.map_values(|d: JobDistribution| placement(d))
    }

    /// One load entry per node, a bounded history.
    pub closed spec fn well_formed(&self) -> bool {
        self.node_loads.well_formed() && self.distribution_history@.len() <= DISTRIBUTION_HISTORY_LIMIT
    }

    /// A fresh balancer using `strategy`.
    pub fn new(strategy: LoadBalancingStrategy) -> (s: Self)
        ensures
            s.well_formed(),
            s.spec_strategy() == strategy,
            s.counter() == 0,
            s.loads().len() == 0,
            s.history().len() == 0,
    {
        let s = LoadBalancerState {
            strategy,
            round_robin_counter: 0,
            node_loads: IdTable::new(),
            distribution_history: Vec::new(),
        };
        proof {
            assert(s.history() =~= Seq::<(u128, u128)>::empty());
        }
        s
    }

    /// Chooses one of `nodes` for a job.  In turn for round robin; the last
    /// of those with the most capacity for least-loaded and affinity (an
    /// empty list is refused with `ValidationError`); at random; or at
    /// random in proportion to capacity (the first node when all have
    /// none).
    pub fn select_node_for_job(&self, nodes: &Vec<NodeCandidate>) -> (r: Result<NodeCandidate, AppError>)
        requires
            (self.spec_strategy() == LoadBalancingStrategy::RoundRobin || self.spec_strategy()
                == LoadBalancingStrategy::Random || self.spec_strategy() == LoadBalancingStrategy::Weighted)
                ==> nodes@.len() > 0,
            capacity_sum(nodes@) <= u64::MAX,
        ensures
            self.spec_strategy() == LoadBalancingStrategy::RoundRobin ==> r == Ok::<NodeCandidate, AppError>(
                nodes@[(self.counter() as int) % (nodes@.len() as int)],
            ),
            (self.spec_strategy() == LoadBalancingStrategy::LeastLoaded || self.spec_strategy()
                == LoadBalancingStrategy::Affinity) ==> {
                &&& nodes@.len() == 0 ==> (r matches Err(AppError::ValidationError(_)))
                &&& nodes@.len() > 0 ==> exists|i: int| #[trigger] is_last_most_available(nodes@, i) && r == Ok::<
                    NodeCandidate,
                    AppError,
                >(nodes@[i])
            },
            self.spec_strategy() == LoadBalancingStrategy::Random ==> exists|i: int|
                0 <= i < nodes@.len() && r == Ok::<NodeCandidate, AppError>(#[trigger] nodes@[i]),
            self.spec_strategy() == LoadBalancingStrategy::Weighted && capacity_sum(nodes@) == 0 ==> r == Ok::<
                NodeCandidate,
                AppError,
            >(nodes@[0]),
            self.spec_strategy() == LoadBalancingStrategy::Weighted && capacity_sum(nodes@) > 0 ==> exists|
                d: nat,
                i: int,
            | d < capacity_sum(nodes@) && #[trigger] weighted_choice(nodes@, d, i) && r == Ok::<NodeCandidate, AppError>(
                nodes@[i],
            ),
            nodes@.len() > 0 ==> (r matches Ok(n) && balancer_picks(*self, nodes@, n)),
    {
        match self.strategy {
            LoadBalancingStrategy::RoundRobin => {
                let index = self.round_robin_counter % nodes.len();
                Ok(nodes[index])
            },
            LoadBalancingStrategy::LeastLoaded | LoadBalancingStrategy::Affinity => {
                if nodes.len() == 0 {
                    Err(AppError::ValidationError(String::from_str("No suitable node found")))
                } else {
                    let i = most_available(nodes);
                    Ok(nodes[i])
                }
            },
            LoadBalancingStrategy::Random => {
                let i = crate::platform::random_below(nodes.len() as u64);
                Ok(nodes[i as usize])
            },
            LoadBalancingStrategy::Weighted => {
                let mut total: u64 = 0;
                let mut k: usize = 0;
                while k < nodes.len()
                    invariant
                        k <= nodes@.len(),
                        capacity_sum(nodes@) <= u64::MAX,
                        total == capacity_sum(nodes@.take(k as int)),
                    decreases nodes@.len() - k,
                {
                    proof {
                        lemma_capacity_sum_step(nodes@, k as int);
                        lemma_capacity_sum_monotone(nodes@, k as int + 1, nodes@.len() as int);
                        assert(nodes@.take(nodes@.len() as int) =~= nodes@);
                    }
                    total = total + nodes[k].available_capacity;
                    k = k + 1;
                }
                proof {
                    assert(nodes@.take(nodes@.len() as int) =~= nodes@);
                }
                if total == 0 {
                    return Ok(nodes[0]);
                }
                let draw = crate::platform::random_below(total);
                let i = pick_by_weight(nodes, draw);
                Ok(nodes[i])
            },
        }
    }

    /// Records that `d` was placed: the counter moves on (wrapping), the
    /// load of the node grows by one, and the placement joins the history,
    /// which keeps the latest 1000.
    pub fn update_load_balancer_state(&mut self, d: JobDistribution)
        requires
            old(self).well_formed(),
            has_id(old(self).loads(), d.target_node) ==> value_at_id(old(self).loads(), d.target_node) < u64::MAX,
        ensures
            final(self).well_formed(),
            final(self).spec_strategy() == old(self).spec_strategy(),
            final(self).counter() == if old(self).counter() == usize::MAX {
                0
            } else {
                (old(self).counter() + 1) as usize
            },
            final(self).loads() == id_upserted(
                old(self).loads(),
                d.target_node,
                if has_id(old(self).loads(), d.target_node) {
                    (value_at_id(old(self).loads(), d.target_node) + 1) as u64
                } else {
                    1
                },
            ),
            old(self).history().len() < DISTRIBUTION_HISTORY_LIMIT ==> final(self).history() == old(self).history().push(
                placement(d),
            ),
            old(self).history().len() == DISTRIBUTION_HISTORY_LIMIT ==> final(self).history() == old(self).history().push(
                placement(d),
            ).drop_first(),
    {
        self.round_robin_counter = self.round_robin_counter.wrapping_add(1);
        let current: u64 = match self.node_loads.get(d.target_node) {
            Some(l) => *l,
            None => 0,
        };
        self.node_loads.insert(d.target_node, current + 1);
        let ghost before = self.distribution_history@;
        self.distribution_history.push(d);
        proof {
            assert(self.distribution_history@.map_values(|d: JobDistribution| placement(d)) =~= before.map_values(
                |d: JobDistribution| placement(d),
            ).push(placement(d)));
        }
        if self.distribution_history.len() > DISTRIBUTION_HISTORY_LIMIT {
            let ghost full = self.distribution_history@;
            self.distribution_history.remove(0);
            proof {
                assert(self.distribution_history@.map_values(|d: JobDistribution| placement(d)) =~= full.map_values(
                    |d: JobDistribution| placement(d),
                ).drop_first());
            }
        }
    }
}

/// Figures of the cluster; usages and load in whole percent.
#[derive(Debug, Clone, Copy, PartialEq, Eq, Structural)]
pub struct ClusterMetrics {
    pub total_nodes: u32,
    pub healthy_nodes: u32,
    pub failed_nodes: u32,
    pub avg_cpu_usage: u64,
    pub avg_memory_usage: u64,
    pub cluster_load: u64,
}

/// Sum of a list of numbers.
pub open spec fn sum_of(s: Seq<u64>) -> nat
    decreases s.len(),
{
    if s.len() == 0 {
        0
    } else {
        sum_of(s.drop_last()) + s.last() as nat
    }
}

proof fn lemma_sum_prefix(s: Seq<u64>, k: int)
    requires
        0 <= k <= s.len(),
    ensures
        sum_of(s.take(k)) <= sum_of(s),
    decreases s.len() - k,
{
    if k < s.len() {
        lemma_sum_prefix(s, k + 1);
        assert(s.take(k + 1).drop_last() =~= s.take(k));
    } else {
        assert(s.take(k) =~= s);
    }
}

/// Sum of a list of numbers.
fn sum_u64(s: &Vec<u64>) -> (t: u64)
    requires
        sum_of(s@) <= u64::MAX,
    ensures
        t == sum_of(s@),
{
    let mut t: u64 = 0;
    let mut i: usize = 0;
    while i < s.len()
        invariant
            i <= s@.len(),
            sum_of(s@) <= u64::MAX,
            t == sum_of(s@.take(i as int)),
        decreases s@.len() - i,
    {
        proof {
            assert(s@.take(i as int + 1).drop_last() =~= s@.take(i as int));
            lemma_sum_prefix(s@, i as int + 1);
        }
        t = t + s[i];
        i = i + 1;
    }
    proof {
        assert(s@.take(s@.len() as int) =~= s@);
    }
    t
}

/// Metrics from the registry counts and the CPU and memory usage of each
/// active node: averages over the active nodes (0 with none), and the share
/// of healthy nodes as the load (0 with no node).
pub fn compute_cluster_metrics(
    total_nodes: u32,
    healthy_nodes: u32,
    failed_nodes: u32,
    active_cpu: &Vec<u64>,
    active_memory: &Vec<u64>,
) -> (m: ClusterMetrics)
    requires
        active_cpu@.len() == active_memory@.len(),
        sum_of(active_cpu@) <= u64::MAX,
        sum_of(active_memory@) <= u64::MAX,
    ensures
        m.total_nodes == total_nodes,
        m.healthy_nodes == healthy_nodes,
        m.failed_nodes == failed_nodes,
        active_cpu@.len() > 0 ==> m.avg_cpu_usage == sum_of(active_cpu@) / active_cpu@.len(),
        active_cpu@.len() > 0 ==> m.avg_memory_usage == sum_of(active_memory@) / active_memory@.len(),
        active_cpu@.len() == 0 ==> m.avg_cpu_usage == 0 && m.avg_memory_usage == 0,
        total_nodes > 0 ==> m.cluster_load == healthy_nodes as nat * 100 / total_nodes as nat,
        total_nodes == 0 ==> m.cluster_load == 0,
{
    let n = active_cpu.len();
    let (avg_cpu, avg_mem) = if n > 0 {
        let c = sum_u64(active_cpu);
        let m = sum_u64(active_memory);
        (c / n as u64, m / n as u64)
    } else {
        (0, 0)
    };
    let load: u64 = if total_nodes > 0 {
        healthy_nodes as u64 * 100 / total_nodes as u64
    } else {
        0
    };
    ClusterMetrics {
        total_nodes,
        healthy_nodes,
        failed_nodes,
        avg_cpu_usage: avg_cpu,
        avg_memory_usage: avg_mem,
        cluster_load: load,
    }
}

/// What the coordinator announces.
#[derive(Debug, Clone)]
pub enum ClusterEvent {
    NodeJoined { node_id: u128 },
    NodeLeft { node_id: u128, reason: String },
    NodeFailed { node_id: u128, reason: String },
    StatusChanged { old_status: ClusterStatus, new_status: ClusterStatus },
    JobDistributed { distribution: JobDistribution },
    MetricsUpdated { metrics: ClusterMetrics },
}

/// The cluster coordinator.
pub struct ClusterCoordinator {
    config: ClusterCoordinatorConfig,
    status: ClusterStatus,
    nodes: Vec<u128>,
    metrics: ClusterMetrics,
    load_balancer: LoadBalancerState,
    events: Vec<ClusterEvent>,
}

impl ClusterCoordinator {
    /// The settings.
    pub closed spec fn settings(&self) -> ClusterCoordinatorConfig {
        self.config
    }

    /// The cluster status.
    pub closed spec fn spec_status(&self) -> ClusterStatus {
        self.status
    }

    /// The member nodes, in order of joining.
    pub closed spec fn members(&self) -> Seq<u128> {
        self.nodes@
    }

    /// The load balancer.
    pub closed spec fn balancer(&self) -> LoadBalancerState {
        self.load_balancer
    }

    /// Events not yet handed out.
    pub closed spec fn outbox(&self) -> Seq<ClusterEvent> {
        self.events@
    }

    /// Members are distinct and the balancer is consistent.
    pub closed spec fn well_formed(&self) -> bool {
        &&& self.load_balancer.well_formed()
        &&& forall|i: int, j: int| 0 <= i < j < self.nodes@.len() ==> self.nodes@[i] != self.nodes@[j]
    }

    /// A starting cluster without members; jobs are balanced least-loaded
    /// first, whatever strategy the settings name.
    pub fn new(config: ClusterCoordinatorConfig) -> (c: Self)
        ensures
            c.well_formed(),
            c.settings() == config,
            c.spec_status() == ClusterStatus::Starting,
            c.members().len() == 0,
            c.balancer().spec_strategy() == LoadBalancingStrategy::LeastLoaded,
            c.outbox().len() == 0,
    {
        ClusterCoordinator {
            config,
            status: ClusterStatus::Starting,
            nodes: Vec::new(),
            metrics: ClusterMetrics {
                total_nodes: 0,
                healthy_nodes: 0,
                failed_nodes: 0,
                avg_cpu_usage: 0,
                avg_memory_usage: 0,
                cluster_load: 0,
            },
            load_balancer: LoadBalancerState::new(LoadBalancingStrategy::LeastLoaded),
            events: Vec::new(),
        }
    }

    /// The cluster status.
    pub fn get_cluster_status(&self) -> (s: ClusterStatus)
        ensures
            s == self.spec_status(),
    {
        self.status
    }

    /// The metrics last recorded.
    pub closed spec fn latest_metrics(&self) -> ClusterMetrics {
        self.metrics
    }

    /// The latest metrics.
    pub fn get_cluster_metrics(&self) -> (m: ClusterMetrics)
        ensures
            m == self.latest_metrics(),
    {
        self.metrics
    }

    /// Sets the status, announcing a change.
    pub fn update_cluster_status(&mut self, new_status: ClusterStatus)
        ensures
            final(self).spec_status() == new_status,
            final(self).members() == old(self).members(),
            final(self).balancer() == old(self).balancer(),
            final(self).settings() == old(self).settings(),
            final(self).well_formed() == old(self).well_formed(),
            old(self).spec_status() != new_status ==> final(self).outbox() == old(self).outbox().push(
                ClusterEvent::StatusChanged { old_status: old(self).spec_status(), new_status },
            ),
            old(self).spec_status() == new_status ==> final(self).outbox() == old(self).outbox(),
    {
        let old_status = self.status;
        self.status = new_status;
        if old_status != new_status {
            self.events.push(ClusterEvent::StatusChanged { old_status, new_status });
        }
    }

    /// Marks the cluster healthy once its services run.
    pub fn start(&mut self)
        ensures
            final(self).spec_status() == ClusterStatus::Healthy,
            final(self).members() == old(self).members(),
            final(self).well_formed() == old(self).well_formed(),
    {
        self.update_cluster_status(ClusterStatus::Healthy);
    }

    /// Marks the cluster stopping.
    pub fn stop(&mut self)
        ensures
            final(self).spec_status() == ClusterStatus::Stopping,
            final(self).members() == old(self).members(),
            final(self).well_formed() == old(self).well_formed(),
    {
        self.update_cluster_status(ClusterStatus::Stopping);
    }

    /// Admits `node_id`.  A cluster with as many members as its limit
    /// refuses with `ValidationError`; a member already present stays once.
    pub fn join_node(&mut self, node_id: u128) -> (r: Result<u128, AppError>)
        requires
            old(self).well_formed(),
        ensures
            final(self).well_formed(),
            final(self).settings() == old(self).settings(),
            final(self).spec_status() == old(self).spec_status(),
            final(self).balancer() == old(self).balancer(),
            old(self).members().len() >= old(self).settings().max_nodes ==> {
                &&& (r matches Err(AppError::ValidationError(m)) && m@ == "Cluster is at maximum capacity of "@
                    + decimal(old(self).settings().max_nodes as nat) + " nodes"@)
                &&& final(self).members() == old(self).members()
                &&& final(self).outbox() == old(self).outbox()
            },
            old(self).members().len() < old(self).settings().max_nodes ==> {
                &&& r == Ok::<u128, AppError>(node_id)
                &&& final(self).members().contains(node_id)
                &&& old(self).members().contains(node_id) ==> final(self).members() == old(self).members()
                &&& !old(self).members().contains(node_id) ==> final(self).members() == old(self).members().push(node_id)
                &&& final(self).outbox().len() == old(self).outbox().len() + 1
                &&& (final(self).outbox().last() matches ClusterEvent::NodeJoined { node_id: n } && n == node_id)
            },
    {
        if self.nodes.len() >= self.config.max_nodes as usize {
            let mut m = crate::text::text_with_number("Cluster is at maximum capacity of ", self.config.max_nodes as u64);
            m.append(" nodes");
            return Err(AppError::ValidationError(m));
        }
        let mut present = false;
        let mut i: usize = 0;
        while i < self.nodes.len()
            invariant
                i <= self.nodes@.len(),
                present <==> exists|j: int| 0 <= j < i && self.nodes@[j] == node_id,
            decreases self.nodes@.len() - i,
        {
            if self.nodes[i] == node_id {
                present = true;
            }
            i = i + 1;
        }
        if !present {
            let ghost before = self.nodes@;
            self.nodes.push(node_id);
            proof {
                assert(self.nodes@[before.len() as int] == node_id);
                assert forall|a: int, b: int| 0 <= a < b < self.nodes@.len() implies self.nodes@[a] != self.nodes@[b] by {
                    if b == before.len() {
                        assert(before[a] != node_id);
                    }
                }
            }
        } else {
            proof {
                let j = choose|j: int| 0 <= j < self.nodes@.len() && self.nodes@[j] == node_id;
                assert(self.nodes@.contains(node_id));
            }
        }
        self.events.push(ClusterEvent::NodeJoined { node_id });
        Ok(node_id)
    }

    /// Removes `node_id` from the members and announces its departure.
    pub fn leave_node(&mut self, node_id: u128, reason: String)
        requires
            old(self).well_formed(),
        ensures
            final(self).well_formed(),
            final(self).members() == old(self).members().filter(|n: u128| n != node_id),
            final(self).outbox().len() == old(self).outbox().len() + 1,
            (final(self).outbox().last() matches ClusterEvent::NodeLeft { node_id: n, reason: why } && n == node_id
                && why == reason),
            final(self).balancer() == old(self).balancer(),
            final(self).spec_status() == old(self).spec_status(),
    {
        let ghost before = self.nodes@;
        let ghost keep = |n: u128| n != node_id;
        let mut kept: Vec<u128> = Vec::new();
        let mut i: usize = 0;
        while i < self.nodes.len()
            invariant
                self.nodes@ == before,
                i <= before.len(),
                kept@ == before.take(i as int).filter(keep),
                keep == (|n: u128| n != node_id),
                forall|a: int, b: int| 0 <= a < b < kept@.len() ==> kept@[a] != kept@[b],
                forall|a: int| 0 <= a < kept@.len() ==> before.take(i as int).contains(#[trigger] kept@[a]),
                forall|a: int, b: int| 0 <= a < b < before.len() ==> before[a] != before[b],
            decreases before.len() - i,
        {
            proof {
                assert(before.take(i as int + 1).drop_last() =~= before.take(i as int));
                reveal(Seq::filter);
            }
            let n = self.nodes[i];
            if n != node_id {
                proof {
                    assert forall|a: int| 0 <= a < kept@.len() implies kept@[a] != n by {
                        let w = choose|w: int| 0 <= w < i && before.take(i as int)[w] == kept@[a];
                        assert(before[w] != before[i as int]);
                    }
                }
                kept.push(n);
            }
            proof {
                assert(kept@ =~= before.take(i as int + 1).filter(keep));
                assert forall|a: int| 0 <= a < kept@.len() implies before.take(i as int + 1).contains(#[trigger] kept@[a]) by {
                    if a < kept@.len() - 1 || n == node_id {
                        let w = choose|w: int| 0 <= w < before.take(i as int).len() && before.take(i as int)[w] == kept@[a];
                        assert(before.take(i as int + 1)[w] == kept@[a]);
                    } else {
                        assert(before.take(i as int + 1)[i as int] == kept@[a]);
                    }
                }
            }
            i = i + 1;
        }
        proof {
            assert(before.take(before.len() as int) =~= before);
        }
        self.nodes = kept;
        self.events.push(ClusterEvent::NodeLeft { node_id, reason });
    }

    /// Places job `job_id` now on one of the available `nodes`.
    pub fn distribute_job(&mut self, job_id: u128, nodes: &Vec<NodeCandidate>) -> (r: Result<
        JobDistribution,
        AppError,
    >)
        requires
            old(self).well_formed(),
            capacity_sum(nodes@) <= u64::MAX,
            forall|i: int| 0 <= i < nodes@.len() ==> (has_id(old(self).balancer().loads(), #[trigger] nodes@[i].id)
                ==> value_at_id(old(self).balancer().loads(), nodes@[i].id) < u64::MAX),
        ensures
            final(self).well_formed(),
            final(self).members() == old(self).members(),
            final(self).spec_status() == old(self).spec_status(),
            nodes@.len() == 0 ==> (r matches Err(AppError::ValidationError(m)) && m@
                == "No available nodes for job distribution"@ && final(self).outbox() == old(self).outbox()),
            nodes@.len() > 0 ==> (r matches Ok(d) && {
                &&& d.job_id == job_id
                &&& d.strategy == old(self).settings().load_balancing_strategy
                &&& d.metadata@.len() == 0
                &&& exists|i: int| 0 <= i < nodes@.len() && #[trigger] nodes@[i].id == d.target_node && (nodes@[i].first_runner
                    matches Some(rn) ==> d.target_runner == rn)
                &&& exists|n: NodeCandidate| #[trigger] balancer_picks(old(self).balancer(), nodes@, n) && n.id
                    == d.target_node && (n.first_runner matches Some(rn) ==> d.target_runner == rn)
                &&& final(self).balancer().spec_strategy() == old(self).balancer().spec_strategy()
                &&& final(self).balancer().counter() == if old(self).balancer().counter() == usize::MAX {
                    0
                } else {
                    (old(self).balancer().counter() + 1) as usize
                }
                &&& final(self).balancer().history() == if old(self).balancer().history().len()
                    < DISTRIBUTION_HISTORY_LIMIT {
                    old(self).balancer().history().push((job_id, d.target_node))
                } else {
                    old(self).balancer().history().push((job_id, d.target_node)).drop_first()
                }
                &&& final(self).outbox().len() == old(self).outbox().len() + 1
            }),
    {
        let now = crate::platform::now_millis();
        self.distribute_job_at(job_id, nodes, now)
    }

    /// Places job `job_id` at `now` on one of the available `nodes`, with
    /// the node's first runner (a fresh identifier for a node without
    /// runners), records the placement and announces it.  No available node
    /// is refused with `ValidationError`.
    pub fn distribute_job_at(&mut self, job_id: u128, nodes: &Vec<NodeCandidate>, now: u64) -> (r: Result<
        JobDistribution,
        AppError,
    >)
        requires
            old(self).well_formed(),
            capacity_sum(nodes@) <= u64::MAX,
            forall|i: int| 0 <= i < nodes@.len() ==> (has_id(old(self).balancer().loads(), #[trigger] nodes@[i].id)
                ==> value_at_id(old(self).balancer().loads(), nodes@[i].id) < u64::MAX),
        ensures
            final(self).well_formed(),
            final(self).members() == old(self).members(),
            final(self).spec_status() == old(self).spec_status(),
            nodes@.len() == 0 ==> (r matches Err(AppError::ValidationError(m)) && m@
                == "No available nodes for job distribution"@ && final(self).outbox() == old(self).outbox()),
            nodes@.len() > 0 ==> (r matches Ok(d) && {
                &&& d.job_id == job_id
                &&& d.distributed_at == now
                &&& d.strategy == old(self).settings().load_balancing_strategy
                &&& d.metadata@.len() == 0
                &&& exists|i: int| 0 <= i < nodes@.len() && #[trigger] nodes@[i].id == d.target_node && (nodes@[i].first_runner
                    matches Some(rn) ==> d.target_runner == rn)
                &&& exists|n: NodeCandidate| #[trigger] balancer_picks(old(self).balancer(), nodes@, n) && n.id
                    == d.target_node && (n.first_runner matches Some(rn) ==> d.target_runner == rn)
                &&& final(self).balancer().spec_strategy() == old(self).balancer().spec_strategy()
                &&& final(self).balancer().counter() == if old(self).balancer().counter() == usize::MAX {
                    0
                } else {
                    (old(self).balancer().counter() + 1) as usize
                }
                &&& final(self).balancer().history() == if old(self).balancer().history().len()
                    < DISTRIBUTION_HISTORY_LIMIT {
                    old(self).balancer().history().push((job_id, d.target_node))
                } else {
                    old(self).balancer().history().push((job_id, d.target_node)).drop_first()
                }
                &&& final(self).outbox().len() == old(self).outbox().len() + 1
            }),
    {
        if nodes.len() == 0 {
            return Err(AppError::ValidationError(String::from_str("No available nodes for job distribution")));
        }
        let selected = match self.load_balancer.select_node_for_job(nodes) {
            Ok(n) => n,
            Err(e) => {
                return Err(e);
            },
        };
        let target_runner = match selected.first_runner {
            Some(rn) => rn,
            None => crate::platform::new_identifier(),
        };
        let d = JobDistribution {
            job_id,
            target_node: selected.id,
            target_runner,
            distributed_at: now,
            strategy: self.config.load_balancing_strategy,
            metadata: Vec::new(),
        };
        let copy = d.duplicate();
        let event_copy = d.duplicate();
        self.load_balancer.update_load_balancer_state(d);
        self.events.push(ClusterEvent::JobDistributed { distribution: event_copy });
        Ok(copy)
    }

    /// Stores newly collected metrics and announces them.
    pub fn record_metrics(&mut self, metrics: ClusterMetrics)
        ensures
            final(self).outbox() == old(self).outbox().push(ClusterEvent::MetricsUpdated { metrics }),
            final(self).members() == old(self).members(),
            final(self).balancer() == old(self).balancer(),
            final(self).spec_status() == old(self).spec_status(),
            final(self).settings() == old(self).settings(),
            final(self).well_formed() == old(self).well_formed(),
    {
        self.metrics = metrics;
        self.events.push(ClusterEvent::MetricsUpdated { metrics });
    }

    /// Hands out the announced events, oldest first.
    pub fn drain_events(&mut self) -> (es: Vec<ClusterEvent>)
        ensures
            es@ == old(self).outbox(),
            final(self).outbox().len() == 0,
            final(self).members() == old(self).members(),
            final(self).balancer() == old(self).balancer(),
            final(self).spec_status() == old(self).spec_status(),
            final(self).settings() == old(self).settings(),
            final(self).well_formed() == old(self).well_formed(),
    {
        let mut out: Vec<ClusterEvent> = Vec::new();
        std::mem::swap(&mut out, &mut self.events);
        out
    }
}

} // verus!
