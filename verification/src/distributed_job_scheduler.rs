//! Cluster-aware job placement: nodes are scored for a job, the best one
//! by the configured strategy is picked, placements are kept, and jobs are
//! moved to another node on request.
//!
//! Scores and usages are whole percents, rounded down; times are
//! milliseconds since the epoch.

use crate::cluster_coordinator::{ClusterCoordinator, NodeCandidate};
use crate::control_plane_health::{percent_of, usage_percent};
use crate::domain::Job;
use crate::errors::AppError;
use crate::ids::{has_id, id_upserted, value_at_id, IdTable};
use crate::job_scheduler::{next_mean, DefaultJobScheduler, JobSchedulerConfig};
use crate::text::contains_text;
use vstd::prelude::*;

verus! {

/// How a node is picked for a job.
#[derive(Debug, Clone, Copy, PartialEq, Eq, Structural)]
pub enum NodeSelectionStrategy {
    LeastLoaded,
    ResourceAware,
    RoundRobin,
    Affinity,
    Weighted,
}

/// Why a job is moved to another node.
#[derive(Debug, Clone, Copy, PartialEq, Eq, Structural)]
pub enum ReschedulingReason {
    NodeFailure,
    NodeUnavailable,
    ResourceConstraints,
    LoadBalancing,
    Manual,
}

/// The name of a rescheduling reason.
pub open spec fn reason_name(r: ReschedulingReason) -> Seq<char> {
    match r {
        ReschedulingReason::NodeFailure => "NodeFailure"@,
        ReschedulingReason::NodeUnavailable => "NodeUnavailable"@,
        ReschedulingReason::ResourceConstraints => "ResourceConstraints"@,
        ReschedulingReason::LoadBalancing => "LoadBalancing"@,
        ReschedulingReason::Manual => "Manual"@,
    }
}

/// The name of a rescheduling reason.
pub fn reason_text(r: ReschedulingReason) -> (s: &'static str)
    ensures
        s@ == reason_name(r),
{
    match r {
        ReschedulingReason::NodeFailure => "NodeFailure",
        ReschedulingReason::NodeUnavailable => "NodeUnavailable",
        ReschedulingReason::ResourceConstraints => "ResourceConstraints",
        ReschedulingReason::LoadBalancing => "LoadBalancing",
        ReschedulingReason::Manual => "Manual",
    }
}

/// Settings of the distributed scheduler.
#[derive(Debug, Clone, Copy)]
pub struct DistributedJobSchedulerConfig {
    pub base_config: JobSchedulerConfig,
    pub node_selection_strategy: NodeSelectionStrategy,
    pub enable_auto_rescheduling: bool,
    pub max_reschedule_attempts: u32,
    /// Seconds.
    pub reschedule_delay: u64,
    /// Highest mean of CPU and memory usage a node may have, in percent.
    pub resource_threshold: u64,
    pub enable_job_affinity: bool,
    /// Seconds.
    pub placement_timeout: u64,
}

impl DistributedJobSchedulerConfig {
    /// Whether these are the default settings, the base scheduler's among
    /// them.
    pub open spec fn is_default(&self) -> bool {
        &&& self.base_config.is_default()
        &&& self.node_selection_strategy == NodeSelectionStrategy::ResourceAware
        &&& self.enable_auto_rescheduling
        &&& self.max_reschedule_attempts == 3
        &&& self.reschedule_delay == 30
        &&& self.resource_threshold == 80
        &&& self.enable_job_affinity
        &&& self.placement_timeout == 60
    }

    /// The default settings: resource-aware placement, automatic
    /// rescheduling up to three times 30 s apart, nodes up to 80% busy,
    /// affinity on, a minute to place a job.
    pub fn default_config() -> (c: Self)
        ensures
            c.is_default(),
    {
        DistributedJobSchedulerConfig {
            base_config: JobSchedulerConfig::default_config(),
            node_selection_strategy: NodeSelectionStrategy::ResourceAware,
            enable_auto_rescheduling: true,
            max_reschedule_attempts: 3,
            reschedule_delay: 30,
            resource_threshold: 80,
            enable_job_affinity: true,
            placement_timeout: 60,
        }
    }
}

/// State of a cluster node as the placement sees it.
#[derive(Debug, Clone, Copy, PartialEq, Eq, Structural)]
pub enum NodeStatus {
    Active,
    Inactive,
    Maintenance,
    Draining,
    Failed,
}

/// Resources of a node; usages are whole percents.
#[derive(Debug, Clone, Copy, PartialEq, Eq, Structural)]
pub struct NodeResources {
    pub total_cpu: u64,
    pub available_cpu: u64,
    pub total_memory: u64,
    pub available_memory: u64,
    pub total_disk: u64,
    pub available_disk: u64,
    pub cpu_usage: u64,
    pub memory_usage: u64,
    pub disk_usage: u64,
}

/// A node that may receive jobs.
#[derive(Debug, Clone)]
pub struct SchedulingNode {
    pub id: u128,
    pub status: NodeStatus,
    /// Whether the node takes jobs at all.
    pub accepts_jobs: bool,
    pub resources: NodeResources,
    /// Workload the node prefers, from its metadata.
    pub preferred_workload: Option<String>,
    /// What the node specialises in, from its metadata.
    pub specialization: Option<String>,
}

/// Least resources a job needs.
#[derive(Debug, Clone, Copy, PartialEq, Eq, Structural)]
pub struct MinResources {
    pub min_cpu: u64,
    pub min_memory: u64,
    pub min_disk: Option<u64>,
}

/// What the placement knows of a job.
#[derive(Debug, Clone)]
pub struct PlacementRequest {
    pub job_id: u128,
    pub name: String,
    /// The job's type, from its metadata.
    pub job_type: Option<String>,
    pub min_resources: Option<MinResources>,
}

/// How well a node suits a job.
#[derive(Debug, Clone, Copy, PartialEq, Eq, Structural)]
pub struct NodeResourceAnalysis {
    pub node_id: u128,
    pub resource_score: u64,
    pub cpu_score: u64,
    pub memory_score: u64,
    pub load_factor: u64,
    pub affinity_score: u64,
    pub can_handle: bool,
}

/// Whether a node takes new jobs.
pub open spec fn node_available(n: SchedulingNode) -> bool {
    n.status == NodeStatus::Active && n.accepts_jobs
}

/// The affinity of `node` for the job of `req`: 10 when the job's name
/// holds the node's preferred workload, 15 more when the job's type is the
/// node's specialisation; nothing when affinity is off.
pub open spec fn affinity_of(config: DistributedJobSchedulerConfig, req: PlacementRequest, node: SchedulingNode) -> nat {
    if !config.enable_job_affinity {
        0
    } else {
        (if node.preferred_workload is Some && contains_text(req.name@, node.preferred_workload->0@) {
            10nat
        } else {
            0nat
        }) + (if req.job_type is Some && node.specialization is Some && req.job_type->0@
            == node.specialization->0@ {
            15nat
        } else {
            0nat
        })
    }
}

/// Whether `node` can take the job of `req`: enough resources, a mean of
/// CPU and memory usage within the threshold, and not in maintenance or
/// draining.
pub open spec fn handles(config: DistributedJobSchedulerConfig, req: PlacementRequest, node: SchedulingNode) -> bool {
    let r = node.resources;
    &&& req.min_resources matches Some(m) ==> r.available_cpu >= m.min_cpu && r.available_memory >= m.min_memory && (
    m.min_disk matches Some(d) ==> r.available_disk >= d)
    &&& r.cpu_usage + r.memory_usage <= 2 * config.resource_threshold
    &&& node.status != NodeStatus::Maintenance
    &&& node.status != NodeStatus::Draining
}

/// A share in whole percent, held at `u64::MAX`.
pub open spec fn capped_percent(used: u64, total: u64) -> u64 {
    if percent_of(used as nat, total as nat) <= u64::MAX {
        percent_of(used as nat, total as nat) as u64
    } else {
        u64::MAX
    }
}

/// `x` held within 0 and 100.
pub open spec fn clamp_score(x: int) -> u64 {
    if x < 0 {
        0
    } else if x > 100 {
        100
    } else {
        x as u64
    }
}

/// The analysis of `node` for the job of `req`: its free CPU and memory
/// shares, the mean of its usages, its affinity, whether it can take the
/// job, and a score of the mean free share less half the load plus three
/// tenths of the affinity, within 0 and 100 (0 for a node that cannot take
/// the job).
pub open spec fn analysis_of(
    config: DistributedJobSchedulerConfig,
    req: PlacementRequest,
    node: SchedulingNode,
) -> NodeResourceAnalysis {
    let r = node.resources;
    let cpu = capped_percent(r.available_cpu, r.total_cpu);
    let mem = capped_percent(r.available_memory, r.total_memory);
    let load = (r.cpu_usage + r.memory_usage) / 2;
    let aff = affinity_of(config, req, node);
    let ok = handles(config, req, node);
    NodeResourceAnalysis {
        node_id: node.id,
        resource_score: if ok {
            clamp_score((cpu + mem) / 2 + aff * 3 / 10 - load / 2)
        } else {
            0
        },
        cpu_score: cpu,
        memory_score: mem,
        load_factor: load as u64,
        affinity_score: aff as u64,
        can_handle: ok,
    }
}

/// The affinity of `node` for the job of `req`.
pub fn calculate_job_affinity_score(
    config: &DistributedJobSchedulerConfig,
    req: &PlacementRequest,
    node: &SchedulingNode,
) -> (a: u64)
    ensures
        a == affinity_of(*config, *req, *node),
{
    if !config.enable_job_affinity {
        return 0;
    }
    let mut score: u64 = 0;
    match &node.preferred_workload {
        Some(w) => {
            if crate::text::text_contains(req.name.as_str(), w.as_str()) {
                score = score + 10;
            }
        },
        None => {},
    }
    match (&req.job_type, &node.specialization) {
        (Some(t), Some(sp)) => {
            if *t == *sp {
                score = score + 15;
            }
        },
        _ => {},
    }
    score
}

/// Whether `node` can take the job of `req`.
pub fn can_node_handle_job(config: &DistributedJobSchedulerConfig, req: &PlacementRequest, node: &SchedulingNode) -> (b:
    bool)
    ensures
        b == handles(*config, *req, *node),
{
    let r = node.resources;
    match req.min_resources {
        Some(m) => {
            if r.available_cpu < m.min_cpu {
                return false;
            }
            if r.available_memory < m.min_memory {
                return false;
            }
            match m.min_disk {
                Some(d) => {
                    if r.available_disk < d {
                        return false;
                    }
                },
                None => {},
            }
        },
        None => {},
    }
    if r.cpu_usage as u128 + r.memory_usage as u128 > 2 * config.resource_threshold as u128 {
        return false;
    }
    match node.status {
        NodeStatus::Maintenance | NodeStatus::Draining => false,
        _ => true,
    }
}

/// The analysis of `node` for the job of `req`.
pub fn analyze_single_node(
    config: &DistributedJobSchedulerConfig,
    req: &PlacementRequest,
    node: &SchedulingNode,
) -> (a: NodeResourceAnalysis)
    ensures
        a == analysis_of(*config, *req, *node),
{
    let r = node.resources;
    let cpu = usage_percent(r.available_cpu, r.total_cpu);
    let mem = usage_percent(r.available_memory, r.total_memory);
    let load: u64 = ((r.cpu_usage as u128 + r.memory_usage as u128) / 2) as u64;
    let aff = calculate_job_affinity_score(config, req, node);
    let ok = can_node_handle_job(config, req, node);
    let score: u64 = if ok {
        let up: i128 = (cpu as i128 + mem as i128) / 2 + (aff as i128 * 3) / 10;
        let v: i128 = up - (load as i128) / 2;
        if v < 0 {
            0
        } else if v > 100 {
            100
        } else {
            v as u64
        }
    } else {
        0
    };
    NodeResourceAnalysis {
        node_id: node.id,
        resource_score: score,
        cpu_score: cpu,
        memory_score: mem,
        load_factor: load,
        affinity_score: aff,
        can_handle: ok,
    }
}

/// Whether the scores of `s` never rise.
pub open spec fn scores_descending(s: Seq<NodeResourceAnalysis>) -> bool {
    forall|i: int, j: int| 0 <= i < j < s.len() ==> #[trigger] s[i].resource_score >= #[trigger] s[j].resource_score
}

/// The analyses of `nodes` for the job of `req`, in the order of the nodes.
pub open spec fn analyses_of(
    config: DistributedJobSchedulerConfig,
    req: PlacementRequest,
    nodes: Seq<SchedulingNode>,
) -> Seq<NodeResourceAnalysis> {
    nodes.map_values(|n: SchedulingNode| analysis_of(config, req, n))
}

/// The analyses of `nodes` for the job of `req`, best score first; nodes
/// with equal scores keep their order.
pub fn analyze_nodes_for_job(
    config: &DistributedJobSchedulerConfig,
    req: &PlacementRequest,
    nodes: &Vec<SchedulingNode>,
) -> (out: Vec<NodeResourceAnalysis>)
    ensures
        scores_descending(out@),
        out@.to_multiset() == analyses_of(*config, *req, nodes@).to_multiset(),
        out@.len() == nodes@.len(),
        forall|k: int| 0 <= k < out@.len() ==> #[trigger] out@[k].resource_score <= 100,
{
    broadcast use vstd::seq_lib::group_to_multiset_ensures;

    let ghost all = analyses_of(*config, *req, nodes@);
    let mut out: Vec<NodeResourceAnalysis> = Vec::new();
    let mut i: usize = 0;
    while i < nodes.len()
        invariant
            i <= nodes@.len(),
            all == analyses_of(*config, *req, nodes@),
            all.len() == nodes@.len(),
            scores_descending(out@),
            out@.to_multiset() == all.take(i as int).to_multiset(),
            out@.len() == i,
            forall|k: int| 0 <= k < out@.len() ==> #[trigger] out@[k].resource_score <= 100,
        decreases nodes@.len() - i,
    {
        let a = analyze_single_node(config, req, &nodes[i]);
        let mut pos: usize = 0;
        while pos < out.len() && out[pos].resource_score >= a.resource_score
            invariant
                pos <= out@.len(),
                forall|j: int| 0 <= j < pos ==> #[trigger] out@[j].resource_score >= a.resource_score,
            decreases out@.len() - pos,
        {
            pos = pos + 1;
        }
        let ghost before = out@;
        out.insert(pos, a);
        proof {
            assert(out@ == before.insert(pos as int, a));
            assert(all.take(i as int + 1) =~= all.take(i as int).push(all[i as int]));
            assert(all[i as int] == a);
            vstd::seq_lib::to_multiset_insert(before, pos as int, a);
            assert forall|k: int| 0 <= k < out@.len() implies #[trigger] out@[k].resource_score <= 100 by {
                if k < pos {
                    assert(out@[k] == before[k]);
                } else if k > pos {
                    assert(out@[k] == before[k - 1]);
                }
            }
            vstd::seq_lib::to_multiset_build(all.take(i as int), a);
            assert forall|x: int, y: int| 0 <= x < y < out@.len() implies #[trigger] out@[x].resource_score
                >= #[trigger] out@[y].resource_score by {
                if y < pos {
                    assert(out@[x] == before[x] && out@[y] == before[y]);
                } else if y == pos {
                    assert(out@[x] == before[x]);
                } else if x == pos {
                    assert(out@[y] == before[y - 1]);
                    if pos < before.len() {
                        assert(before[pos as int].resource_score < a.resource_score);
                        assert(before[pos as int].resource_score >= before[y - 1].resource_score);
                    }
                } else if x < pos {
                    assert(out@[x] == before[x] && out@[y] == before[y - 1]);
                } else {
                    assert(out@[x] == before[x - 1] && out@[y] == before[y - 1]);
                }
            }
        }
        i = i + 1;
    }
    proof {
        assert(all.take(nodes@.len() as int) =~= all);
    }
    out
}

/// The analyses of nodes that can take the job, in order.
pub open spec fn suitable(a: Seq<NodeResourceAnalysis>) -> Seq<NodeResourceAnalysis> {
    a.filter(|x: NodeResourceAnalysis| x.can_handle)
}

/// Whether `s[k]` has the least load, and no earlier one has as little.
pub open spec fn first_least_loaded(s: Seq<NodeResourceAnalysis>, k: int) -> bool {
    &&& 0 <= k < s.len()
    &&& forall|j: int| 0 <= j < s.len() ==> s[k].load_factor <= #[trigger] s[j].load_factor
    &&& forall|j: int| 0 <= j < k ==> #[trigger] s[j].load_factor > s[k].load_factor
}

/// Whether `s[k]` has the highest score, and no later one has as much.
pub open spec fn last_best_score(s: Seq<NodeResourceAnalysis>, k: int) -> bool {
    &&& 0 <= k < s.len()
    &&& forall|j: int| 0 <= j < s.len() ==> #[trigger] s[j].resource_score <= s[k].resource_score
    &&& forall|j: int| k < j < s.len() ==> #[trigger] s[j].resource_score < s[k].resource_score
}

/// Whether `s[k]` has the highest affinity, and no later one has as much.
pub open spec fn last_best_affinity(s: Seq<NodeResourceAnalysis>, k: int) -> bool {
    &&& 0 <= k < s.len()
    &&& forall|j: int| 0 <= j < s.len() ==> #[trigger] s[j].affinity_score <= s[k].affinity_score
    &&& forall|j: int| k < j < s.len() ==> #[trigger] s[j].affinity_score < s[k].affinity_score
}

/// The sum of the scores of `s`.
pub open spec fn score_sum(s: Seq<NodeResourceAnalysis>) -> nat
    decreases s.len(),
{
    if s.len() == 0 {
        0
    } else {
        score_sum(s.drop_last()) + (s.last().resource_score as nat)
    }
}

/// Whether draw `r` picks `s[k]` in proportion to the scores: the first
/// whose running sum passes `r`, or the last.
pub open spec fn weighted_pick(s: Seq<NodeResourceAnalysis>, r: nat, k: int) -> bool {
    &&& 0 <= k < s.len()
    &&& (score_sum(s.take(k + 1)) > r || k == s.len() - 1)
    &&& forall|j: int| 0 <= j < k ==> score_sum(#[trigger] s.take(j + 1)) <= r
}

/// One more turn of a counter, back to zero after the last value.
pub open spec fn next_turn(c: usize) -> usize {
    if c == usize::MAX {
        0
    } else {
        (c + 1) as usize
    }
}

proof fn lemma_score_sum_step(s: Seq<NodeResourceAnalysis>, k: int)
    requires
        0 <= k < s.len(),
    ensures
        score_sum(s.take(k + 1)) == score_sum(s.take(k)) + s[k].resource_score,
{
    assert(s.take(k + 1).drop_last() =~= s.take(k));
}

proof fn lemma_score_sum_bound(s: Seq<NodeResourceAnalysis>)
    requires
        forall|i: int| 0 <= i < s.len() ==> #[trigger] s[i].resource_score <= 100,
    ensures
        score_sum(s) <= 100 * s.len(),
    decreases s.len(),
{
    if s.len() > 0 {
        lemma_score_sum_bound(s.drop_last());
    }
}

/// The analyses of nodes that can take the job.
pub fn suitable_nodes(a: &Vec<NodeResourceAnalysis>) -> (s: Vec<NodeResourceAnalysis>)
    ensures
        s@ == suitable(a@),
{
    let ghost f = |x: NodeResourceAnalysis| x.can_handle;
    let mut s: Vec<NodeResourceAnalysis> = Vec::new();
    let mut i: usize = 0;
    while i < a.len()
        invariant
            i <= a@.len(),
            s@ == a@.take(i as int).filter(f),
            f == (|x: NodeResourceAnalysis| x.can_handle),
        decreases a@.len() - i,
    {
        proof {
            assert(a@.take(i as int + 1) =~= a@.take(i as int).push(a@[i as int]));
            crate::concurrency::lemma_filter_snoc(a@.take(i as int), a@[i as int], f);
        }
        if a[i].can_handle {
            s.push(a[i]);
        }
        i = i + 1;
    }
    proof {
        assert(a@.take(a@.len() as int) =~= a@);
    }
    s
}

/// The position picked by draw `r` in proportion to the scores of `s`.
pub fn pick_weighted(s: &Vec<NodeResourceAnalysis>, r: u64) -> (k: usize)
    requires
        s@.len() > 0,
        forall|i: int| 0 <= i < s@.len() ==> #[trigger] s@[i].resource_score <= 100,
    ensures
        weighted_pick(s@, r as nat, k as int),
{
    let mut acc: u128 = 0;
    let mut i: usize = 0;
    while i < s.len()
        invariant
            i < s@.len(),
            acc == score_sum(s@.take(i as int)),
            acc <= 100 * i,
            forall|j: int| 0 <= j < i ==> score_sum(#[trigger] s@.take(j + 1)) <= r,
            forall|q: int| 0 <= q < s@.len() ==> #[trigger] s@[q].resource_score <= 100,
        decreases s@.len() - i,
    {
        proof {
            lemma_score_sum_step(s@, i as int);
        }
        acc = acc + s[i].resource_score as u128;
        if acc > r as u128 || i + 1 == s.len() {
            return i;
        }
        i = i + 1;
    }
    0
}

/// The node picked for a job among `analyses`, by `strategy`, with the
/// round-robin counter `counter`; answers it with the counter's next
/// value.  Only nodes that can take the job are considered; none is
/// refused with `ValidationError`.  Least loaded takes the first node of
/// least load; resource-aware and affinity take the last node of highest
/// score or affinity; round robin takes the node at the counter and turns
/// it; weighted draws a node in proportion to the scores (the first node
/// when all scores are nil).
pub fn select_best_node(
    strategy: NodeSelectionStrategy,
    analyses: &Vec<NodeResourceAnalysis>,
    counter: usize,
) -> (r: Result<(NodeResourceAnalysis, usize), AppError>)
    requires
        forall|i: int| 0 <= i < analyses@.len() ==> #[trigger] analyses@[i].resource_score <= 100,
        analyses@.len() <= u64::MAX / 100,
    ensures
        (suitable(analyses@).len() == 0) == (r is Err),
        r is Err ==> (r matches Err(AppError::ValidationError(m)) && m@ == "No suitable nodes found for job placement"@),
        r matches Ok((a, c)) ==> picked_by(strategy, suitable(analyses@), counter, a, c),
{
    let s = suitable_nodes(analyses);
    proof {
        assert forall|i: int| 0 <= i < s@.len() implies #[trigger] s@[i].resource_score <= 100 by {
            assert(suitable(analyses@).contains(s@[i]));
            analyses@.lemma_filter_contains_rev(|x: NodeResourceAnalysis| x.can_handle, s@[i]);
            assert(analyses@.contains(s@[i]));
        }
    }
    if s.len() == 0 {
        return Err(AppError::ValidationError(String::from_str("No suitable nodes found for job placement")));
    }
    let n = s.len();
    proof {
        analyses@.filter_lemma(|x: NodeResourceAnalysis| x.can_handle);
        assert(n <= u64::MAX / 100);
    }
    match strategy {
        NodeSelectionStrategy::LeastLoaded => {
            let mut best: usize = 0;
            let mut i: usize = 1;
            while i < n
                invariant
                    n == s@.len(),
                    1 <= i <= n,
                    best < i,
                    forall|j: int| 0 <= j < i ==> s@[best as int].load_factor <= #[trigger] s@[j].load_factor,
                    forall|j: int| 0 <= j < best ==> #[trigger] s@[j].load_factor > s@[best as int].load_factor,
                decreases n - i,
            {
                if s[i].load_factor < s[best].load_factor {
                    best = i;
                }
                i = i + 1;
            }
            proof {
                assert(first_least_loaded(s@, best as int));
            }
            Ok((s[best], counter))
        },
        NodeSelectionStrategy::ResourceAware => {
            let mut best: usize = 0;
            let mut i: usize = 1;
            while i < n
                invariant
                    n == s@.len(),
                    1 <= i <= n,
                    best < i,
                    forall|j: int| 0 <= j < i ==> #[trigger] s@[j].resource_score <= s@[best as int].resource_score,
                    forall|j: int| best < j < i ==> #[trigger] s@[j].resource_score < s@[best as int].resource_score,
                decreases n - i,
            {
                if s[i].resource_score >= s[best].resource_score {
                    best = i;
                }
                i = i + 1;
            }
            proof {
                assert(last_best_score(s@, best as int));
            }
            Ok((s[best], counter))
        },
        NodeSelectionStrategy::RoundRobin => {
            let idx = counter % n;
            let next: usize = if counter == usize::MAX {
                0
            } else {
                counter + 1
            };
            Ok((s[idx], next))
        },
        NodeSelectionStrategy::Affinity => {
            let mut best: usize = 0;
            let mut i: usize = 1;
            while i < n
                invariant
                    n == s@.len(),
                    1 <= i <= n,
                    best < i,
                    forall|j: int| 0 <= j < i ==> #[trigger] s@[j].affinity_score <= s@[best as int].affinity_score,
                    forall|j: int| best < j < i ==> #[trigger] s@[j].affinity_score < s@[best as int].affinity_score,
                decreases n - i,
            {
                if s[i].affinity_score >= s[best].affinity_score {
                    best = i;
                }
                i = i + 1;
            }
            proof {
                assert(last_best_affinity(s@, best as int));
            }
            Ok((s[best], counter))
        },
        NodeSelectionStrategy::Weighted => {
            let mut total: u64 = 0;
            let mut i: usize = 0;
            while i < n
                invariant
                    n == s@.len(),
                    i <= n,
                    total == score_sum(s@.take(i as int)),
                    total <= 100 * i,
                    n <= u64::MAX / 100,
                    forall|q: int| 0 <= q < s@.len() ==> #[trigger] s@[q].resource_score <= 100,
                decreases n - i,
            {
                proof {
                    lemma_score_sum_step(s@, i as int);
                    assert(100 * i + 100 <= u64::MAX) by (nonlinear_arith)
                        requires
                            i < n,
                            n <= u64::MAX / 100,
                    ;
                }
                total = total + s[i].resource_score;
                i = i + 1;
            }
            proof {
                assert(s@.take(n as int) =~= s@);
            }
            if total == 0 {
                return Ok((s[0], counter));
            }
            let draw = crate::platform::random_below(total);
            let k = pick_weighted(&s, draw);
            proof {
                assert(weighted_pick(s@, draw as nat, k as int));
            }
            Ok((s[k], counter))
        },
    }
}

/// Whether `strategy` picks `a` among `s` with counter `counter`, leaving
/// the counter at `c`.
pub open spec fn picked_by(
    strategy: NodeSelectionStrategy,
    s: Seq<NodeResourceAnalysis>,
    counter: usize,
    a: NodeResourceAnalysis,
    c: usize,
) -> bool {
    match strategy {
        NodeSelectionStrategy::LeastLoaded => c == counter && exists|k: int| #[trigger] first_least_loaded(s, k) && a == s[k],
        NodeSelectionStrategy::ResourceAware => c == counter && exists|k: int| #[trigger] last_best_score(s, k) && a == s[k],
        NodeSelectionStrategy::RoundRobin => c == next_turn(counter) && s.len() > 0 && a == s[(counter as int) % (s.len() as int)],
        NodeSelectionStrategy::Affinity => c == counter && exists|k: int| #[trigger] last_best_affinity(s, k) && a == s[k],
        NodeSelectionStrategy::Weighted => c == counter && s.len() > 0 && (score_sum(s) == 0 ==> a == s[0]) && (score_sum(s) > 0
            ==> exists|k: int, r: nat| r < score_sum(s) && #[trigger] weighted_pick(s, r, k) && a == s[k]),
    }
}

/// Where a job was placed.
#[derive(Debug)]
pub struct JobPlacement {
    pub job_id: u128,
    pub node_id: u128,
    pub placed_at: u64,
    pub strategy: NodeSelectionStrategy,
    pub attempt: u32,
    /// Nodes the job was placed on before, oldest first.
    pub previous_placements: Vec<u128>,
    pub metadata: Vec<(String, String)>,
}

impl JobPlacement {
    /// An equal copy.
    pub fn duplicate(&self) -> (p: Self)
        ensures
            p.job_id == self.job_id,
            p.node_id == self.node_id,
            p.placed_at == self.placed_at,
            p.strategy == self.strategy,
            p.attempt == self.attempt,
            p.previous_placements@ == self.previous_placements@,
            p.metadata@ == self.metadata@,
    {
        JobPlacement {
            job_id: self.job_id,
            node_id: self.node_id,
            placed_at: self.placed_at,
            strategy: self.strategy,
            attempt: self.attempt,
            previous_placements: self.previous_placements.clone(),
            metadata: crate::domain::copy_pairs(&self.metadata),
        }
    }
}

/// A move of a job to another node.
#[derive(Debug, Clone, Copy, PartialEq, Eq, Structural)]
pub struct JobRescheduling {
    pub job_id: u128,
    pub original_node: u128,
    pub new_node: u128,
    pub reason: ReschedulingReason,
    pub rescheduled_at: u64,
    pub attempt: u32,
}

/// Moves kept at most.
pub const RESCHEDULING_HISTORY_LIMIT: usize = 1000;

/// Counters of the distributed scheduler: placement times in ms, the
/// success rate of moves and node utilisations in whole percent.
#[derive(Debug)]
pub struct DistributedJobSchedulerStats {
    pub base_stats: crate::job_scheduler::JobSchedulerStats,
    pub total_jobs_placed: u64,
    pub total_jobs_rescheduled: u64,
    pub jobs_by_node: IdTable<u64>,
    pub avg_placement_time_ms: u64,
    pub rescheduling_success_rate: u64,
    pub node_utilization: IdTable<u64>,
}

/// The nodes that take new jobs, in order.
pub open spec fn available_of(nodes: Seq<SchedulingNode>) -> Seq<SchedulingNode> {
    nodes.filter(|n: SchedulingNode| node_available(n))
}

/// The nodes that take new jobs, other than `excluded`, in order.
pub open spec fn alternatives_of(nodes: Seq<SchedulingNode>, excluded: u128) -> Seq<SchedulingNode> {
    available_of(nodes).filter(|n: SchedulingNode| n.id != excluded)
}

/// Whether some ordering of the analyses of `nodes` for `req`, best score
/// first, has `strategy` pick `a` with counter `counter`, leaving `c`.
pub open spec fn placed_on(
    config: DistributedJobSchedulerConfig,
    req: PlacementRequest,
    nodes: Seq<SchedulingNode>,
    counter: usize,
    a: NodeResourceAnalysis,
    c: usize,
) -> bool {
    exists|s: Seq<NodeResourceAnalysis>|
        #[trigger] scores_descending(s) && s.to_multiset() == analyses_of(config, req, nodes).to_multiset()
            && picked_by(config.node_selection_strategy, suitable(s), counter, a, c)
}

/// A copy of a node.
pub fn copy_node(n: &SchedulingNode) -> (c: SchedulingNode)
    ensures
        c == *n,
{
    SchedulingNode {
        id: n.id,
        status: n.status,
        accepts_jobs: n.accepts_jobs,
        resources: n.resources,
        preferred_workload: crate::control_plane_observability::copy_text(&n.preferred_workload),
        specialization: crate::control_plane_observability::copy_text(&n.specialization),
    }
}

/// The nodes that take new jobs, other than `excluded` when given.
pub fn available_nodes(nodes: &Vec<SchedulingNode>, excluded: Option<u128>) -> (r: Vec<SchedulingNode>)
    ensures
        excluded is None ==> r@ == available_of(nodes@),
        excluded matches Some(x) ==> r@ == alternatives_of(nodes@, x),
{
    let ghost f = |n: SchedulingNode| node_available(n);
    let ghost g = |n: SchedulingNode| n.id != excluded->0;
    let mut r: Vec<SchedulingNode> = Vec::new();
    let mut i: usize = 0;
    while i < nodes.len()
        invariant
            i <= nodes@.len(),
            f == (|n: SchedulingNode| node_available(n)),
            g == (|n: SchedulingNode| n.id != excluded->0),
            excluded is None ==> r@ == nodes@.take(i as int).filter(f),
            excluded is Some ==> r@ == nodes@.take(i as int).filter(f).filter(g),
        decreases nodes@.len() - i,
    {
        proof {
            assert(nodes@.take(i as int + 1) =~= nodes@.take(i as int).push(nodes@[i as int]));
            crate::concurrency::lemma_filter_snoc(nodes@.take(i as int), nodes@[i as int], f);
            if node_available(nodes@[i as int]) {
                crate::concurrency::lemma_filter_snoc(nodes@.take(i as int).filter(f), nodes@[i as int], g);
            }
        }
        let n = &nodes[i];
        let keep = n.status == NodeStatus::Active && n.accepts_jobs && match excluded {
            Some(x) => n.id != x,
            None => true,
        };
        if keep {
            r.push(copy_node(n));
        }
        i = i + 1;
    }
    proof {
        assert(nodes@.take(nodes@.len() as int) =~= nodes@);
    }
    r
}

/// Places jobs on cluster nodes.
pub struct DistributedJobScheduler {
    config: DistributedJobSchedulerConfig,
    job_placements: IdTable<JobPlacement>,
    rescheduling_history: Vec<JobRescheduling>,
    round_robin_counter: usize,
    stats: DistributedJobSchedulerStats,
}

/// Whether `base` can queue failed job `job_id` again: it holds a failed
/// result for it and its normal queue has room.
pub open spec fn retry_owed(base: DefaultJobScheduler, job_id: u128) -> bool {
    &&& has_id(base.results(), job_id)
    &&& value_at_id(base.results(), job_id).status == crate::domain::JobStatus::Failed
    &&& base.queue(crate::domain::JobPriority::Normal).waiting().len() < base.queue(
        crate::domain::JobPriority::Normal,
    ).spec_config().max_queue_size
}

impl DistributedJobScheduler {
    /// The settings.
    pub closed spec fn settings(&self) -> DistributedJobSchedulerConfig {
        self.config
    }

    /// Placements by job identifier.
    pub closed spec fn placements(&self) -> Seq<(u128, JobPlacement)> {
        self.job_placements.entries()
    }

    /// Moves made, oldest first.
    pub closed spec fn history(&self) -> Seq<JobRescheduling> {
        self.rescheduling_history@
    }

    /// The round-robin counter.
    pub closed spec fn counter(&self) -> usize {
        self.round_robin_counter
    }

    /// The counters.
    pub closed spec fn counters(&self) -> DistributedJobSchedulerStats {
        self.stats
    }

    /// One placement per job, one count per node, a bounded history.
    pub closed spec fn well_formed(&self) -> bool {
        &&& self.job_placements.well_formed()
        &&& self.stats.jobs_by_node.well_formed()
        &&& self.stats.node_utilization.well_formed()
        &&& self.rescheduling_history@.len() <= RESCHEDULING_HISTORY_LIMIT
    }

    /// A scheduler with `config`, no placements, and every move so far a
    /// success.
    pub fn new(config: DistributedJobSchedulerConfig) -> (s: Self)
        ensures
            s.well_formed(),
            s.settings() == config,
            s.placements().len() == 0,
            s.history().len() == 0,
            s.counter() == 0,
            s.counters().total_jobs_placed == 0,
            s.counters().total_jobs_rescheduled == 0,
            s.counters().avg_placement_time_ms == 0,
            s.counters().rescheduling_success_rate == 100,
    {
        DistributedJobScheduler {
            config,
            job_placements: IdTable::new(),
            rescheduling_history: Vec::new(),
            round_robin_counter: 0,
            stats: DistributedJobSchedulerStats {
                base_stats: crate::job_scheduler::JobSchedulerStats::empty(),
                total_jobs_placed: 0,
                total_jobs_rescheduled: 0,
                jobs_by_node: IdTable::new(),
                avg_placement_time_ms: 0,
                rescheduling_success_rate: 100,
                node_utilization: IdTable::new(),
            },
        }
    }

    /// Picks a node among `nodes` for the job of `req` and turns the
    /// counter as the strategy does.
    fn pick_node(&mut self, req: &PlacementRequest, nodes: &Vec<SchedulingNode>) -> (r: Result<
        NodeResourceAnalysis,
        AppError,
    >)
        requires
            nodes@.len() <= u64::MAX / 100,
        ensures
            (suitable_exists(old(self).settings(), *req, nodes@)) == (r is Ok),
            r is Err ==> (r matches Err(AppError::ValidationError(m)) && m@
                == "No suitable nodes found for job placement"@) && final(self).counter() == old(self).counter(),
            r matches Ok(a) ==> placed_on(old(self).settings(), *req, nodes@, old(self).counter(), a, final(self).counter()),
            final(self).settings() == old(self).settings(),
            final(self).placements() == old(self).placements(),
            final(self).history() == old(self).history(),
            final(self).counters() == old(self).counters(),
            final(self).well_formed() == old(self).well_formed(),
    {
        let analyses = analyze_nodes_for_job(&self.config, req, nodes);
        let picked = select_best_node(self.config.node_selection_strategy, &analyses, self.round_robin_counter);
        proof {
            let t = analyses_of(self.config, *req, nodes@);
            lemma_suitable_count(analyses@, t);
            if suitable_exists(self.config, *req, nodes@) {
                let i = choose|i: int| 0 <= i < nodes@.len() && #[trigger] handles(self.config, *req, nodes@[i]);
                assert(t[i].can_handle);
            }
            if exists|i: int| 0 <= i < t.len() && #[trigger] t[i].can_handle {
                let i = choose|i: int| 0 <= i < t.len() && #[trigger] t[i].can_handle;
                assert(handles(self.config, *req, nodes@[i]));
            }
        }
        match picked {
            Ok((a, c)) => {
                self.round_robin_counter = c;
                proof {
                    assert(scores_descending(analyses@));
                }
                Ok(a)
            },
            Err(e) => Err(e),
        }
    }

    /// Places the job of `req` at `now` on one of the available `nodes`,
    /// picked by the strategy among the analyses best score first, and
    /// keeps the placement.  No available node is refused with
    /// `ValidationError`, as is a set of nodes none of which can take the
    /// job.
    pub fn place_job_at(&mut self, req: &PlacementRequest, nodes: &Vec<SchedulingNode>, now: u64) -> (r: Result<
        JobPlacement,
        AppError,
    >)
        requires
            old(self).well_formed(),
            nodes@.len() <= u64::MAX / 100,
        ensures
            final(self).well_formed(),
            available_of(nodes@).len() == 0 ==> (r matches Err(AppError::ValidationError(m)) && m@
                == "No available nodes for job scheduling"@),
            available_of(nodes@).len() > 0 ==> (r is Ok) == suitable_exists(
                old(self).settings(),
                *req,
                available_of(nodes@),
            ),
            available_of(nodes@).len() > 0 && !suitable_exists(old(self).settings(), *req, available_of(nodes@)) ==> (
            r matches Err(AppError::ValidationError(m)) && m@ == "No suitable nodes found for job placement"@),
            r is Err ==> final(self).placements() == old(self).placements() && final(self).counter() == old(
                self,
            ).counter(),
            r matches Ok(p) ==> {
                &&& p.job_id == req.job_id
                &&& p.placed_at == now
                &&& p.strategy == old(self).settings().node_selection_strategy
                &&& p.attempt == 1
                &&& p.previous_placements@.len() == 0
                &&& p.metadata@.len() == 0
                &&& exists|a: NodeResourceAnalysis|
                    #[trigger] placed_on(
                        old(self).settings(),
                        *req,
                        available_of(nodes@),
                        old(self).counter(),
                        a,
                        final(self).counter(),
                    ) && a.node_id == p.node_id
                &&& has_id(final(self).placements(), req.job_id)
                &&& final(self).placements() == id_upserted(
                    old(self).placements(),
                    req.job_id,
                    value_at_id(final(self).placements(), req.job_id),
                )
                &&& value_at_id(final(self).placements(), req.job_id).node_id == p.node_id
                &&& value_at_id(final(self).placements(), req.job_id).attempt == 1
            },
            final(self).settings() == old(self).settings(),
            final(self).history() == old(self).history(),
            final(self).counters() == old(self).counters(),
    {
        let available = available_nodes(nodes, None);
        if available.len() == 0 {
            return Err(AppError::ValidationError(String::from_str("No available nodes for job scheduling")));
        }
        proof {
            nodes@.filter_lemma(|n: SchedulingNode| node_available(n));
        }
        let a = match self.pick_node(req, &available) {
            Ok(a) => a,
            Err(e) => {
                return Err(e);
            },
        };
        let placement = JobPlacement {
            job_id: req.job_id,
            node_id: a.node_id,
            placed_at: now,
            strategy: self.config.node_selection_strategy,
            attempt: 1,
            previous_placements: Vec::new(),
            metadata: Vec::new(),
        };
        proof {
            assert(placed_on(self.config, *req, available_of(nodes@), old(self).round_robin_counter, a, self.round_robin_counter));
        }
        let stored = placement.duplicate();
        let ghost kept = stored;
        self.job_placements.insert(req.job_id, stored);
        proof {
            crate::ids::lemma_id_upserted_unique(old(self).job_placements.entries(), req.job_id, kept);
            assert(placed_on(old(self).settings(), *req, available_of(nodes@), old(self).counter(), a, self.counter()));
            assert(a.node_id == placement.node_id);
        }
        Ok(placement)
    }

    /// Counts a placement on `node_id` that took `placement_time_ms`.
    pub fn record_placement(&mut self, node_id: u128, placement_time_ms: u64)
        requires
            old(self).well_formed(),
            old(self).counters().total_jobs_placed < u64::MAX,
            has_id(old(self).counters().jobs_by_node.entries(), node_id) ==> value_at_id(
                old(self).counters().jobs_by_node.entries(),
                node_id,
            ) < u64::MAX,
        ensures
            final(self).well_formed(),
            final(self).counters().total_jobs_placed == old(self).counters().total_jobs_placed + 1,
            final(self).counters().avg_placement_time_ms == next_mean(
                old(self).counters().avg_placement_time_ms as nat,
                (old(self).counters().total_jobs_placed + 1) as nat,
                placement_time_ms as nat,
            ),
            final(self).counters().jobs_by_node.entries() == id_upserted(
                old(self).counters().jobs_by_node.entries(),
                node_id,
                if has_id(old(self).counters().jobs_by_node.entries(), node_id) {
                    (value_at_id(old(self).counters().jobs_by_node.entries(), node_id) + 1) as u64
                } else {
                    1u64
                },
            ),
            final(self).counters().total_jobs_rescheduled == old(self).counters().total_jobs_rescheduled,
            final(self).placements() == old(self).placements(),
            final(self).history() == old(self).history(),
            final(self).settings() == old(self).settings(),
            final(self).counter() == old(self).counter(),
    {
        self.stats.total_jobs_placed = self.stats.total_jobs_placed + 1;
        self.stats.avg_placement_time_ms = crate::job_scheduler::mean_update(
            self.stats.avg_placement_time_ms,
            self.stats.total_jobs_placed,
            placement_time_ms,
        );
        let n: u64 = match self.stats.jobs_by_node.get(node_id) {
            Some(v) => *v + 1,
            None => 1,
        };
        self.stats.jobs_by_node.insert(node_id, n);
    }

    /// The placement of job `job_id`.
    pub fn get_job_placement(&self, job_id: u128) -> (r: Option<JobPlacement>)
        requires
            self.well_formed(),
        ensures
            !has_id(self.placements(), job_id) ==> r is None,
            has_id(self.placements(), job_id) ==> (r matches Some(p) && {
                let q = value_at_id(self.placements(), job_id);
                &&& p.job_id == q.job_id
                &&& p.node_id == q.node_id
                &&& p.placed_at == q.placed_at
                &&& p.strategy == q.strategy
                &&& p.attempt == q.attempt
                &&& p.previous_placements@ == q.previous_placements@
                &&& p.metadata@ == q.metadata@
            }),
    {
        match self.job_placements.get(job_id) {
            Some(p) => Some(p.duplicate()),
            None => None,
        }
    }

    /// The moves made, oldest first.
    pub fn get_rescheduling_history(&self) -> (h: Vec<JobRescheduling>)
        ensures
            h@ == self.history(),
    {
        self.rescheduling_history.clone()
    }

    /// Forgets the placement of job `job_id` and cancels it with `base`.
    pub fn cancel_job(&mut self, base: &mut DefaultJobScheduler, job_id: u128) -> (r: bool)
        requires
            old(self).well_formed(),
            old(base).well_formed(),
        ensures
            final(self).well_formed(),
            final(base).well_formed(),
            final(self).placements() == crate::ids::without_id(old(self).placements(), job_id),
            r == (crate::job_scheduler::first_holder(old(base), job_id) is Some
                || crate::job_scheduler::put_aside(old(base).scheduled(), job_id)),
            final(self).history() == old(self).history(),
            final(self).counters() == old(self).counters(),
            final(self).settings() == old(self).settings(),
            final(self).counter() == old(self).counter(),
    {
        self.job_placements.remove(job_id);
        base.cancel_job(job_id)
    }

    /// Records the utilisation of each of `nodes`: the mean of its CPU and
    /// memory usage, in place of what was recorded before.
    pub fn update_node_utilization(&mut self, nodes: &Vec<SchedulingNode>)
        requires
            old(self).well_formed(),
        ensures
            final(self).well_formed(),
            forall|i: int| 0 <= i < nodes@.len() ==> has_id(final(self).counters().node_utilization.entries(), #[trigger] nodes@[i].id),
            forall|q: u128| #[trigger] has_id(final(self).counters().node_utilization.entries(), q) ==> exists|i: int|
                0 <= i < nodes@.len() && nodes@[i].id == q,
            final(self).placements() == old(self).placements(),
            final(self).history() == old(self).history(),
            final(self).settings() == old(self).settings(),
            final(self).counter() == old(self).counter(),
            final(self).counters().total_jobs_placed == old(self).counters().total_jobs_placed,
            final(self).counters().total_jobs_rescheduled == old(self).counters().total_jobs_rescheduled,
    {
        self.stats.node_utilization.clear();
        let mut i: usize = 0;
        while i < nodes.len()
            invariant
                i <= nodes@.len(),
                self.stats.node_utilization.well_formed(),
                self.job_placements == old(self).job_placements,
                self.rescheduling_history == old(self).rescheduling_history,
                self.config == old(self).config,
                self.round_robin_counter == old(self).round_robin_counter,
                self.stats.jobs_by_node == old(self).stats.jobs_by_node,
                self.stats.total_jobs_placed == old(self).stats.total_jobs_placed,
                self.stats.total_jobs_rescheduled == old(self).stats.total_jobs_rescheduled,
                old(self).well_formed(),
                forall|j: int| 0 <= j < i ==> has_id(self.stats.node_utilization.entries(), #[trigger] nodes@[j].id),
                forall|q: u128| #[trigger] has_id(self.stats.node_utilization.entries(), q) ==> exists|j: int|
                    0 <= j < i && nodes@[j].id == q,
            decreases nodes@.len() - i,
        {
            let r = nodes[i].resources;
            let u: u64 = ((r.cpu_usage as u128 + r.memory_usage as u128) / 2) as u64;
            let ghost before = self.stats.node_utilization.entries();
            self.stats.node_utilization.insert(nodes[i].id, u);
            proof {
                crate::ids::lemma_id_upserted_unique(before, nodes@[i as int].id, u);
                assert forall|j: int| 0 <= j < i + 1 implies has_id(self.stats.node_utilization.entries(), #[trigger] nodes@[j].id) by {
                    if nodes@[j].id != nodes@[i as int].id {
                        assert(has_id(before, nodes@[j].id));
                    }
                }
                assert forall|q: u128| #[trigger] has_id(self.stats.node_utilization.entries(), q) implies exists|j: int|
                    0 <= j < i + 1 && nodes@[j].id == q by {
                    if q != nodes@[i as int].id {
                        assert(has_id(before, q));
                    }
                }
            }
            i = i + 1;
        }
    }

    /// Places `job` at `now` on one of the available `nodes` (see
    /// `place_job_at`), hands it to `coordinator` to distribute among its
    /// `candidates`, queues it with `base`, and counts the placement as
    /// taking `elapsed_ms`.  The first step that fails gives the error; the
    /// placement, once made, is kept.
    pub fn schedule_job_distributed_at(
        &mut self,
        coordinator: &mut ClusterCoordinator,
        base: &mut DefaultJobScheduler,
        job: Job,
        req: &PlacementRequest,
        nodes: &Vec<SchedulingNode>,
        candidates: &Vec<NodeCandidate>,
        now: u64,
        elapsed_ms: u64,
    ) -> (r: Result<JobPlacement, AppError>)
        requires
            old(self).well_formed(),
            old(coordinator).well_formed(),
            old(base).well_formed(),
            req.job_id == job.id,
            nodes@.len() <= u64::MAX / 100,
            crate::cluster_coordinator::capacity_sum(candidates@) <= u64::MAX,
            forall|i: int|
                0 <= i < candidates@.len() ==> (has_id(old(coordinator).balancer().loads(), #[trigger] candidates@[i].id)
                    ==> value_at_id(old(coordinator).balancer().loads(), candidates@[i].id) < u64::MAX),
            old(base).queue(job.priority).counters().total_queued < u64::MAX,
            old(base).counters().total_scheduled < u64::MAX,
            crate::keyed::has_key(
                old(base).counters().jobs_by_priority.entries(),
                crate::domain::priority_name(job.priority),
            ) ==> crate::keyed::value_of(
                old(base).counters().jobs_by_priority.entries(),
                crate::domain::priority_name(job.priority),
            ) < u64::MAX,
            old(self).counters().total_jobs_placed < u64::MAX,
            forall|q: u128|
                #[trigger] has_id(old(self).counters().jobs_by_node.entries(), q) ==> value_at_id(
                    old(self).counters().jobs_by_node.entries(),
                    q,
                ) < u64::MAX,
        ensures
            final(self).well_formed(),
            final(coordinator).well_formed(),
            final(base).well_formed(),
            available_of(nodes@).len() == 0 ==> (r matches Err(AppError::ValidationError(m)) && m@
                == "No available nodes for job scheduling"@),
            available_of(nodes@).len() > 0 ==> ((r is Ok) == (suitable_exists(old(self).settings(), *req, available_of(nodes@))
                && candidates@.len() > 0 && old(base).queue(job.priority).waiting().len() < old(base).queue(
                job.priority,
            ).spec_config().max_queue_size)),
            available_of(nodes@).len() > 0 && !suitable_exists(old(self).settings(), *req, available_of(nodes@)) ==> (
            r matches Err(AppError::ValidationError(m)) && m@ == "No suitable nodes found for job placement"@),
            r matches Ok(p) ==> {
                &&& p.job_id == job.id
                &&& p.placed_at == now
                &&& p.attempt == 1
                &&& has_id(final(self).placements(), job.id)
                &&& value_at_id(final(self).placements(), job.id).node_id == p.node_id
                &&& final(self).counters().total_jobs_placed == old(self).counters().total_jobs_placed + 1
                &&& final(base).queue(job.priority).waiting().len() == old(base).queue(job.priority).waiting().len() + 1
                &&& final(coordinator).outbox().len() == old(coordinator).outbox().len() + 1
            },
            r is Err ==> final(self).counters().total_jobs_placed == old(self).counters().total_jobs_placed,
            final(self).history() == old(self).history(),
            final(self).settings() == old(self).settings(),
    {
        let job_id = job.id;
        let priority = job.priority;
        let placement = match self.place_job_at(req, nodes, now) {
            Ok(p) => p,
            Err(e) => {
                return Err(e);
            },
        };
        match coordinator.distribute_job_at(job_id, candidates, now) {
            Ok(_) => {},
            Err(e) => {
                return Err(e);
            },
        }
        match base.schedule_job_at(job, now) {
            Ok(()) => {},
            Err(e) => {
                return Err(e);
            },
        }
        let ghost before = self.job_placements.entries();
        self.record_placement(placement.node_id, elapsed_ms);
        Ok(placement)
    }

    /// Moves job `job_id` now to another node, for `reason`.
    pub fn reschedule_job(
        &mut self,
        coordinator: &mut ClusterCoordinator,
        job_id: u128,
        reason: ReschedulingReason,
        nodes: &Vec<SchedulingNode>,
        candidates: &Vec<NodeCandidate>,
    ) -> (r: Result<JobPlacement, AppError>)
        requires
            old(self).well_formed(),
            old(coordinator).well_formed(),
            nodes@.len() <= u64::MAX / 100,
            crate::cluster_coordinator::capacity_sum(candidates@) <= u64::MAX,
            forall|i: int|
                0 <= i < candidates@.len() ==> (has_id(old(coordinator).balancer().loads(), #[trigger] candidates@[i].id)
                    ==> value_at_id(old(coordinator).balancer().loads(), candidates@[i].id) < u64::MAX),
            old(self).counters().total_jobs_rescheduled < u64::MAX,
        ensures
            final(self).well_formed(),
            final(coordinator).well_formed(),
            !has_id(old(self).placements(), job_id) ==> (r matches Err(AppError::NotFound(m)) && m@
                == "Job placement not found: "@ + crate::platform::uuid_hyphenated(job_id)) && final(self).placements()
                == old(self).placements(),
            has_id(old(self).placements(), job_id) && value_at_id(old(self).placements(), job_id).attempt
                >= old(self).settings().max_reschedule_attempts ==> (r matches Err(AppError::ValidationError(m)) && m@
                == "Maximum rescheduling attempts ("@ + crate::text::decimal(
                old(self).settings().max_reschedule_attempts as nat,
            ) + ") exceeded for job "@ + crate::platform::uuid_hyphenated(job_id)) && final(self).placements()
                == old(self).placements(),
            has_id(old(self).placements(), job_id) && value_at_id(old(self).placements(), job_id).attempt
                < old(self).settings().max_reschedule_attempts && alternatives_of(
                nodes@,
                value_at_id(old(self).placements(), job_id).node_id,
            ).len() == 0 ==> (r matches Err(AppError::ValidationError(m)) && m@
                == "No alternative nodes available for rescheduling"@) && final(self).placements()
                == old(self).placements(),
            final(self).settings() == old(self).settings(),
            has_id(old(self).placements(), job_id) && value_at_id(old(self).placements(), job_id).attempt
                < old(self).settings().max_reschedule_attempts && alternatives_of(
                nodes@,
                value_at_id(old(self).placements(), job_id).node_id,
            ).len() > 0 ==> (r is Ok) == (fit_exists(
                old(self).settings(),
                alternatives_of(nodes@, value_at_id(old(self).placements(), job_id).node_id),
            ) && candidates@.len() > 0),
            r matches Ok(p) ==> {
                let before = value_at_id(old(self).placements(), job_id);
                &&& has_id(old(self).placements(), job_id)
                &&& p.job_id == job_id
                &&& p.attempt == before.attempt + 1
                &&& p.previous_placements@ == before.previous_placements@.push(before.node_id)
                &&& p.node_id != before.node_id
                &&& exists|req: PlacementRequest, an: NodeResourceAnalysis|
                    #![trigger rescheduling_request(req, job_id), an.node_id]
                    rescheduling_request(req, job_id) && placed_on(
                        old(self).settings(),
                        req,
                        alternatives_of(nodes@, before.node_id),
                        old(self).counter(),
                        an,
                        final(self).counter(),
                    ) && an.node_id == p.node_id
                &&& has_id(final(self).placements(), job_id)
                &&& value_at_id(final(self).placements(), job_id).node_id == p.node_id
                &&& final(self).history().last().job_id == job_id
                &&& final(self).history().last().new_node == p.node_id
                &&& final(self).counters().total_jobs_rescheduled == old(self).counters().total_jobs_rescheduled + 1
            },
    {
        let now = crate::platform::now_millis();
        self.reschedule_job_at(coordinator, job_id, reason, nodes, candidates, now)
    }

    /// Moves job `job_id` at `now` to another of the available `nodes`
    /// for `reason`, and has `coordinator` distribute it again among its
    /// `candidates`.  A job without a placement is refused with
    /// `NotFound`; one already moved as often as allowed, or with no other
    /// node that can take it, with `ValidationError`; nothing changes then.
    /// The new placement counts one more attempt, remembers the node left
    /// and the reason, and the move is kept in the history (the latest
    /// 1000).  When the coordinator then fails, its error is returned with
    /// the move already made; otherwise the move counts as a success.
    pub fn reschedule_job_at(
        &mut self,
        coordinator: &mut ClusterCoordinator,
        job_id: u128,
        reason: ReschedulingReason,
        nodes: &Vec<SchedulingNode>,
        candidates: &Vec<NodeCandidate>,
        now: u64,
    ) -> (r: Result<JobPlacement, AppError>)
        requires
            old(self).well_formed(),
            old(coordinator).well_formed(),
            nodes@.len() <= u64::MAX / 100,
            crate::cluster_coordinator::capacity_sum(candidates@) <= u64::MAX,
            forall|i: int|
                0 <= i < candidates@.len() ==> (has_id(old(coordinator).balancer().loads(), #[trigger] candidates@[i].id)
                    ==> value_at_id(old(coordinator).balancer().loads(), candidates@[i].id) < u64::MAX),
            old(self).counters().total_jobs_rescheduled < u64::MAX,
        ensures
            final(self).well_formed(),
            final(coordinator).well_formed(),
            !has_id(old(self).placements(), job_id) ==> (r matches Err(AppError::NotFound(m)) && m@
                == "Job placement not found: "@ + crate::platform::uuid_hyphenated(job_id)) && final(self).placements()
                == old(self).placements(),
            has_id(old(self).placements(), job_id) && value_at_id(old(self).placements(), job_id).attempt
                >= old(self).settings().max_reschedule_attempts ==> (r matches Err(AppError::ValidationError(m)) && m@
                == "Maximum rescheduling attempts ("@ + crate::text::decimal(
                old(self).settings().max_reschedule_attempts as nat,
            ) + ") exceeded for job "@ + crate::platform::uuid_hyphenated(job_id)) && final(self).placements()
                == old(self).placements(),
            has_id(old(self).placements(), job_id) && value_at_id(old(self).placements(), job_id).attempt
                < old(self).settings().max_reschedule_attempts && alternatives_of(
                nodes@,
                value_at_id(old(self).placements(), job_id).node_id,
            ).len() == 0 ==> (r matches Err(AppError::ValidationError(m)) && m@
                == "No alternative nodes available for rescheduling"@) && final(self).placements()
                == old(self).placements(),
            has_id(old(self).placements(), job_id) && value_at_id(old(self).placements(), job_id).attempt
                < old(self).settings().max_reschedule_attempts && alternatives_of(
                nodes@,
                value_at_id(old(self).placements(), job_id).node_id,
            ).len() > 0 ==> {
                let alt = alternatives_of(nodes@, value_at_id(old(self).placements(), job_id).node_id);
                &&& (r is Ok) == (fit_exists(old(self).settings(), alt) && candidates@.len() > 0)
                &&& !fit_exists(old(self).settings(), alt) ==> (r matches Err(AppError::ValidationError(m)) && m@
                    == "No suitable nodes found for job placement"@) && final(self).placements() == old(self).placements()
                &&& fit_exists(old(self).settings(), alt) && candidates@.len() == 0 ==> (r matches Err(
                    AppError::ValidationError(m),
                ) && m@ == "No available nodes for job distribution"@) && has_id(final(self).placements(), job_id)
                    && value_at_id(final(self).placements(), job_id).attempt == value_at_id(
                    old(self).placements(),
                    job_id,
                ).attempt + 1
            },
            r matches Ok(p) ==> {
                let before = value_at_id(old(self).placements(), job_id);
                &&& has_id(old(self).placements(), job_id)
                &&& p.job_id == job_id
                &&& p.placed_at == now
                &&& p.strategy == old(self).settings().node_selection_strategy
                &&& p.attempt == before.attempt + 1
                &&& p.previous_placements@ == before.previous_placements@.push(before.node_id)
                &&& p.metadata@.len() == 2
                &&& p.metadata@[0].0@ == "rescheduling_reason"@
                &&& p.metadata@[0].1@ == reason_name(reason)
                &&& p.metadata@[1].0@ == "original_node"@
                &&& p.metadata@[1].1@ == crate::platform::uuid_hyphenated(before.node_id)
                &&& p.node_id != before.node_id
                &&& exists|req: PlacementRequest, an: NodeResourceAnalysis|
                    #![trigger rescheduling_request(req, job_id), an.node_id]
                    rescheduling_request(req, job_id) && placed_on(
                        old(self).settings(),
                        req,
                        alternatives_of(nodes@, before.node_id),
                        old(self).counter(),
                        an,
                        final(self).counter(),
                    ) && an.node_id == p.node_id
                &&& has_id(final(self).placements(), job_id)
                &&& value_at_id(final(self).placements(), job_id).node_id == p.node_id
                &&& value_at_id(final(self).placements(), job_id).attempt == p.attempt
                &&& final(self).history().last() == (JobRescheduling {
                    job_id,
                    original_node: before.node_id,
                    new_node: p.node_id,
                    reason,
                    rescheduled_at: now,
                    attempt: p.attempt,
                })
                &&& final(self).counters().total_jobs_rescheduled == old(self).counters().total_jobs_rescheduled + 1
                &&& final(self).counters().rescheduling_success_rate == next_mean(
                    old(self).counters().rescheduling_success_rate as nat,
                    (old(self).counters().total_jobs_rescheduled + 1) as nat,
                    100,
                )
            },
            final(self).settings() == old(self).settings(),
    {
        let (node_id, attempt, previous) = match self.job_placements.get(job_id) {
            None => {
                let m = crate::job_scheduler::text_around_id("Job placement not found: ", job_id, "");
                proof {
                    reveal_strlit("");
                    assert(m@ =~= "Job placement not found: "@ + crate::platform::uuid_hyphenated(job_id));
                }
                return Err(AppError::NotFound(m));
            },
            Some(p) => (p.node_id, p.attempt, p.previous_placements.clone()),
        };
        if attempt >= self.config.max_reschedule_attempts {
            let mut m = crate::text::text_with_number(
                "Maximum rescheduling attempts (",
                self.config.max_reschedule_attempts as u64,
            );
            let tail = crate::job_scheduler::text_around_id(") exceeded for job ", job_id, "");
            m.append(tail.as_str());
            proof {
                reveal_strlit("");
                assert(tail@ =~= ") exceeded for job "@ + crate::platform::uuid_hyphenated(job_id));
            }
            return Err(AppError::ValidationError(m));
        }
        let req = PlacementRequest {
            job_id,
            name: crate::job_scheduler::text_around_id("rescheduled-job-", job_id, ""),
            job_type: None,
            min_resources: None,
        };
        let available = available_nodes(nodes, Some(node_id));
        if available.len() == 0 {
            return Err(AppError::ValidationError(String::from_str("No alternative nodes available for rescheduling")));
        }
        proof {
            nodes@.filter_lemma(|n: SchedulingNode| node_available(n));
            available_of(nodes@).filter_lemma(|n: SchedulingNode| n.id != node_id);
            lemma_unrestricted_suitable(self.config, req, available@);
        }
        let a = match self.pick_node(&req, &available) {
            Ok(a) => a,
            Err(e) => {
                return Err(e);
            },
        };
        proof {
            reveal_strlit("");
            assert(req.name@ =~= "rescheduled-job-"@ + crate::platform::uuid_hyphenated(job_id));
            assert(rescheduling_request(req, job_id));
            assert(a.node_id != node_id) by {
                lemma_picked_is_listed(self.config, req, available@, old(self).round_robin_counter, a, self.round_robin_counter);
                let i = choose|i: int| 0 <= i < available@.len() && #[trigger] available@[i].id == a.node_id;
                assert(alternatives_of(nodes@, node_id).contains(available@[i]));
                available_of(nodes@).filter_lemma(|n: SchedulingNode| n.id != node_id);
            }
        }
        let mut prev = previous;
        prev.push(node_id);
        let mut metadata: Vec<(String, String)> = Vec::new();
        metadata.push((String::from_str("rescheduling_reason"), String::from_str(reason_text(reason))));
        metadata.push((String::from_str("original_node"), crate::platform::uuid_text(node_id)));
        let placement = JobPlacement {
            job_id,
            node_id: a.node_id,
            placed_at: now,
            strategy: self.config.node_selection_strategy,
            attempt: attempt + 1,
            previous_placements: prev,
            metadata,
        };
        let stored = placement.duplicate();
        let ghost kept = stored;
        self.job_placements.insert(job_id, stored);
        proof {
            crate::ids::lemma_id_upserted_unique(old(self).job_placements.entries(), job_id, kept);
        }
        let record = JobRescheduling {
            job_id,
            original_node: node_id,
            new_node: a.node_id,
            reason,
            rescheduled_at: now,
            attempt: attempt + 1,
        };
        self.rescheduling_history.push(record);
        if self.rescheduling_history.len() > RESCHEDULING_HISTORY_LIMIT {
            self.rescheduling_history.remove(0);
        }
        match coordinator.distribute_job_at(job_id, candidates, now) {
            Ok(_) => {},
            Err(e) => {
                return Err(e);
            },
        }
        self.stats.total_jobs_rescheduled = self.stats.total_jobs_rescheduled + 1;
        self.stats.rescheduling_success_rate = crate::job_scheduler::mean_update(
            self.stats.rescheduling_success_rate,
            self.stats.total_jobs_rescheduled,
            100,
        );
        Ok(placement)
    }

    /// Retries job `job_id` at `now`: with automatic rescheduling on, by
    /// moving it to another node for a manual reason; when that is off or
    /// fails, by having `base` queue the failed job again.
    pub fn retry_job_at(
        &mut self,
        base: &mut DefaultJobScheduler,
        coordinator: &mut ClusterCoordinator,
        job_id: u128,
        nodes: &Vec<SchedulingNode>,
        candidates: &Vec<NodeCandidate>,
        now: u64,
    ) -> (r: Result<(), AppError>)
        requires
            old(self).well_formed(),
            old(coordinator).well_formed(),
            old(base).well_formed(),
            nodes@.len() <= u64::MAX / 100,
            crate::cluster_coordinator::capacity_sum(candidates@) <= u64::MAX,
            forall|i: int|
                0 <= i < candidates@.len() ==> (has_id(old(coordinator).balancer().loads(), #[trigger] candidates@[i].id)
                    ==> value_at_id(old(coordinator).balancer().loads(), candidates@[i].id) < u64::MAX),
            old(self).counters().total_jobs_rescheduled < u64::MAX,
            old(base).queue(crate::domain::JobPriority::Normal).counters().total_queued < u64::MAX,
            old(base).counters().total_scheduled < u64::MAX,
            crate::keyed::has_key(
                old(base).counters().jobs_by_priority.entries(),
                crate::domain::priority_name(crate::domain::JobPriority::Normal),
            ) ==> crate::keyed::value_of(
                old(base).counters().jobs_by_priority.entries(),
                crate::domain::priority_name(crate::domain::JobPriority::Normal),
            ) < u64::MAX,
        ensures
            final(self).well_formed(),
            final(coordinator).well_formed(),
            final(base).well_formed(),
            !old(self).settings().enable_auto_rescheduling ==> final(self).placements() == old(self).placements()
                && *final(coordinator) == *old(coordinator),
            retry_owed(*old(base), job_id) ==> r is Ok,
            r is Ok ==> retry_owed(*old(base), job_id) || (old(self).settings().enable_auto_rescheduling && has_id(
                old(self).placements(),
                job_id,
            )),
            !old(self).settings().enable_auto_rescheduling && !has_id(old(base).results(), job_id) ==> (r matches Err(
                AppError::NotFound(_),
            )),
            !old(self).settings().enable_auto_rescheduling && has_id(old(base).results(), job_id) && value_at_id(
                old(base).results(),
                job_id,
            ).status != crate::domain::JobStatus::Failed ==> (r matches Err(AppError::BadRequest(_))),
            !old(self).settings().enable_auto_rescheduling ==> (r is Ok <==> retry_owed(*old(base), job_id)),
            final(base).results() == old(base).results(),
            final(base).running() == old(base).running(),
            final(base).scheduled() == old(base).scheduled(),
            final(self).settings() == old(self).settings(),
    {
        if self.config.enable_auto_rescheduling {
            match self.reschedule_job_at(coordinator, job_id, ReschedulingReason::Manual, nodes, candidates, now) {
                Ok(_) => {
                    return Ok(());
                },
                Err(_) => {},
            }
        }
        base.retry_job_at(job_id, now)
    }

    /// The counters, with those of `base` brought up to date.
    pub fn get_distributed_stats(&self, base: &mut DefaultJobScheduler) -> (st: DistributedJobSchedulerStats)
        requires
            old(base).queue(crate::domain::JobPriority::Critical).waiting().len() + old(base).queue(
                crate::domain::JobPriority::High,
            ).waiting().len() + old(base).queue(crate::domain::JobPriority::Normal).waiting().len() + old(base).queue(
                crate::domain::JobPriority::Low,
            ).waiting().len() + old(base).scheduled().len() <= usize::MAX,
        ensures
            st.base_stats.total_scheduled == final(base).counters().total_scheduled,
            st.base_stats.pending_jobs == final(base).counters().pending_jobs,
            st.base_stats.running_jobs == final(base).counters().running_jobs,
            st.total_jobs_placed == self.counters().total_jobs_placed,
            st.total_jobs_rescheduled == self.counters().total_jobs_rescheduled,
            st.jobs_by_node.entries() == self.counters().jobs_by_node.entries(),
            st.avg_placement_time_ms == self.counters().avg_placement_time_ms,
            st.rescheduling_success_rate == self.counters().rescheduling_success_rate,
            st.node_utilization.entries() == self.counters().node_utilization.entries(),
            final(base).running() == old(base).running(),
            final(base).results() == old(base).results(),
            final(base).scheduled() == old(base).scheduled(),
            final(base).well_formed() == old(base).well_formed(),
    {
        DistributedJobSchedulerStats {
            base_stats: base.get_stats(),
            total_jobs_placed: self.stats.total_jobs_placed,
            total_jobs_rescheduled: self.stats.total_jobs_rescheduled,
            jobs_by_node: self.stats.jobs_by_node.duplicate(),
            avg_placement_time_ms: self.stats.avg_placement_time_ms,
            rescheduling_success_rate: self.stats.rescheduling_success_rate,
            node_utilization: self.stats.node_utilization.duplicate(),
        }
    }
}

/// A node picked by a strategy is one of the nodes analysed.
proof fn lemma_picked_is_listed(
    config: DistributedJobSchedulerConfig,
    req: PlacementRequest,
    nodes: Seq<SchedulingNode>,
    counter: usize,
    a: NodeResourceAnalysis,
    c: usize,
)
    requires
        placed_on(config, req, nodes, counter, a, c),
    ensures
        exists|i: int| 0 <= i < nodes.len() && #[trigger] nodes[i].id == a.node_id,
{
    broadcast use vstd::seq_lib::group_to_multiset_ensures;

    let s = choose|s: Seq<NodeResourceAnalysis>|
        #[trigger] scores_descending(s) && s.to_multiset() == analyses_of(config, req, nodes).to_multiset()
            && picked_by(config.node_selection_strategy, suitable(s), counter, a, c);
    let f = |x: NodeResourceAnalysis| x.can_handle;
    let t = suitable(s);
    assert(t.contains(a)) by {
        match config.node_selection_strategy {
            NodeSelectionStrategy::LeastLoaded => {
                let k = choose|k: int| #[trigger] first_least_loaded(t, k) && a == t[k];
            },
            NodeSelectionStrategy::ResourceAware => {
                let k = choose|k: int| #[trigger] last_best_score(t, k) && a == t[k];
            },
            NodeSelectionStrategy::RoundRobin => {
                let k = (counter as int) % (t.len() as int);
                assert(0 <= k < t.len());
            },
            NodeSelectionStrategy::Affinity => {
                let k = choose|k: int| #[trigger] last_best_affinity(t, k) && a == t[k];
            },
            NodeSelectionStrategy::Weighted => {
                if score_sum(t) > 0 {
                    let (k, r) = choose|k: int, r: nat| r < score_sum(t) && #[trigger] weighted_pick(t, r, k) && a == t[k];
                } else {
                    assert(t.len() > 0);
                }
            },
        }
    }
    s.lemma_filter_contains_rev(f, a);
    assert(s.to_multiset().count(a) > 0);
    let all = analyses_of(config, req, nodes);
    assert(all.to_multiset().count(a) > 0);
    assert(all.contains(a));
    let i = choose|i: int| 0 <= i < all.len() && all[i] == a;
    assert(nodes[i].id == a.node_id);
}

/// Whether `req` is the request made to move job `job_id`: named
/// "rescheduled-job-" and the job's identifier, of no type and asking for
/// no particular resources.
pub open spec fn rescheduling_request(req: PlacementRequest, job_id: u128) -> bool {
    &&& req.job_id == job_id
    &&& req.name@ == "rescheduled-job-"@ + crate::platform::uuid_hyphenated(job_id)
    &&& req.job_type is None
    &&& req.min_resources is None
}

/// Whether `node` can take a job that asks for no particular resources:
/// usage within the threshold, and not in maintenance or draining.
pub open spec fn fits(config: DistributedJobSchedulerConfig, node: SchedulingNode) -> bool {
    let r = node.resources;
    &&& r.cpu_usage + r.memory_usage <= 2 * config.resource_threshold
    &&& node.status != NodeStatus::Maintenance
    &&& node.status != NodeStatus::Draining
}

/// Whether some node of `nodes` can take a job that asks for no particular
/// resources.
pub open spec fn fit_exists(config: DistributedJobSchedulerConfig, nodes: Seq<SchedulingNode>) -> bool {
    exists|i: int| 0 <= i < nodes.len() && #[trigger] fits(config, nodes[i])
}

/// For a request without minimum resources, a node that can take it is a
/// node that fits.
proof fn lemma_unrestricted_suitable(config: DistributedJobSchedulerConfig, req: PlacementRequest, nodes: Seq<SchedulingNode>)
    requires
        req.min_resources is None,
    ensures
        suitable_exists(config, req, nodes) == fit_exists(config, nodes),
{
    if suitable_exists(config, req, nodes) {
        let i = choose|i: int| 0 <= i < nodes.len() && #[trigger] handles(config, req, nodes[i]);
        assert(fits(config, nodes[i]));
    }
    if fit_exists(config, nodes) {
        let i = choose|i: int| 0 <= i < nodes.len() && #[trigger] fits(config, nodes[i]);
        assert(handles(config, req, nodes[i]));
    }
}

/// Whether some node of `nodes` can take the job of `req`.
pub open spec fn suitable_exists(config: DistributedJobSchedulerConfig, req: PlacementRequest, nodes: Seq<SchedulingNode>) -> bool {
    exists|i: int| 0 <= i < nodes.len() && #[trigger] handles(config, req, nodes[i])
}

/// Sorting keeps the analyses that can take the job: some exists in one
/// ordering exactly when some exists in the other.
proof fn lemma_suitable_count(s: Seq<NodeResourceAnalysis>, t: Seq<NodeResourceAnalysis>)
    requires
        s.to_multiset() == t.to_multiset(),
    ensures
        (suitable(s).len() > 0) == (exists|i: int| 0 <= i < t.len() && #[trigger] t[i].can_handle),
{
    broadcast use vstd::seq_lib::group_to_multiset_ensures;

    let f = |x: NodeResourceAnalysis| x.can_handle;
    s.filter_lemma(f);
    if suitable(s).len() > 0 {
        let x = suitable(s)[0];
        s.lemma_filter_contains_rev(f, x);
        assert(s.to_multiset().count(x) > 0);
        assert(t.contains(x));
    }
    if exists|i: int| 0 <= i < t.len() && #[trigger] t[i].can_handle {
        let i = choose|i: int| 0 <= i < t.len() && #[trigger] t[i].can_handle;
        assert(t.contains(t[i]));
        assert(t.to_multiset().count(t[i]) > 0);
        assert(s.to_multiset().count(t[i]) > 0);
        assert(s.contains(t[i]));
        let j = choose|j: int| 0 <= j < s.len() && s[j] == t[i];
        assert(suitable(s).contains(s[j]));
    }
}

} // verus!
