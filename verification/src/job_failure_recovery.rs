//! Recovery from job failures: failures are recorded and counted, failed
//! jobs are moved to other nodes within a limit of attempts, nodes that
//! fail too often are marked for maintenance, and the recent failures are
//! searched for patterns.
//!
//! Waiting out the recovery delay is outside work: the library says whether
//! and how a job is to be recovered, and is told when to go on.  Times are
//! milliseconds since the epoch; confidences and rates are whole percents.

use crate::distributed_job_scheduler::{DistributedJobScheduler, ReschedulingReason, SchedulingNode};
use crate::cluster_coordinator::{ClusterCoordinator, NodeCandidate};
use crate::domain::JobResult;
use crate::errors::AppError;
use crate::ids::{has_id, id_upserted, value_at_id, IdTable};
use crate::keyed::{has_key, value_of, KeyedTable};
use vstd::prelude::*;

verus! {

/// Settings of failure recovery.
#[derive(Debug, Clone, Copy)]
pub struct FailureRecoveryConfig {
    pub enabled: bool,
    pub max_recovery_attempts: u32,
    /// Seconds to wait before a recovery.
    pub recovery_delay: u64,
    /// Failures in a row after which a node goes to maintenance.
    pub node_failure_threshold: u32,
    pub enable_pattern_analysis: bool,
    /// Hours of failures searched for patterns.
    pub pattern_analysis_window: u64,
    pub min_failures_for_pattern: u32,
}

impl FailureRecoveryConfig {
    /// The default settings: on, three recoveries a minute apart, a node
    /// goes to maintenance after three failures, patterns of at least five
    /// failures searched over a day.
    pub fn default_config() -> (c: Self)
        ensures
            c.enabled,
            c.max_recovery_attempts == 3,
            c.recovery_delay == 60,
            c.node_failure_threshold == 3,
            c.enable_pattern_analysis,
            c.pattern_analysis_window == 24,
            c.min_failures_for_pattern == 5,
    {
        FailureRecoveryConfig {
            enabled: true,
            max_recovery_attempts: 3,
            recovery_delay: 60,
            node_failure_threshold: 3,
            enable_pattern_analysis: true,
            pattern_analysis_window: 24,
            min_failures_for_pattern: 5,
        }
    }
}

/// Why a job failed.
#[derive(Debug, Clone, Copy, PartialEq, Eq, Structural)]
pub enum FailureReason {
    NodeUnavailable,
    ResourceExhaustion,
    JobTimeout,
    ExecutionError,
    NetworkError,
    Unknown,
}

/// The name of a failure reason.
pub open spec fn failure_reason_name(r: FailureReason) -> Seq<char> {
    match r {
        FailureReason::NodeUnavailable => "NodeUnavailable"@,
        FailureReason::ResourceExhaustion => "ResourceExhaustion"@,
        FailureReason::JobTimeout => "JobTimeout"@,
        FailureReason::ExecutionError => "ExecutionError"@,
        FailureReason::NetworkError => "NetworkError"@,
        FailureReason::Unknown => "Unknown"@,
    }
}

/// The name of a failure reason.
pub fn failure_reason_text(r: FailureReason) -> (s: &'static str)
    ensures
        s@ == failure_reason_name(r),
{
    match r {
        FailureReason::NodeUnavailable => "NodeUnavailable",
        FailureReason::ResourceExhaustion => "ResourceExhaustion",
        FailureReason::JobTimeout => "JobTimeout",
        FailureReason::ExecutionError => "ExecutionError",
        FailureReason::NetworkError => "NetworkError",
        FailureReason::Unknown => "Unknown",
    }
}

/// The reason a failed job is moved to another node: the node is gone for
/// an unavailable node, constraints for exhausted resources, a node
/// failure for a network error, load balancing otherwise.
pub open spec fn rescheduling_reason_for(r: FailureReason) -> ReschedulingReason {
    match r {
        FailureReason::NodeUnavailable => ReschedulingReason::NodeUnavailable,
        FailureReason::ResourceExhaustion => ReschedulingReason::ResourceConstraints,
        FailureReason::NetworkError => ReschedulingReason::NodeFailure,
        _ => ReschedulingReason::LoadBalancing,
    }
}

/// The reason a failed job is moved to another node.
pub fn rescheduling_reason(r: FailureReason) -> (m: ReschedulingReason)
    ensures
        m == rescheduling_reason_for(r),
{
    match r {
        FailureReason::NodeUnavailable => ReschedulingReason::NodeUnavailable,
        FailureReason::ResourceExhaustion => ReschedulingReason::ResourceConstraints,
        FailureReason::NetworkError => ReschedulingReason::NodeFailure,
        _ => ReschedulingReason::LoadBalancing,
    }
}

/// Kinds of failure pattern.
#[derive(Debug, Clone, Copy, PartialEq, Eq, Structural)]
pub enum FailurePatternType {
    NodeSpecific,
    Cascading,
    ResourceBased,
    Temporal,
    JobTypeSpecific,
}

/// How urgent an alert is.
#[derive(Debug, Clone, Copy, PartialEq, Eq, Structural)]
pub enum AlertSeverity {
    Low,
    Medium,
    High,
    Critical,
}

/// What recovery can do.
#[derive(Debug, Clone, PartialEq, Eq)]
pub enum RecoveryAction {
    RescheduleJob { job_id: u128, target_node: Option<u128> },
    MarkNodeMaintenance { node_id: u128 },
    ScaleUpResources { resource_type: String },
    AdjustJobPriorities { priority_adjustment: i32 },
    SendAlert { message: String, severity: AlertSeverity },
}

/// A recorded job failure.
#[derive(Debug, Clone)]
pub struct JobFailure {
    pub job_id: u128,
    pub node_id: u128,
    pub failed_at: u64,
    pub reason: FailureReason,
    pub error_message: String,
    /// Recoveries made for the job before this failure.
    pub recovery_attempt: u32,
    pub job_result: Option<JobResult>,
}

/// A pattern found among recent failures.
#[derive(Debug)]
pub struct FailurePattern {
    pub id: String,
    pub pattern_type: FailurePatternType,
    pub affected_nodes: Vec<u128>,
    pub failure_count: u32,
    pub detected_at: u64,
    /// Share of the recent failures the pattern covers, in whole percent.
    pub confidence: u64,
    pub recommended_actions: Vec<RecoveryAction>,
}

/// Failures at node `n` among `f`.
pub open spec fn failures_at(f: Seq<JobFailure>, n: u128) -> nat {
    f.filter(|x: JobFailure| x.node_id == n).len()
}

/// Failures for lack of resources among `f`.
pub open spec fn resource_failures(f: Seq<JobFailure>) -> Seq<JobFailure> {
    f.filter(|x: JobFailure| x.reason == FailureReason::ResourceExhaustion)
}

/// The hour of the day, in UTC, of time `t`.
pub open spec fn hour_of(t: u64) -> nat {
    ((t / 3_600_000) % 24) as nat
}

/// Failures in hour `h` of the day among `f`.
pub open spec fn failures_in_hour(f: Seq<JobFailure>, h: nat) -> Seq<JobFailure> {
    f.filter(|x: JobFailure| hour_of(x.failed_at) == h)
}

/// The nodes of failures `f`, in order.
pub open spec fn nodes_of(f: Seq<JobFailure>) -> Seq<u128> {
    f.map_values(|x: JobFailure| x.node_id)
}

/// `part` of `whole` in whole percent.
pub open spec fn share(part: nat, whole: nat) -> nat {
    if whole == 0 {
        0
    } else {
        part * 100 / whole
    }
}

proof fn lemma_filter_count_snoc(s: Seq<JobFailure>, x: JobFailure, n: u128)
    ensures
        failures_at(s.push(x), n) == failures_at(s, n) + if x.node_id == n { 1nat } else { 0nat },
{
    crate::concurrency::lemma_filter_snoc(s, x, |y: JobFailure| y.node_id == n);
}

/// `hour_of(t)` is the hour of the UTC day in which time `t` (milliseconds
/// since the epoch) falls: `t` lies within that hour of its day.
pub proof fn lemma_hour_of_is_clock_hour(t: u64)
    ensures
        hour_of(t) < 24,
        hour_of(t) * 3_600_000 <= t % 86_400_000 < (hour_of(t) + 1) * 3_600_000,
{
    vstd::arithmetic::div_mod::lemma_breakdown(t as int, 3_600_000, 24);
    vstd::arithmetic::div_mod::lemma_mod_bound(t as int, 3_600_000);
    vstd::arithmetic::div_mod::lemma_mod_bound((t / 3_600_000) as int, 24);
}

/// The hour of the day, in UTC, of time `t`.
pub fn hour_of_day(t: u64) -> (h: u32)
    ensures
        h == hour_of(t),
        h < 24,
{
    ((t / 3_600_000) % 24) as u32
}

/// Share of `part` in `whole` in whole percent.
fn share_of(part: usize, whole: usize) -> (p: u64)
    requires
        part <= whole,
    ensures
        p == share(part as nat, whole as nat),
{
    if whole == 0 {
        return 0;
    }
    proof {
        assert(part as nat * 100 / (whole as nat) <= 100) by (nonlinear_arith)
            requires
                part <= whole,
                whole > 0,
        ;
    }
    ((part as u128 * 100) / whole as u128) as u64
}

/// The nodes of `f`, first occurrence first, each once.
fn distinct_nodes(f: &Vec<JobFailure>) -> (r: Vec<u128>)
    ensures
        forall|i: int, j: int| 0 <= i < j < r@.len() ==> r@[i] != r@[j],
        forall|i: int| 0 <= i < r@.len() ==> nodes_of(f@).contains(#[trigger] r@[i]),
        forall|k: int| 0 <= k < f@.len() ==> r@.contains(#[trigger] f@[k].node_id),
        r@.len() <= f@.len(),
{
    let mut r: Vec<u128> = Vec::new();
    let mut k: usize = 0;
    while k < f.len()
        invariant
            k <= f@.len(),
            forall|i: int, j: int| 0 <= i < j < r@.len() ==> r@[i] != r@[j],
            forall|i: int| #![trigger r@[i]] 0 <= i < r@.len() ==> exists|q: int| 0 <= q < k && #[trigger] f@[q].node_id == r@[i],
            forall|q: int| 0 <= q < k ==> r@.contains(#[trigger] f@[q].node_id),
            r@.len() <= k,
        decreases f@.len() - k,
    {
        let n = f[k].node_id;
        let mut seen = false;
        let mut i: usize = 0;
        while i < r.len()
            invariant
                i <= r@.len(),
                seen == exists|j: int| 0 <= j < i && r@[j] == n,
            decreases r@.len() - i,
        {
            if r[i] == n {
                seen = true;
            }
            i = i + 1;
        }
        if !seen {
            let ghost before = r@;
            r.push(n);
            proof {
                assert forall|i: int| #![trigger r@[i]] 0 <= i < r@.len() implies exists|q: int| 0 <= q < k + 1 && #[trigger] f@[q].node_id
                    == r@[i] by {
                    if i < before.len() {
                        let q = choose|q: int| 0 <= q < k && #[trigger] f@[q].node_id == before[i];
                        assert(f@[q].node_id == r@[i]);
                    } else {
                        assert(f@[k as int].node_id == r@[i]);
                    }
                }
                assert forall|q: int| 0 <= q < k + 1 implies r@.contains(#[trigger] f@[q].node_id) by {
                    if q < k {
                        assert(before.contains(f@[q].node_id));
                        let j = choose|j: int| 0 <= j < before.len() && before[j] == f@[q].node_id;
                        assert(r@[j] == before[j]);
                    } else {
                        assert(r@[before.len() as int] == n);
                    }
                }
            }
        } else {
            proof {
                assert(r@.contains(n));
            }
        }
        k = k + 1;
    }
    proof {
        assert forall|i: int| 0 <= i < r@.len() implies nodes_of(f@).contains(#[trigger] r@[i]) by {
            let q = choose|q: int| 0 <= q < k && #[trigger] f@[q].node_id == r@[i];
            assert(nodes_of(f@)[q] == r@[i]);
        }
    }
    r
}

/// Failures at node `n` among `f`.
fn count_at(f: &Vec<JobFailure>, n: u128) -> (c: usize)
    ensures
        c == failures_at(f@, n),
{
    let mut c: usize = 0;
    let mut k: usize = 0;
    while k < f.len()
        invariant
            k <= f@.len(),
            c == failures_at(f@.take(k as int), n),
            c <= k,
        decreases f@.len() - k,
    {
        proof {
            assert(f@.take(k + 1) =~= f@.take(k as int).push(f@[k as int]));
            lemma_filter_count_snoc(f@.take(k as int), f@[k as int], n);
        }
        if f[k].node_id == n {
            c = c + 1;
        }
        k = k + 1;
    }
    proof {
        assert(f@.take(f@.len() as int) =~= f@);
    }
    c
}

/// Whether `p` is the node-specific pattern of node `n` among `f` at `now`.
pub open spec fn node_pattern_is(p: FailurePattern, f: Seq<JobFailure>, n: u128, now: u64) -> bool {
    &&& p.id@ == "node-specific-"@ + crate::platform::uuid_hyphenated(n)
    &&& p.pattern_type == FailurePatternType::NodeSpecific
    &&& p.affected_nodes@ == seq![n]
    &&& p.failure_count == failures_at(f, n)
    &&& p.detected_at == now
    &&& p.confidence == share(failures_at(f, n), f.len())
    &&& p.recommended_actions@.len() == 2
    &&& p.recommended_actions@[0] == RecoveryAction::MarkNodeMaintenance { node_id: n }
    &&& p.recommended_actions@[1] matches RecoveryAction::SendAlert { message, severity }
    &&& message@ == "Node "@ + crate::platform::uuid_hyphenated(n) + " experiencing repeated failures"@
    &&& severity == AlertSeverity::High
}

/// Whether `p` is the node-specific pattern of a node with at least `min`
/// failures among `f`, detected at `now`.
pub open spec fn node_pattern_found(p: FailurePattern, f: Seq<JobFailure>, now: u64, min: u32) -> bool {
    exists|n: u128| #[trigger] node_pattern_is(p, f, n, now) && failures_at(f, n) >= min
}

/// Whether `r` holds the node-specific patterns of `failures` at `now`:
/// one per node with at least the configured number of failures, and no
/// other.
pub open spec fn node_patterns(failures: Seq<JobFailure>, config: FailureRecoveryConfig, now: u64, r: Seq<FailurePattern>) -> bool {
    &&& forall|i: int| 0 <= i < r.len() ==> node_pattern_found(#[trigger] r[i], failures, now, config.min_failures_for_pattern)
    &&& forall|k: int| 0 <= k < failures.len() && failures_at(failures, #[trigger] failures[k].node_id)
        >= config.min_failures_for_pattern ==> exists|i: int| 0 <= i < r.len() && #[trigger] node_pattern_is(
        r[i],
        failures,
        failures[k].node_id,
        now,
    )
    &&& forall|i: int, j: int| 0 <= i < j < r.len() ==> r[i].affected_nodes@ != r[j].affected_nodes@
}

/// Whether `r` holds the resource pattern of `failures` at `now`: one
/// when enough failures are for resources, none otherwise.
pub open spec fn resource_patterns(failures: Seq<JobFailure>, config: FailureRecoveryConfig, now: u64, r: Seq<FailurePattern>) -> bool {
    &&& resource_failures(failures).len() >= config.min_failures_for_pattern ==> r.len() == 1 && resource_pattern_is(
        r[0],
        failures,
        now,
    )
    &&& resource_failures(failures).len() < config.min_failures_for_pattern ==> r.len() == 0
}

/// Whether `r` holds the temporal patterns of `failures` at `now`: one per
/// busy hour of the day, in hour order.
pub open spec fn temporal_patterns(failures: Seq<JobFailure>, config: FailureRecoveryConfig, now: u64, r: Seq<FailurePattern>) -> bool {
    exists|hours: Seq<nat>|
        {
            &&& #[trigger] hours.len() == r.len()
            &&& forall|i: int, j: int| 0 <= i < j < hours.len() ==> hours[i] < hours[j]
            &&& forall|i: int| 0 <= i < hours.len() ==> hours[i] < 24 && busy_hour(failures, hours[i], config.min_failures_for_pattern)
                && temporal_pattern_is(r[i], failures, hours[i], now)
            &&& forall|h: nat| h < 24 && busy_hour(failures, h, config.min_failures_for_pattern) ==> hours.contains(h)
        }
}

/// Whether `n`, `rs` and `ts` are the node-specific, resource and temporal
/// patterns of `failures` at `now`.
pub open spec fn pattern_search(
    failures: Seq<JobFailure>,
    config: FailureRecoveryConfig,
    now: u64,
    n: Seq<FailurePattern>,
    rs: Seq<FailurePattern>,
    ts: Seq<FailurePattern>,
) -> bool {
    &&& node_patterns(failures, config, now, n)
    &&& resource_patterns(failures, config, now, rs)
    &&& temporal_patterns(failures, config, now, ts)
}

/// The latest `PATTERN_LIMIT` patterns of `s`.
pub open spec fn latest_patterns(s: Seq<FailurePattern>) -> Seq<FailurePattern> {
    if s.len() <= PATTERN_LIMIT {
        s
    } else {
        s.skip(s.len() - PATTERN_LIMIT)
    }
}

/// The patterns of nodes with at least `config.min_failures_for_pattern`
/// failures among `failures`, one per such node, detected at `now`: each
/// names the node, counts its failures and their share, and recommends
/// maintenance of the node and a high alert.
#[verifier::rlimit(40)]
pub fn detect_node_specific_patterns(
    failures: &Vec<JobFailure>,
    config: &FailureRecoveryConfig,
    now: u64,
) -> (r: Vec<FailurePattern>)
    requires
        failures@.len() <= u32::MAX,
    ensures
        node_patterns(failures@, *config, now, r@),
        r@.len() <= failures@.len(),
{
    let nodes = distinct_nodes(failures);
    let total = failures.len();
    let mut r: Vec<FailurePattern> = Vec::new();
    let ghost mut owners: Seq<int> = Seq::empty();
    let mut i: usize = 0;
    while i < nodes.len()
        invariant
            i <= nodes@.len(),
            total == failures@.len(),
            total <= u32::MAX,
            forall|a: int, b: int| 0 <= a < b < nodes@.len() ==> nodes@[a] != nodes@[b],
            owners.len() == r@.len(),
            r@.len() <= i,
            nodes@.len() <= failures@.len(),
            forall|a: int| 0 <= a < r@.len() ==> 0 <= #[trigger] owners[a] < i,
            forall|a: int, b: int| 0 <= a < b < r@.len() ==> #[trigger] owners[a] < #[trigger] owners[b],
            forall|a: int| 0 <= a < r@.len() ==> #[trigger] node_pattern_is(r@[a], failures@, nodes@[owners[a]], now),
            forall|a: int|
                0 <= a < r@.len() ==> failures_at(failures@, nodes@[#[trigger] owners[a]]) >= config.min_failures_for_pattern,
            forall|j: int|
                0 <= j < i && failures_at(failures@, #[trigger] nodes@[j]) >= config.min_failures_for_pattern
                    ==> exists|a: int| 0 <= a < r@.len() && #[trigger] owners[a] == j,
        decreases nodes@.len() - i,
    {
        let n = nodes[i];
        let count = count_at(failures, n);
        proof {
            failures@.filter_lemma(|x: JobFailure| x.node_id == n);
        }
        if count >= config.min_failures_for_pattern as usize {
            let mut actions: Vec<RecoveryAction> = Vec::new();
            actions.push(RecoveryAction::MarkNodeMaintenance { node_id: n });
            actions.push(
                RecoveryAction::SendAlert {
                    message: crate::job_scheduler::text_around_id("Node ", n, " experiencing repeated failures"),
                    severity: AlertSeverity::High,
                },
            );
            let id = crate::job_scheduler::text_around_id("node-specific-", n, "");
            proof {
                reveal_strlit("");
                assert(id@ =~= "node-specific-"@ + crate::platform::uuid_hyphenated(n));
            }
            let mut affected: Vec<u128> = Vec::new();
            affected.push(n);
            let p = FailurePattern {
                id,
                pattern_type: FailurePatternType::NodeSpecific,
                affected_nodes: affected,
                failure_count: count as u32,
                detected_at: now,
                confidence: share_of(count, total),
                recommended_actions: actions,
            };
            proof {
                assert(p.affected_nodes@ =~= seq![n]);
                assert(node_pattern_is(p, failures@, n, now));
            }
            let ghost before = r@;
            let ghost obefore = owners;
            r.push(p);
            proof {
                owners = owners.push(i as int);
                assert forall|a: int| 0 <= a < r@.len() implies #[trigger] node_pattern_is(
                    r@[a],
                    failures@,
                    nodes@[owners[a]],
                    now,
                ) by {
                    if a < before.len() {
                        assert(r@[a] == before[a]);
                        assert(owners[a] == obefore[a]);
                    }
                }
                assert forall|a: int| 0 <= a < r@.len() implies failures_at(failures@, nodes@[#[trigger] owners[a]])
                    >= config.min_failures_for_pattern by {
                    if a < before.len() {
                        assert(owners[a] == obefore[a]);
                    }
                }
                assert forall|j: int|
                    0 <= j < i + 1 && failures_at(failures@, #[trigger] nodes@[j]) >= config.min_failures_for_pattern
                        implies exists|a: int| 0 <= a < r@.len() && #[trigger] owners[a] == j by {
                    if j < i {
                        let a = choose|a: int| 0 <= a < before.len() && #[trigger] obefore[a] == j;
                        assert(owners[a] == obefore[a]);
                    } else {
                        assert(owners[before.len() as int] == j);
                    }
                }
            }
        }
        i = i + 1;
    }
    proof {
        assert forall|x: int| 0 <= x < r@.len() implies node_pattern_found(#[trigger] r@[x], failures@, now, config.min_failures_for_pattern) by {
            assert(node_pattern_is(r@[x], failures@, nodes@[owners[x]], now));
            assert(failures_at(failures@, nodes@[owners[x]]) >= config.min_failures_for_pattern);
        }
        assert forall|k: int| 0 <= k < failures@.len() && failures_at(failures@, #[trigger] failures@[k].node_id)
            >= config.min_failures_for_pattern implies exists|x: int| 0 <= x < r@.len() && #[trigger] node_pattern_is(
            r@[x],
            failures@,
            failures@[k].node_id,
            now,
        ) by {
            assert(nodes@.contains(failures@[k].node_id));
            let j = choose|j: int| 0 <= j < nodes@.len() && nodes@[j] == failures@[k].node_id;
            assert(failures_at(failures@, nodes@[j]) >= config.min_failures_for_pattern);
            let x = choose|x: int| 0 <= x < r@.len() && #[trigger] owners[x] == j;
            assert(node_pattern_is(r@[x], failures@, nodes@[owners[x]], now));
        }
        assert forall|x: int, y: int| 0 <= x < y < r@.len() implies r@[x].affected_nodes@ != r@[y].affected_nodes@ by {
            assert(node_pattern_is(r@[x], failures@, nodes@[owners[x]], now));
            assert(node_pattern_is(r@[y], failures@, nodes@[owners[y]], now));
            assert(owners[x] < owners[y]);
            assert(r@[x].affected_nodes@[0] == nodes@[owners[x]]);
            assert(r@[y].affected_nodes@[0] == nodes@[owners[y]]);
        }
    }
    r
}

/// The failures of `f` that satisfy a test, in order.
fn resource_failures_of(f: &Vec<JobFailure>) -> (r: Vec<u128>)
    ensures
        r@ == nodes_of(resource_failures(f@)),
{
    let ghost p = |x: JobFailure| x.reason == FailureReason::ResourceExhaustion;
    let mut r: Vec<u128> = Vec::new();
    let mut k: usize = 0;
    while k < f.len()
        invariant
            k <= f@.len(),
            p == (|x: JobFailure| x.reason == FailureReason::ResourceExhaustion),
            r@ == nodes_of(f@.take(k as int).filter(p)),
        decreases f@.len() - k,
    {
        proof {
            assert(f@.take(k + 1) =~= f@.take(k as int).push(f@[k as int]));
            crate::concurrency::lemma_filter_snoc(f@.take(k as int), f@[k as int], p);
        }
        if f[k].reason == FailureReason::ResourceExhaustion {
            let ghost before = r@;
            r.push(f[k].node_id);
            proof {
                assert(r@ =~= nodes_of(f@.take(k as int).filter(p).push(f@[k as int])));
            }
        }
        k = k + 1;
    }
    proof {
        assert(f@.take(f@.len() as int) =~= f@);
    }
    r
}

/// The nodes of the failures of `f` in hour `h` of the day, in order.
fn hour_failures_of(f: &Vec<JobFailure>, h: u32) -> (r: Vec<u128>)
    ensures
        r@ == nodes_of(failures_in_hour(f@, h as nat)),
{
    let ghost p = |x: JobFailure| hour_of(x.failed_at) == h as nat;
    let mut r: Vec<u128> = Vec::new();
    let mut k: usize = 0;
    while k < f.len()
        invariant
            k <= f@.len(),
            p == (|x: JobFailure| hour_of(x.failed_at) == h as nat),
            r@ == nodes_of(f@.take(k as int).filter(p)),
        decreases f@.len() - k,
    {
        proof {
            assert(f@.take(k + 1) =~= f@.take(k as int).push(f@[k as int]));
            crate::concurrency::lemma_filter_snoc(f@.take(k as int), f@[k as int], p);
        }
        if hour_of_day(f[k].failed_at) == h {
            r.push(f[k].node_id);
            proof {
                assert(r@ =~= nodes_of(f@.take(k as int).filter(p).push(f@[k as int])));
            }
        }
        k = k + 1;
    }
    proof {
        assert(f@.take(f@.len() as int) =~= f@);
        assert(failures_in_hour(f@, h as nat) == f@.filter(p));
    }
    r
}

/// Whether `p` is the pattern of failures for lack of resources among `f`
/// at `now`.
pub open spec fn resource_pattern_is(p: FailurePattern, f: Seq<JobFailure>, now: u64) -> bool {
    &&& p.id@ == "resource-exhaustion"@
    &&& p.pattern_type == FailurePatternType::ResourceBased
    &&& p.affected_nodes@ == nodes_of(resource_failures(f))
    &&& p.failure_count == resource_failures(f).len()
    &&& p.detected_at == now
    &&& p.confidence == share(resource_failures(f).len(), f.len())
    &&& p.recommended_actions@.len() == 2
    &&& p.recommended_actions@[0] matches RecoveryAction::ScaleUpResources { resource_type }
    &&& resource_type@ == "compute"@
    &&& p.recommended_actions@[1] matches RecoveryAction::SendAlert { message, severity }
    &&& message@ == "Resource exhaustion pattern detected"@
    &&& severity == AlertSeverity::Medium
}

/// The pattern of failures for lack of resources among `failures`, when
/// there are at least `config.min_failures_for_pattern` of them: it lists
/// their nodes, counts them and their share, and recommends more compute
/// and a medium alert.
pub fn detect_resource_patterns(
    failures: &Vec<JobFailure>,
    config: &FailureRecoveryConfig,
    now: u64,
) -> (r: Vec<FailurePattern>)
    requires
        failures@.len() <= u32::MAX,
    ensures
        resource_patterns(failures@, *config, now, r@),
        r@.len() <= 1,
{
    let nodes = resource_failures_of(failures);
    let count = nodes.len();
    proof {
        failures@.filter_lemma(|x: JobFailure| x.reason == FailureReason::ResourceExhaustion);
    }
    let mut r: Vec<FailurePattern> = Vec::new();
    if count >= config.min_failures_for_pattern as usize {
        let mut actions: Vec<RecoveryAction> = Vec::new();
        actions.push(RecoveryAction::ScaleUpResources { resource_type: String::from_str("compute") });
        actions.push(
            RecoveryAction::SendAlert {
                message: String::from_str("Resource exhaustion pattern detected"),
                severity: AlertSeverity::Medium,
            },
        );
        r.push(
            FailurePattern {
                id: String::from_str("resource-exhaustion"),
                pattern_type: FailurePatternType::ResourceBased,
                affected_nodes: nodes,
                failure_count: count as u32,
                detected_at: now,
                confidence: share_of(count, failures.len()),
                recommended_actions: actions,
            },
        );
    }
    r
}

/// Whether `p` is the pattern of the failures of `f` in hour `h` of the
/// day, at `now`.
pub open spec fn temporal_pattern_is(p: FailurePattern, f: Seq<JobFailure>, h: nat, now: u64) -> bool {
    &&& p.id@ == "temporal-hour-"@ + crate::text::decimal(h)
    &&& p.pattern_type == FailurePatternType::Temporal
    &&& p.affected_nodes@ == nodes_of(failures_in_hour(f, h))
    &&& p.failure_count == failures_in_hour(f, h).len()
    &&& p.detected_at == now
    &&& p.confidence == share(failures_in_hour(f, h).len(), f.len())
    &&& p.recommended_actions@.len() == 2
    &&& p.recommended_actions@[0] == RecoveryAction::AdjustJobPriorities { priority_adjustment: -1i32 }
    &&& p.recommended_actions@[1] matches RecoveryAction::SendAlert { message, severity }
    &&& message@ == "Temporal failure pattern detected at hour "@ + crate::text::decimal(h)
    &&& severity == AlertSeverity::Low
}

/// Whether hour `h` of the day holds a pattern: at least `min` failures,
/// and at least one.
pub open spec fn busy_hour(f: Seq<JobFailure>, h: nat, min: u32) -> bool {
    failures_in_hour(f, h).len() >= min && failures_in_hour(f, h).len() > 0
}

/// The patterns of the hours of the day (UTC) that hold at least
/// `config.min_failures_for_pattern` of `failures`, earliest hour first:
/// each lists the nodes that failed in that hour, counts the failures and
/// their share, and recommends lowering job priorities and a low alert.
pub fn detect_temporal_patterns(
    failures: &Vec<JobFailure>,
    config: &FailureRecoveryConfig,
    now: u64,
) -> (r: Vec<FailurePattern>)
    requires
        failures@.len() <= u32::MAX,
    ensures
        temporal_patterns(failures@, *config, now, r@),
        r@.len() <= 24,
{
    let mut r: Vec<FailurePattern> = Vec::new();
    let ghost mut hours: Seq<nat> = Seq::empty();
    let mut h: u32 = 0;
    while h < 24
        invariant
            h <= 24,
            failures@.len() <= u32::MAX,
            hours.len() == r@.len(),
            r@.len() <= h,
            forall|i: int, j: int| 0 <= i < j < hours.len() ==> hours[i] < hours[j],
            forall|i: int| 0 <= i < hours.len() ==> hours[i] < h && busy_hour(failures@, hours[i], config.min_failures_for_pattern)
                && temporal_pattern_is(r@[i], failures@, hours[i], now),
            forall|g: nat| g < h && busy_hour(failures@, g, config.min_failures_for_pattern) ==> hours.contains(g),
        decreases 24 - h,
    {
        let nodes = hour_failures_of(failures, h);
        let count = nodes.len();
        proof {
            failures@.filter_lemma(|x: JobFailure| hour_of(x.failed_at) == h as nat);
        }
        if count >= config.min_failures_for_pattern as usize && count > 0 {
            let mut id = String::from_str("temporal-hour-");
            let num = crate::text::decimal_string(h as u64);
            id.append(num.as_str());
            let mut actions: Vec<RecoveryAction> = Vec::new();
            actions.push(RecoveryAction::AdjustJobPriorities { priority_adjustment: -1 });
            actions.push(
                RecoveryAction::SendAlert {
                    message: crate::text::text_with_number("Temporal failure pattern detected at hour ", h as u64),
                    severity: AlertSeverity::Low,
                },
            );
            let p = FailurePattern {
                id,
                pattern_type: FailurePatternType::Temporal,
                affected_nodes: nodes,
                failure_count: count as u32,
                detected_at: now,
                confidence: share_of(count, failures.len()),
                recommended_actions: actions,
            };
            let ghost before = r@;
            let ghost hb = hours;
            r.push(p);
            proof {
                hours = hours.push(h as nat);
                assert forall|i: int| 0 <= i < hours.len() implies hours[i] < h + 1 && busy_hour(
                    failures@,
                    hours[i],
                    config.min_failures_for_pattern,
                ) && temporal_pattern_is(r@[i], failures@, hours[i], now) by {
                    if i < hb.len() {
                        assert(r@[i] == before[i]);
                        assert(hours[i] == hb[i]);
                    }
                }
                assert forall|g: nat| g < h + 1 && busy_hour(failures@, g, config.min_failures_for_pattern) implies hours.contains(g) by {
                    if g < h {
                        assert(hb.contains(g));
                        let k = choose|k: int| 0 <= k < hb.len() && hb[k] == g;
                        assert(hours[k] == g);
                    } else {
                        assert(hours[hb.len() as int] == g);
                    }
                }
            }
        } else {
            proof {
                assert forall|g: nat| g < h + 1 && busy_hour(failures@, g, config.min_failures_for_pattern) implies hours.contains(g) by {
                    if g == h {
                        assert(!busy_hour(failures@, h as nat, config.min_failures_for_pattern));
                    }
                }
            }
        }
        h = h + 1;
    }
    proof {
        assert(hours.len() == r@.len());
    }
    r
}

impl RecoveryAction {
    /// An equal copy.
    pub fn duplicate(&self) -> (r: Self)
        ensures
            r == *self,
    {
        match self {
            RecoveryAction::RescheduleJob { job_id, target_node } => RecoveryAction::RescheduleJob {
                job_id: *job_id,
                target_node: *target_node,
            },
            RecoveryAction::MarkNodeMaintenance { node_id } => RecoveryAction::MarkNodeMaintenance { node_id: *node_id },
            RecoveryAction::ScaleUpResources { resource_type } => RecoveryAction::ScaleUpResources {
                resource_type: resource_type.clone(),
            },
            RecoveryAction::AdjustJobPriorities { priority_adjustment } => RecoveryAction::AdjustJobPriorities {
                priority_adjustment: *priority_adjustment,
            },
            RecoveryAction::SendAlert { message, severity } => RecoveryAction::SendAlert {
                message: message.clone(),
                severity: *severity,
            },
        }
    }
}

impl JobFailure {
    /// An equal copy.
    pub fn duplicate(&self) -> (r: Self)
        ensures
            r == *self,
    {
        JobFailure {
            job_id: self.job_id,
            node_id: self.node_id,
            failed_at: self.failed_at,
            reason: self.reason,
            error_message: self.error_message.clone(),
            recovery_attempt: self.recovery_attempt,
            job_result: match &self.job_result {
                Some(j) => Some(j.duplicate()),
                None => None,
            },
        }
    }
}

impl FailurePattern {
    /// An equal copy.
    pub fn duplicate(&self) -> (r: Self)
        ensures
            r.id == self.id,
            r.pattern_type == self.pattern_type,
            r.affected_nodes@ == self.affected_nodes@,
            r.failure_count == self.failure_count,
            r.detected_at == self.detected_at,
            r.confidence == self.confidence,
            r.recommended_actions@ == self.recommended_actions@,
    {
        let mut actions: Vec<RecoveryAction> = Vec::new();
        let mut i: usize = 0;
        while i < self.recommended_actions.len()
            invariant
                i <= self.recommended_actions@.len(),
                actions@ == self.recommended_actions@.take(i as int),
            decreases self.recommended_actions@.len() - i,
        {
            actions.push(self.recommended_actions[i].duplicate());
            proof {
                assert(actions@ =~= self.recommended_actions@.take(i as int + 1));
            }
            i = i + 1;
        }
        proof {
            assert(self.recommended_actions@.take(self.recommended_actions@.len() as int) =~= self.recommended_actions@);
        }
        FailurePattern {
            id: self.id.clone(),
            pattern_type: self.pattern_type,
            affected_nodes: self.affected_nodes.clone(),
            failure_count: self.failure_count,
            detected_at: self.detected_at,
            confidence: self.confidence,
            recommended_actions: actions,
        }
    }
}

/// Counters of failure recovery; the success rate is a whole percent.
#[derive(Debug)]
pub struct FailureRecoveryStats {
    pub total_failures: u64,
    pub total_recovery_attempts: u64,
    pub successful_recoveries: u64,
    pub failed_recoveries: u64,
    pub recovery_success_rate: u64,
    pub failures_by_reason: KeyedTable<u64>,
    pub failures_by_node: IdTable<u64>,
    pub patterns_detected: u32,
    pub avg_recovery_time_ms: u64,
}

/// Failures kept at most.
pub const FAILURE_HISTORY_LIMIT: usize = 1000;

/// Patterns kept at most.
pub const PATTERN_LIMIT: usize = 100;

/// Recoveries counted per job, beyond which the counts are dropped.
pub const ATTEMPT_TABLE_LIMIT: usize = 1000;

/// A failure log of at most `limit` entries after `f` is added.
pub open spec fn bounded_push<A>(s: Seq<A>, f: A, limit: nat) -> Seq<A> {
    if s.len() < limit {
        s.push(f)
    } else {
        s.push(f).drop_first()
    }
}

/// The recoveries made for job `id`.
pub open spec fn attempts_of(t: Seq<(u128, u32)>, id: u128) -> u32 {
    if has_id(t, id) {
        value_at_id(t, id)
    } else {
        0
    }
}

/// The count under `id`, or 0.
pub open spec fn count_of(t: Seq<(u128, u64)>, id: u128) -> u64 {
    if has_id(t, id) {
        value_at_id(t, id)
    } else {
        0
    }
}

/// The failures of `h` within `window` hours before `now`.
pub open spec fn recent_failures(h: Seq<JobFailure>, now: u64, window: u64) -> Seq<JobFailure> {
    h.filter(|x: JobFailure| (x.failed_at as int) > (now as int) - (window as int) * 3_600_000)
}

/// Failure recovery.
pub struct JobFailureRecovery {
    config: FailureRecoveryConfig,
    failure_history: Vec<JobFailure>,
    detected_patterns: Vec<FailurePattern>,
    recovery_attempts: IdTable<u32>,
    node_failure_counters: IdTable<u32>,
    stats: FailureRecoveryStats,
    last_analysis: u64,
    analysis_in_progress: bool,
}

impl JobFailureRecovery {
    /// The settings.
    pub closed spec fn settings(&self) -> FailureRecoveryConfig {
        self.config
    }

    /// The recorded failures, oldest first.
    pub closed spec fn history(&self) -> Seq<JobFailure> {
        self.failure_history@
    }

    /// The patterns found, oldest first.
    pub closed spec fn patterns(&self) -> Seq<FailurePattern> {
        self.detected_patterns@
    }

    /// Recoveries made, by job.
    pub closed spec fn attempts(&self) -> Seq<(u128, u32)> {
        self.recovery_attempts.entries()
    }

    /// Failures since the last reset, by node.
    pub closed spec fn node_counts(&self) -> Seq<(u128, u32)> {
        self.node_failure_counters.entries()
    }

    /// The counters.
    pub closed spec fn counters(&self) -> FailureRecoveryStats {
        self.stats
    }

    /// When patterns were last searched.
    pub closed spec fn analysed_at(&self) -> u64 {
        self.last_analysis
    }

    /// Whether a search for patterns is under way.
    pub closed spec fn analysing(&self) -> bool {
        self.analysis_in_progress
    }

    /// One entry per job and node, and bounded logs.
    pub closed spec fn well_formed(&self) -> bool {
        &&& self.recovery_attempts.well_formed()
        &&& self.node_failure_counters.well_formed()
        &&& self.stats.failures_by_reason.well_formed()
        &&& self.stats.failures_by_node.well_formed()
        &&& self.failure_history@.len() <= FAILURE_HISTORY_LIMIT
        &&& self.detected_patterns@.len() <= PATTERN_LIMIT
        &&& self.stats.successful_recoveries + self.stats.failed_recoveries == self.stats.total_recovery_attempts
    }

    /// Recovery with `config`, nothing recorded, patterns last searched at
    /// `now`, and every recovery so far a success.
    pub fn new_at(config: FailureRecoveryConfig, now: u64) -> (r: Self)
        ensures
            r.well_formed(),
            r.settings() == config,
            r.history().len() == 0,
            r.patterns().len() == 0,
            r.attempts().len() == 0,
            r.node_counts().len() == 0,
            r.analysed_at() == now,
            !r.analysing(),
            r.counters().total_failures == 0,
            r.counters().total_recovery_attempts == 0,
            r.counters().successful_recoveries == 0,
            r.counters().failed_recoveries == 0,
            r.counters().recovery_success_rate == 100,
            r.counters().patterns_detected == 0,
    {
        JobFailureRecovery {
            config,
            failure_history: Vec::new(),
            detected_patterns: Vec::new(),
            recovery_attempts: IdTable::new(),
            node_failure_counters: IdTable::new(),
            stats: FailureRecoveryStats {
                total_failures: 0,
                total_recovery_attempts: 0,
                successful_recoveries: 0,
                failed_recoveries: 0,
                recovery_success_rate: 100,
                failures_by_reason: KeyedTable::new(),
                failures_by_node: IdTable::new(),
                patterns_detected: 0,
                avg_recovery_time_ms: 0,
            },
            last_analysis: now,
            analysis_in_progress: false,
        }
    }

    /// Recoveries made for job `job_id`.
    pub fn get_recovery_attempt_count(&self, job_id: u128) -> (n: u32)
        requires
            self.well_formed(),
        ensures
            n == attempts_of(self.attempts(), job_id),
    {
        match self.recovery_attempts.get(job_id) {
            Some(n) => *n,
            None => 0,
        }
    }

    /// Records that job `job_id` failed on node `node_id` at `now`: the
    /// failure joins the history (the latest 1000) with the recoveries made
    /// so far, and is counted for the node, the reason and in all.  When
    /// recoveries remain for the job, one more is counted and the reason to
    /// move the job is answered; the caller waits the recovery delay and
    /// then calls `finish_failure_at`.
    pub fn record_failure_at(
        &mut self,
        job_id: u128,
        node_id: u128,
        reason: FailureReason,
        error_message: String,
        job_result: Option<JobResult>,
        now: u64,
    ) -> (step: Option<ReschedulingReason>)
        requires
            old(self).well_formed(),
            has_id(old(self).node_counts(), node_id) ==> value_at_id(old(self).node_counts(), node_id) < u32::MAX,
            old(self).counters().total_failures < u64::MAX,
            has_key(old(self).counters().failures_by_reason.entries(), failure_reason_name(reason)) ==> value_of(
                old(self).counters().failures_by_reason.entries(),
                failure_reason_name(reason),
            ) < u64::MAX,
            count_of(old(self).counters().failures_by_node.entries(), node_id) < u64::MAX,
        ensures
            final(self).well_formed(),
            final(self).history() == bounded_push(
                old(self).history(),
                JobFailure {
                    job_id,
                    node_id,
                    failed_at: now,
                    reason,
                    error_message,
                    recovery_attempt: attempts_of(old(self).attempts(), job_id),
                    job_result,
                },
                FAILURE_HISTORY_LIMIT as nat,
            ),
            final(self).node_counts() == id_upserted(
                old(self).node_counts(),
                node_id,
                (attempts_of(old(self).node_counts(), node_id) + 1) as u32,
            ),
            final(self).counters().total_failures == old(self).counters().total_failures + 1,
            crate::job_scheduler::counted_once(
                old(self).counters().failures_by_reason.entries(),
                final(self).counters().failures_by_reason.entries(),
                failure_reason_name(reason),
            ),
            final(self).counters().failures_by_node.entries() == id_upserted(
                old(self).counters().failures_by_node.entries(),
                node_id,
                (count_of(old(self).counters().failures_by_node.entries(), node_id) + 1) as u64,
            ),
            step == if attempts_of(old(self).attempts(), job_id) < old(self).settings().max_recovery_attempts {
                Some(rescheduling_reason_for(reason))
            } else {
                None::<ReschedulingReason>
            },
            step is Some ==> final(self).attempts() == id_upserted(
                old(self).attempts(),
                job_id,
                (attempts_of(old(self).attempts(), job_id) + 1) as u32,
            ),
            step is None ==> final(self).attempts() == old(self).attempts(),
            final(self).counters().total_recovery_attempts == old(self).counters().total_recovery_attempts,
            final(self).counters().successful_recoveries == old(self).counters().successful_recoveries,
            final(self).counters().failed_recoveries == old(self).counters().failed_recoveries,
            final(self).counters().recovery_success_rate == old(self).counters().recovery_success_rate,
            final(self).counters().patterns_detected == old(self).counters().patterns_detected,
            final(self).patterns() == old(self).patterns(),
            final(self).settings() == old(self).settings(),
            final(self).analysed_at() == old(self).analysed_at(),
            final(self).analysing() == old(self).analysing(),
    {
        let attempts = self.get_recovery_attempt_count(job_id);
        let failure = JobFailure {
            job_id,
            node_id,
            failed_at: now,
            reason,
            error_message,
            recovery_attempt: attempts,
            job_result,
        };
        let ghost before = self.failure_history@;
        self.failure_history.push(failure);
        if self.failure_history.len() > FAILURE_HISTORY_LIMIT {
            self.failure_history.remove(0);
        }
        proof {
            if before.len() < FAILURE_HISTORY_LIMIT {
                assert(self.failure_history@ == before.push(failure));
            } else {
                assert(self.failure_history@ =~= before.push(failure).drop_first());
            }
        }
        let count: u32 = match self.node_failure_counters.get(node_id) {
            Some(c) => *c + 1,
            None => 1,
        };
        self.node_failure_counters.insert(node_id, count);
        self.stats.total_failures = self.stats.total_failures + 1;
        let mut_reason_key = String::from_str(failure_reason_text(reason));
        let n: u64 = match self.stats.failures_by_reason.get(&mut_reason_key) {
            Some(v) => *v + 1,
            None => 1,
        };
        proof {
            crate::keyed::lemma_upserted_unique(self.stats.failures_by_reason.entries(), mut_reason_key, n);
        }
        self.stats.failures_by_reason.insert(mut_reason_key, n);
        let m: u64 = match self.stats.failures_by_node.get(node_id) {
            Some(v) => *v + 1,
            None => 1,
        };
        self.stats.failures_by_node.insert(node_id, m);
        if attempts < self.config.max_recovery_attempts {
            self.recovery_attempts.insert(job_id, attempts + 1);
            Some(rescheduling_reason(reason))
        } else {
            None
        }
    }

    /// Counts a recovery that succeeded or not, and the share of those that
    /// succeeded.
    pub fn record_recovery_outcome(&mut self, succeeded: bool)
        requires
            old(self).well_formed(),
            old(self).counters().total_recovery_attempts < u64::MAX,
        ensures
            final(self).counters().total_recovery_attempts == old(self).counters().total_recovery_attempts + 1,
            final(self).counters().successful_recoveries == old(self).counters().successful_recoveries + if succeeded {
                1int
            } else {
                0int
            },
            final(self).counters().failed_recoveries == old(self).counters().failed_recoveries + if succeeded {
                0int
            } else {
                1int
            },
            final(self).counters().recovery_success_rate == share(
                final(self).counters().successful_recoveries as nat,
                final(self).counters().total_recovery_attempts as nat,
            ),
            final(self).counters().total_failures == old(self).counters().total_failures,
            final(self).counters().patterns_detected == old(self).counters().patterns_detected,
            final(self).history() == old(self).history(),
            final(self).patterns() == old(self).patterns(),
            final(self).attempts() == old(self).attempts(),
            final(self).node_counts() == old(self).node_counts(),
            final(self).settings() == old(self).settings(),
            final(self).well_formed() == old(self).well_formed(),
    {
        self.stats.total_recovery_attempts = self.stats.total_recovery_attempts + 1;
        if succeeded {
            self.stats.successful_recoveries = self.stats.successful_recoveries + 1;
        } else {
            self.stats.failed_recoveries = self.stats.failed_recoveries + 1;
        }
        let all: u128 = self.stats.total_recovery_attempts as u128;
        let ok: u128 = self.stats.successful_recoveries as u128;
        proof {
            assert((ok as int) * 100 / (all as int) <= 100) by (nonlinear_arith)
                requires
                    ok <= all,
                    all > 0,
            ;
        }
        self.stats.recovery_success_rate = ((ok * 100) / all) as u64;
    }

    /// Sends node `node_id` to maintenance when it has failed as often as
    /// the threshold allows, and starts its count afresh.
    pub fn check_node_failure_threshold(&mut self, node_id: u128) -> (a: Option<RecoveryAction>)
        requires
            old(self).well_formed(),
        ensures
            final(self).well_formed(),
            attempts_of(old(self).node_counts(), node_id) >= old(self).settings().node_failure_threshold ==> a == Some(
                RecoveryAction::MarkNodeMaintenance { node_id },
            ) && final(self).node_counts() == id_upserted(old(self).node_counts(), node_id, 0u32),
            attempts_of(old(self).node_counts(), node_id) < old(self).settings().node_failure_threshold ==> a is None
                && final(self).node_counts() == old(self).node_counts(),
            final(self).history() == old(self).history(),
            final(self).patterns() == old(self).patterns(),
            final(self).attempts() == old(self).attempts(),
            final(self).counters() == old(self).counters(),
            final(self).settings() == old(self).settings(),
            final(self).analysed_at() == old(self).analysed_at(),
            final(self).analysing() == old(self).analysing(),
    {
        let count: u32 = match self.node_failure_counters.get(node_id) {
            Some(c) => *c,
            None => 0,
        };
        if count >= self.config.node_failure_threshold {
            self.node_failure_counters.insert(node_id, 0);
            Some(RecoveryAction::MarkNodeMaintenance { node_id })
        } else {
            None
        }
    }

    /// Goes on with a failure of job `job_id` on node `node_id` after
    /// `record_failure_at` answered `step` and the recovery delay passed:
    /// a job to recover is moved by `scheduler` for the reason given and the
    /// outcome is counted (a failed move ends here with its error); then
    /// the node's failures are checked against the threshold.
    pub fn finish_failure_at(
        &mut self,
        scheduler: &mut DistributedJobScheduler,
        coordinator: &mut ClusterCoordinator,
        job_id: u128,
        node_id: u128,
        step: Option<ReschedulingReason>,
        nodes: &Vec<SchedulingNode>,
        candidates: &Vec<NodeCandidate>,
        now: u64,
    ) -> (r: Result<Option<RecoveryAction>, AppError>)
        requires
            old(self).well_formed(),
            old(self).counters().total_recovery_attempts < u64::MAX,
            old(scheduler).well_formed(),
            old(coordinator).well_formed(),
            nodes@.len() <= u64::MAX / 100,
            crate::cluster_coordinator::capacity_sum(candidates@) <= u64::MAX,
            forall|i: int|
                0 <= i < candidates@.len() ==> (has_id(old(coordinator).balancer().loads(), #[trigger] candidates@[i].id)
                    ==> value_at_id(old(coordinator).balancer().loads(), candidates@[i].id) < u64::MAX),
            old(scheduler).counters().total_jobs_rescheduled < u64::MAX,
        ensures
            final(self).well_formed(),
            final(scheduler).well_formed(),
            final(coordinator).well_formed(),
            step is None ==> final(self).counters().total_recovery_attempts == old(self).counters().total_recovery_attempts,
            step is Some ==> final(self).counters().total_recovery_attempts == old(self).counters().total_recovery_attempts
                + 1,
            step is Some && r is Err ==> final(self).counters().failed_recoveries == old(self).counters().failed_recoveries
                + 1 && final(self).node_counts() == old(self).node_counts(),
            r is Ok && attempts_of(old(self).node_counts(), node_id) >= old(self).settings().node_failure_threshold ==> r
                == Ok::<Option<RecoveryAction>, AppError>(Some(RecoveryAction::MarkNodeMaintenance { node_id })),
            r is Ok && attempts_of(old(self).node_counts(), node_id) < old(self).settings().node_failure_threshold ==> r
                == Ok::<Option<RecoveryAction>, AppError>(None),
            final(self).history() == old(self).history(),
            final(self).patterns() == old(self).patterns(),
            final(self).attempts() == old(self).attempts(),
            final(self).settings() == old(self).settings(),
    {
        match step {
            Some(reason) => {
                match scheduler.reschedule_job_at(coordinator, job_id, reason, nodes, candidates, now) {
                    Ok(_) => {
                        self.record_recovery_outcome(true);
                    },
                    Err(e) => {
                        self.record_recovery_outcome(false);
                        return Err(e);
                    },
                }
            },
            None => {},
        }
        Ok(self.check_node_failure_threshold(node_id))
    }

    /// Whether patterns are due to be searched at `now`: none is under way
    /// and a full hour passed since the last search.
    pub fn should_analyze_at(&self, now: u64) -> (b: bool)
        ensures
            b == (!self.analysing() && now >= self.analysed_at() && now - self.analysed_at() >= 3_600_000),
    {
        !self.analysis_in_progress && now >= self.last_analysis && now - self.last_analysis >= 3_600_000
    }

    /// Searches the failures of the last `pattern_analysis_window` hours
    /// before `now` for patterns, when there are at least
    /// `min_failures_for_pattern` of them: node-specific, then
    /// resource-based, then temporal patterns join the kept patterns (the
    /// latest 100) and are counted.  The search is dated `now`.  Returns
    /// how many patterns were found.
    pub fn analyze_failure_patterns_at(&mut self, now: u64) -> (found: usize)
        requires
            old(self).well_formed(),
            old(self).counters().patterns_detected + 1000 + 1 + 24 <= u32::MAX,
        ensures
            final(self).well_formed(),
            final(self).analysed_at() == now,
            !final(self).analysing(),
            recent_failures(old(self).history(), now, old(self).settings().pattern_analysis_window).len()
                < old(self).settings().min_failures_for_pattern ==> found == 0 && final(self).patterns() == old(
                self,
            ).patterns(),
            ({
                let recent = recent_failures(old(self).history(), now, old(self).settings().pattern_analysis_window);
                recent.len() >= old(self).settings().min_failures_for_pattern ==> exists|
                    n: Seq<FailurePattern>,
                    rs: Seq<FailurePattern>,
                    ts: Seq<FailurePattern>,
                |
                    #[trigger] pattern_search(recent, old(self).settings(), now, n, rs, ts) && found == n.len() + rs.len()
                        + ts.len() && final(self).patterns() == latest_patterns(old(self).patterns() + n + rs + ts)
            }),
            final(self).counters().patterns_detected == old(self).counters().patterns_detected + found,
            final(self).patterns().len() == if old(self).patterns().len() + found <= PATTERN_LIMIT {
                old(self).patterns().len() + found
            } else {
                PATTERN_LIMIT as int
            },
            final(self).history() == old(self).history(),
            final(self).attempts() == old(self).attempts(),
            final(self).node_counts() == old(self).node_counts(),
            final(self).settings() == old(self).settings(),
    {
        self.analysis_in_progress = true;
        let window_ms: u128 = self.config.pattern_analysis_window as u128 * 3_600_000;
        let mut recent: Vec<JobFailure> = Vec::new();
        let ghost f = |x: JobFailure| (x.failed_at as int) > (now as int) - (window_ms as int);
        let mut k: usize = 0;
        while k < self.failure_history.len()
            invariant
                k <= self.failure_history@.len(),
                self.failure_history@ == old(self).failure_history@,
                window_ms == old(self).config.pattern_analysis_window as u128 * 3_600_000,
                f == (|x: JobFailure| (x.failed_at as int) > (now as int) - (window_ms as int)),
                recent@ == self.failure_history@.take(k as int).filter(f),
            decreases self.failure_history@.len() - k,
        {
            proof {
                assert(self.failure_history@.take(k + 1) =~= self.failure_history@.take(k as int).push(
                    self.failure_history@[k as int],
                ));
                crate::concurrency::lemma_filter_snoc(
                    self.failure_history@.take(k as int),
                    self.failure_history@[k as int],
                    f,
                );
            }
            if self.failure_history[k].failed_at as u128 + window_ms > now as u128 {
                recent.push(self.failure_history[k].duplicate());
            }
            k = k + 1;
        }
        proof {
            assert(self.failure_history@.take(self.failure_history@.len() as int) =~= self.failure_history@);
            assert(recent@ == recent_failures(old(self).history(), now, old(self).settings().pattern_analysis_window));
            self.failure_history@.filter_lemma(f);
        }
        if recent.len() < self.config.min_failures_for_pattern as usize {
            self.analysis_in_progress = false;
            self.last_analysis = now;
            return 0;
        }
        let mut found_patterns = detect_node_specific_patterns(&recent, &self.config, now);
        let resource = detect_resource_patterns(&recent, &self.config, now);
        let temporal = detect_temporal_patterns(&recent, &self.config, now);
        proof {
            assert(found_patterns@.len() <= recent@.len());
            assert(recent@.len() <= FAILURE_HISTORY_LIMIT);
            assert(resource@.len() <= 1);
            assert(temporal@.len() <= 24);
        }
        let ghost n = found_patterns@;
        let ghost rs = resource@;
        let ghost ts = temporal@;
        let ghost before = self.detected_patterns@;
        let mut resource = resource;
        let mut temporal = temporal;
        found_patterns.append(&mut resource);
        found_patterns.append(&mut temporal);
        let found = found_patterns.len();
        proof {
            assert(found_patterns@ == n + rs + ts);
            assert(before + n + rs + ts =~= before + found_patterns@);
            assert(pattern_search(recent@, self.config, now, n, rs, ts));
        }
        if found == 0 {
            proof {
                assert(before + found_patterns@ =~= before);
            }
        }
        if found > 0 {
            self.detected_patterns.append(&mut found_patterns);
            let ghost all = self.detected_patterns@;
            if self.detected_patterns.len() > PATTERN_LIMIT {
                let excess = self.detected_patterns.len() - PATTERN_LIMIT;
                let mut dropped: usize = 0;
                while dropped < excess
                    invariant
                        dropped <= excess,
                        self.detected_patterns@.len() == old(self).detected_patterns@.len() + found - dropped,
                        self.detected_patterns@ == all.skip(dropped as int),
                        all.len() == old(self).detected_patterns@.len() + found,
                        excess == old(self).detected_patterns@.len() + found - PATTERN_LIMIT,
                        self.failure_history == old(self).failure_history,
                        self.recovery_attempts == old(self).recovery_attempts,
                        self.node_failure_counters == old(self).node_failure_counters,
                        self.stats == old(self).stats,
                        self.config == old(self).config,
                        found <= FAILURE_HISTORY_LIMIT + 25,
                    decreases excess - dropped,
                {
                    let ghost prev = self.detected_patterns@;
                    self.detected_patterns.remove(0);
                    proof {
                        assert(self.detected_patterns@ =~= all.skip(dropped as int + 1));
                    }
                    dropped = dropped + 1;
                }
                proof {
                    assert(all.len() > PATTERN_LIMIT);
                }
            }
            self.stats.patterns_detected = self.stats.patterns_detected + found as u32;
        }
        self.analysis_in_progress = false;
        self.last_analysis = now;
        found
    }

    /// Drops the recovery counts when more than 1000 jobs have them, and
    /// starts every node's failure count afresh.
    pub fn cleanup(&mut self)
        requires
            old(self).well_formed(),
        ensures
            final(self).well_formed(),
            old(self).attempts().len() > ATTEMPT_TABLE_LIMIT ==> final(self).attempts().len() == 0,
            old(self).attempts().len() <= ATTEMPT_TABLE_LIMIT ==> final(self).attempts() == old(self).attempts(),
            final(self).node_counts().len() == 0,
            final(self).history() == old(self).history(),
            final(self).patterns() == old(self).patterns(),
            final(self).counters() == old(self).counters(),
            final(self).settings() == old(self).settings(),
    {
        if self.recovery_attempts.len() > ATTEMPT_TABLE_LIMIT {
            self.recovery_attempts.clear();
        }
        self.node_failure_counters.clear();
    }

    /// The latest `limit` failures (100 when not given), oldest first.
    pub fn get_failure_history(&self, limit: Option<usize>) -> (r: Vec<JobFailure>)
        ensures
            r@ == if self.history().len() <= limit.unwrap_or(100) {
                self.history()
            } else {
                self.history().skip(self.history().len() - limit.unwrap_or(100))
            },
    {
        let lim = match limit {
            Some(l) => l,
            None => 100,
        };
        let n = self.failure_history.len();
        let start = if n <= lim {
            0
        } else {
            n - lim
        };
        let mut r: Vec<JobFailure> = Vec::new();
        let mut k: usize = start;
        while k < n
            invariant
                start <= k <= n,
                n == self.failure_history@.len(),
                r@ == self.failure_history@.subrange(start as int, k as int),
            decreases n - k,
        {
            r.push(self.failure_history[k].duplicate());
            proof {
                assert(r@ =~= self.failure_history@.subrange(start as int, k + 1));
            }
            k = k + 1;
        }
        proof {
            assert(self.failure_history@.subrange(start as int, n as int) =~= if n <= lim {
                self.failure_history@
            } else {
                self.failure_history@.skip(n - lim)
            });
        }
        r
    }

    /// The patterns found, oldest first.
    pub fn get_detected_patterns(&self) -> (r: Vec<FailurePattern>)
        ensures
            r@.len() == self.patterns().len(),
            forall|i: int| 0 <= i < r@.len() ==> (#[trigger] r@[i]).id == self.patterns()[i].id
                && r@[i].pattern_type == self.patterns()[i].pattern_type && r@[i].affected_nodes@
                == self.patterns()[i].affected_nodes@ && r@[i].failure_count == self.patterns()[i].failure_count,
    {
        let mut r: Vec<FailurePattern> = Vec::new();
        let mut k: usize = 0;
        while k < self.detected_patterns.len()
            invariant
                k <= self.detected_patterns@.len(),
                r@.len() == k,
                forall|i: int| 0 <= i < k ==> (#[trigger] r@[i]).id == self.detected_patterns@[i].id
                    && r@[i].pattern_type == self.detected_patterns@[i].pattern_type && r@[i].affected_nodes@
                    == self.detected_patterns@[i].affected_nodes@ && r@[i].failure_count
                    == self.detected_patterns@[i].failure_count,
            decreases self.detected_patterns@.len() - k,
        {
            r.push(self.detected_patterns[k].duplicate());
            k = k + 1;
        }
        r
    }

    /// A copy of the counters.
    pub fn get_stats(&self) -> (st: FailureRecoveryStats)
        ensures
            st.total_failures == self.counters().total_failures,
            st.total_recovery_attempts == self.counters().total_recovery_attempts,
            st.successful_recoveries == self.counters().successful_recoveries,
            st.failed_recoveries == self.counters().failed_recoveries,
            st.recovery_success_rate == self.counters().recovery_success_rate,
            st.failures_by_reason.entries() == self.counters().failures_by_reason.entries(),
            st.failures_by_node.entries() == self.counters().failures_by_node.entries(),
            st.patterns_detected == self.counters().patterns_detected,
            st.avg_recovery_time_ms == self.counters().avg_recovery_time_ms,
    {
        FailureRecoveryStats {
            total_failures: self.stats.total_failures,
            total_recovery_attempts: self.stats.total_recovery_attempts,
            successful_recoveries: self.stats.successful_recoveries,
            failed_recoveries: self.stats.failed_recoveries,
            recovery_success_rate: self.stats.recovery_success_rate,
            failures_by_reason: self.stats.failures_by_reason.duplicate(),
            failures_by_node: self.stats.failures_by_node.duplicate(),
            patterns_detected: self.stats.patterns_detected,
            avg_recovery_time_ms: self.stats.avg_recovery_time_ms,
        }
    }
}

/// A job failed.
#[derive(Debug, Clone)]
pub struct JobFailureEvent {
    pub job_id: u128,
    pub node_id: u128,
    pub failure_reason: FailureReason,
    pub error_message: String,
    pub occurred_at: u64,
    pub correlation_id: u128,
}

impl JobFailureEvent {
    /// The event's type.
    pub fn event_type(&self) -> (t: &'static str)
        ensures
            t@ == "job_failure"@,
    {
        "job_failure"
    }

    /// The job the event is about.
    pub fn aggregate_id(&self) -> (id: u128)
        ensures
            id == self.job_id,
    {
        self.job_id
    }

    /// When the job failed.
    pub fn occurred_at(&self) -> (t: u64)
        ensures
            t == self.occurred_at,
    {
        self.occurred_at
    }

    /// The correlation of the event.
    pub fn correlation_id(&self) -> (id: u128)
        ensures
            id == self.correlation_id,
    {
        self.correlation_id
    }
}

} // verus!
