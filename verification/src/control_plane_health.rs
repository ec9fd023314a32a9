//! Health of the control plane.
//!
//! The outcomes of the registered checks fold into one status: a failing
//! critical check makes the plane unhealthy, any other problem makes it
//! degraded.  Node reports make the cluster status, and the built-in checks
//! judge the scheduler, the node registry and the database from the numbers
//! they are handed.  Percentages are whole percents.

use crate::keyed::{has_key, upserted, value_of, KeyedTable};
use crate::text::{decimal, text_with_number};
use vstd::prelude::*;

verus! {

/// Health of a check, a node, a subsystem or the whole plane.
#[derive(Debug, Clone, Copy, PartialEq, Eq, Structural)]
pub enum HealthStatus {
    Healthy,
    Degraded,
    Unhealthy,
    Unknown,
}

/// Settings of the health monitor.
#[derive(Debug, Clone, Copy)]
pub struct HealthConfig {
    pub check_interval_seconds: u64,
    pub timeout_seconds: u64,
    pub memory_warning_threshold_percent: u64,
    pub memory_critical_threshold_percent: u64,
    pub disk_warning_threshold_percent: u64,
    pub disk_critical_threshold_percent: u64,
    pub cpu_warning_threshold_percent: u64,
    pub cpu_critical_threshold_percent: u64,
    pub enable_deep_checks: bool,
}

impl HealthConfig {
    /// The default settings.
    pub open spec fn default_spec() -> HealthConfig {
        HealthConfig {
            check_interval_seconds: 30,
            timeout_seconds: 10,
            memory_warning_threshold_percent: 80,
            memory_critical_threshold_percent: 95,
            disk_warning_threshold_percent: 85,
            disk_critical_threshold_percent: 95,
            cpu_warning_threshold_percent: 80,
            cpu_critical_threshold_percent: 95,
            enable_deep_checks: true,
        }
    }

    /// Checks every 30 s with a 10 s timeout; warnings at 80% memory, 85%
    /// disk and 80% CPU, critical at 95% each; deep checks on.
    pub fn default_config() -> (c: Self)
        ensures
            c.check_interval_seconds == 30,
            c.timeout_seconds == 10,
            c.memory_warning_threshold_percent == 80,
            c.memory_critical_threshold_percent == 95,
            c.disk_warning_threshold_percent == 85,
            c.disk_critical_threshold_percent == 95,
            c.cpu_warning_threshold_percent == 80,
            c.cpu_critical_threshold_percent == 95,
            c.enable_deep_checks,
            c == Self::default_spec(),
    {
        HealthConfig {
            check_interval_seconds: 30,
            timeout_seconds: 10,
            memory_warning_threshold_percent: 80,
            memory_critical_threshold_percent: 95,
            disk_warning_threshold_percent: 85,
            disk_critical_threshold_percent: 95,
            cpu_warning_threshold_percent: 80,
            cpu_critical_threshold_percent: 95,
            enable_deep_checks: true,
        }
    }
}

/// A detail attached to a check result.
#[derive(Debug, Clone, PartialEq, Eq)]
pub enum DetailValue {
    Number(u64),
    Text(String),
}

/// Outcome of one health check.
#[derive(Debug, Clone)]
pub struct HealthCheckResult {
    pub name: String,
    pub status: HealthStatus,
    pub message: String,
    pub duration_ms: u64,
    pub timestamp: u64,
    pub details: Vec<(String, DetailValue)>,
}

/// The status and criticality of each check, in order.
pub open spec fn outcomes(checks: Seq<(HealthCheckResult, bool)>) -> Seq<(HealthStatus, bool)> {
    checks.map_values(|c: (HealthCheckResult, bool)| (c.0.status, c.1))
}

/// Whether a critical check is unhealthy.
pub open spec fn critical_failure(s: Seq<(HealthStatus, bool)>) -> bool {
    exists|i: int| 0 <= i < s.len() && s[i].0 == HealthStatus::Unhealthy && s[i].1
}

/// Whether some check is unhealthy or degraded.
pub open spec fn any_problem(s: Seq<(HealthStatus, bool)>) -> bool {
    exists|i: int| 0 <= i < s.len() && (s[i].0 == HealthStatus::Unhealthy || s[i].0 == HealthStatus::Degraded)
}

/// The status of the plane given the outcomes of its checks.
pub open spec fn overall_status(s: Seq<(HealthStatus, bool)>) -> HealthStatus {
    if critical_failure(s) {
        HealthStatus::Unhealthy
    } else if any_problem(s) {
        HealthStatus::Degraded
    } else {
        HealthStatus::Healthy
    }
}

/// The status after one more check outcome: a critical failure makes it
/// unhealthy; a non-critical failure or a degraded check makes a healthy
/// status degraded; anything else leaves it.
pub open spec fn combined_status(overall: HealthStatus, status: HealthStatus, critical: bool) -> HealthStatus {
    if status == HealthStatus::Unhealthy && critical {
        HealthStatus::Unhealthy
    } else if (status == HealthStatus::Unhealthy || status == HealthStatus::Degraded) && overall
        == HealthStatus::Healthy {
        HealthStatus::Degraded
    } else {
        overall
    }
}

/// Folding outcomes one at a time from a healthy start.
pub open spec fn folded_status(s: Seq<(HealthStatus, bool)>) -> HealthStatus
    decreases s.len(),
{
    if s.len() == 0 {
        HealthStatus::Healthy
    } else {
        combined_status(folded_status(s.drop_last()), s.last().0, s.last().1)
    }
}

/// Combines one check outcome into the running status.
pub fn combine_status(overall: HealthStatus, status: HealthStatus, critical: bool) -> (r: HealthStatus)
    ensures
        r == combined_status(overall, status, critical),
{
    match (status, critical) {
        (HealthStatus::Unhealthy, true) => HealthStatus::Unhealthy,
        (HealthStatus::Unhealthy, false) if overall == HealthStatus::Healthy => HealthStatus::Degraded,
        (HealthStatus::Degraded, _) if overall == HealthStatus::Healthy => HealthStatus::Degraded,
        _ => overall,
    }
}

/// Checks may be combined one at a time in any grouping: folding the
/// outcomes in order gives the status that depends only on whether some
/// critical check failed and whether some check had a problem.  In
/// particular the order of the checks does not matter.
pub proof fn lemma_fold_is_overall(s: Seq<(HealthStatus, bool)>)
    ensures
        folded_status(s) == overall_status(s),
    decreases s.len(),
{
    if s.len() > 0 {
        let p = s.drop_last();
        lemma_fold_is_overall(p);
        assert forall|i: int| 0 <= i < p.len() implies p[i] == s[i] by {}
        if critical_failure(p) {
            let i = choose|i: int| 0 <= i < p.len() && p[i].0 == HealthStatus::Unhealthy && p[i].1;
            assert(s[i] == p[i]);
        }
        if any_problem(p) {
            let i = choose|i: int| 0 <= i < p.len() && (p[i].0 == HealthStatus::Unhealthy || p[i].0 == HealthStatus::Degraded);
            assert(s[i] == p[i]);
        }
        if critical_failure(s) && !critical_failure(p) {
            let i = choose|i: int| 0 <= i < s.len() && s[i].0 == HealthStatus::Unhealthy && s[i].1;
            assert(i == s.len() - 1);
        }
        if any_problem(s) && !any_problem(p) {
            let i = choose|i: int| 0 <= i < s.len() && (s[i].0 == HealthStatus::Unhealthy || s[i].0 == HealthStatus::Degraded);
            assert(i == s.len() - 1);
        }
        let l = s.len() - 1;
        assert(s.last() == s[l]);
    }
}

/// The overall status of a list of check results, each with whether its
/// check is critical.
pub fn overall_health(checks: &Vec<(HealthCheckResult, bool)>) -> (r: HealthStatus)
    ensures
        r == overall_status(outcomes(checks@)),
{
    let mut overall = HealthStatus::Healthy;
    let mut i: usize = 0;
    while i < checks.len()
        invariant
            i <= checks@.len(),
            overall == folded_status(outcomes(checks@).take(i as int)),
        decreases checks@.len() - i,
    {
        let ghost o = outcomes(checks@);
        proof {
            assert(o.take(i as int + 1).drop_last() =~= o.take(i as int));
            assert(o[i as int] == (checks@[i as int].0.status, checks@[i as int].1));
        }
        overall = combine_status(overall, checks[i].0.status, checks[i].1);
        i = i + 1;
    }
    proof {
        assert(outcomes(checks@).take(checks@.len() as int) =~= outcomes(checks@));
        lemma_fold_is_overall(outcomes(checks@));
    }
    overall
}

/// The result recorded for check `name` when it did not answer in time.
pub fn timed_out_result(name: String, duration_ms: u64, timestamp: u64) -> (r: HealthCheckResult)
    ensures
        r.name == name,
        r.status == HealthStatus::Unhealthy,
        r.message@ == "Health check timed out"@,
        r.duration_ms == duration_ms,
        r.timestamp == timestamp,
        r.details@.len() == 0,
{
    HealthCheckResult {
        name,
        status: HealthStatus::Unhealthy,
        message: String::from_str("Health check timed out"),
        duration_ms,
        timestamp,
        details: Vec::new(),
    }
}

/// Health reported by a node.
#[derive(Debug, Clone)]
pub struct NodeHealthStatus {
    pub node_id: String,
    pub status: HealthStatus,
    pub last_heartbeat: u64,
    pub uptime_seconds: u64,
    pub cpu_usage_percent: u64,
    pub memory_usage_percent: u64,
    pub disk_usage_percent: u64,
    pub active_jobs: usize,
    pub completed_jobs: u64,
    pub failed_jobs: u64,
    pub last_error: Option<String>,
}

impl NodeHealthStatus {
    /// An equal copy.
    pub fn duplicate(&self) -> (r: Self)
        ensures
            r == *self,
    {
        NodeHealthStatus {
            node_id: self.node_id.clone(),
            status: self.status,
            last_heartbeat: self.last_heartbeat,
            uptime_seconds: self.uptime_seconds,
            cpu_usage_percent: self.cpu_usage_percent,
            memory_usage_percent: self.memory_usage_percent,
            disk_usage_percent: self.disk_usage_percent,
            active_jobs: self.active_jobs,
            completed_jobs: self.completed_jobs,
            failed_jobs: self.failed_jobs,
            last_error: crate::idempotent_jobs::copy_opt_string(&self.last_error),
        }
    }
}

/// Health reported by a subsystem.
#[derive(Debug, Clone)]
pub struct SubsystemHealthStatus {
    pub name: String,
    pub status: HealthStatus,
    pub last_check: u64,
    pub uptime_seconds: u64,
    pub error_count: u64,
    pub last_error: Option<String>,
    pub metrics: Vec<(String, u64)>,
}

/// Summary of the nodes of the cluster.
#[derive(Debug, Clone)]
pub struct ClusterInfo {
    pub cluster_id: String,
    pub node_count: usize,
    pub healthy_nodes: usize,
    pub unhealthy_nodes: usize,
    pub leader_node: Option<String>,
    pub cluster_status: HealthStatus,
}

/// Number of nodes reported healthy.
pub open spec fn healthy_count(s: Seq<(String, NodeHealthStatus)>) -> nat
    decreases s.len(),
{
    if s.len() == 0 {
        0
    } else {
        healthy_count(s.drop_last()) + if s.last().1.status == HealthStatus::Healthy {
            1nat
        } else {
            0nat
        }
    }
}

/// The cluster status: healthy with no unhealthy node, degraded while the
/// healthy nodes outnumber the others, unhealthy otherwise.
pub open spec fn cluster_status_of(healthy: nat, unhealthy: nat) -> HealthStatus {
    if unhealthy == 0 {
        HealthStatus::Healthy
    } else if healthy > unhealthy {
        HealthStatus::Degraded
    } else {
        HealthStatus::Unhealthy
    }
}

proof fn lemma_healthy_count_bound(s: Seq<(String, NodeHealthStatus)>)
    ensures
        healthy_count(s) <= s.len(),
    decreases s.len(),
{
    if s.len() > 0 {
        lemma_healthy_count_bound(s.drop_last());
    }
}

/// The healthy count is the number of nodes whose report says healthy.
pub proof fn lemma_healthy_count_counts_healthy(s: Seq<(String, NodeHealthStatus)>)
    ensures
        healthy_count(s) == s.filter(|e: (String, NodeHealthStatus)| e.1.status == HealthStatus::Healthy).len(),
    decreases s.len(),
{
    if s.len() > 0 {
        let p = s.drop_last();
        lemma_healthy_count_counts_healthy(p);
        crate::concurrency::lemma_filter_snoc(p, s.last(), |e: (String, NodeHealthStatus)| e.1.status == HealthStatus::Healthy);
        assert(p.push(s.last()) =~= s);
    }
}

/// With some node not healthy, the cluster is degraded exactly when more
/// than half of its nodes are healthy, and unhealthy when at most half are.
pub proof fn lemma_status_follows_healthy_majority(s: Seq<(String, NodeHealthStatus)>)
    ensures
        ({
            let h = healthy_count(s);
            let st = cluster_status_of(h, (s.len() - h) as nat);
            &&& (h < s.len() && 2 * h > s.len()) <==> st == HealthStatus::Degraded
            &&& (h < s.len() && 2 * h <= s.len()) <==> st == HealthStatus::Unhealthy
            &&& h == s.len() <==> st == HealthStatus::Healthy
        }),
{
    lemma_healthy_count_bound(s);
}

/// Every node is counted healthy exactly when each reports itself healthy,
/// so the cluster is healthy exactly when all its nodes are.
pub proof fn lemma_all_healthy(s: Seq<(String, NodeHealthStatus)>)
    ensures
        healthy_count(s) == s.len() <==> forall|i: int| 0 <= i < s.len() ==> #[trigger] s[i].1.status
            == HealthStatus::Healthy,
        cluster_status_of(healthy_count(s), (s.len() - healthy_count(s)) as nat) == HealthStatus::Healthy
            <==> forall|i: int| 0 <= i < s.len() ==> #[trigger] s[i].1.status == HealthStatus::Healthy,
    decreases s.len(),
{
    lemma_healthy_count_bound(s);
    if s.len() > 0 {
        let p = s.drop_last();
        lemma_all_healthy(p);
        lemma_healthy_count_bound(p);
        assert forall|i: int| 0 <= i < p.len() implies p[i] == s[i] by {}
        if healthy_count(s) == s.len() {
            assert forall|i: int| 0 <= i < s.len() implies #[trigger] s[i].1.status == HealthStatus::Healthy by {
                if i < p.len() {
                    assert(p[i] == s[i]);
                } else {
                    assert(s[i] == s.last());
                }
            }
        }
        if forall|i: int| 0 <= i < s.len() ==> #[trigger] s[i].1.status == HealthStatus::Healthy {
            assert forall|i: int| 0 <= i < p.len() implies #[trigger] p[i].1.status == HealthStatus::Healthy by {
                assert(p[i] == s[i]);
            }
            assert(s[s.len() - 1].1.status == HealthStatus::Healthy);
        }
    }
}

/// Counts the nodes reported healthy.
fn count_healthy(nodes: &KeyedTable<NodeHealthStatus>) -> (n: usize)
    ensures
        n == healthy_count(nodes.entries()),
        n <= nodes.entries().len(),
{
    let mut n: usize = 0;
    let mut i: usize = 0;
    while i < nodes.len()
        invariant
            i <= nodes.entries().len(),
            n == healthy_count(nodes.entries().take(i as int)),
            n <= i,
        decreases nodes.entries().len() - i,
    {
        proof {
            assert(nodes.entries().take(i as int + 1).drop_last() =~= nodes.entries().take(i as int));
        }
        let e = nodes.entry_at(i);
        if e.1.status == HealthStatus::Healthy {
            n = n + 1;
        }
        i = i + 1;
    }
    proof {
        assert(nodes.entries().take(nodes.entries().len() as int) =~= nodes.entries());
    }
    n
}

/// Copies the node reports.
fn copy_nodes(nodes: &KeyedTable<NodeHealthStatus>) -> (r: Vec<(String, NodeHealthStatus)>)
    ensures
        r@ == nodes.entries(),
{
    let mut out: Vec<(String, NodeHealthStatus)> = Vec::new();
    let mut i: usize = 0;
    while i < nodes.len()
        invariant
            i <= nodes.entries().len(),
            out@ == nodes.entries().take(i as int),
        decreases nodes.entries().len() - i,
    {
        let e = nodes.entry_at(i);
        out.push((e.0.clone(), e.1.duplicate()));
        proof {
            assert(out@ =~= nodes.entries().take(i as int + 1));
        }
        i = i + 1;
    }
    proof {
        assert(nodes.entries().take(nodes.entries().len() as int) =~= nodes.entries());
    }
    out
}

/// Copies a list of named numbers.
fn copy_metrics(v: &Vec<(String, u64)>) -> (r: Vec<(String, u64)>)
    ensures
        r@ == v@,
{
    let mut out: Vec<(String, u64)> = Vec::new();
    let mut i: usize = 0;
    while i < v.len()
        invariant
            i <= v@.len(),
            out@ == v@.take(i as int),
        decreases v@.len() - i,
    {
        out.push((v[i].0.clone(), v[i].1));
        proof {
            assert(out@ =~= v@.take(i as int + 1));
        }
        i = i + 1;
    }
    proof {
        assert(v@.take(v@.len() as int) =~= v@);
    }
    out
}

/// The value of a subsystem report.
pub struct SubsystemView {
    pub name: String,
    pub status: HealthStatus,
    pub last_check: u64,
    pub uptime_seconds: u64,
    pub error_count: u64,
    pub last_error: Option<String>,
    pub metrics: Seq<(String, u64)>,
}

impl View for SubsystemHealthStatus {
    type V = SubsystemView;

    open spec fn view(&self) -> SubsystemView {
        SubsystemView {
            name: self.name,
            status: self.status,
            last_check: self.last_check,
            uptime_seconds: self.uptime_seconds,
            error_count: self.error_count,
            last_error: self.last_error,
            metrics: self.metrics@,
        }
    }
}

impl SubsystemHealthStatus {
    /// An equal copy.
    pub fn duplicate(&self) -> (r: Self)
        ensures
            r@ == self@,
    {
        SubsystemHealthStatus {
            name: self.name.clone(),
            status: self.status,
            last_check: self.last_check,
            uptime_seconds: self.uptime_seconds,
            error_count: self.error_count,
            last_error: crate::idempotent_jobs::copy_opt_string(&self.last_error),
            metrics: copy_metrics(&self.metrics),
        }
    }
}

/// Views of named subsystem reports.
pub open spec fn subsystem_views(s: Seq<(String, SubsystemHealthStatus)>) -> Seq<(String, SubsystemView)> {
    s.map_values(|e: (String, SubsystemHealthStatus)| (e.0, e.1@))
}

/// Copies the subsystem reports.
fn copy_subsystems(t: &KeyedTable<SubsystemHealthStatus>) -> (r: Vec<(String, SubsystemHealthStatus)>)
    ensures
        subsystem_views(r@) == subsystem_views(t.entries()),
{
    let mut out: Vec<(String, SubsystemHealthStatus)> = Vec::new();
    let mut i: usize = 0;
    while i < t.len()
        invariant
            i <= t.entries().len(),
            subsystem_views(out@) == subsystem_views(t.entries().take(i as int)),
        decreases t.entries().len() - i,
    {
        let e = t.entry_at(i);
        let ghost ob = out@;
        out.push((e.0.clone(), e.1.duplicate()));
        proof {
            assert(subsystem_views(out@) =~= subsystem_views(ob).push((e.0, e.1@)));
            assert(subsystem_views(t.entries().take(i as int + 1)) =~= subsystem_views(t.entries().take(i as int)).push(
                (e.0, e.1@),
            ));
        }
        i = i + 1;
    }
    proof {
        assert(t.entries().take(t.entries().len() as int) =~= t.entries());
    }
    out
}

/// Figures of the machine the plane runs on.
#[derive(Debug, Clone)]
pub struct SystemInfo {
    pub hostname: String,
    pub platform: String,
    pub architecture: String,
    pub cpu_count: usize,
    pub cpu_usage_percent: u64,
    pub memory_total_bytes: u64,
    pub memory_used_bytes: u64,
    pub memory_available_bytes: u64,
    pub memory_usage_percent: u64,
    pub disk_total_bytes: u64,
    pub disk_used_bytes: u64,
    pub disk_available_bytes: u64,
    pub disk_usage_percent: u64,
    pub network_rx_bytes: u64,
    pub network_tx_bytes: u64,
    /// Load averages over one, five and fifteen minutes, in hundredths.
    pub load_average: Vec<u64>,
}

/// Share of `used` in `total` in whole percent, rounded down; 0 of nothing.
pub open spec fn percent_of(used: nat, total: nat) -> nat {
    if total > 0 {
        used * 100 / total
    } else {
        0
    }
}

/// Usage in whole percent, held at `u64::MAX` where it would not fit.
pub fn usage_percent(used: u64, total: u64) -> (p: u64)
    ensures
        percent_of(used as nat, total as nat) <= u64::MAX ==> p == percent_of(used as nat, total as nat),
        percent_of(used as nat, total as nat) > u64::MAX ==> p == u64::MAX,
        used <= total ==> p <= 100,
{
    if total > 0 {
        let x: u128 = used as u128 * 100;
        let q: u128 = x / total as u128;
        proof {
            if used <= total {
                assert(used as nat * 100 / (total as nat) <= 100) by (nonlinear_arith)
                    requires
                        total > 0,
                        used <= total,
                ;
            }
        }
        if q > u64::MAX as u128 {
            u64::MAX
        } else {
            q as u64
        }
    } else {
        0
    }
}

/// Sum of disk sizes.
pub open spec fn total_space(d: Seq<(u64, u64)>) -> nat
    decreases d.len(),
{
    if d.len() == 0 {
        0
    } else {
        total_space(d.drop_last()) + d.last().0 as nat
    }
}

/// Sum of disk space in use: size less what is available.
pub open spec fn used_space(d: Seq<(u64, u64)>) -> nat
    decreases d.len(),
{
    if d.len() == 0 {
        0
    } else {
        used_space(d.drop_last()) + (d.last().0 - d.last().1) as nat
    }
}

proof fn lemma_used_le_total(d: Seq<(u64, u64)>)
    requires
        forall|i: int| 0 <= i < d.len() ==> #[trigger] d[i].1 <= d[i].0,
    ensures
        used_space(d) <= total_space(d),
    decreases d.len(),
{
    if d.len() > 0 {
        let p = d.drop_last();
        assert forall|i: int| 0 <= i < p.len() implies #[trigger] p[i].1 <= p[i].0 by {
            assert(p[i] == d[i]);
        }
        lemma_used_le_total(p);
        assert(d.last() == d[d.len() - 1]);
    }
}

proof fn lemma_total_prefix(d: Seq<(u64, u64)>, i: int)
    requires
        0 <= i <= d.len(),
    ensures
        total_space(d.take(i)) <= total_space(d),
    decreases d.len() - i,
{
    if i < d.len() {
        lemma_total_prefix(d, i + 1);
        assert(d.take(i + 1).drop_last() =~= d.take(i));
    } else {
        assert(d.take(i) =~= d);
    }
}

/// Total and used space of disks given as (size, available) pairs.
pub fn disk_totals(disks: &Vec<(u64, u64)>) -> (r: (u64, u64))
    requires
        forall|i: int| 0 <= i < disks@.len() ==> #[trigger] disks@[i].1 <= disks@[i].0,
        total_space(disks@) <= u64::MAX,
    ensures
        r.0 == total_space(disks@),
        r.1 == used_space(disks@),
        r.1 <= r.0,
{
    let mut total: u64 = 0;
    let mut used: u64 = 0;
    let mut i: usize = 0;
    while i < disks.len()
        invariant
            i <= disks@.len(),
            forall|j: int| 0 <= j < disks@.len() ==> #[trigger] disks@[j].1 <= disks@[j].0,
            total_space(disks@) <= u64::MAX,
            total == total_space(disks@.take(i as int)),
            used == used_space(disks@.take(i as int)),
        decreases disks@.len() - i,
    {
        let ghost t = disks@.take(i as int + 1);
        proof {
            assert(t.drop_last() =~= disks@.take(i as int));
            assert(t.last() == disks@[i as int]);
            lemma_total_prefix(disks@, i as int + 1);
            assert forall|j: int| 0 <= j < t.len() implies #[trigger] t[j].1 <= t[j].0 by {
                assert(t[j] == disks@[j]);
            }
            lemma_used_le_total(t);
        }
        total = total + disks[i].0;
        used = used + (disks[i].0 - disks[i].1);
        i = i + 1;
    }
    proof {
        assert(disks@.take(disks@.len() as int) =~= disks@);
        lemma_used_le_total(disks@);
    }
    (total, used)
}

/// How close a resource is to its limits.
#[derive(Debug, Clone, Copy, PartialEq, Eq, Structural)]
pub enum ResourceLevel {
    Normal,
    Warning,
    Critical,
}

/// The level of a usage against its warning and critical thresholds: above
/// the critical one is critical, otherwise above the warning one is a
/// warning.
pub fn resource_level(usage: u64, warning: u64, critical: u64) -> (l: ResourceLevel)
    ensures
        usage > critical ==> l == ResourceLevel::Critical,
        usage <= critical && usage > warning ==> l == ResourceLevel::Warning,
        usage <= critical && usage <= warning ==> l == ResourceLevel::Normal,
{
    if usage > critical {
        ResourceLevel::Critical
    } else if usage > warning {
        ResourceLevel::Warning
    } else {
        ResourceLevel::Normal
    }
}

/// The HTTP status answered for a health status: 200 while the plane can
/// serve (healthy or degraded), 503 otherwise.
pub fn http_status_code(status: HealthStatus) -> (code: u16)
    ensures
        (status == HealthStatus::Healthy || status == HealthStatus::Degraded) ==> code == 200,
        (status == HealthStatus::Unhealthy || status == HealthStatus::Unknown) ==> code == 503,
{
    match status {
        HealthStatus::Healthy | HealthStatus::Degraded => 200,
        HealthStatus::Unhealthy | HealthStatus::Unknown => 503,
    }
}

/// The full answer of a health check of the plane.
#[derive(Debug, Clone)]
pub struct ControlPlaneHealthResponse {
    pub status: HealthStatus,
    pub timestamp: u64,
    pub uptime_seconds: u64,
    pub version: String,
    pub node_id: String,
    pub checks: Vec<HealthCheckResult>,
    pub system_info: SystemInfo,
    pub cluster_info: ClusterInfo,
    pub subsystems: Vec<(String, SubsystemHealthStatus)>,
    pub nodes: Vec<(String, NodeHealthStatus)>,
}

/// Identifier of the node on host `hostname`.
pub fn node_id_for(hostname: &str) -> (id: String)
    ensures
        id@ == "node-"@ + hostname@,
{
    let mut s = String::from_str("node-");
    s.append(hostname);
    s
}

/// The health monitor of the control plane.
pub struct ControlPlaneHealth {
    start_time: u64,
    node_health: KeyedTable<NodeHealthStatus>,
    subsystem_health: KeyedTable<SubsystemHealthStatus>,
    config: HealthConfig,
}

impl ControlPlaneHealth {
    /// Node reports by node identifier.
    pub closed spec fn nodes(&self) -> Seq<(String, NodeHealthStatus)> {
        self.node_health.entries()
    }

    /// Subsystem reports by name.
    pub closed spec fn subsystems(&self) -> Seq<(String, SubsystemHealthStatus)> {
        self.subsystem_health.entries()
    }

    /// When the monitor started, in seconds since the epoch.
    pub closed spec fn started_at(&self) -> u64 {
        self.start_time
    }

    /// The settings.
    pub closed spec fn settings(&self) -> HealthConfig {
        self.config
    }

    /// One report per node and per subsystem.
    pub closed spec fn well_formed(&self) -> bool {
        self.node_health.well_formed() && self.subsystem_health.well_formed()
    }

    /// A monitor started at `now` (seconds) with no reports.
    pub fn new_at(config: HealthConfig, now: u64) -> (h: Self)
        ensures
            h.well_formed(),
            h.settings() == config,
            h.started_at() == now,
            h.nodes().len() == 0,
            h.subsystems().len() == 0,
    {
        ControlPlaneHealth {
            start_time: now,
            node_health: KeyedTable::new(),
            subsystem_health: KeyedTable::new(),
            config,
        }
    }

    /// A monitor started now.
    pub fn new(config: HealthConfig) -> (h: Self)
        ensures
            h.well_formed(),
            h.settings() == config,
            h.nodes().len() == 0,
            h.subsystems().len() == 0,
    {
        Self::new_at(config, crate::platform::now_secs())
    }

    /// The settings.
    pub fn config(&self) -> (c: HealthConfig)
        ensures
            c == self.settings(),
    {
        self.config
    }

    /// Records the report of node `node_id`, replacing an earlier one.
    pub fn update_node_health(&mut self, node_id: String, status: NodeHealthStatus)
        requires
            old(self).well_formed(),
        ensures
            final(self).well_formed(),
            final(self).nodes() == upserted(old(self).nodes(), node_id, status),
            final(self).subsystems() == old(self).subsystems(),
            final(self).settings() == old(self).settings(),
            final(self).started_at() == old(self).started_at(),
    {
        self.node_health.insert(node_id, status);
    }

    /// Records the report of subsystem `name`, replacing an earlier one.
    pub fn update_subsystem_health(&mut self, name: String, status: SubsystemHealthStatus)
        requires
            old(self).well_formed(),
        ensures
            final(self).well_formed(),
            final(self).subsystems() == upserted(old(self).subsystems(), name, status),
            final(self).nodes() == old(self).nodes(),
            final(self).settings() == old(self).settings(),
            final(self).started_at() == old(self).started_at(),
    {
        self.subsystem_health.insert(name, status);
    }

    /// The report of node `node_id`.
    pub fn node_health(&self, node_id: &String) -> (r: Option<NodeHealthStatus>)
        requires
            self.well_formed(),
        ensures
            has_key(self.nodes(), node_id@) ==> r == Some(value_of(self.nodes(), node_id@)),
            !has_key(self.nodes(), node_id@) ==> r is None,
    {
        match self.node_health.get(node_id) {
            Some(n) => Some(n.duplicate()),
            None => None,
        }
    }

    /// Summary of the node reports.
    pub fn get_cluster_info(&self) -> (c: ClusterInfo)
        ensures
            c.cluster_id@ == "rustci-cluster"@,
            c.node_count == self.nodes().len(),
            c.healthy_nodes == healthy_count(self.nodes()),
            c.unhealthy_nodes == self.nodes().len() - healthy_count(self.nodes()),
            c.leader_node is None,
            c.cluster_status == cluster_status_of(
                healthy_count(self.nodes()),
                (self.nodes().len() - healthy_count(self.nodes())) as nat,
            ),
    {
        let healthy = count_healthy(&self.node_health);
        let total = self.node_health.len();
        let unhealthy = total - healthy;
        let cluster_status = if unhealthy == 0 {
            HealthStatus::Healthy
        } else if healthy > unhealthy {
            HealthStatus::Degraded
        } else {
            HealthStatus::Unhealthy
        };
        ClusterInfo {
            cluster_id: String::from_str("rustci-cluster"),
            node_count: total,
            healthy_nodes: healthy,
            unhealthy_nodes: unhealthy,
            leader_node: None,
            cluster_status,
        }
    }

    /// Puts together the answer of a health check at `now` (seconds) from
    /// the results of the registered checks, each with whether it is
    /// critical, and the figures of the machine.
    pub fn check_health(
        &self,
        checks: Vec<(HealthCheckResult, bool)>,
        system_info: SystemInfo,
        now: u64,
        version: String,
        node_id: String,
    ) -> (r: ControlPlaneHealthResponse)
        requires
            self.well_formed(),
        ensures
            r.status == overall_status(outcomes(checks@)),
            r.checks@ == checks@.map_values(|c: (HealthCheckResult, bool)| c.0),
            r.timestamp == now,
            r.uptime_seconds == if now >= self.started_at() {
                (now - self.started_at()) as nat
            } else {
                0nat
            },
            r.version == version,
            r.node_id == node_id,
            r.system_info == system_info,
            r.cluster_info.node_count == self.nodes().len(),
            r.cluster_info.healthy_nodes == healthy_count(self.nodes()),
            r.cluster_info.cluster_status == cluster_status_of(
                healthy_count(self.nodes()),
                (self.nodes().len() - healthy_count(self.nodes())) as nat,
            ),
            r.nodes@ == self.nodes(),
            subsystem_views(r.subsystems@) == subsystem_views(self.subsystems()),
    {
        let status = overall_health(&checks);
        let mut results: Vec<HealthCheckResult> = Vec::new();
        let mut rest = checks;
        let ghost all = rest@;
        let mut i: usize = 0;
        let n = rest.len();
        proof {
            assert(all.map_values(|c: (HealthCheckResult, bool)| c.0).take(0) =~= results@);
        }
        while rest.len() > 0
            invariant
                i + rest@.len() == all.len(),
                n == all.len(),
                rest@ == all.skip(i as int),
                results@ == all.map_values(|c: (HealthCheckResult, bool)| c.0).take(i as int),
            decreases rest@.len(),
        {
            let ghost before = rest@;
            let (res, _) = rest.remove(0);
            results.push(res);
            proof {
                assert(rest@ =~= all.skip(i as int + 1));
                assert(before[0] == all[i as int]);
                assert(results@ =~= all.map_values(|c: (HealthCheckResult, bool)| c.0).take(i as int + 1));
            }
            i = i + 1;
        }
        proof {
            assert(all.map_values(|c: (HealthCheckResult, bool)| c.0).take(n as int) =~= all.map_values(
                |c: (HealthCheckResult, bool)| c.0,
            ));
        }
        let uptime = if now >= self.start_time {
            now - self.start_time
        } else {
            0
        };
        ControlPlaneHealthResponse {
            status,
            timestamp: now,
            uptime_seconds: uptime,
            version,
            node_id,
            checks: results,
            system_info,
            cluster_info: self.get_cluster_info(),
            subsystems: copy_subsystems(&self.subsystem_health),
            nodes: copy_nodes(&self.node_health),
        }
    }
}

/// Result of the scheduler check: degraded above 1000 queued jobs, or else
/// above 100 running jobs; healthy otherwise.
pub fn job_scheduler_check_result(active_jobs: u64, queue_length: u64, duration_ms: u64, timestamp: u64) -> (r:
    HealthCheckResult)
    ensures
        r.name@ == "job_scheduler"@,
        queue_length > 1000 ==> r.status == HealthStatus::Degraded && r.message@ == "High queue length: "@ + decimal(
            queue_length as nat,
        ),
        queue_length <= 1000 && active_jobs > 100 ==> r.status == HealthStatus::Degraded && r.message@
            == "High number of active jobs: "@ + decimal(active_jobs as nat),
        queue_length <= 1000 && active_jobs <= 100 ==> r.status == HealthStatus::Healthy && r.message@
            == "Job scheduler is healthy"@,
        r.details@.len() == 2,
        r.details@[0].0@ == "active_jobs"@ && r.details@[0].1 == DetailValue::Number(active_jobs),
        r.details@[1].0@ == "queue_length"@ && r.details@[1].1 == DetailValue::Number(queue_length),
        r.duration_ms == duration_ms,
        r.timestamp == timestamp,
{
    let mut details: Vec<(String, DetailValue)> = Vec::new();
    details.push((String::from_str("active_jobs"), DetailValue::Number(active_jobs)));
    details.push((String::from_str("queue_length"), DetailValue::Number(queue_length)));
    let (status, message) = if queue_length > 1000 {
        (HealthStatus::Degraded, text_with_number("High queue length: ", queue_length))
    } else if active_jobs > 100 {
        (HealthStatus::Degraded, text_with_number("High number of active jobs: ", active_jobs))
    } else {
        (HealthStatus::Healthy, String::from_str("Job scheduler is healthy"))
    };
    HealthCheckResult {
        name: String::from_str("job_scheduler"),
        status,
        message,
        duration_ms,
        timestamp,
        details,
    }
}

/// "(healthy/total" style count text: `prefix`, the two numbers with a
/// slash between them, then `suffix`.
fn ratio_text(prefix: &str, healthy: u64, total: u64, suffix: &str) -> (s: String)
    ensures
        s@ == prefix@ + decimal(healthy as nat) + "/"@ + decimal(total as nat) + suffix@,
{
    let mut s = text_with_number(prefix, healthy);
    s.append("/");
    let t = crate::text::decimal_string(total);
    s.append(t.as_str());
    s.append(suffix);
    s
}

/// Result of the node registry check: degraded with no node; unhealthy
/// when fewer than half the nodes are healthy; degraded when fewer than
/// four in five are; healthy otherwise.
pub fn node_registry_check_result(healthy_nodes: u64, total_nodes: u64, duration_ms: u64, timestamp: u64) -> (r:
    HealthCheckResult)
    ensures
        r.name@ == "node_registry"@,
        total_nodes == 0 ==> r.status == HealthStatus::Degraded && r.message@ == "No nodes registered"@,
        total_nodes > 0 && 2 * healthy_nodes < total_nodes ==> r.status == HealthStatus::Unhealthy && r.message@
            == "Less than 50% of nodes are healthy ("@ + decimal(healthy_nodes as nat) + "/"@ + decimal(
            total_nodes as nat,
        ) + ")"@,
        total_nodes > 0 && 2 * healthy_nodes >= total_nodes && 5 * healthy_nodes < 4 * total_nodes ==> r.status
            == HealthStatus::Degraded && r.message@ == "Less than 80% of nodes are healthy ("@ + decimal(
            healthy_nodes as nat,
        ) + "/"@ + decimal(total_nodes as nat) + ")"@,
        total_nodes > 0 && 5 * healthy_nodes >= 4 * total_nodes ==> r.status == HealthStatus::Healthy && r.message@
            == "Node registry is healthy ("@ + decimal(healthy_nodes as nat) + "/"@ + decimal(total_nodes as nat)
            + " nodes)"@,
        r.details@.len() == 2,
        r.details@[0].0@ == "healthy_nodes"@ && r.details@[0].1 == DetailValue::Number(healthy_nodes),
        r.details@[1].0@ == "total_nodes"@ && r.details@[1].1 == DetailValue::Number(total_nodes),
        r.duration_ms == duration_ms,
        r.timestamp == timestamp,
{
    let mut details: Vec<(String, DetailValue)> = Vec::new();
    details.push((String::from_str("healthy_nodes"), DetailValue::Number(healthy_nodes)));
    details.push((String::from_str("total_nodes"), DetailValue::Number(total_nodes)));
    let h = healthy_nodes as u128;
    let t = total_nodes as u128;
    let (status, message) = if total_nodes == 0 {
        (HealthStatus::Degraded, String::from_str("No nodes registered"))
    } else if 2 * h < t {
        (HealthStatus::Unhealthy, ratio_text("Less than 50% of nodes are healthy (", healthy_nodes, total_nodes, ")"))
    } else if 5 * h < 4 * t {
        (HealthStatus::Degraded, ratio_text("Less than 80% of nodes are healthy (", healthy_nodes, total_nodes, ")"))
    } else {
        (HealthStatus::Healthy, ratio_text("Node registry is healthy (", healthy_nodes, total_nodes, " nodes)"))
    };
    HealthCheckResult {
        name: String::from_str("node_registry"),
        status,
        message,
        duration_ms,
        timestamp,
        details,
    }
}

/// Result of the database check from the outcome of a ping: healthy when
/// the ping answered, unhealthy with the error text otherwise.
pub fn database_check_result(ping_error: Option<String>, duration_ms: u64, timestamp: u64) -> (r: HealthCheckResult)
    ensures
        r.name@ == "database"@,
        r.duration_ms == duration_ms,
        r.timestamp == timestamp,
        ping_error is None ==> r.status == HealthStatus::Healthy && r.message@ == "Database connection is healthy"@
            && r.details@.len() == 0,
        ping_error matches Some(e) ==> r.status == HealthStatus::Unhealthy && r.message@
            == "Database connection failed: "@ + e@ && r.details@.len() == 1 && r.details@[0].0@ == "error"@
            && r.details@[0].1 == DetailValue::Text(e),
{
    match ping_error {
        None => HealthCheckResult {
            name: String::from_str("database"),
            status: HealthStatus::Healthy,
            message: String::from_str("Database connection is healthy"),
            duration_ms,
            timestamp,
            details: Vec::new(),
        },
        Some(e) => {
            let mut message = String::from_str("Database connection failed: ");
            message.append(e.as_str());
            let mut details: Vec<(String, DetailValue)> = Vec::new();
            details.push((String::from_str("error"), DetailValue::Text(e)));
            HealthCheckResult {
                name: String::from_str("database"),
                status: HealthStatus::Unhealthy,
                message,
                duration_ms,
                timestamp,
                details,
            }
        },
    }
}

} // verus!
