//! Timing of operations in flight and the book of alert rules and raised
//! alerts.  Metric values are floating-point numbers; the library holds them
//! by their IEEE-754 bit patterns and leaves comparing them to the caller.

use vstd::prelude::*;
use crate::keyed::{has_key, value_of, KeyedTable};
use dashmap::DashMap;

verus! {

/// An operation being timed.
#[derive(Debug)]
pub struct OperationMetrics {
    pub operation_name: String,
    /// Milliseconds since the Unix epoch.
    pub start_time: u64,
    pub labels: KeyedTable<String>,
}

/// Whether `a` and `b` hold the same values.
pub open spec fn same_operation(a: OperationMetrics, b: OperationMetrics) -> bool {
    &&& a.operation_name == b.operation_name
    &&& a.start_time == b.start_time
    &&& a.labels.entries() == b.labels.entries()
}

impl OperationMetrics {
    /// An equal copy.
    pub fn duplicate(&self) -> (r: Self)
        ensures
            same_operation(r, *self),
    {
        OperationMetrics {
            operation_name: self.operation_name.clone(),
            start_time: self.start_time,
            labels: self.labels.duplicate(),
        }
    }
}

/// What finishing an operation records: its duration under
/// "<name>_duration_seconds" and one more count under "<name>_total", both
/// with the operation's labels.
#[derive(Debug)]
pub struct FinishedOperation {
    pub duration_metric: String,
    pub counter_metric: String,
    /// Milliseconds the operation took.
    pub duration_ms: u64,
    pub labels: KeyedTable<String>,
}

/// `name` with `suffix` after it.
pub fn suffixed(name: &str, suffix: &str) -> (s: String)
    ensures
        s@ == name@ + suffix@,
{
    let mut s = String::from_str(name);
    s.append(suffix);
    s
}

/// Operations being timed, by identifier, in a concurrent map.
pub type OperationMap = DashMap<u128, OperationMetrics>;

/// What a map of timed operations holds, by identifier.
pub uninterp spec fn operation_entries(m: OperationMap) -> Map<u128, OperationMetrics>;

/// No operations.
pub open spec fn no_operations() -> Map<u128, OperationMetrics> {
    Map::empty()
}

/// Whether `v` lists each entry of `m` once, with a copy of its value.
pub open spec fn lists_operations(v: Seq<(u128, OperationMetrics)>, m: Map<u128, OperationMetrics>) -> bool {
    &&& v.len() == m.len()
    &&& forall|i: int, j: int| 0 <= i < j < v.len() ==> v[i].0 != v[j].0
    &&& forall|i: int| 0 <= i < v.len() ==> m.contains_key(#[trigger] v[i].0) && same_operation(v[i].1, m[v[i].0])
    &&& forall|k: u128| #[trigger] m.contains_key(k) ==> exists|i: int| 0 <= i < v.len() && v[i].0 == k
}

/// An empty map, from `DashMap::new`.
#[verifier::external_body]
fn operations_new() -> (m: OperationMap)
    ensures
        operation_entries(m) == no_operations(),
{
    DashMap::new()
}

/// `DashMap::insert`: stores `op` under `id`, in place of one already
/// there.
#[verifier::external_body]
fn operations_insert(m: &mut OperationMap, id: u128, op: OperationMetrics)
    ensures
        operation_entries(*final(m)) == operation_entries(*old(m)).insert(id, op),
{
    m.insert(id, op);
}

/// `DashMap::remove`: takes out the operation under `id`, if any.
#[verifier::external_body]
fn operations_remove(m: &mut OperationMap, id: u128) -> (r: Option<OperationMetrics>)
    ensures
        operation_entries(*final(m)) == operation_entries(*old(m)).remove(id),
        r is Some == operation_entries(*old(m)).contains_key(id),
        r matches Some(op) ==> op == operation_entries(*old(m))[id],
{
    match m.remove(&id) {
        Some((_, op)) => Some(op),
        None => None,
    }
}

/// `DashMap::len`: the number of operations.
#[verifier::external_body]
fn operations_len(m: &OperationMap) -> (n: usize)
    ensures
        n == operation_entries(*m).len(),
{
    m.len()
}

/// `DashMap::iter`: each operation once, with its identifier, copied.
#[verifier::external_body]
fn operations_listed(m: &OperationMap) -> (v: Vec<(u128, OperationMetrics)>)
    ensures
        lists_operations(v@, operation_entries(*m)),
{
    m.iter().map(|e| (*e.key(), e.value().duplicate())).collect()
}

/// Operations being timed, by identifier.
pub struct PerformanceMonitor {
    active_operations: OperationMap,
}

impl PerformanceMonitor {
    /// The operations being timed.
    pub closed spec fn active(&self) -> Map<u128, OperationMetrics> {
        operation_entries(self.active_operations)
    }

    /// Finitely many operations.
    pub closed spec fn well_formed(&self) -> bool {
        self.active().dom().finite()
    }

    /// No operation timed yet.
    pub fn new() -> (m: Self)
        ensures
            m.well_formed(),
            m.active() == no_operations(),
    {
        PerformanceMonitor { active_operations: operations_new() }
    }

    /// Starts timing operation `operation_id` named `operation_name` at
    /// `now`.
    pub fn start_operation_at(
        &mut self,
        operation_id: u128,
        operation_name: &str,
        labels: KeyedTable<String>,
        now: u64,
    )
        requires
            old(self).well_formed(),
        ensures
            final(self).well_formed(),
            final(self).active().contains_key(operation_id),
            final(self).active() == old(self).active().insert(operation_id, final(self).active()[operation_id]),
            final(self).active()[operation_id].operation_name@ == operation_name@,
            final(self).active()[operation_id].start_time == now,
            final(self).active()[operation_id].labels == labels,
    {
        let metrics = OperationMetrics { operation_name: String::from_str(operation_name), start_time: now, labels };
        operations_insert(&mut self.active_operations, operation_id, metrics);
    }

    /// Starts timing an operation now, under a fresh identifier, which it
    /// returns.
    pub fn start_operation(&mut self, operation_name: &str, labels: KeyedTable<String>) -> (id: u128)
        requires
            old(self).well_formed(),
        ensures
            final(self).well_formed(),
            final(self).active().contains_key(id),
            final(self).active() == old(self).active().insert(id, final(self).active()[id]),
            final(self).active()[id].operation_name@ == operation_name@,
            final(self).active()[id].labels == labels,
    {
        let id = crate::platform::new_identifier();
        let now = crate::platform::now_millis();
        self.start_operation_at(id, operation_name, labels, now);
        id
    }

    /// Stops timing operation `operation_id` at `now` and hands back what to
    /// record of it, or `None` where no such operation is timed.
    pub fn finish_operation_at(&mut self, operation_id: u128, now: u64) -> (r: Option<FinishedOperation>)
        requires
            old(self).well_formed(),
        ensures
            final(self).well_formed(),
            final(self).active() == old(self).active().remove(operation_id),
            r is Some == old(self).active().contains_key(operation_id),
            r matches Some(f) ==> {
                let m = old(self).active()[operation_id];
                &&& f.duration_metric@ == m.operation_name@ + "_duration_seconds"@
                &&& f.counter_metric@ == m.operation_name@ + "_total"@
                &&& f.duration_ms == (if now >= m.start_time { now - m.start_time } else { 0 })
                &&& f.labels == m.labels
            },
    {
        match operations_remove(&mut self.active_operations, operation_id) {
            Some(m) => {
                let duration_ms = if now >= m.start_time {
                    now - m.start_time
                } else {
                    0
                };
                let duration_metric = suffixed(m.operation_name.as_str(), "_duration_seconds");
                let counter_metric = suffixed(m.operation_name.as_str(), "_total");
                Some(FinishedOperation { duration_metric, counter_metric, duration_ms, labels: m.labels })
            },
            None => None,
        }
    }

    /// Stops timing operation `operation_id` now.
    pub fn finish_operation(&mut self, operation_id: u128) -> (r: Option<FinishedOperation>)
        requires
            old(self).well_formed(),
        ensures
            final(self).well_formed(),
            final(self).active() == old(self).active().remove(operation_id),
            r is Some == old(self).active().contains_key(operation_id),
            r matches Some(f) ==> {
                let m = old(self).active()[operation_id];
                &&& f.duration_metric@ == m.operation_name@ + "_duration_seconds"@
                &&& f.counter_metric@ == m.operation_name@ + "_total"@
                &&& f.labels == m.labels
            },
    {
        let now = crate::platform::now_millis();
        self.finish_operation_at(operation_id, now)
    }

    /// The labels to count an error of `error_type` in `operation_name`
    /// under "errors_total": `labels` with the error type under
    /// "error_type" and the operation under "operation".
    pub fn record_error(&self, operation_name: &str, error_type: &str, labels: KeyedTable<String>) -> (r: KeyedTable<
        String,
    >)
        requires
            labels.well_formed(),
        ensures
            r.well_formed(),
            has_key(r.entries(), "error_type"@) && value_of(r.entries(), "error_type"@)@ == error_type@,
            has_key(r.entries(), "operation"@) && value_of(r.entries(), "operation"@)@ == operation_name@,
            forall|q: Seq<char>| q != "error_type"@ && q != "operation"@ ==> (#[trigger] has_key(r.entries(), q) == has_key(
                labels.entries(),
                q,
            ) && (has_key(labels.entries(), q) ==> value_of(r.entries(), q) == value_of(labels.entries(), q))),
    {
        let mut out = labels;
        let k1 = String::from_str("error_type");
        let v1 = String::from_str(error_type);
        proof {
            crate::keyed::lemma_upserted_unique(out.entries(), k1, v1);
        }
        out.insert(k1, v1);
        let k2 = String::from_str("operation");
        let v2 = String::from_str(operation_name);
        let ghost mid = out.entries();
        proof {
            reveal_strlit("error_type");
            reveal_strlit("operation");
            assert("error_type"@.len() != "operation"@.len());
            crate::keyed::lemma_upserted_unique(mid, k2, v2);
        }
        out.insert(k2, v2);
        out
    }

    /// How many operations are being timed.
    pub fn get_active_operations_count(&self) -> (n: usize)
        requires
            self.well_formed(),
        ensures
            n == self.active().len(),
    {
        operations_len(&self.active_operations)
    }

    /// Copies of the operations being timed, with their identifiers, each
    /// once, in no particular order.
    pub fn get_active_operations(&self) -> (v: Vec<(u128, OperationMetrics)>)
        requires
            self.well_formed(),
        ensures
            lists_operations(v@, self.active()),
    {
        operations_listed(&self.active_operations)
    }
}

/// How a metric is compared with an alert's threshold.
#[derive(Debug, Clone, Copy, PartialEq, Eq, Structural)]
pub enum AlertCondition {
    GreaterThan,
    LessThan,
    Equal,
    NotEqual,
}

/// A rule that raises an alert while its condition holds.
#[derive(Debug)]
pub struct AlertRule {
    pub name: String,
    pub metric_name: String,
    pub condition: AlertCondition,
    /// The threshold's IEEE-754 bit pattern.
    pub threshold_bits: u64,
    pub duration_seconds: u64,
    pub labels: KeyedTable<String>,
    pub annotations: KeyedTable<String>,
    pub enabled: bool,
}

/// Whether `a` and `b` hold the same values.
pub open spec fn same_rule(a: AlertRule, b: AlertRule) -> bool {
    &&& a.name == b.name
    &&& a.metric_name == b.metric_name
    &&& a.condition == b.condition
    &&& a.threshold_bits == b.threshold_bits
    &&& a.duration_seconds == b.duration_seconds
    &&& a.labels.entries() == b.labels.entries()
    &&& a.annotations.entries() == b.annotations.entries()
    &&& a.enabled == b.enabled
}

impl AlertRule {
    /// An equal copy.
    pub fn duplicate(&self) -> (r: Self)
        ensures
            same_rule(r, *self),
    {
        AlertRule {
            name: self.name.clone(),
            metric_name: self.metric_name.clone(),
            condition: self.condition,
            threshold_bits: self.threshold_bits,
            duration_seconds: self.duration_seconds,
            labels: self.labels.duplicate(),
            annotations: self.annotations.duplicate(),
            enabled: self.enabled,
        }
    }
}

/// An alert raised by a rule.
#[derive(Debug)]
pub struct ActiveAlert {
    pub rule_name: String,
    pub metric_name: String,
    /// The metric's IEEE-754 bit pattern when the alert was raised.
    pub current_value_bits: u64,
    pub threshold_bits: u64,
    /// Milliseconds since the Unix epoch.
    pub started_at: u64,
    pub labels: KeyedTable<String>,
    pub annotations: KeyedTable<String>,
}

/// Whether `a` and `b` hold the same values.
pub open spec fn same_alert(a: ActiveAlert, b: ActiveAlert) -> bool {
    &&& a.rule_name == b.rule_name
    &&& a.metric_name == b.metric_name
    &&& a.current_value_bits == b.current_value_bits
    &&& a.threshold_bits == b.threshold_bits
    &&& a.started_at == b.started_at
    &&& a.labels.entries() == b.labels.entries()
    &&& a.annotations.entries() == b.annotations.entries()
}

impl ActiveAlert {
    /// An equal copy.
    pub fn duplicate(&self) -> (r: Self)
        ensures
            same_alert(r, *self),
    {
        ActiveAlert {
            rule_name: self.rule_name.clone(),
            metric_name: self.metric_name.clone(),
            current_value_bits: self.current_value_bits,
            threshold_bits: self.threshold_bits,
            started_at: self.started_at,
            labels: self.labels.duplicate(),
            annotations: self.annotations.duplicate(),
        }
    }
}

/// The alert rule `r` raises at `now` with the metric at `current_value_bits`.
pub open spec fn raised_by(a: ActiveAlert, r: AlertRule, current_value_bits: u64, now: u64) -> bool {
    &&& a.rule_name == r.name
    &&& a.metric_name == r.metric_name
    &&& a.current_value_bits == current_value_bits
    &&& a.threshold_bits == r.threshold_bits
    &&& a.started_at == now
    &&& a.labels.entries() == r.labels.entries()
    &&& a.annotations.entries() == r.annotations.entries()
}

/// What checking a rule changed.
#[derive(Debug)]
pub enum AlertChange {
    /// The rule's condition began to hold: this alert was raised.
    Raised(ActiveAlert),
    /// The rule's condition stopped holding: this alert was resolved.
    Resolved(ActiveAlert),
    Unchanged,
}

/// Raised alerts, by rule name, in a concurrent map.
pub type AlertMap = DashMap<String, ActiveAlert>;

/// What a map of raised alerts holds, by rule name.
pub uninterp spec fn alert_entries(m: AlertMap) -> Map<Seq<char>, ActiveAlert>;

/// No alerts.
pub open spec fn no_alerts() -> Map<Seq<char>, ActiveAlert> {
    Map::empty()
}

/// Whether `v` lists each entry of `m` once, with a copy of its value.
pub open spec fn lists_alerts(v: Seq<(String, ActiveAlert)>, m: Map<Seq<char>, ActiveAlert>) -> bool {
    &&& v.len() == m.len()
    &&& forall|i: int, j: int| 0 <= i < j < v.len() ==> v[i].0@ != v[j].0@
    &&& forall|i: int| 0 <= i < v.len() ==> m.contains_key(#[trigger] v[i].0@) && same_alert(v[i].1, m[v[i].0@])
    &&& forall|k: Seq<char>| #[trigger] m.contains_key(k) ==> exists|i: int| 0 <= i < v.len() && v[i].0@ == k
}

/// An empty map, from `DashMap::new`.
#[verifier::external_body]
fn alerts_new() -> (m: AlertMap)
    ensures
        alert_entries(m) == no_alerts(),
{
    DashMap::new()
}

/// `DashMap::contains_key`: whether an alert is raised under `name`.
#[verifier::external_body]
fn alerts_contains(m: &AlertMap, name: &String) -> (b: bool)
    ensures
        b == alert_entries(*m).contains_key(name@),
{
    m.contains_key(name)
}

/// `DashMap::insert`: stores `alert` under `name`, in place of one already
/// there.
#[verifier::external_body]
fn alerts_insert(m: &mut AlertMap, name: String, alert: ActiveAlert)
    ensures
        alert_entries(*final(m)) == alert_entries(*old(m)).insert(name@, alert),
{
    m.insert(name, alert);
}

/// `DashMap::remove`: takes out the alert under `name`, if any.
#[verifier::external_body]
fn alerts_remove(m: &mut AlertMap, name: &String) -> (r: Option<ActiveAlert>)
    ensures
        alert_entries(*final(m)) == alert_entries(*old(m)).remove(name@),
        r is Some == alert_entries(*old(m)).contains_key(name@),
        r matches Some(a) ==> a == alert_entries(*old(m))[name@],
{
    match m.remove(name) {
        Some((_, a)) => Some(a),
        None => None,
    }
}

/// `DashMap::iter`: each alert once, with its rule name, copied.
#[verifier::external_body]
fn alerts_listed(m: &AlertMap) -> (v: Vec<(String, ActiveAlert)>)
    ensures
        lists_alerts(v@, alert_entries(*m)),
{
    m.iter().map(|e| (e.key().clone(), e.value().duplicate())).collect()
}

/// Alert rules and the alerts they raised, by rule name.
pub struct AlertManager {
    alert_rules: Vec<AlertRule>,
    active_alerts: AlertMap,
}

impl AlertManager {
    /// The rules, in the order they were added.
    pub closed spec fn rules(&self) -> Seq<AlertRule> {
        self.alert_rules@
    }

    /// The raised alerts, by rule name.
    pub closed spec fn alerts(&self) -> Map<Seq<char>, ActiveAlert> {
        alert_entries(self.active_alerts)
    }

    /// Finitely many alerts, each under the name of the rule that raised
    /// it.
    pub closed spec fn well_formed(&self) -> bool {
        &&& self.alerts().dom().finite()
        &&& forall|k: Seq<char>| #[trigger] self.alerts().contains_key(k) ==> self.alerts()[k].rule_name@ == k
    }

    /// No rules and no alerts.
    pub fn new() -> (m: Self)
        ensures
            m.well_formed(),
            m.rules().len() == 0,
            m.alerts() == no_alerts(),
    {
        AlertManager { alert_rules: Vec::new(), active_alerts: alerts_new() }
    }

    /// Adds `rule` after the others.
    pub fn add_alert_rule(&mut self, rule: AlertRule)
        requires
            old(self).well_formed(),
        ensures
            final(self).well_formed(),
            final(self).rules() == old(self).rules().push(rule),
            final(self).alerts() == old(self).alerts(),
    {
        self.alert_rules.push(rule);
    }

    /// Removes every rule named `rule_name`.
    pub fn remove_alert_rule(&mut self, rule_name: &str)
        requires
            old(self).well_formed(),
        ensures
            final(self).well_formed(),
            final(self).rules() == old(self).rules().filter(|r: AlertRule| r.name@ != rule_name@),
            final(self).alerts() == old(self).alerts(),
    {
        let ghost keep = |r: AlertRule| r.name@ != rule_name@;
        let ghost orig = self.alert_rules@;
        let mut kept: Vec<AlertRule> = Vec::new();
        let mut rules: Vec<AlertRule> = Vec::new();
        std::mem::swap(&mut rules, &mut self.alert_rules);
        let ghost i: int = 0;
        while rules.len() > 0
            invariant
                0 <= i <= orig.len(),
                rules@ == orig.skip(i),
                kept@ == orig.take(i).filter(keep),
                keep == (|r: AlertRule| r.name@ != rule_name@),
                self.active_alerts == old(self).active_alerts,
                old(self).well_formed(),
            decreases rules@.len(),
        {
            let r = rules.remove(0);
            proof {
                assert(r == orig[i]);
                assert(orig.take(i + 1) =~= orig.take(i).push(orig[i]));
                crate::concurrency::lemma_filter_snoc(orig.take(i), orig[i], keep);
                assert(rules@ =~= orig.skip(i + 1));
            }
            let drop = crate::text::text_is(r.name.as_str(), rule_name);
            proof {
                assert(drop == (r.name@ == rule_name@));
                assert(keep(r) == (r.name@ != rule_name@));
            }
            if !drop {
                kept.push(r);
            }
            proof {
                i = i + 1;
            }
        }
        proof {
            assert(orig.take(i) =~= orig);
        }
        self.alert_rules = kept;
    }

    /// Checks rule `index` against the metric, which the caller compared
    /// with the rule's threshold: `triggered` tells whether the condition
    /// holds, and `current_value_bits` is the metric's bit pattern.  A
    /// disabled rule changes nothing.  An enabled rule whose condition holds
    /// raises its alert at `now` unless one is already raised; one whose
    /// condition does not hold resolves its alert if one is raised.
    pub fn check_rule_at(&mut self, index: usize, triggered: bool, current_value_bits: u64, now: u64) -> (c: AlertChange)
        requires
            old(self).well_formed(),
            index < old(self).rules().len(),
        ensures
            final(self).well_formed(),
            final(self).rules() == old(self).rules(),
            ({
                let r = old(self).rules()[index as int];
                let before = old(self).alerts();
                if !r.enabled {
                    c is Unchanged && final(self).alerts() == before
                } else if triggered {
                    if before.contains_key(r.name@) {
                        c is Unchanged && final(self).alerts() == before
                    } else {
                        c matches AlertChange::Raised(a) && raised_by(a, r, current_value_bits, now)
                            && final(self).alerts().contains_key(r.name@)
                            && same_alert(final(self).alerts()[r.name@], a)
                            && final(self).alerts() == before.insert(r.name@, final(self).alerts()[r.name@])
                    }
                } else if before.contains_key(r.name@) {
                    c matches AlertChange::Resolved(a) && a == before[r.name@]
                        && final(self).alerts() == before.remove(r.name@)
                } else {
                    c is Unchanged && final(self).alerts() == before
                }
            }),
    {
        let rule = &self.alert_rules[index];
        if !rule.enabled {
            return AlertChange::Unchanged;
        }
        if triggered {
            if alerts_contains(&self.active_alerts, &rule.name) {
                AlertChange::Unchanged
            } else {
                let alert = ActiveAlert {
                    rule_name: rule.name.clone(),
                    metric_name: rule.metric_name.clone(),
                    current_value_bits,
                    threshold_bits: rule.threshold_bits,
                    started_at: now,
                    labels: rule.labels.duplicate(),
                    annotations: rule.annotations.duplicate(),
                };
                let copy = alert.duplicate();
                let key = rule.name.clone();
                let ghost before = self.alerts();
                alerts_insert(&mut self.active_alerts, key, alert);
                proof {
                    assert forall|k: Seq<char>| #[trigger] self.alerts().contains_key(k) implies self.alerts()[k].rule_name@ == k by {
                        if k != key@ {
                            assert(before.contains_key(k));
                        }
                    }
                }
                AlertChange::Raised(copy)
            }
        } else {
            let name = rule.name.clone();
            let ghost before = self.alerts();
            let r = alerts_remove(&mut self.active_alerts, &name);
            proof {
                assert forall|k: Seq<char>| #[trigger] self.alerts().contains_key(k) implies self.alerts()[k].rule_name@ == k by {
                    assert(before.contains_key(k));
                }
            }
            match r {
                Some(a) => AlertChange::Resolved(a),
                None => AlertChange::Unchanged,
            }
        }
    }

    /// Copies of the raised alerts, each once, in no particular order.
    pub fn get_active_alerts(&self) -> (v: Vec<ActiveAlert>)
        requires
            self.well_formed(),
        ensures
            v@.len() == self.alerts().len(),
            forall|i: int, j: int| 0 <= i < j < v@.len() ==> v@[i].rule_name@ != v@[j].rule_name@,
            forall|i: int| 0 <= i < v@.len() ==> self.alerts().contains_key(#[trigger] v@[i].rule_name@) && same_alert(
                v@[i],
                self.alerts()[v@[i].rule_name@],
            ),
            forall|k: Seq<char>| #[trigger] self.alerts().contains_key(k) ==> exists|i: int| 0 <= i < v@.len() && v@[i].rule_name@ == k,
    {
        let listed = alerts_listed(&self.active_alerts);
        let mut v: Vec<ActiveAlert> = Vec::new();
        let n = listed.len();
        let mut i: usize = 0;
        while i < n
            invariant
                n == listed@.len(),
                lists_alerts(listed@, self.alerts()),
                self.well_formed(),
                i <= n,
                v@.len() == i,
                forall|j: int| 0 <= j < i ==> (#[trigger] v@[j]).rule_name@ == listed@[j].0@ && same_alert(v@[j], listed@[j].1),
            decreases n - i,
        {
            let e = &listed[i];
            proof {
                assert(self.alerts().contains_key(listed@[i as int].0@));
            }
            v.push(e.1.duplicate());
            i = i + 1;
        }
        proof {
            assert forall|k: Seq<char>| #[trigger] self.alerts().contains_key(k) implies exists|i: int| 0 <= i < v@.len() && v@[i].rule_name@ == k by {
                let i = choose|i: int| 0 <= i < listed@.len() && listed@[i].0@ == k;
                assert(v@[i].rule_name@ == k);
            }
            assert forall|i: int| 0 <= i < v@.len() implies self.alerts().contains_key(#[trigger] v@[i].rule_name@) && same_alert(
                v@[i],
                self.alerts()[v@[i].rule_name@],
            ) by {
                assert(self.alerts().contains_key(listed@[i].0@));
            }
        }
        v
    }

    /// Copies of the rules.
    pub fn get_alert_rules(&self) -> (v: Vec<AlertRule>)
        ensures
            v@.len() == self.rules().len(),
            forall|i: int| 0 <= i < v@.len() ==> same_rule(#[trigger] v@[i], self.rules()[i]),
    {
        let mut v: Vec<AlertRule> = Vec::new();
        let n = self.alert_rules.len();
        let mut i: usize = 0;
        while i < n
            invariant
                n == self.rules().len(),
                i <= n,
                v@.len() == i,
                forall|j: int| 0 <= j < i ==> same_rule(#[trigger] v@[j], self.rules()[j]),
            decreases n - i,
        {
            v.push(self.alert_rules[i].duplicate());
            i = i + 1;
        }
        v
    }
}

/// Finishing an operation started under an identifier not in use gives back
/// the operations being timed as they were before the start.
pub proof fn lemma_finish_undoes_start(active: Map<u128, OperationMetrics>, id: u128, m: OperationMetrics)
    requires
        !active.contains_key(id),
    ensures
        active.insert(id, m).remove(id) == active,
{
    assert(active.insert(id, m).remove(id) =~= active);
}

/// Raising an alert records it under its rule's name, and resolving it
/// removes that record again, leaving the other alerts as they were.
pub proof fn lemma_alert_raised_once(alerts: Map<Seq<char>, ActiveAlert>, k: Seq<char>, a: ActiveAlert)
    requires
        !alerts.contains_key(k),
    ensures
        alerts.insert(k, a).contains_key(k),
        alerts.insert(k, a).remove(k) == alerts,
{
    assert(alerts.insert(k, a).remove(k) =~= alerts);
}

} // verus!
