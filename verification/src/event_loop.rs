//! An event demultiplexer: events wait highest priority first, each event
//! type has its handlers in the order they registered, timers fall due,
//! and processing is counted.
//!
//! Handlers and timer callbacks are outside work: the demultiplexer names
//! the handlers of an event and the timers that are due, and is told how
//! the handling went.  Times are milliseconds since the epoch; processing
//! times are nanoseconds.

use crate::keyed::{has_key, upserted, value_of, without_key, KeyedTable};
use vstd::prelude::*;

verus! {

/// Kinds of event.
#[derive(Debug, Clone, PartialEq, Eq, Hash)]
pub enum EventType {
    JobSubmission,
    JobCompletion,
    RunnerHeartbeat,
    RunnerHealthCheck,
    NodeFailure,
    Timer,
    IO,
    Signal,
    Custom(String),
}

/// The name an event type is counted and registered under: the variant's
/// name, and for a custom type "Custom:" and its name.
pub open spec fn event_type_label(t: EventType) -> Seq<char> {
    match t {
        EventType::JobSubmission => "JobSubmission"@,
        EventType::JobCompletion => "JobCompletion"@,
        EventType::RunnerHeartbeat => "RunnerHeartbeat"@,
        EventType::RunnerHealthCheck => "RunnerHealthCheck"@,
        EventType::NodeFailure => "NodeFailure"@,
        EventType::Timer => "Timer"@,
        EventType::IO => "IO"@,
        EventType::Signal => "Signal"@,
        EventType::Custom(s) => "Custom:"@ + s@,
    }
}

/// The name an event type is counted and registered under.
pub fn event_type_text(t: &EventType) -> (s: String)
    ensures
        s@ == event_type_label(*t),
{
    match t {
        EventType::JobSubmission => String::from_str("JobSubmission"),
        EventType::JobCompletion => String::from_str("JobCompletion"),
        EventType::RunnerHeartbeat => String::from_str("RunnerHeartbeat"),
        EventType::RunnerHealthCheck => String::from_str("RunnerHealthCheck"),
        EventType::NodeFailure => String::from_str("NodeFailure"),
        EventType::Timer => String::from_str("Timer"),
        EventType::IO => String::from_str("IO"),
        EventType::Signal => String::from_str("Signal"),
        EventType::Custom(c) => {
            let mut s = String::from_str("Custom:");
            s.append(c.as_str());
            s
        },
    }
}

/// A copy of an event type.
pub fn copy_event_type(t: &EventType) -> (c: EventType)
    ensures
        c == *t,
{
    match t {
        EventType::JobSubmission => EventType::JobSubmission,
        EventType::JobCompletion => EventType::JobCompletion,
        EventType::RunnerHeartbeat => EventType::RunnerHeartbeat,
        EventType::RunnerHealthCheck => EventType::RunnerHealthCheck,
        EventType::NodeFailure => EventType::NodeFailure,
        EventType::Timer => EventType::Timer,
        EventType::IO => EventType::IO,
        EventType::Signal => EventType::Signal,
        EventType::Custom(s) => EventType::Custom(s.clone()),
    }
}

/// How a job ended, as an event tells it.
#[derive(Debug, Clone)]
pub struct JobCompletionResult {
    pub success: bool,
    pub exit_code: Option<i32>,
    pub output: String,
    pub error: Option<String>,
    pub duration_ms: u64,
}

/// How urgent an event is.
#[derive(Debug, Clone, Copy, PartialEq, Eq, Structural)]
pub enum EventPriority {
    Low,
    Normal,
    High,
    Critical,
}

/// Rank of an event priority: Low 1, Normal 2, High 3, Critical 4.
pub open spec fn event_rank(p: EventPriority) -> int {
    match p {
        EventPriority::Low => 1,
        EventPriority::Normal => 2,
        EventPriority::High => 3,
        EventPriority::Critical => 4,
    }
}

impl EventPriority {
    /// Rank of the priority: Low 1, Normal 2, High 3, Critical 4.
    pub fn rank(&self) -> (r: u8)
        ensures
            r as int == event_rank(*self),
    {
        match self {
            EventPriority::Low => 1,
            EventPriority::Normal => 2,
            EventPriority::High => 3,
            EventPriority::Critical => 4,
        }
    }
}

/// What an event carries.
#[derive(Debug)]
pub enum EventPayload {
    JobSubmission { job_id: u128, runner_id: Option<u128> },
    JobCompletion { job_id: u128, result: JobCompletionResult },
    RunnerHeartbeat { runner_id: u128, status: String },
    RunnerHealthCheck { runner_id: u128, health_status: String },
    NodeFailure { node_id: u128, reason: String },
    Timer { timer_id: String, callback_data: Option<String> },
    IO { operation: String, data: Vec<u8> },
    Signal { signal_type: String, data: Option<String> },
    Custom { data: serde_json::Value },
}

/// An event.
#[derive(Debug)]
pub struct Event {
    pub id: u128,
    pub event_type: EventType,
    pub payload: EventPayload,
    pub timestamp: u64,
    pub priority: EventPriority,
    pub metadata: KeyedTable<String>,
}

impl Event {
    /// An event of normal priority made at `now` with identifier `id`.
    pub fn with_priority_at(
        event_type: EventType,
        payload: EventPayload,
        priority: EventPriority,
        id: u128,
        now: u64,
    ) -> (e: Self)
        ensures
            e.id == id,
            e.event_type == event_type,
            e.payload == payload,
            e.timestamp == now,
            e.priority == priority,
            e.metadata.well_formed(),
            e.metadata.entries().len() == 0,
    {
        Event { id, event_type, payload, timestamp: now, priority, metadata: KeyedTable::new() }
    }

    /// An event of normal priority, made now with a fresh identifier.
    pub fn new(event_type: EventType, payload: EventPayload) -> (e: Self)
        ensures
            e.event_type == event_type,
            e.payload == payload,
            e.priority == EventPriority::Normal,
            e.metadata.well_formed(),
            e.metadata.entries().len() == 0,
    {
        Self::with_priority_at(
            event_type,
            payload,
            EventPriority::Normal,
            crate::platform::new_identifier(),
            crate::platform::now_millis(),
        )
    }

    /// An event of `priority`, made now with a fresh identifier.
    pub fn with_priority(event_type: EventType, payload: EventPayload, priority: EventPriority) -> (e: Self)
        ensures
            e.event_type == event_type,
            e.payload == payload,
            e.priority == priority,
            e.metadata.well_formed(),
            e.metadata.entries().len() == 0,
    {
        Self::with_priority_at(
            event_type,
            payload,
            priority,
            crate::platform::new_identifier(),
            crate::platform::now_millis(),
        )
    }

    /// The same event with `value` under metadata `key`.
    pub fn with_metadata(self, key: String, value: String) -> (e: Self)
        requires
            self.metadata.well_formed(),
        ensures
            e.metadata.well_formed(),
            e.metadata.entries() == upserted(self.metadata.entries(), key, value),
            e.id == self.id,
            e.event_type == self.event_type,
            e.payload == self.payload,
            e.timestamp == self.timestamp,
            e.priority == self.priority,
    {
        let mut e = self;
        e.metadata.insert(key, value);
        e
    }
}

/// A handler registered for an event type: its number and name.
#[derive(Debug)]
pub struct HandlerEntry {
    pub handler_id: u64,
    pub name: String,
}

impl HandlerEntry {
    /// An equal copy.
    pub fn duplicate(&self) -> (h: Self)
        ensures
            h == *self,
    {
        HandlerEntry { handler_id: self.handler_id, name: self.name.clone() }
    }
}

/// An equal copy of a list of handlers.
pub fn copy_handlers(v: &Vec<HandlerEntry>) -> (r: Vec<HandlerEntry>)
    ensures
        r@ == v@,
{
    let mut r: Vec<HandlerEntry> = Vec::new();
    let mut i: usize = 0;
    while i < v.len()
        invariant
            i <= v@.len(),
            r@ == v@.take(i as int),
        decreases v@.len() - i,
    {
        r.push(v[i].duplicate());
        proof {
            assert(r@ =~= v@.take(i as int + 1));
        }
        i = i + 1;
    }
    proof {
        assert(v@.take(v@.len() as int) =~= v@);
    }
    r
}

/// A timer.
#[derive(Debug, Clone, Copy, PartialEq, Eq, Structural)]
pub struct TimerEntry {
    pub scheduled_at: u64,
    /// Milliseconds between runs of a recurring timer.
    pub interval: Option<u64>,
}

/// Counts of event processing; events are counted by the name of their
/// type.
#[derive(Debug)]
pub struct EventStats {
    pub total_events: u64,
    pub events_by_type: KeyedTable<u64>,
    pub successful_events: u64,
    pub failed_events: u64,
    pub avg_processing_time_ns: u64,
    pub last_processed: Option<u64>,
}

/// Whether the priorities of `s` never rise.
pub open spec fn events_by_priority(s: Seq<Event>) -> bool {
    forall|i: int, j: int| 0 <= i < j < s.len() ==> event_rank(#[trigger] s[i].priority) >= event_rank(
        #[trigger] s[j].priority,
    )
}

/// Whether `k` is where `event` goes in queue `q`: after every event of
/// its priority or a higher one, before the others.
pub open spec fn insert_position(q: Seq<Event>, event: Event, k: int) -> bool {
    &&& 0 <= k <= q.len()
    &&& forall|i: int| 0 <= i < k ==> event_rank(#[trigger] q[i].priority) >= event_rank(event.priority)
    &&& forall|i: int| k <= i < q.len() ==> event_rank(#[trigger] q[i].priority) < event_rank(event.priority)
}

/// Whether `after` is queue `before` with `event` submitted.
pub open spec fn submitted(before: Seq<Event>, event: Event, after: Seq<Event>) -> bool {
    exists|k: int| #[trigger] insert_position(before, event, k) && after == before.insert(k, event)
}

/// Events of the same priority leave in the order they were submitted:
/// after `first` and then `second` are submitted, `first` stands before
/// `second`.
pub proof fn lemma_equal_priority_in_order(q0: Seq<Event>, first: Event, q1: Seq<Event>, second: Event, q2: Seq<Event>)
    requires
        submitted(q0, first, q1),
        submitted(q1, second, q2),
        event_rank(first.priority) == event_rank(second.priority),
    ensures
        exists|i: int, j: int| 0 <= i < j < q2.len() && q2[i] == first && q2[j] == second,
{
    let k1 = choose|k: int| #[trigger] insert_position(q0, first, k) && q1 == q0.insert(k, first);
    let k2 = choose|k: int| #[trigger] insert_position(q1, second, k) && q2 == q1.insert(k, second);
    assert(q1[k1] == first);
    if k1 >= k2 {
        assert(event_rank(q1[k1].priority) < event_rank(second.priority));
    }
    assert(q2[k1] == q1[k1]);
    assert(q2[k2] == second);
}

/// Whether `qs` are the queues seen while `events` were submitted in that
/// order to queue `q0`: `qs[i + 1]` is `qs[i]` with `events[i]` submitted.
pub open spec fn submission_run(q0: Seq<Event>, events: Seq<Event>, qs: Seq<Seq<Event>>) -> bool {
    &&& qs.len() == events.len() + 1
    &&& qs[0] == q0
    &&& forall|i: int| 0 <= i < events.len() ==> submitted(qs[i], #[trigger] events[i], qs[i + 1])
}

/// Whether `q` holds `events` sorted by priority, highest first, events of
/// one priority in the order they came: `q[k]` is `events[p[k]]`, each
/// event taken once.
pub open spec fn stable_by_priority(events: Seq<Event>, q: Seq<Event>, p: Seq<int>) -> bool {
    &&& p.len() == events.len()
    &&& q.len() == events.len()
    &&& forall|k: int| 0 <= k < p.len() ==> 0 <= #[trigger] p[k] < events.len() && q[k] == events[p[k]]
    &&& forall|k: int, l: int| 0 <= k < l < p.len() ==> #[trigger] p[k] != #[trigger] p[l]
    &&& forall|k: int, l: int|
        0 <= k < l < p.len() && event_rank(#[trigger] q[k].priority) == event_rank(#[trigger] q[l].priority) ==> p[k]
            < p[l]
}

/// One submission keeps a queue sorted and stable.
proof fn lemma_submit_keeps_stable(prev: Seq<Event>, m: Seq<Event>, pm: Seq<int>, e: Event, q: Seq<Event>)
    requires
        events_by_priority(m),
        stable_by_priority(prev, m, pm),
        submitted(m, e, q),
    ensures
        events_by_priority(q),
        exists|p: Seq<int>| #[trigger] stable_by_priority(prev.push(e), q, p),
{
    let events = prev.push(e);
    let n = events.len() as int;
    let k = choose|k: int| #[trigger] insert_position(m, e, k) && q == m.insert(k, e);
    let p = pm.insert(k, n - 1);
    assert forall|i: int, j: int| 0 <= i < j < q.len() implies event_rank(#[trigger] q[i].priority) >= event_rank(
        #[trigger] q[j].priority,
    ) by {
        if i < k && j < k {
            assert(q[i] == m[i] && q[j] == m[j]);
        } else if i < k && j == k {
            assert(q[i] == m[i]);
        } else if i < k {
            assert(q[i] == m[i] && q[j] == m[j - 1]);
        } else if i == k {
            assert(q[j] == m[j - 1]);
        } else {
            assert(q[i] == m[i - 1] && q[j] == m[j - 1]);
        }
    }
    assert forall|a: int| 0 <= a < p.len() implies 0 <= #[trigger] p[a] < events.len() && q[a] == events[p[a]] by {
        if a < k {
            assert(p[a] == pm[a] && q[a] == m[a]);
        } else if a > k {
            assert(p[a] == pm[a - 1] && q[a] == m[a - 1]);
        }
    }
    assert forall|a: int, b: int| 0 <= a < b < p.len() implies #[trigger] p[a] != #[trigger] p[b] by {
        if a < k && b < k {
            assert(p[a] == pm[a] && p[b] == pm[b]);
        } else if a < k && b == k {
            assert(p[a] == pm[a]);
        } else if a < k {
            assert(p[a] == pm[a] && p[b] == pm[b - 1]);
        } else if a == k {
            assert(p[b] == pm[b - 1]);
        } else {
            assert(p[a] == pm[a - 1] && p[b] == pm[b - 1]);
        }
    }
    assert forall|a: int, b: int|
        0 <= a < b < p.len() && event_rank(#[trigger] q[a].priority) == event_rank(#[trigger] q[b].priority) implies p[a]
        < p[b] by {
        if a < k && b < k {
            assert(q[a] == m[a] && q[b] == m[b] && p[a] == pm[a] && p[b] == pm[b]);
        } else if a < k && b == k {
            assert(p[a] == pm[a]);
        } else if a < k {
            assert(q[a] == m[a] && q[b] == m[b - 1] && p[a] == pm[a] && p[b] == pm[b - 1]);
        } else if a == k {
            assert(q[b] == m[b - 1]);
        } else {
            assert(q[a] == m[a - 1] && q[b] == m[b - 1] && p[a] == pm[a - 1] && p[b] == pm[b - 1]);
        }
    }
    assert(stable_by_priority(events, q, p));
}

/// The first `n` submissions of a run leave a sorted, stable queue.
proof fn lemma_run_prefix_stable(events: Seq<Event>, qs: Seq<Seq<Event>>, n: int)
    requires
        submission_run(Seq::empty(), events, qs),
        0 <= n <= events.len(),
    ensures
        events_by_priority(qs[n]),
        exists|p: Seq<int>| #[trigger] stable_by_priority(events.take(n), qs[n], p),
    decreases n,
{
    if n == 0 {
        assert(stable_by_priority(events.take(0), qs[0], Seq::<int>::empty()));
    } else {
        lemma_run_prefix_stable(events, qs, n - 1);
        let pm = choose|p: Seq<int>| #[trigger] stable_by_priority(events.take(n - 1), qs[n - 1], p);
        assert(submitted(qs[n - 1], events[n - 1], qs[n]));
        lemma_submit_keeps_stable(events.take(n - 1), qs[n - 1], pm, events[n - 1], qs[n]);
        assert(events.take(n - 1).push(events[n - 1]) =~= events.take(n));
    }
}

/// Events submitted one after another to an empty queue come out of the
/// next poll sorted by priority, highest first, and events of equal
/// priority in the order they were submitted; each submitted event comes
/// out once.
pub proof fn lemma_queue_is_stable_priority_order(events: Seq<Event>, qs: Seq<Seq<Event>>)
    requires
        submission_run(Seq::empty(), events, qs),
    ensures
        events_by_priority(qs.last()),
        exists|p: Seq<int>| #[trigger] stable_by_priority(events, qs.last(), p),
{
    lemma_run_prefix_stable(events, qs, events.len() as int);
    assert(events.take(events.len() as int) =~= events);
}

/// The handlers registered under the type name `q`.
pub open spec fn handlers_named(h: Seq<(String, Vec<HandlerEntry>)>, q: Seq<char>) -> Seq<HandlerEntry> {
    if has_key(h, q) {
        value_of(h, q)@
    } else {
        Seq::empty()
    }
}

/// The count under the type name `q`, or 0.
pub open spec fn named_count(c: Seq<(String, u64)>, q: Seq<char>) -> u64 {
    if has_key(c, q) {
        value_of(c, q)
    } else {
        0
    }
}

/// The next running mean of processing times, `t` being the `n`-th.
pub open spec fn next_avg(avg: nat, n: nat, t: nat) -> nat {
    if n == 0 {
        t
    } else {
        (avg * ((n - 1) as nat) + t) / n
    }
}

/// How many of `ts` have the type name `q`.
pub open spec fn named_times(ts: Seq<EventType>, q: Seq<char>) -> nat {
    ts.filter(|u: EventType| event_type_label(u) == q).len()
}

/// The event demultiplexer.
pub struct EventDemultiplexer {
    handlers: KeyedTable<Vec<HandlerEntry>>,
    event_queue: Vec<Event>,
    timers: KeyedTable<TimerEntry>,
    stats: EventStats,
}

impl EventDemultiplexer {
    /// Registered handlers by type name.
    pub closed spec fn registry(&self) -> Seq<(String, Vec<HandlerEntry>)> {
        self.handlers.entries()
    }

    /// Waiting events, next first.
    pub closed spec fn queue(&self) -> Seq<Event> {
        self.event_queue@
    }

    /// Timers by name.
    pub closed spec fn timer_table(&self) -> Seq<(String, TimerEntry)> {
        self.timers.entries()
    }

    /// Events counted, by type name.
    pub closed spec fn type_counts(&self) -> Seq<(String, u64)> {
        self.stats.events_by_type.entries()
    }

    /// Events processed.
    pub closed spec fn total(&self) -> u64 {
        self.stats.total_events
    }

    /// Events whose handlers all succeeded.
    pub closed spec fn successes(&self) -> u64 {
        self.stats.successful_events
    }

    /// Events a handler failed.
    pub closed spec fn failures(&self) -> u64 {
        self.stats.failed_events
    }

    /// Mean processing time in nanoseconds.
    pub closed spec fn avg_ns(&self) -> u64 {
        self.stats.avg_processing_time_ns
    }

    /// When an event was last processed.
    pub closed spec fn last(&self) -> Option<u64> {
        self.stats.last_processed
    }

    /// One entry per type name and timer name, and events in priority
    /// order.
    pub closed spec fn well_formed(&self) -> bool {
        &&& self.handlers.well_formed()
        &&& events_by_priority(self.event_queue@)
        &&& self.timers.well_formed()
        &&& self.stats.events_by_type.well_formed()
    }

    /// No handlers, events or timers, and counts at zero.
    pub fn new() -> (d: Self)
        ensures
            d.well_formed(),
            d.registry().len() == 0,
            d.queue().len() == 0,
            d.timer_table().len() == 0,
            d.type_counts().len() == 0,
            d.total() == 0,
            d.successes() == 0,
            d.failures() == 0,
            d.avg_ns() == 0,
            d.last() is None,
    {
        EventDemultiplexer {
            handlers: KeyedTable::new(),
            event_queue: Vec::new(),
            timers: KeyedTable::new(),
            stats: EventStats {
                total_events: 0,
                events_by_type: KeyedTable::new(),
                successful_events: 0,
                failed_events: 0,
                avg_processing_time_ns: 0,
                last_processed: None,
            },
        }
    }

    /// Registers handler `handler_id` named `name` for each of
    /// `event_types`, after the handlers already there.
    pub fn register_handler(&mut self, handler_id: u64, name: &str, event_types: &Vec<EventType>)
        requires
            old(self).well_formed(),
        ensures
            final(self).well_formed(),
            forall|q: Seq<char>| #[trigger] handlers_named(final(self).registry(), q).len() == handlers_named(
                old(self).registry(),
                q,
            ).len() + named_times(event_types@, q),
            forall|q: Seq<char>| #[trigger] has_key(final(self).registry(), q) == (has_key(old(self).registry(), q)
                || named_times(event_types@, q) > 0),
            final(self).queue() == old(self).queue(),
            final(self).timer_table() == old(self).timer_table(),
            final(self).type_counts() == old(self).type_counts(),
            final(self).total() == old(self).total(),
            final(self).successes() == old(self).successes(),
            final(self).failures() == old(self).failures(),
            final(self).avg_ns() == old(self).avg_ns(),
            final(self).last() == old(self).last(),
    {
        let mut k: usize = 0;
        while k < event_types.len()
            invariant
                k <= event_types@.len(),
                self.handlers.well_formed(),
                self.event_queue == old(self).event_queue,
                self.timers == old(self).timers,
                self.stats == old(self).stats,
                old(self).well_formed(),
                forall|q: Seq<char>| #[trigger] handlers_named(self.handlers.entries(), q).len() == handlers_named(
                    old(self).handlers.entries(),
                    q,
                ).len() + named_times(event_types@.take(k as int), q),
                forall|q: Seq<char>| #[trigger] has_key(self.handlers.entries(), q) == (has_key(old(self).handlers.entries(), q)
                    || named_times(event_types@.take(k as int), q) > 0),
            decreases event_types@.len() - k,
        {
            let key = event_type_text(&event_types[k]);
            let mut list: Vec<HandlerEntry> = match self.handlers.get(&key) {
                Some(l) => copy_handlers(l),
                None => Vec::new(),
            };
            list.push(HandlerEntry { handler_id, name: String::from_str(name) });
            let ghost before = self.handlers.entries();
            let ghost stored = list;
            let ghost kq = key@;
            proof {
                assert(stored@.len() == handlers_named(before, kq).len() + 1);
                crate::keyed::lemma_upserted_unique(before, key, stored);
            }
            self.handlers.insert(key, list);
            proof {
                let after = self.handlers.entries();
                let prefix = event_types@.take(k as int);
                let t = event_types@[k as int];
                assert(event_types@.take(k + 1) =~= prefix.push(t));
                assert(event_type_label(t) == kq);
                assert forall|q: Seq<char>| #[trigger] handlers_named(after, q).len() == handlers_named(
                    old(self).handlers.entries(),
                    q,
                ).len() + named_times(event_types@.take(k + 1), q) && has_key(after, q) == (has_key(
                    old(self).handlers.entries(),
                    q,
                ) || named_times(event_types@.take(k + 1), q) > 0) by {
                    let f = |u: EventType| event_type_label(u) == q;
                    crate::concurrency::lemma_filter_snoc(prefix, t, f);
                    assert(named_times(prefix, q) == prefix.filter(f).len());
                    assert(named_times(event_types@.take(k + 1), q) == prefix.push(t).filter(f).len());
                    if q == kq {
                        assert(f(t));
                        assert(handlers_named(after, q) == stored@);
                    } else {
                        assert(!f(t));
                        assert(has_key(after, q) == has_key(before, q));
                        assert(handlers_named(after, q) == handlers_named(before, q));
                    }
                }
                assert forall|q: Seq<char>| #[trigger] has_key(after, q) == (has_key(
                    old(self).handlers.entries(),
                    q,
                ) || named_times(event_types@.take(k + 1), q) > 0) by {
                    assert(handlers_named(after, q).len() == handlers_named(old(self).handlers.entries(), q).len()
                        + named_times(event_types@.take(k + 1), q));
                }
            }
            k = k + 1;
        }
        proof {
            assert(event_types@.take(event_types@.len() as int) =~= event_types@);
        }
    }

    /// Drops every registration of handlers named `name`.
    pub fn unregister_handler(&mut self, name: &str)
        requires
            old(self).well_formed(),
        ensures
            final(self).well_formed(),
            final(self).registry().len() == old(self).registry().len(),
            forall|i: int|
                0 <= i < final(self).registry().len() ==> (#[trigger] final(self).registry()[i]).0 == old(
                    self,
                ).registry()[i].0 && final(self).registry()[i].1@ == old(self).registry()[i].1@.filter(
                    |h: HandlerEntry| h.name@ != name@,
                ),
            final(self).queue() == old(self).queue(),
            final(self).timer_table() == old(self).timer_table(),
            final(self).type_counts() == old(self).type_counts(),
            final(self).total() == old(self).total(),
    {
        let ghost orig = self.handlers.entries();
        let ghost keep = |h: HandlerEntry| h.name@ != name@;
        let mut i: usize = 0;
        while i < self.handlers.len()
            invariant
                i <= self.handlers.entries().len(),
                self.handlers.entries().len() == orig.len(),
                self.handlers.well_formed(),
                keep == (|h: HandlerEntry| h.name@ != name@),
                forall|j: int| 0 <= j < orig.len() ==> (#[trigger] self.handlers.entries()[j]).0 == orig[j].0,
                forall|j: int| 0 <= j < i ==> (#[trigger] self.handlers.entries()[j]).1@ == orig[j].1@.filter(keep),
                forall|j: int| i <= j < orig.len() ==> (#[trigger] self.handlers.entries()[j]).1@ == orig[j].1@,
                self.event_queue == old(self).event_queue,
                self.timers == old(self).timers,
                self.stats == old(self).stats,
                orig == old(self).handlers.entries(),
            decreases orig.len() - i,
        {
            let list = &self.handlers.entry_at(i).1;
            let mut kept: Vec<HandlerEntry> = Vec::new();
            let mut k: usize = 0;
            while k < list.len()
                invariant
                    k <= list@.len(),
                    keep == (|h: HandlerEntry| h.name@ != name@),
                    kept@ == list@.take(k as int).filter(keep),
                decreases list@.len() - k,
            {
                proof {
                    assert(list@.take(k + 1) =~= list@.take(k as int).push(list@[k as int]));
                    crate::concurrency::lemma_filter_snoc(list@.take(k as int), list@[k as int], keep);
                }
                let same = crate::text::text_is(list[k].name.as_str(), name);
                if !same {
                    kept.push(list[k].duplicate());
                }
                k = k + 1;
            }
            proof {
                assert(list@.take(list@.len() as int) =~= list@);
            }
            self.handlers.set_value_at(i, kept);
            i = i + 1;
        }
    }

    /// The handlers of event type `t`, in the order they registered.
    pub fn handlers_for(&self, t: &EventType) -> (r: Vec<HandlerEntry>)
        requires
            self.well_formed(),
        ensures
            r@ == handlers_named(self.registry(), event_type_label(*t)),
    {
        let key = event_type_text(t);
        match self.handlers.get(&key) {
            Some(l) => copy_handlers(l),
            None => Vec::new(),
        }
    }

    /// Queues `event` after the waiting events of the same or a higher
    /// priority and before the others.
    pub fn submit_event(&mut self, event: Event)
        requires
            old(self).well_formed(),
        ensures
            final(self).well_formed(),
            submitted(old(self).queue(), event, final(self).queue()),
            final(self).registry() == old(self).registry(),
            final(self).timer_table() == old(self).timer_table(),
            final(self).type_counts() == old(self).type_counts(),
            final(self).total() == old(self).total(),
    {
        let rank = event.priority.rank();
        let mut pos: usize = 0;
        while pos < self.event_queue.len() && self.event_queue[pos].priority.rank() >= rank
            invariant
                pos <= self.event_queue@.len(),
                rank == event_rank(event.priority),
                forall|i: int| 0 <= i < pos ==> event_rank(#[trigger] self.event_queue@[i].priority) >= rank,
            decreases self.event_queue@.len() - pos,
        {
            pos = pos + 1;
        }
        let ghost before = self.event_queue@;
        proof {
            assert forall|i: int| pos <= i < before.len() implies event_rank(before[i].priority) < rank by {
                assert(event_rank(before[pos as int].priority) < rank);
                assert(event_rank(before[pos as int].priority) >= event_rank(before[i].priority));
            }
        }
        self.event_queue.insert(pos, event);
        proof {
            let s = self.event_queue@;
            assert(s == before.insert(pos as int, event));
            assert(old(self).queue().insert(pos as int, event) == s);
            assert(insert_position(old(self).queue(), event, pos as int));
            assert forall|i: int, j: int| 0 <= i < j < s.len() implies event_rank(#[trigger] s[i].priority) >= event_rank(
                #[trigger] s[j].priority,
            ) by {
                if j < pos {
                    assert(s[i] == before[i] && s[j] == before[j]);
                } else if j == pos {
                    assert(s[i] == before[i]);
                } else if i == pos {
                    assert(s[j] == before[j - 1]);
                } else if i < pos {
                    assert(s[i] == before[i] && s[j] == before[j - 1]);
                } else {
                    assert(s[i] == before[i - 1] && s[j] == before[j - 1]);
                }
            }
        }
    }

    /// Takes every waiting event, next first.
    pub fn poll_events(&mut self) -> (es: Vec<Event>)
        requires
            old(self).well_formed(),
        ensures
            final(self).well_formed(),
            es@ == old(self).queue(),
            events_by_priority(es@),
            final(self).queue().len() == 0,
            final(self).registry() == old(self).registry(),
            final(self).timer_table() == old(self).timer_table(),
            final(self).type_counts() == old(self).type_counts(),
            final(self).total() == old(self).total(),
    {
        let mut out: Vec<Event> = Vec::new();
        std::mem::swap(&mut out, &mut self.event_queue);
        out
    }

    /// Counts an event of type `t` whose handlers all succeeded or not,
    /// processed in `processing_ns` at `now`.  (An event without handlers
    /// is not counted.)
    pub fn record_processed(&mut self, t: &EventType, success: bool, processing_ns: u64, now: u64)
        requires
            old(self).well_formed(),
            old(self).total() < u64::MAX,
            old(self).successes() < u64::MAX,
            old(self).failures() < u64::MAX,
            named_count(old(self).type_counts(), event_type_label(*t)) < u64::MAX,
            old(self).avg_ns() * old(self).total() + processing_ns <= u64::MAX,
        ensures
            final(self).well_formed(),
            final(self).total() == old(self).total() + 1,
            named_count(final(self).type_counts(), event_type_label(*t)) == named_count(old(self).type_counts(), event_type_label(*t))
                + 1,
            forall|q: Seq<char>| q != event_type_label(*t) ==> #[trigger] named_count(final(self).type_counts(), q) == named_count(
                old(self).type_counts(),
                q,
            ),
            final(self).successes() == old(self).successes() + if success {
                1int
            } else {
                0int
            },
            final(self).failures() == old(self).failures() + if success {
                0int
            } else {
                1int
            },
            final(self).avg_ns() == next_avg(old(self).avg_ns() as nat, final(self).total() as nat, processing_ns as nat),
            final(self).last() == Some(now),
            final(self).registry() == old(self).registry(),
            final(self).queue() == old(self).queue(),
            final(self).timer_table() == old(self).timer_table(),
    {
        let prev_total = self.stats.total_events;
        self.stats.total_events = prev_total + 1;
        let key = event_type_text(t);
        let n: u64 = match self.stats.events_by_type.get(&key) {
            Some(c) => *c + 1,
            None => 1,
        };
        proof {
            crate::keyed::lemma_upserted_unique(self.stats.events_by_type.entries(), key, n);
        }
        self.stats.events_by_type.insert(key, n);
        if success {
            self.stats.successful_events = self.stats.successful_events + 1;
        } else {
            self.stats.failed_events = self.stats.failed_events + 1;
        }
        let total_time: u64 = self.stats.avg_processing_time_ns * prev_total + processing_ns;
        self.stats.avg_processing_time_ns = total_time / self.stats.total_events;
        self.stats.last_processed = Some(now);
    }

    /// Sets timer `timer_id` to fall due `duration_ms` after `now`, once or
    /// every `duration_ms` when recurring, in place of a timer of that name.
    pub fn schedule_timer_at(&mut self, timer_id: String, duration_ms: u64, recurring: bool, now: u64)
        requires
            old(self).well_formed(),
            now + duration_ms <= u64::MAX,
        ensures
            final(self).well_formed(),
            final(self).timer_table() == upserted(
                old(self).timer_table(),
                timer_id,
                TimerEntry {
                    scheduled_at: (now + duration_ms) as u64,
                    interval: if recurring {
                        Some(duration_ms)
                    } else {
                        None
                    },
                },
            ),
            final(self).registry() == old(self).registry(),
            final(self).queue() == old(self).queue(),
            final(self).type_counts() == old(self).type_counts(),
            final(self).total() == old(self).total(),
    {
        let entry = TimerEntry {
            scheduled_at: now + duration_ms,
            interval: if recurring {
                Some(duration_ms)
            } else {
                None
            },
        };
        self.timers.insert(timer_id, entry);
    }

    /// Removes timer `timer_id`.
    pub fn cancel_timer(&mut self, timer_id: &String)
        requires
            old(self).well_formed(),
        ensures
            final(self).well_formed(),
            final(self).timer_table() == without_key(old(self).timer_table(), timer_id@),
            final(self).registry() == old(self).registry(),
            final(self).queue() == old(self).queue(),
            final(self).type_counts() == old(self).type_counts(),
            final(self).total() == old(self).total(),
    {
        self.timers.remove(timer_id);
    }

    /// The timers due at `now`, in the order they were set: each leaves
    /// the table, and a recurring one comes back due an interval after
    /// `now`.  The caller runs their callbacks.
    pub fn process_timers_at(&mut self, now: u64) -> (due: Vec<String>)
        requires
            old(self).well_formed(),
            forall|i: int|
                0 <= i < old(self).timer_table().len() ==> ((#[trigger] old(self).timer_table()[i]).1.interval matches Some(
                    iv,
                ) ==> now + iv <= u64::MAX),
        ensures
            final(self).well_formed(),
            name_texts(due@) == due_names(old(self).timer_table(), now),
            forall|i: int| 0 <= i < due@.len() ==> has_key(old(self).timer_table(), #[trigger] due@[i]@) && value_of(
                old(self).timer_table(),
                due@[i]@,
            ).scheduled_at <= now,
            forall|k: Seq<char>|
                has_key(old(self).timer_table(), k) && value_of(old(self).timer_table(), k).scheduled_at <= now ==> (exists|i: int|
                    0 <= i < due@.len() && #[trigger] due@[i]@ == k),
            forall|k: Seq<char>|
                #[trigger] has_key(final(self).timer_table(), k) == (has_key(old(self).timer_table(), k) && (value_of(
                    old(self).timer_table(),
                    k,
                ).scheduled_at > now || value_of(old(self).timer_table(), k).interval is Some)),
            final(self).registry() == old(self).registry(),
            final(self).queue() == old(self).queue(),
            final(self).type_counts() == old(self).type_counts(),
            final(self).total() == old(self).total(),
    {
        let ghost t0 = self.timers.entries();
        let ghost keep = |e: (String, TimerEntry)| due_at(e, now);
        let ghost proj = |e: (String, TimerEntry)| e.0@;
        let mut due: Vec<String> = Vec::new();
        let mut i: usize = 0;
        while i < self.timers.len()
            invariant
                i <= self.timers.entries().len(),
                keep == (|e: (String, TimerEntry)| due_at(e, now)),
                proj == (|e: (String, TimerEntry)| e.0@),
                name_texts(due@) == t0.take(i as int).filter(keep).map_values(proj),
                self.timers.entries() == t0,
                self.timers.well_formed(),
                unique_due(due@),
                forall|j: int| 0 <= j < due@.len() ==> has_key(t0, #[trigger] due@[j]@) && value_of(t0, due@[j]@).scheduled_at <= now,
                forall|j: int| #![trigger due@[j]] 0 <= j < due@.len() ==> exists|a: int| 0 <= a < i && #[trigger] t0[a].0@ == due@[j]@,
                forall|j: int| 0 <= j < i && t0[j].1.scheduled_at <= now ==> (exists|q: int| 0 <= q < due@.len() && #[trigger] due@[q]@ == t0[j].0@),
            decreases t0.len() - i,
        {
            let e = self.timers.entry_at(i);
            let ghost pre = t0.take(i as int);
            let ghost nxt = t0.take(i as int + 1);
            proof {
                assert(nxt.drop_last() =~= pre);
                assert(nxt.last() == t0[i as int]);
                reveal(Seq::filter);
            }
            if e.1.scheduled_at <= now {
                proof {
                    crate::keyed::lemma_key_position(t0, t0[i as int].0@, i as int);
                }
                let ghost before = due@;
                due.push(e.0.clone());
                proof {
                    assert(nxt.filter(keep) == pre.filter(keep).push(nxt.last()));
                    assert(due@[before.len() as int]@ == t0[i as int].0@);
                    let lhs = name_texts(due@);
                    let rhs = nxt.filter(keep).map_values(proj);
                    assert(name_texts(before) == pre.filter(keep).map_values(proj));
                    assert(name_texts(before).len() == before.len());
                    assert(pre.filter(keep).map_values(proj).len() == pre.filter(keep).len());
                    assert(due@.len() == before.len() + 1);
                    assert(lhs.len() == due@.len());
                    assert(rhs.len() == nxt.filter(keep).len());
                    assert(lhs.len() == rhs.len());
                    assert forall|j: int| 0 <= j < lhs.len() implies lhs[j] == rhs[j] by {
                        if j < before.len() {
                            assert(due@[j] == before[j]);
                            assert(name_texts(before)[j] == before[j]@);
                            assert(pre.filter(keep).map_values(proj)[j] == proj(pre.filter(keep)[j]));
                            assert(nxt.filter(keep)[j] == pre.filter(keep)[j]);
                        } else {
                            assert(nxt.filter(keep)[j] == nxt.last());
                        }
                    }
                    assert(lhs =~= rhs);
                    assert forall|a: int, b: int| 0 <= a < b < due@.len() implies due@[a]@ != due@[b]@ by {
                        if b == before.len() {
                            let x = choose|x: int| 0 <= x < i && #[trigger] t0[x].0@ == before[a]@;
                            assert(t0[x].0@ != t0[i as int].0@);
                        } else {
                            assert(due@[a] == before[a] && due@[b] == before[b]);
                        }
                    }
                    assert forall|j: int| #![trigger due@[j]] 0 <= j < due@.len() implies exists|x: int| 0 <= x < i + 1 && #[trigger] t0[x].0@ == due@[j]@ by {
                        if j < before.len() {
                            let x = choose|x: int| 0 <= x < i && #[trigger] t0[x].0@ == before[j]@;
                            assert(t0[x].0@ == due@[j]@);
                        } else {
                            assert(t0[i as int].0@ == due@[j]@);
                        }
                    }
                    assert forall|j: int| 0 <= j < i + 1 && t0[j].1.scheduled_at <= now implies (exists|q: int| 0 <= q < due@.len() && #[trigger] due@[q]@ == t0[j].0@) by {
                        if j < i {
                            let q = choose|q: int| 0 <= q < before.len() && #[trigger] before[q]@ == t0[j].0@;
                            assert(due@[q] == before[q]);
                        } else {
                            assert(due@[before.len() as int]@ == t0[j].0@);
                        }
                    }
                }
            } else {
                proof {
                    assert(nxt.filter(keep) == pre.filter(keep));
                }
            }
            i = i + 1;
        }
        proof {
            assert(t0.take(t0.len() as int) =~= t0);
        }
        let mut k: usize = 0;
        while k < due.len()
            invariant
                k <= due@.len(),
                self.timers.well_formed(),
                self.handlers == old(self).handlers,
                self.event_queue == old(self).event_queue,
                self.stats == old(self).stats,
                t0 == old(self).timers.entries(),
                unique_due(due@),
                forall|j: int| 0 <= j < due@.len() ==> has_key(t0, #[trigger] due@[j]@) && value_of(t0, due@[j]@).scheduled_at <= now,
                forall|a: int| 0 <= a < t0.len() ==> ((#[trigger] t0[a]).1.interval matches Some(iv) ==> now + iv <= u64::MAX),
                forall|q: Seq<char>| #[trigger] has_key(self.timers.entries(), q) == (has_key(t0, q) && (value_of(t0, q).scheduled_at > now
                    || value_of(t0, q).interval is Some || !done_before(due@, k as int, q))),
                forall|q: Seq<char>| has_key(t0, q) && !done_before(due@, k as int, q) ==> #[trigger] value_of(self.timers.entries(), q)
                    == value_of(t0, q),
            decreases due@.len() - k,
        {
            let name = due[k].clone();
            let ghost tb = self.timers.entries();
            proof {
                assert(!done_before(due@, k as int, name@)) by {
                    assert forall|j: int| 0 <= j < k implies due@[j]@ != name@ by {
                        assert(due@[j]@ != due@[k as int]@);
                    }
                }
                assert(has_key(tb, name@));
                crate::keyed::lemma_without_key_unique(tb, name@);
            }
            let removed = self.timers.remove(&name);
            let ghost nq = name@;
            let ghost first = value_of(t0, nq);
            proof {
                assert(removed == Some(first));
                assert(same_elsewhere(self.timers.entries(), tb, nq));
                assert(!has_key(self.timers.entries(), nq));
            }
            match removed {
                Some(entry) => {
                    proof {
                        let p = crate::keyed::key_position(t0, nq);
                        assert(t0[p].1 == entry);
                    }
                    match entry.interval {
                        Some(iv) => {
                            let ghost tc = self.timers.entries();
                            let again = TimerEntry { scheduled_at: now + iv, interval: Some(iv) };
                            proof {
                                crate::keyed::lemma_upserted_unique(tc, name, again);
                            }
                            self.timers.insert(name, again);
                            proof {
                                assert(same_elsewhere(self.timers.entries(), tc, nq));
                            }
                        },
                        None => {},
                    }
                },
                None => {},
            }
            proof {
                let ta = self.timers.entries();
                assert(same_elsewhere(ta, tb, nq));
                assert(has_key(ta, nq) == first.interval is Some);
                assert forall|q: Seq<char>| #[trigger] done_before(due@, k + 1, q) == (done_before(due@, k as int, q) || q == due@[k as int]@) by {
                    if q == due@[k as int]@ {
                        assert(due@[k as int]@ == q);
                    }
                }
                assert forall|q: Seq<char>| #[trigger] has_key(ta, q) == (has_key(t0, q) && (value_of(t0, q).scheduled_at > now
                    || value_of(t0, q).interval is Some || !done_before(due@, k + 1, q))) by {
                    assert(done_before(due@, k + 1, q) == (done_before(due@, k as int, q) || q == nq));
                    if q != nq {
                        assert(has_key(ta, q) == has_key(tb, q));
                    }
                }
                assert forall|q: Seq<char>| has_key(t0, q) && !done_before(due@, k + 1, q) implies #[trigger] value_of(ta, q)
                    == value_of(t0, q) by {
                    assert(done_before(due@, k + 1, q) == (done_before(due@, k as int, q) || q == nq));
                    assert(has_key(tb, q));
                    assert(value_of(ta, q) == value_of(tb, q));
                }
            }
            k = k + 1;
        }
        proof {
            assert forall|q: Seq<char>| #[trigger] has_key(self.timers.entries(), q) == (has_key(t0, q) && (value_of(t0, q).scheduled_at > now
                || value_of(t0, q).interval is Some)) by {
                if has_key(t0, q) && value_of(t0, q).scheduled_at <= now {
                    let x = choose|x: int| 0 <= x < due@.len() && #[trigger] due@[x]@ == q;
                    assert(done_before(due@, due@.len() as int, q));
                }
            }
        }
        due
    }

    /// A copy of the counts.
    pub fn get_stats(&self) -> (s: EventStats)
        ensures
            s.total_events == self.total(),
            s.successful_events == self.successes(),
            s.failed_events == self.failures(),
            s.avg_processing_time_ns == self.avg_ns(),
            s.last_processed == self.last(),
            s.events_by_type.entries() == self.type_counts(),
    {
        EventStats {
            total_events: self.stats.total_events,
            events_by_type: self.stats.events_by_type.duplicate(),
            successful_events: self.stats.successful_events,
            failed_events: self.stats.failed_events,
            avg_processing_time_ns: self.stats.avg_processing_time_ns,
            last_processed: self.stats.last_processed,
        }
    }

    /// Puts the counts back to zero.
    pub fn reset_stats(&mut self)
        requires
            old(self).well_formed(),
        ensures
            final(self).well_formed(),
            final(self).total() == 0,
            final(self).successes() == 0,
            final(self).failures() == 0,
            final(self).type_counts().len() == 0,
            final(self).avg_ns() == 0,
            final(self).last() is None,
            final(self).registry() == old(self).registry(),
            final(self).queue() == old(self).queue(),
            final(self).timer_table() == old(self).timer_table(),
    {
        self.stats = EventStats {
            total_events: 0,
            events_by_type: KeyedTable::new(),
            successful_events: 0,
            failed_events: 0,
            avg_processing_time_ns: 0,
            last_processed: None,
        };
    }
}

/// Whether timer entry `e` is due at `now`.
pub open spec fn due_at(e: (String, TimerEntry), now: u64) -> bool {
    e.1.scheduled_at <= now
}

/// The names of the timers of `t` due at `now`, in table order.
pub open spec fn due_names(t: Seq<(String, TimerEntry)>, now: u64) -> Seq<Seq<char>> {
    t.filter(|e: (String, TimerEntry)| due_at(e, now)).map_values(|e: (String, TimerEntry)| e.0@)
}

/// The texts of names `d`.
pub open spec fn name_texts(d: Seq<String>) -> Seq<Seq<char>> {
    d.map_values(|s: String| s@)
}

/// Whether no name is due twice.
pub open spec fn unique_due(d: Seq<String>) -> bool {
    forall|i: int, j: int| 0 <= i < j < d.len() ==> d[i]@ != d[j]@
}

/// Whether `a` and `b` hold the same keys and values but for key `k`.
pub open spec fn same_elsewhere<V>(a: Seq<(String, V)>, b: Seq<(String, V)>, k: Seq<char>) -> bool {
    forall|q: Seq<char>| q != k ==> (#[trigger] has_key(a, q) == has_key(b, q) && (has_key(b, q) ==> value_of(a, q)
        == value_of(b, q)))
}

/// Whether name `q` is among the first `k` due names.
pub open spec fn done_before(d: Seq<String>, k: int, q: Seq<char>) -> bool {
    exists|j: int| 0 <= j < k && #[trigger] d[j]@ == q
}

/// Counts of the event loop.
#[derive(Debug, Clone, Copy, PartialEq, Eq, Structural)]
pub struct EventLoopStats {
    pub events_processed: u64,
    pub jobs_scheduled: u64,
    pub jobs_completed: u64,
    pub runner_heartbeats: u64,
    pub node_failures: u64,
    pub uptime_ms: u64,
    pub last_activity: Option<u64>,
}

impl EventLoopStats {
    /// Counts at zero.
    pub fn new() -> (s: Self)
        ensures
            s == (EventLoopStats {
                events_processed: 0,
                jobs_scheduled: 0,
                jobs_completed: 0,
                runner_heartbeats: 0,
                node_failures: 0,
                uptime_ms: 0,
                last_activity: None,
            }),
    {
        EventLoopStats {
            events_processed: 0,
            jobs_scheduled: 0,
            jobs_completed: 0,
            runner_heartbeats: 0,
            node_failures: 0,
            uptime_ms: 0,
            last_activity: None,
        }
    }

    /// Counts an event taken for processing at `now`.
    pub fn record_event(&mut self, now: u64)
        requires
            old(self).events_processed < u64::MAX,
        ensures
            *final(self) == (EventLoopStats {
                events_processed: (old(self).events_processed + 1) as u64,
                last_activity: Some(now),
                ..*old(self)
            }),
    {
        self.events_processed = self.events_processed + 1;
        self.last_activity = Some(now);
    }

    /// What the built-in handlers count of `payload`: a job completion, a
    /// runner heartbeat or a node failure; nothing else.
    pub fn handle_builtin(&mut self, payload: &EventPayload)
        requires
            old(self).jobs_completed < u64::MAX,
            old(self).runner_heartbeats < u64::MAX,
            old(self).node_failures < u64::MAX,
        ensures
            *final(self) == match *payload {
                EventPayload::JobCompletion { .. } => EventLoopStats {
                    jobs_completed: (old(self).jobs_completed + 1) as u64,
                    ..*old(self)
                },
                EventPayload::RunnerHeartbeat { .. } => EventLoopStats {
                    runner_heartbeats: (old(self).runner_heartbeats + 1) as u64,
                    ..*old(self)
                },
                EventPayload::NodeFailure { .. } => EventLoopStats {
                    node_failures: (old(self).node_failures + 1) as u64,
                    ..*old(self)
                },
                _ => *old(self),
            },
    {
        match payload {
            EventPayload::JobCompletion { .. } => {
                self.jobs_completed = self.jobs_completed + 1;
            },
            EventPayload::RunnerHeartbeat { .. } => {
                self.runner_heartbeats = self.runner_heartbeats + 1;
            },
            EventPayload::NodeFailure { .. } => {
                self.node_failures = self.node_failures + 1;
            },
            _ => {},
        }
    }

    /// Counts a job handed to a runner.
    pub fn record_job_scheduled(&mut self)
        requires
            old(self).jobs_scheduled < u64::MAX,
        ensures
            *final(self) == (EventLoopStats { jobs_scheduled: (old(self).jobs_scheduled + 1) as u64, ..*old(self) }),
    {
        self.jobs_scheduled = self.jobs_scheduled + 1;
    }

    /// Sets the uptime.
    pub fn update_uptime(&mut self, uptime_ms: u64)
        ensures
            *final(self) == (EventLoopStats { uptime_ms, ..*old(self) }),
    {
        self.uptime_ms = uptime_ms;
    }
}

} // verus!
