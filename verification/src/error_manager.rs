//! Error bookkeeping: error contexts, statistics, the built-in handlers
//! and circuit breakers.
//!
//! A circuit breaker lets calls through while closed, counts failures, and
//! opens at its threshold; an open breaker refuses calls until its recovery
//! timeout has passed, then lets calls through half-open until one succeeds.
//! Times are milliseconds since the epoch.

use crate::errors::{error_code_name, error_code_of, error_display, error_type_name, error_type_of, AppError};
use crate::keyed::{has_key, upserted, value_of, KeyedTable};
use vstd::prelude::*;
use dashmap::DashMap;

verus! {

/// Where and why an error happened.
pub struct ErrorContext {
    pub correlation_id: u128,
    pub request_id: Option<String>,
    pub user_id: Option<String>,
    pub operation: String,
    pub component: String,
    pub metadata: KeyedTable<String>,
    pub timestamp: u64,
    pub stack_trace: Option<String>,
}

impl ErrorContext {
    /// A context of `operation` in `component` at `now`, with correlation
    /// `correlation_id` and nothing else.
    pub fn new_at(operation: &str, component: &str, correlation_id: u128, now: u64) -> (c: Self)
        ensures
            c.operation@ == operation@,
            c.component@ == component@,
            c.correlation_id == correlation_id,
            c.timestamp == now,
            c.request_id is None,
            c.user_id is None,
            c.stack_trace is None,
            c.metadata.well_formed(),
            c.metadata.entries().len() == 0,
    {
        ErrorContext {
            correlation_id,
            request_id: None,
            user_id: None,
            operation: String::from_str(operation),
            component: String::from_str(component),
            metadata: KeyedTable::new(),
            timestamp: now,
            stack_trace: None,
        }
    }

    /// A context of `operation` in `component` now, with a fresh
    /// correlation identifier.
    pub fn new(operation: &str, component: &str) -> (c: Self)
        ensures
            c.operation@ == operation@,
            c.component@ == component@,
            c.request_id is None,
            c.user_id is None,
            c.stack_trace is None,
            c.metadata.well_formed(),
            c.metadata.entries().len() == 0,
    {
        let id = crate::platform::new_identifier();
        let now = crate::platform::now_millis();
        Self::new_at(operation, component, id, now)
    }

    /// The context with correlation `correlation_id`.
    pub fn with_correlation_id(self, correlation_id: u128) -> (c: Self)
        ensures
            c == (ErrorContext { correlation_id, ..self }),
    {
        let mut c = self;
        c.correlation_id = correlation_id;
        c
    }

    /// The context with request `request_id`.
    pub fn with_request_id(self, request_id: String) -> (c: Self)
        ensures
            c == (ErrorContext { request_id: Some(request_id), ..self }),
    {
        let mut c = self;
        c.request_id = Some(request_id);
        c
    }

    /// The context with user `user_id`.
    pub fn with_user_id(self, user_id: String) -> (c: Self)
        ensures
            c == (ErrorContext { user_id: Some(user_id), ..self }),
    {
        let mut c = self;
        c.user_id = Some(user_id);
        c
    }

    /// The context with `value` under `key` in its metadata.
    pub fn with_metadata(self, key: String, value: String) -> (c: Self)
        requires
            self.metadata.well_formed(),
        ensures
            c.metadata.well_formed(),
            c.metadata.entries() == upserted(self.metadata.entries(), key, value),
            c.correlation_id == self.correlation_id,
            c.request_id == self.request_id,
            c.user_id == self.user_id,
            c.operation == self.operation,
            c.component == self.component,
            c.timestamp == self.timestamp,
            c.stack_trace == self.stack_trace,
    {
        let mut c = self;
        c.metadata.insert(key, value);
        c
    }

    /// The context with stack trace `stack_trace`.
    pub fn with_stack_trace(self, stack_trace: String) -> (c: Self)
        ensures
            c == (ErrorContext { stack_trace: Some(stack_trace), ..self }),
    {
        let mut c = self;
        c.stack_trace = Some(stack_trace);
        c
    }
}

/// The answer given for an error.
#[derive(Debug)]
pub struct ErrorResponse {
    pub error: String,
    pub error_code: String,
    pub correlation_id: u128,
    pub timestamp: u64,
    pub details: Option<Vec<(String, String)>>,
}

/// The answer for an error that no handler took: its text and code, the
/// context's correlation and metadata.
pub fn create_default_error_response(error: &AppError, context: &ErrorContext, now: u64) -> (r: ErrorResponse)
    ensures
        r.error@ == error_display(*error),
        r.error_code@ == error_code_name(*error),
        r.correlation_id == context.correlation_id,
        r.timestamp == now,
        r.details matches Some(d) && d@ == context.metadata.entries(),
{
    ErrorResponse {
        error: crate::errors::error_string(error),
        error_code: error_code_of(error),
        correlation_id: context.correlation_id,
        timestamp: now,
        details: Some(context.metadata.to_pairs()),
    }
}

/// The answer of a built-in handler: a fixed text and code, and the
/// context's metadata with the error's text under `detail_key`.
fn handled_response(text: &str, code: &str, detail_key: &str, msg: &String, context: &ErrorContext, now: u64) -> (r:
    ErrorResponse)
    requires
        context.metadata.well_formed(),
    ensures
        r.error@ == text@,
        r.error_code@ == code@,
        r.correlation_id == context.correlation_id,
        r.timestamp == now,
        r.details matches Some(d) && exists|k: String|
            k@ == detail_key@ && d@ == #[trigger] upserted(context.metadata.entries(), k, *msg),
{
    let mut details = context.metadata.duplicate();
    let k = String::from_str(detail_key);
    details.insert(k, msg.clone());
    ErrorResponse {
        error: String::from_str(text),
        error_code: String::from_str(code),
        correlation_id: context.correlation_id,
        timestamp: now,
        details: Some(details.to_pairs()),
    }
}

/// The built-in handler of database errors.
pub struct DatabaseErrorHandler;

impl DatabaseErrorHandler {
    /// Whether `error` is a database error.
    pub fn can_handle(&self, error: &AppError) -> (b: bool)
        ensures
            b == (*error is DatabaseError),
    {
        match error {
            AppError::DatabaseError(_) => true,
            _ => false,
        }
    }

    /// Handlers run lowest number first; this one first of all.
    pub fn priority(&self) -> (p: u8)
        ensures
            p == 1,
    {
        1
    }

    /// Answers a database error with "Database operation failed", code
    /// `DB_ERROR` and the error's text under `database_error`; any other
    /// error is refused with `InternalServerError`.
    pub fn handle_error(&self, error: &AppError, context: &ErrorContext, now: u64) -> (r: Result<
        ErrorResponse,
        AppError,
    >)
        requires
            context.metadata.well_formed(),
        ensures
            match *error {
                AppError::DatabaseError(msg) => r matches Ok(resp) && {
                    &&& resp.error@ == "Database operation failed"@
                    &&& resp.error_code@ == "DB_ERROR"@
                    &&& resp.correlation_id == context.correlation_id
                    &&& resp.timestamp == now
                    &&& resp.details matches Some(d) && exists|k: String|
                        k@ == "database_error"@ && d@ == #[trigger] upserted(context.metadata.entries(), k, msg)
                },
                _ => r matches Err(AppError::InternalServerError(m)) && m@ == "Cannot handle this error type"@,
            },
    {
        match error {
            AppError::DatabaseError(msg) => Ok(
                handled_response("Database operation failed", "DB_ERROR", "database_error", msg, context, now),
            ),
            _ => Err(AppError::InternalServerError(String::from_str("Cannot handle this error type"))),
        }
    }
}

/// The built-in handler of validation errors.
pub struct ValidationErrorHandler;

impl ValidationErrorHandler {
    /// Whether `error` is a validation error.
    pub fn can_handle(&self, error: &AppError) -> (b: bool)
        ensures
            b == (*error is ValidationError),
    {
        match error {
            AppError::ValidationError(_) => true,
            _ => false,
        }
    }

    /// Runs after the database handler.
    pub fn priority(&self) -> (p: u8)
        ensures
            p == 2,
    {
        2
    }

    /// Answers a validation error with "Validation failed", code
    /// `VALIDATION_ERROR` and the error's text under `validation_error`;
    /// any other error is refused with `InternalServerError`.
    pub fn handle_error(&self, error: &AppError, context: &ErrorContext, now: u64) -> (r: Result<
        ErrorResponse,
        AppError,
    >)
        requires
            context.metadata.well_formed(),
        ensures
            match *error {
                AppError::ValidationError(msg) => r matches Ok(resp) && {
                    &&& resp.error@ == "Validation failed"@
                    &&& resp.error_code@ == "VALIDATION_ERROR"@
                    &&& resp.correlation_id == context.correlation_id
                    &&& resp.timestamp == now
                    &&& resp.details matches Some(d) && exists|k: String|
                        k@ == "validation_error"@ && d@ == #[trigger] upserted(context.metadata.entries(), k, msg)
                },
                _ => r matches Err(AppError::InternalServerError(m)) && m@ == "Cannot handle this error type"@,
            },
    {
        match error {
            AppError::ValidationError(msg) => Ok(
                handled_response("Validation failed", "VALIDATION_ERROR", "validation_error", msg, context, now),
            ),
            _ => Err(AppError::InternalServerError(String::from_str("Cannot handle this error type"))),
        }
    }
}

/// Where a handler of priority `p` goes among handlers kept in order of
/// priority: after every handler of the same or a smaller number, so that
/// handlers of equal priority keep the order in which they were added.
pub fn handler_insert_position(priorities: &Vec<u8>, p: u8) -> (i: usize)
    requires
        forall|a: int, b: int| 0 <= a < b < priorities@.len() ==> priorities@[a] <= priorities@[b],
    ensures
        i <= priorities@.len(),
        forall|j: int| 0 <= j < i ==> priorities@[j] <= p,
        forall|j: int| i <= j < priorities@.len() ==> priorities@[j] > p,
{
    let mut i: usize = 0;
    while i < priorities.len() && priorities[i] <= p
        invariant
            i <= priorities@.len(),
            forall|a: int, b: int| 0 <= a < b < priorities@.len() ==> priorities@[a] <= priorities@[b],
            forall|j: int| 0 <= j < i ==> priorities@[j] <= p,
        decreases priorities@.len() - i,
    {
        i = i + 1;
    }
    i
}

/// A summary of errors of one kind.
#[derive(Debug, Clone, PartialEq, Eq)]
pub struct ErrorSummary {
    pub error_type: String,
    pub component: String,
    pub operation: String,
    pub count: u64,
    pub first_seen: u64,
    pub last_seen: u64,
}

/// Recent errors kept in the statistics.
pub const RECENT_ERRORS_LIMIT: usize = 100;

/// Counters of handled errors.
pub struct ErrorStats {
    pub total_errors: u64,
    pub errors_by_type: KeyedTable<u64>,
    pub errors_by_component: KeyedTable<u64>,
    pub recent_errors: Vec<ErrorSummary>,
    /// Errors per minute; not computed, always 0.
    pub error_rate_per_minute: u64,
}

/// The count under `k`, 0 without one.
pub open spec fn count_of(s: Seq<(String, u64)>, k: Seq<char>) -> nat {
    if has_key(s, k) {
        value_of(s, k) as nat
    } else {
        0
    }
}

/// Adds one to the count under `key`.
fn bump(t: &mut KeyedTable<u64>, key: String)
    requires
        old(t).well_formed(),
        count_of(old(t).entries(), key@) < u64::MAX,
    ensures
        final(t).well_formed(),
        final(t).entries() == upserted(old(t).entries(), key, (count_of(old(t).entries(), key@) + 1) as u64),
{
    let n: u64 = match t.get(&key) {
        Some(c) => *c,
        None => 0,
    };
    t.insert(key, n + 1);
}

/// Key of the history entry of an operation in a component.
pub open spec fn history_key(component: Seq<char>, operation: Seq<char>) -> Seq<char> {
    component + "::"@ + operation
}

/// The state of a circuit breaker.
#[derive(Debug, Clone, Copy, PartialEq, Eq, Structural)]
pub enum CircuitBreakerState {
    Closed,
    Open,
    HalfOpen,
}

/// A circuit breaker.
#[derive(Debug, Clone, Copy, PartialEq, Eq, Structural)]
pub struct CircuitBreaker {
    failure_threshold: u32,
    /// Milliseconds an open breaker waits before letting a call through.
    recovery_timeout: u64,
    failure_count: u32,
    last_failure_time: Option<u64>,
    state: CircuitBreakerState,
}

/// The breaker after a failed call at `now`: one more failure, dated
/// `now`, open at the threshold.
pub closed spec fn after_failure(b: CircuitBreaker, now: u64) -> CircuitBreaker {
    let n = (b.failure_count + 1) as u32;
    CircuitBreaker {
        failure_count: n,
        last_failure_time: Some(now),
        state: if n >= b.failure_threshold {
            CircuitBreakerState::Open
        } else {
            b.state
        },
        ..b
    }
}

/// The breaker after a successful call that found it in state `seen`: a
/// call that found it half-open closes it and clears the failures.
pub closed spec fn after_success(b: CircuitBreaker, seen: CircuitBreakerState) -> CircuitBreaker {
    if seen == CircuitBreakerState::HalfOpen {
        CircuitBreaker { failure_count: 0, state: CircuitBreakerState::Closed, ..b }
    } else {
        b
    }
}

/// The breaker after `k` failed calls at the times in `times`.
pub open spec fn after_failures(b: CircuitBreaker, times: Seq<u64>) -> CircuitBreaker
    decreases times.len(),
{
    if times.len() == 0 {
        b
    } else {
        after_failure(after_failures(b, times.drop_last()), times.last())
    }
}

impl CircuitBreaker {
    /// Failures that open the breaker.
    pub closed spec fn threshold(&self) -> u32 {
        self.failure_threshold
    }

    /// Milliseconds an open breaker waits.
    pub closed spec fn timeout(&self) -> u64 {
        self.recovery_timeout
    }

    /// Failures counted.
    pub closed spec fn failures(&self) -> u32 {
        self.failure_count
    }

    /// When the last failure happened.
    pub closed spec fn last_failure(&self) -> Option<u64> {
        self.last_failure_time
    }

    /// The state.
    pub closed spec fn spec_state(&self) -> CircuitBreakerState {
        self.state
    }

    /// A closed breaker with no failure that opens at `failure_threshold`
    /// failures and waits `recovery_timeout` milliseconds when open.
    pub fn new(failure_threshold: u32, recovery_timeout: u64) -> (b: Self)
        ensures
            b.threshold() == failure_threshold,
            b.timeout() == recovery_timeout,
            b.failures() == 0,
            b.last_failure() is None,
            b.spec_state() == CircuitBreakerState::Closed,
            b == Self::new_spec(failure_threshold, recovery_timeout),
    {
        CircuitBreaker {
            failure_threshold,
            recovery_timeout,
            failure_count: 0,
            last_failure_time: None,
            state: CircuitBreakerState::Closed,
        }
    }

    /// The state.
    pub fn get_state(&self) -> (s: CircuitBreakerState)
        ensures
            s == self.spec_state(),
    {
        self.state
    }

    /// Failures counted.
    pub fn failure_count(&self) -> (n: u32)
        ensures
            n == self.failures(),
    {
        self.failure_count
    }

    /// Decides at `now` whether a call may go through.  An open breaker
    /// whose last failure is more than the recovery timeout ago turns
    /// half-open and lets it through; one that failed more recently refuses
    /// with `ServiceUnavailable`.  The state found before any change is
    /// returned, to be handed to `record_success` or `record_failure`.
    pub fn before_call_at(&mut self, now: u64) -> (r: Result<CircuitBreakerState, AppError>)
        ensures
            old(self).spec_state() != CircuitBreakerState::Open ==> r == Ok::<CircuitBreakerState, AppError>(
                old(self).spec_state(),
            ) && *final(self) == *old(self),
            old(self).spec_state() == CircuitBreakerState::Open && old(self).last_failure() is None ==> r == Ok::<
                CircuitBreakerState,
                AppError,
            >(CircuitBreakerState::Open) && *final(self) == *old(self),
            old(self).spec_state() == CircuitBreakerState::Open && old(self).last_failure() is Some ==> {
                let t = old(self).last_failure()->0;
                let elapsed: int = if now >= t {
                    now - t
                } else {
                    0
                };
                &&& elapsed > old(self).timeout() ==> r == Ok::<CircuitBreakerState, AppError>(CircuitBreakerState::Open)
                    && final(self).spec_state() == CircuitBreakerState::HalfOpen && final(self).failures() == old(self).failures()
                    && final(self).last_failure() == old(self).last_failure() && final(self).threshold() == old(self).threshold()
                    && final(self).timeout() == old(self).timeout()
                &&& elapsed <= old(self).timeout() ==> (r matches Err(AppError::ServiceUnavailable(m)) && m@
                    == "Circuit breaker is open"@) && *final(self) == *old(self)
            },
    {
        let seen = self.state;
        if seen == CircuitBreakerState::Open {
            if let Some(t) = self.last_failure_time {
                let elapsed = if now >= t {
                    now - t
                } else {
                    0
                };
                if elapsed > self.recovery_timeout {
                    self.state = CircuitBreakerState::HalfOpen;
                } else {
                    return Err(AppError::ServiceUnavailable(String::from_str("Circuit breaker is open")));
                }
            }
        }
        Ok(seen)
    }

    /// Records that a call let through in state `seen` succeeded.
    pub fn record_success(&mut self, seen: CircuitBreakerState)
        ensures
            *final(self) == after_success(*old(self), seen),
            seen == CircuitBreakerState::HalfOpen ==> final(self).spec_state() == CircuitBreakerState::Closed
                && final(self).failures() == 0,
            seen != CircuitBreakerState::HalfOpen ==> *final(self) == *old(self),
            final(self).threshold() == old(self).threshold(),
            final(self).timeout() == old(self).timeout(),
    {
        if seen == CircuitBreakerState::HalfOpen {
            self.failure_count = 0;
            self.state = CircuitBreakerState::Closed;
        }
    }

    /// Records that a call failed at `now`.
    pub fn record_failure(&mut self, now: u64)
        requires
            old(self).failures() < u32::MAX,
        ensures
            *final(self) == after_failure(*old(self), now),
            final(self).failures() == old(self).failures() + 1,
            final(self).last_failure() == Some(now),
            final(self).threshold() == old(self).threshold(),
            final(self).timeout() == old(self).timeout(),
            final(self).failures() >= old(self).threshold() ==> final(self).spec_state() == CircuitBreakerState::Open,
            final(self).failures() < old(self).threshold() ==> final(self).spec_state() == old(self).spec_state(),
    {
        self.failure_count = self.failure_count + 1;
        self.last_failure_time = Some(now);
        if self.failure_count >= self.failure_threshold {
            self.state = CircuitBreakerState::Open;
        }
    }
}

/// Failures add up: after `k` failed calls the count has grown by `k` and
/// the last failure is dated at the last of them.
pub proof fn lemma_failures_accumulate(b: CircuitBreaker, times: Seq<u64>)
    requires
        b.failures() + times.len() <= u32::MAX,
    ensures
        after_failures(b, times).failures() == b.failures() + times.len(),
        times.len() > 0 ==> after_failures(b, times).last_failure() == Some(times.last()),
        after_failures(b, times).threshold() == b.threshold(),
        after_failures(b, times).timeout() == b.timeout(),
    decreases times.len(),
{
    if times.len() > 0 {
        lemma_failures_accumulate(b, times.drop_last());
    }
}

/// A closed breaker opens once the failures counted reach its threshold,
/// and an open breaker stays open while calls keep failing: failures never
/// close a breaker.
pub proof fn lemma_threshold_failures_open(b: CircuitBreaker, times: Seq<u64>)
    requires
        b.failures() + times.len() <= u32::MAX,
        b.failures() + times.len() >= b.threshold(),
        times.len() > 0,
    ensures
        after_failures(b, times).spec_state() == CircuitBreakerState::Open,
    decreases times.len(),
{
    lemma_failures_accumulate(b, times);
    lemma_failures_accumulate(b, times.drop_last());
}

/// A call that finds a half-open breaker and succeeds closes it with no
/// failure counted.
pub proof fn lemma_half_open_success_closes(b: CircuitBreaker)
    ensures
        after_success(b, CircuitBreakerState::HalfOpen).spec_state() == CircuitBreakerState::Closed,
        after_success(b, CircuitBreakerState::HalfOpen).failures() == 0,
{
}

/// Error summaries by "component::operation", in a concurrent map.
pub type HistoryMap = DashMap<String, ErrorSummary>;

/// What a map of error summaries holds, by key.
pub uninterp spec fn history_entries(m: HistoryMap) -> Map<Seq<char>, ErrorSummary>;

/// No summaries.
pub open spec fn no_history() -> Map<Seq<char>, ErrorSummary> {
    Map::empty()
}

/// An empty map, from `DashMap::new`.
#[verifier::external_body]
fn history_new() -> (m: HistoryMap)
    ensures
        history_entries(m) == no_history(),
{
    DashMap::new()
}

/// `DashMap::get`: a copy of the summary under `key`, if any.
#[verifier::external_body]
fn history_get(m: &HistoryMap, key: &String) -> (r: Option<ErrorSummary>)
    ensures
        r is Some == history_entries(*m).contains_key(key@),
        r matches Some(s) ==> s == history_entries(*m)[key@],
{
    match m.get(key) {
        Some(s) => Some(s.value().clone()),
        None => None,
    }
}

/// `DashMap::insert`: stores `summary` under `key`, in place of one already
/// there.
#[verifier::external_body]
fn history_insert(m: &mut HistoryMap, key: String, summary: ErrorSummary)
    ensures
        history_entries(*final(m)) == history_entries(*old(m)).insert(key@, summary),
{
    m.insert(key, summary);
}

/// Circuit breakers by service, in a concurrent map.
pub type BreakerMap = DashMap<String, CircuitBreaker>;

/// What a map of circuit breakers holds, by service.
pub uninterp spec fn breaker_entries(m: BreakerMap) -> Map<Seq<char>, CircuitBreaker>;

/// No breakers.
pub open spec fn no_breakers() -> Map<Seq<char>, CircuitBreaker> {
    Map::empty()
}

/// Whether `v` lists each breaker of `breakers` once, as its service and
/// state.
pub open spec fn lists_states(v: Seq<(String, CircuitBreakerState)>, breakers: Map<Seq<char>, CircuitBreaker>) -> bool {
    &&& v.len() == breakers.len()
    &&& forall|i: int, j: int| 0 <= i < j < v.len() ==> v[i].0@ != v[j].0@
    &&& forall|i: int| 0 <= i < v.len() ==> breakers.contains_key(#[trigger] v[i].0@) && v[i].1 == breakers[v[i].0@].spec_state()
    &&& forall|k: Seq<char>| #[trigger] breakers.contains_key(k) ==> exists|i: int| 0 <= i < v.len() && v[i].0@ == k
}

/// An empty map, from `DashMap::new`.
#[verifier::external_body]
fn breakers_new() -> (m: BreakerMap)
    ensures
        breaker_entries(m) == no_breakers(),
{
    DashMap::new()
}

/// `DashMap::get`: a copy of the breaker of `service`, if any.
#[verifier::external_body]
fn breakers_get(m: &BreakerMap, service: &String) -> (r: Option<CircuitBreaker>)
    ensures
        r is Some == breaker_entries(*m).contains_key(service@),
        r matches Some(b) ==> b == breaker_entries(*m)[service@],
{
    match m.get(service) {
        Some(b) => Some(*b.value()),
        None => None,
    }
}

/// `DashMap::insert`: stores `breaker` under `service`, in place of one
/// already there.
#[verifier::external_body]
fn breakers_insert(m: &mut BreakerMap, service: String, breaker: CircuitBreaker)
    ensures
        breaker_entries(*final(m)) == breaker_entries(*old(m)).insert(service@, breaker),
{
    m.insert(service, breaker);
}

/// `DashMap::iter`: each breaker once, as its service and state.
#[verifier::external_body]
fn breakers_listed(m: &BreakerMap) -> (v: Vec<(String, CircuitBreakerState)>)
    ensures
        lists_states(v@, breaker_entries(*m)),
{
    m.iter().map(|e| (e.key().clone(), e.value().get_state())).collect()
}

/// The error manager: statistics, history and circuit breakers.
pub struct ErrorManager {
    error_stats: ErrorStats,
    error_history: HistoryMap,
    circuit_breakers: BreakerMap,
}

impl ErrorManager {
    /// The statistics.
    pub closed spec fn total(&self) -> u64 {
        self.error_stats.total_errors
    }

    /// Counts by error type.
    pub closed spec fn by_type(&self) -> Seq<(String, u64)> {
        self.error_stats.errors_by_type.entries()
    }

    /// Counts by component.
    pub closed spec fn by_component(&self) -> Seq<(String, u64)> {
        self.error_stats.errors_by_component.entries()
    }

    /// The most recent errors, oldest first.
    pub closed spec fn recent(&self) -> Seq<ErrorSummary> {
        self.error_stats.recent_errors@
    }

    /// Summaries by "component::operation".
    pub closed spec fn history(&self) -> Map<Seq<char>, ErrorSummary> {
        history_entries(self.error_history)
    }

    /// Circuit breakers by service.
    pub closed spec fn breakers(&self) -> Map<Seq<char>, CircuitBreaker> {
        breaker_entries(self.circuit_breakers)
    }

    /// One count per key, finitely many summaries and breakers, a bounded
    /// list of recent errors, and no error rate computed.
    pub closed spec fn well_formed(&self) -> bool {
        &&& self.error_stats.errors_by_type.well_formed()
        &&& self.error_stats.errors_by_component.well_formed()
        &&& self.history().dom().finite()
        &&& self.breakers().dom().finite()
        &&& self.error_stats.recent_errors@.len() <= RECENT_ERRORS_LIMIT
        &&& self.error_stats.error_rate_per_minute == 0
    }

    /// A manager that has seen no error.
    pub fn new() -> (m: Self)
        ensures
            m.well_formed(),
            m.total() == 0,
            m.by_type().len() == 0,
            m.by_component().len() == 0,
            m.recent().len() == 0,
            m.history() == no_history(),
            m.breakers() == no_breakers(),
    {
        ErrorManager {
            error_stats: ErrorStats {
                total_errors: 0,
                errors_by_type: KeyedTable::new(),
                errors_by_component: KeyedTable::new(),
                recent_errors: Vec::new(),
                error_rate_per_minute: 0,
            },
            error_history: history_new(),
            circuit_breakers: breakers_new(),
        }
    }

    /// Counts `error` raised in `context` at `now`: one more error in
    /// total, for its type and for its component; one more in the summary
    /// of its component and operation (a new summary seen first at `now`);
    /// and a summary of it at the end of the recent errors, of which the
    /// last 100 are kept.
    pub fn update_error_stats(&mut self, error: &AppError, context: &ErrorContext, now: u64)
        requires
            old(self).well_formed(),
            old(self).total() < u64::MAX,
            count_of(old(self).by_type(), error_type_name(*error)) < u64::MAX,
            count_of(old(self).by_component(), context.component@) < u64::MAX,
            old(self).history().contains_key(history_key(context.component@, context.operation@))
                ==> old(self).history()[history_key(context.component@, context.operation@)].count < u64::MAX,
        ensures
            final(self).well_formed(),
            final(self).total() == old(self).total() + 1,
            exists|k: String|
                k@ == error_type_name(*error) && final(self).by_type() == #[trigger] upserted(
                    old(self).by_type(),
                    k,
                    (count_of(old(self).by_type(), error_type_name(*error)) + 1) as u64,
                ),
            final(self).by_component() == upserted(
                old(self).by_component(),
                context.component,
                (count_of(old(self).by_component(), context.component@) + 1) as u64,
            ),
            final(self).recent().len() >= 1,
            final(self).recent().last().error_type@ == error_type_name(*error),
            final(self).recent().last().component == context.component,
            final(self).recent().last().operation == context.operation,
            final(self).recent().last().count == 1,
            final(self).recent().last().first_seen == now,
            final(self).recent().last().last_seen == now,
            old(self).recent().len() < RECENT_ERRORS_LIMIT ==> final(self).recent().drop_last() == old(self).recent(),
            old(self).recent().len() >= RECENT_ERRORS_LIMIT ==> final(self).recent().drop_last() == old(self).recent().drop_first(),
            ({
                let k = history_key(context.component@, context.operation@);
                let s = final(self).history()[k];
                &&& final(self).history().contains_key(k)
                &&& final(self).history() == old(self).history().insert(k, s)
                &&& if old(self).history().contains_key(k) {
                    s == ErrorSummary { count: (old(self).history()[k].count + 1) as u64, last_seen: now, ..old(self).history()[k] }
                } else {
                    s.count == 1 && s.first_seen == now && s.last_seen == now && s.error_type@ == error_type_name(*error)
                        && s.component == context.component && s.operation == context.operation
                }
            }),
            final(self).breakers() == old(self).breakers(),
    {
        let error_type = error_type_of(error);
        let mut key = context.component.clone();
        key.append("::");
        key.append(context.operation.as_str());
        let ghost k = key@;
        proof {
            assert(k == history_key(context.component@, context.operation@));
        }
        let summary = match history_get(&self.error_history, &key) {
            Some(s) => ErrorSummary {
                error_type: s.error_type.clone(),
                component: s.component.clone(),
                operation: s.operation.clone(),
                count: s.count + 1,
                first_seen: s.first_seen,
                last_seen: now,
            },
            None => ErrorSummary {
                error_type: error_type.clone(),
                component: context.component.clone(),
                operation: context.operation.clone(),
                count: 1,
                first_seen: now,
                last_seen: now,
            },
        };
        history_insert(&mut self.error_history, key, summary);
        self.error_stats.total_errors = self.error_stats.total_errors + 1;
        bump(&mut self.error_stats.errors_by_type, error_type.clone());
        bump(&mut self.error_stats.errors_by_component, context.component.clone());
        if self.error_stats.recent_errors.len() >= RECENT_ERRORS_LIMIT {
            self.error_stats.recent_errors.remove(0);
        }
        self.error_stats.recent_errors.push(
            ErrorSummary {
                error_type,
                component: context.component.clone(),
                operation: context.operation.clone(),
                count: 1,
                first_seen: now,
                last_seen: now,
            },
        );
    }

    /// Total errors counted.
    pub fn total_errors(&self) -> (n: u64)
        ensures
            n == self.total(),
    {
        self.error_stats.total_errors
    }

    /// The count of errors of type `error_type`.
    pub fn errors_of_type(&self, error_type: &String) -> (n: u64)
        requires
            self.well_formed(),
        ensures
            n == count_of(self.by_type(), error_type@),
    {
        match self.error_stats.errors_by_type.get(error_type) {
            Some(c) => *c,
            None => 0,
        }
    }

    /// The count of errors raised in `component`.
    pub fn errors_in_component(&self, component: &String) -> (n: u64)
        requires
            self.well_formed(),
        ensures
            n == count_of(self.by_component(), component@),
    {
        match self.error_stats.errors_by_component.get(component) {
            Some(c) => *c,
            None => 0,
        }
    }

    /// The most recent errors, oldest first.
    pub fn recent_errors(&self) -> (v: Vec<ErrorSummary>)
        ensures
            v@ == self.recent(),
    {
        let mut out: Vec<ErrorSummary> = Vec::new();
        let mut i: usize = 0;
        while i < self.error_stats.recent_errors.len()
            invariant
                i <= self.error_stats.recent_errors@.len(),
                out@ == self.error_stats.recent_errors@.take(i as int),
            decreases self.error_stats.recent_errors@.len() - i,
        {
            let e = &self.error_stats.recent_errors[i];
            out.push(
                ErrorSummary {
                    error_type: e.error_type.clone(),
                    component: e.component.clone(),
                    operation: e.operation.clone(),
                    count: e.count,
                    first_seen: e.first_seen,
                    last_seen: e.last_seen,
                },
            );
            proof {
                assert(out@ =~= self.error_stats.recent_errors@.take(i as int + 1));
            }
            i = i + 1;
        }
        proof {
            assert(self.error_stats.recent_errors@.take(self.error_stats.recent_errors@.len() as int)
                =~= self.error_stats.recent_errors@);
        }
        out
    }

    /// A copy of the statistics.
    pub fn get_error_stats(&self) -> (st: ErrorStats)
        requires
            self.well_formed(),
        ensures
            st.total_errors == self.total(),
            st.errors_by_type.entries() == self.by_type(),
            st.errors_by_component.entries() == self.by_component(),
            st.recent_errors@ == self.recent(),
            st.error_rate_per_minute == 0,
    {
        ErrorStats {
            total_errors: self.error_stats.total_errors,
            errors_by_type: self.error_stats.errors_by_type.duplicate(),
            errors_by_component: self.error_stats.errors_by_component.duplicate(),
            recent_errors: self.recent_errors(),
            error_rate_per_minute: 0,
        }
    }

    /// The circuit breaker of `service_name`, made on first use with a
    /// threshold of 5 failures and a recovery timeout of 60 s.
    pub fn get_circuit_breaker(&mut self, service_name: String) -> (b: CircuitBreaker)
        requires
            old(self).well_formed(),
        ensures
            final(self).well_formed(),
            old(self).breakers().contains_key(service_name@) ==> b == old(self).breakers()[service_name@]
                && final(self).breakers() == old(self).breakers(),
            !old(self).breakers().contains_key(service_name@) ==> b == CircuitBreaker::new_spec(5, 60000)
                && final(self).breakers() == old(self).breakers().insert(service_name@, b),
            final(self).total() == old(self).total(),
            final(self).history() == old(self).history(),
    {
        match breakers_get(&self.circuit_breakers, &service_name) {
            Some(b) => b,
            None => {
                let b = CircuitBreaker::new(5, 60000);
                breakers_insert(&mut self.circuit_breakers, service_name, b);
                b
            },
        }
    }

    /// Stores the breaker of `service_name` after a call went through it.
    pub fn put_circuit_breaker(&mut self, service_name: String, breaker: CircuitBreaker)
        requires
            old(self).well_formed(),
        ensures
            final(self).well_formed(),
            final(self).breakers() == old(self).breakers().insert(service_name@, breaker),
            final(self).total() == old(self).total(),
            final(self).history() == old(self).history(),
    {
        breakers_insert(&mut self.circuit_breakers, service_name, breaker);
    }

    /// The state of each circuit breaker, each once, in no particular order.
    pub fn get_circuit_breaker_states(&self) -> (v: Vec<(String, CircuitBreakerState)>)
        ensures
            lists_states(v@, self.breakers()),
    {
        breakers_listed(&self.circuit_breakers)
    }
}

impl CircuitBreaker {
    /// A fresh breaker, as a value.
    pub closed spec fn new_spec(failure_threshold: u32, recovery_timeout: u64) -> CircuitBreaker {
        CircuitBreaker {
            failure_threshold,
            recovery_timeout,
            failure_count: 0,
            last_failure_time: None,
            state: CircuitBreakerState::Closed,
        }
    }
}

} // verus!
