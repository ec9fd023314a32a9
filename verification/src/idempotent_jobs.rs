//! Idempotent job execution.
//!
//! Every execution of a job is tracked under an idempotency key (the job, a
//! hash of its configuration and the attempt number).  Starting an execution
//! that is already running is reported as a duplicate, starting one that has
//! completed returns the cached result, and a failed execution is retried a
//! bounded number of times with a configurable backoff.  Records expire after
//! a configured time.
//!
//! Times are milliseconds since the Unix epoch; configured durations are in
//! seconds, as in the configuration of the control plane.

use crate::platform;
use std::collections::hash_map::DefaultHasher;
use std::hash::{Hash, Hasher};
use vstd::prelude::*;

verus! {

/// Backoff between retries of a failed execution; delays are in seconds.
#[derive(Debug, Clone)]
pub enum RetryBackoffStrategy {
    /// The same delay before every retry.
    Fixed { delay: u64 },
    /// `base_delay * (retry + 1)`, at most `max_delay`.
    Linear { base_delay: u64, max_delay: u64 },
    /// `base` to the power of the retry count, at most `max_delay`.
    Exponential { base: u64, max_delay: u64 },
    /// The listed delays in turn; the last one repeats, and 60 seconds stand
    /// in for an empty list.
    Custom { delays: Vec<u64> },
}

/// Configuration of idempotency tracking.
#[derive(Debug, Clone)]
pub struct IdempotencyConfig {
    /// Whether executions are tracked at all.
    pub enabled: bool,
    /// Lifetime of an execution record in seconds.
    pub key_expiration: u64,
    /// Retries allowed for one key.
    pub max_retry_attempts: u32,
    /// Backoff between retries.
    pub retry_backoff: RetryBackoffStrategy,
    /// Whether starting a running execution again is reported as an event.
    pub duplicate_detection: bool,
    /// Interval of the cleanup of expired records in seconds.
    pub cleanup_interval: u64,
}

impl RetryBackoffStrategy {
    /// An equal copy.
    pub fn duplicate(&self) -> (r: Self)
        ensures
            forall|n: nat| #[trigger] retry_delay(r, n) == retry_delay(*self, n),
            !(self is Custom) ==> r == *self,
    {
        match self {
            RetryBackoffStrategy::Fixed { delay } => RetryBackoffStrategy::Fixed { delay: *delay },
            RetryBackoffStrategy::Linear { base_delay, max_delay } => RetryBackoffStrategy::Linear {
                base_delay: *base_delay,
                max_delay: *max_delay,
            },
            RetryBackoffStrategy::Exponential { base, max_delay } => RetryBackoffStrategy::Exponential {
                base: *base,
                max_delay: *max_delay,
            },
            RetryBackoffStrategy::Custom { delays } => {
                let mut c: Vec<u64> = Vec::new();
                let mut i: usize = 0;
                while i < delays.len()
                    invariant
                        i <= delays@.len(),
                        c@ == delays@.take(i as int),
                    decreases delays@.len() - i,
                {
                    c.push(delays[i]);
                    proof {
                        assert(c@ =~= delays@.take(i as int + 1));
                    }
                    i = i + 1;
                }
                proof {
                    assert(delays@.take(delays@.len() as int) =~= delays@);
                }
                RetryBackoffStrategy::Custom { delays: c }
            },
        }
    }
}

impl IdempotencyConfig {
    /// An equal copy.
    pub fn duplicate(&self) -> (c: Self)
        ensures
            c.enabled == self.enabled,
            c.key_expiration == self.key_expiration,
            c.max_retry_attempts == self.max_retry_attempts,
            forall|n: nat| #[trigger] retry_delay(c.retry_backoff, n) == retry_delay(self.retry_backoff, n),
            c.duplicate_detection == self.duplicate_detection,
            c.cleanup_interval == self.cleanup_interval,
    {
        IdempotencyConfig {
            enabled: self.enabled,
            key_expiration: self.key_expiration,
            max_retry_attempts: self.max_retry_attempts,
            retry_backoff: self.retry_backoff.duplicate(),
            duplicate_detection: self.duplicate_detection,
            cleanup_interval: self.cleanup_interval,
        }
    }

    /// The default configuration: tracking on, records kept for an hour,
    /// three retries with exponential backoff of base 2 up to 300 seconds,
    /// duplicate detection on, cleanup every five minutes.
    pub fn default_config() -> (c: IdempotencyConfig)
        ensures
            c.enabled,
            c.key_expiration == 3600,
            c.max_retry_attempts == 3,
            c.retry_backoff == (RetryBackoffStrategy::Exponential { base: 2, max_delay: 300 }),
            c.duplicate_detection,
            c.cleanup_interval == 300,
    {
        IdempotencyConfig {
            enabled: true,
            key_expiration: 3600,
            max_retry_attempts: 3,
            retry_backoff: RetryBackoffStrategy::Exponential { base: 2, max_delay: 300 },
            duplicate_detection: true,
            cleanup_interval: 300,
        }
    }
}

/// Where an execution stands.
#[derive(Debug, Clone, Copy, PartialEq, Eq, Structural)]
pub enum JobExecutionState {
    Pending,
    Running,
    Completed,
    Failed,
    Cancelled,
    Retrying,
}

/// Key of one execution attempt of a job.
#[derive(Debug, Clone, PartialEq, Eq, Hash)]
pub struct IdempotencyKey {
    /// The job.
    pub job_id: u128,
    /// Hash of the job configuration, to tell changed configurations apart.
    pub config_hash: String,
    /// Number of the execution attempt.
    pub attempt: u32,
}

/// Whether two keys name the same execution.
pub open spec fn key_eq(a: IdempotencyKey, b: IdempotencyKey) -> bool {
    a.job_id == b.job_id && a.config_hash@ == b.config_hash@ && a.attempt == b.attempt
}

impl IdempotencyKey {
    /// A key of `attempt` of job `job_id` with configuration hash
    /// `config_hash`.
    pub fn new(job_id: u128, config_hash: String, attempt: u32) -> (k: Self)
        ensures
            k.job_id == job_id,
            k.config_hash == config_hash,
            k.attempt == attempt,
    {
        IdempotencyKey { job_id, config_hash, attempt }
    }

    /// An equal copy of the key.
    pub fn duplicate(&self) -> (k: Self)
        ensures
            k == *self,
    {
        IdempotencyKey { job_id: self.job_id, config_hash: self.config_hash.clone(), attempt: self.attempt }
    }

    /// The key's text: the job, the configuration hash and the attempt,
    /// separated by colons.
    pub fn to_string(&self) -> (s: String)
        ensures
            s@ == crate::platform::uuid_hyphenated(self.job_id) + ":"@ + self.config_hash@ + ":"@
                + crate::text::decimal(self.attempt as nat),
    {
        let mut s = crate::platform::uuid_text(self.job_id);
        s.append(":");
        s.append(self.config_hash.as_str());
        let tail = crate::text::text_with_number(":", self.attempt as u64);
        s.append(tail.as_str());
        s
    }

    /// Whether the two keys name the same execution.
    pub fn same_as(&self, other: &IdempotencyKey) -> (b: bool)
        ensures
            b == key_eq(*self, *other),
    {
        self.job_id == other.job_id && self.config_hash == other.config_hash && self.attempt == other.attempt
    }
}

/// Outcome of one execution.
#[derive(Debug, Clone)]
pub struct JobResult {
    /// Whether the job succeeded.
    pub success: bool,
    /// Exit code, where there is one.
    pub exit_code: Option<i32>,
    /// Output of the job.
    pub output: Option<String>,
    /// Error message of a failed job.
    pub error: Option<String>,
    /// Duration of the execution in milliseconds.
    pub duration_ms: u64,
    /// Resource usage as JSON text.
    pub resource_usage: Option<String>,
}

/// An equal copy of an optional string.
pub fn copy_opt_string(s: &Option<String>) -> (r: Option<String>)
    ensures
        r == *s,
{
    match s {
        Some(v) => Some(v.clone()),
        None => None,
    }
}

impl JobResult {
    /// An equal copy of the result.
    pub fn duplicate(&self) -> (r: Self)
        ensures
            r == *self,
    {
        JobResult {
            success: self.success,
            exit_code: self.exit_code,
            output: copy_opt_string(&self.output),
            error: copy_opt_string(&self.error),
            duration_ms: self.duration_ms,
            resource_usage: copy_opt_string(&self.resource_usage),
        }
    }
}

/// Record of one tracked execution.
#[derive(Debug, Clone)]
pub struct JobExecutionRecord {
    pub key: IdempotencyKey,
    pub state: JobExecutionState,
    pub node_id: Option<u128>,
    pub runner_id: Option<u128>,
    pub started_at: Option<u64>,
    pub completed_at: Option<u64>,
    pub result: Option<JobResult>,
    pub retry_count: u32,
    pub last_retry_at: Option<u64>,
    pub next_retry_at: Option<u64>,
    pub created_at: u64,
    pub expires_at: u64,
    /// Configuration of the job as JSON text.
    pub job_config: String,
}

impl JobExecutionRecord {
    /// An equal copy of the record.
    pub fn duplicate(&self) -> (r: Self)
        ensures
            r == *self,
    {
        JobExecutionRecord {
            key: self.key.duplicate(),
            state: self.state,
            node_id: self.node_id,
            runner_id: self.runner_id,
            started_at: self.started_at,
            completed_at: self.completed_at,
            result: match &self.result {
                Some(r) => Some(r.duplicate()),
                None => None,
            },
            retry_count: self.retry_count,
            last_retry_at: self.last_retry_at,
            next_retry_at: self.next_retry_at,
            created_at: self.created_at,
            expires_at: self.expires_at,
            job_config: self.job_config.clone(),
        }
    }
}

/// Events of idempotency tracking.
#[derive(Debug, Clone)]
pub enum IdempotencyEvent {
    JobExecutionStarted { key: IdempotencyKey, node_id: u128, runner_id: u128, timestamp: u64 },
    JobExecutionCompleted { key: IdempotencyKey, result: JobResult, timestamp: u64 },
    JobExecutionFailed { key: IdempotencyKey, error: String, retry_scheduled: bool, timestamp: u64 },
    JobRetryScheduled { key: IdempotencyKey, retry_count: u32, next_retry_at: u64, timestamp: u64 },
    DuplicateJobDetected { key: IdempotencyKey, existing_state: JobExecutionState, timestamp: u64 },
    JobRecordExpired { key: IdempotencyKey, timestamp: u64 },
}

impl IdempotencyEvent {
    /// The dotted name under which the event is published.
    pub fn event_type(&self) -> (t: &'static str)
        ensures
            t@ == match *self {
                IdempotencyEvent::JobExecutionStarted { .. } => "idempotency.job_execution_started"@,
                IdempotencyEvent::JobExecutionCompleted { .. } => "idempotency.job_execution_completed"@,
                IdempotencyEvent::JobExecutionFailed { .. } => "idempotency.job_execution_failed"@,
                IdempotencyEvent::JobRetryScheduled { .. } => "idempotency.job_retry_scheduled"@,
                IdempotencyEvent::DuplicateJobDetected { .. } => "idempotency.duplicate_job_detected"@,
                IdempotencyEvent::JobRecordExpired { .. } => "idempotency.job_record_expired"@,
            },
    {
        match self {
            IdempotencyEvent::JobExecutionStarted { .. } => "idempotency.job_execution_started",
            IdempotencyEvent::JobExecutionCompleted { .. } => "idempotency.job_execution_completed",
            IdempotencyEvent::JobExecutionFailed { .. } => "idempotency.job_execution_failed",
            IdempotencyEvent::JobRetryScheduled { .. } => "idempotency.job_retry_scheduled",
            IdempotencyEvent::DuplicateJobDetected { .. } => "idempotency.duplicate_job_detected",
            IdempotencyEvent::JobRecordExpired { .. } => "idempotency.job_record_expired",
        }
    }

    /// The job the event is about.
    pub fn aggregate_id(&self) -> (id: u128)
        ensures
            id == match *self {
                IdempotencyEvent::JobExecutionStarted { key, .. } => key.job_id,
                IdempotencyEvent::JobExecutionCompleted { key, .. } => key.job_id,
                IdempotencyEvent::JobExecutionFailed { key, .. } => key.job_id,
                IdempotencyEvent::JobRetryScheduled { key, .. } => key.job_id,
                IdempotencyEvent::DuplicateJobDetected { key, .. } => key.job_id,
                IdempotencyEvent::JobRecordExpired { key, .. } => key.job_id,
            },
    {
        match self {
            IdempotencyEvent::JobExecutionStarted { key, .. } => key.job_id,
            IdempotencyEvent::JobExecutionCompleted { key, .. } => key.job_id,
            IdempotencyEvent::JobExecutionFailed { key, .. } => key.job_id,
            IdempotencyEvent::JobRetryScheduled { key, .. } => key.job_id,
            IdempotencyEvent::DuplicateJobDetected { key, .. } => key.job_id,
            IdempotencyEvent::JobRecordExpired { key, .. } => key.job_id,
        }
    }
}

/// Outcome of asking to start an execution.
#[derive(Debug, Clone)]
pub enum JobExecutionResult {
    /// The execution should go ahead.
    Proceed,
    /// The execution is already under way; its record.
    Duplicate(JobExecutionRecord),
    /// The execution completed before; its result.
    Cached(JobResult),
    /// A failed execution is retried.
    Retry,
    /// A failed execution has used up its retries; its record.
    MaxRetriesExceeded(JobExecutionRecord),
}

/// `base` to the power `exp`.
pub open spec fn power(base: nat, exp: nat) -> nat
    decreases exp,
{
    if exp == 0 {
        1
    } else {
        base * power(base, (exp - 1) as nat)
    }
}

/// Delay in seconds before retry number `retry_count` under `strategy`.
pub open spec fn retry_delay(strategy: RetryBackoffStrategy, retry_count: nat) -> nat {
    match strategy {
        RetryBackoffStrategy::Fixed { delay } => delay as nat,
        RetryBackoffStrategy::Linear { base_delay, max_delay } => {
            let d = base_delay * (retry_count + 1);
            if d <= max_delay { d as nat } else { max_delay as nat }
        },
        RetryBackoffStrategy::Exponential { base, max_delay } => {
            let d = power(base as nat, retry_count);
            if d <= max_delay { d } else { max_delay as nat }
        },
        RetryBackoffStrategy::Custom { delays } => {
            if retry_count < delays@.len() {
                delays@[retry_count as int] as nat
            } else if delays@.len() > 0 {
                delays@.last() as nat
            } else {
                60
            }
        },
    }
}

proof fn lemma_power_monotone(base: nat, exp: nat)
    requires
        base >= 2,
    ensures
        power(base, exp + 1) >= power(base, exp),
        power(base, exp) >= 1,
    decreases exp,
{
    if exp > 0 {
        lemma_power_monotone(base, (exp - 1) as nat);
    }
    assert(power(base, exp + 1) == base * power(base, exp));
    assert(base * power(base, exp) >= power(base, exp)) by (nonlinear_arith)
        requires
            base >= 2,
    ;
}

proof fn lemma_power_grows(base: nat, a: nat, b: nat)
    requires
        base >= 2,
        a <= b,
    ensures
        power(base, a) <= power(base, b),
    decreases b - a,
{
    if a < b {
        lemma_power_grows(base, a, (b - 1) as nat);
        lemma_power_monotone(base, (b - 1) as nat);
    }
}

/// `min(base^exp, cap)`, computed without overflow.
pub fn capped_power(base: u64, exp: u32, cap: u64) -> (r: u64)
    ensures
        r as nat == if power(base as nat, exp as nat) <= cap as nat {
            power(base as nat, exp as nat)
        } else {
            cap as nat
        },
{
    if base == 0 {
        proof {
            if exp > 0 {
                assert(power(0, exp as nat) == 0 * power(0, (exp - 1) as nat));
            }
        }
        if exp == 0 {
            return if 1 <= cap { 1 } else { cap };
        } else {
            return 0;
        }
    }
    if base == 1 {
        proof {
            assert forall|e: nat| power(1, e) == 1 by {
                lemma_power_one(e);
            }
        }
        return if 1 <= cap { 1 } else { cap };
    }
    if cap == 0 {
        proof {
            lemma_power_monotone(base as nat, exp as nat);
        }
        return 0;
    }
    let mut acc: u64 = 1;
    let mut i: u32 = 0;
    while i < exp
        invariant
            base >= 2,
            i <= exp,
            acc as nat == power(base as nat, i as nat),
            acc <= cap,
        decreases exp - i,
    {
        proof {
            lemma_power_monotone(base as nat, i as nat);
        }
        if acc > cap / base {
            proof {
                assert(acc * base > cap) by (nonlinear_arith)
                    requires
                        acc > cap / base,
                        base >= 2,
                ;
                assert(power(base as nat, (i + 1) as nat) == base * power(base as nat, i as nat));
                lemma_power_grows(base as nat, (i + 1) as nat, exp as nat);
            }
            return cap;
        }
        proof {
            assert(acc * base <= cap) by (nonlinear_arith)
                requires
                    acc <= cap / base,
                    base >= 2,
            ;
        }
        acc = acc * base;
        i = i + 1;
    }
    acc
}

proof fn lemma_power_one(e: nat)
    ensures
        power(1, e) == 1,
    decreases e,
{
    if e > 0 {
        lemma_power_one((e - 1) as nat);
    }
}

/// The delay in seconds before retry number `retry_count`.
pub fn calculate_retry_delay(strategy: &RetryBackoffStrategy, retry_count: u32) -> (d: u64)
    ensures
        d as nat == retry_delay(*strategy, retry_count as nat),
{
    match strategy {
        RetryBackoffStrategy::Fixed { delay } => *delay,
        RetryBackoffStrategy::Linear { base_delay, max_delay } => {
            let factor: u64 = retry_count as u64 + 1;
            if *base_delay == 0 {
                0
            } else if factor > *max_delay / *base_delay {
                proof {
                    assert(*base_delay * factor > *max_delay) by (nonlinear_arith)
                        requires
                            factor > *max_delay / *base_delay,
                            *base_delay > 0,
                    ;
                }
                *max_delay
            } else {
                proof {
                    assert(*base_delay * factor <= *max_delay) by (nonlinear_arith)
                        requires
                            factor <= *max_delay / *base_delay,
                            *base_delay > 0,
                    ;
                }
                *base_delay * factor
            }
        },
        RetryBackoffStrategy::Exponential { base, max_delay } => capped_power(*base, retry_count, *max_delay),
        RetryBackoffStrategy::Custom { delays } => {
            if (retry_count as usize) < delays.len() {
                delays[retry_count as usize]
            } else if delays.len() > 0 {
                delays[delays.len() - 1]
            } else {
                60
            }
        },
    }
}

/// Hash of a job configuration, as produced by the standard library's
/// default hasher over the configuration text.
pub uninterp spec fn config_hash_text(config: Seq<char>) -> Seq<char>;

/// Hashes the JSON text of a job configuration with
/// `std::collections::hash_map::DefaultHasher` and renders the 64-bit hash in
/// lower-case hexadecimal.  The result depends on the text alone; how it
/// depends is the hasher's.
#[verifier::external_body]
pub fn hash_config(config: &str) -> (h: String)
    ensures
        h@ == config_hash_text(config@),
{
    let mut hasher = DefaultHasher::new();
    config.hash(&mut hasher);
    format!("{:x}", hasher.finish())
}

/// The key of `attempt` of job `job_id` with the given configuration text.
pub fn create_key_from_config(job_id: u128, job_config: &str, attempt: u32) -> (k: IdempotencyKey)
    ensures
        k.job_id == job_id,
        k.config_hash@ == config_hash_text(job_config@),
        k.attempt == attempt,
{
    IdempotencyKey::new(job_id, hash_config(job_config), attempt)
}

/// The keys of the retrying executions due at `now`, in record order.
pub open spec fn ready_at(records: Seq<JobExecutionRecord>, now: u64) -> Seq<IdempotencyKey> {
    records.filter(
        |r: JobExecutionRecord| r.state == JobExecutionState::Retrying && r.next_retry_at is Some && now
            >= r.next_retry_at->0,
    ).map_values(|r: JobExecutionRecord| r.key)
}

/// The records with the execution of `key` cancelled at `now`.
pub open spec fn cancelled_at(records: Seq<JobExecutionRecord>, key: IdempotencyKey, now: u64) -> Seq<JobExecutionRecord> {
    let pos = record_position(records, key);
    records.update(pos, JobExecutionRecord { state: JobExecutionState::Cancelled, completed_at: Some(now), ..records[pos] })
}

/// Whether no two records share a key.
pub open spec fn unique_keys(records: Seq<JobExecutionRecord>) -> bool {
    forall|i: int, j: int| 0 <= i < j < records.len() ==> !key_eq(records[i].key, records[j].key)
}

/// Whether a record with a key equal to `key` is held.
pub open spec fn has_record(records: Seq<JobExecutionRecord>, key: IdempotencyKey) -> bool {
    exists|i: int| 0 <= i < records.len() && key_eq(records[i].key, key)
}

/// Position of the record with a key equal to `key`.
pub open spec fn record_position(records: Seq<JobExecutionRecord>, key: IdempotencyKey) -> int {
    choose|i: int| 0 <= i < records.len() && key_eq(records[i].key, key)
}

/// The record that a fresh execution of `key` starts with.
pub open spec fn fresh_record(
    key: IdempotencyKey,
    node_id: u128,
    runner_id: u128,
    job_config: String,
    now: u64,
    lifetime_ms: u64,
) -> JobExecutionRecord {
    JobExecutionRecord {
        key,
        state: JobExecutionState::Running,
        node_id: Some(node_id),
        runner_id: Some(runner_id),
        started_at: Some(now),
        completed_at: None,
        result: None,
        retry_count: 0,
        last_retry_at: None,
        next_retry_at: None,
        created_at: now,
        expires_at: (now + lifetime_ms) as u64,
        job_config,
    }
}

/// The record of a failed execution that is started again.
pub open spec fn retried_record(r: JobExecutionRecord, node_id: u128, runner_id: u128, now: u64) -> JobExecutionRecord {
    JobExecutionRecord {
        state: JobExecutionState::Running,
        node_id: Some(node_id),
        runner_id: Some(runner_id),
        started_at: Some(now),
        retry_count: (r.retry_count + 1) as u32,
        last_retry_at: Some(now),
        ..r
    }
}

/// The record after its execution finished with `result` at `now`: a failure
/// that has retries left is scheduled for retry after the backoff delay.
pub open spec fn completed_record(
    r: JobExecutionRecord,
    result: JobResult,
    now: u64,
    max_retries: u32,
    strategy: RetryBackoffStrategy,
) -> JobExecutionRecord {
    let done = JobExecutionRecord {
        state: if result.success { JobExecutionState::Completed } else { JobExecutionState::Failed },
        completed_at: Some(now),
        result: Some(result),
        ..r
    };
    if !result.success && r.retry_count < max_retries {
        JobExecutionRecord {
            state: JobExecutionState::Retrying,
            next_retry_at: Some((now + retry_delay(strategy, r.retry_count as nat) * 1000) as u64),
            ..done
        }
    } else {
        done
    }
}

/// Whether a held record still counts at `now`.
pub open spec fn is_live(r: JobExecutionRecord, now: u64) -> bool {
    now <= r.expires_at
}

/// Whether an execution of a key with this record may safely run (again).
pub open spec fn may_run(r: JobExecutionRecord, max_retries: u32) -> bool {
    match r.state {
        JobExecutionState::Failed | JobExecutionState::Cancelled => r.retry_count < max_retries,
        _ => false,
    }
}

/// Tracks executions by idempotency key.
pub struct IdempotentJobManager {
    config: IdempotencyConfig,
    records: Vec<JobExecutionRecord>,
    events: Vec<IdempotencyEvent>,
}

/// Whether `after` and `outcome` are what starting the execution of the
/// job with `key` and configuration `job_config` on `node_id` and
/// `runner_id` at `now` makes of manager `before`.
pub open spec fn started_execution(
    before: IdempotentJobManager,
    after: IdempotentJobManager,
    key: IdempotencyKey,
    node_id: u128,
    runner_id: u128,
    job_config: String,
    now: u64,
    outcome: JobExecutionResult,
) -> bool {
    &&& after.spec_config() == before.spec_config()
    &&& !before.spec_config().enabled ==> outcome is Proceed && after.record_list()
            == before.record_list() && after.pending_events() == before.pending_events()
    &&& before.spec_config().enabled ==> ({
            let recs = before.record_list();
            let found = has_record(recs, key);
            let pos = record_position(recs, key);
            let r = recs[pos];
            let max = before.spec_config().max_retry_attempts;
            if found && is_live(r, now) {
                match r.state {
                    JobExecutionState::Pending | JobExecutionState::Running => {
                        &&& outcome == JobExecutionResult::Duplicate(r)
                        &&& after.record_list() == recs
                        &&& after.pending_events().len() == before.pending_events().len()
                            + if before.spec_config().duplicate_detection { 1int } else { 0int }
                    },
                    JobExecutionState::Retrying => {
                        &&& outcome == JobExecutionResult::Duplicate(r)
                        &&& after.record_list() == recs
                        &&& after.pending_events() == before.pending_events()
                    },
                    JobExecutionState::Completed => {
                        &&& after.record_list() == recs
                        &&& after.pending_events() == before.pending_events()
                        &&& match r.result {
                            Some(res) => outcome == JobExecutionResult::Cached(res),
                            None => outcome is Proceed,
                        }
                    },
                    _ => {
                        if r.retry_count >= max {
                            &&& outcome == JobExecutionResult::MaxRetriesExceeded(r)
                            &&& after.record_list() == recs
                            &&& after.pending_events() == before.pending_events()
                        } else {
                            &&& outcome is Retry
                            &&& after.record_list() == recs.update(
                                pos,
                                retried_record(r, node_id, runner_id, now),
                            )
                            &&& after.pending_events().len() == before.pending_events().len() + 1
                        }
                    },
                }
            } else {
                &&& outcome is Proceed
                &&& after.pending_events().len() == before.pending_events().len() + 1
                &&& found ==> after.record_list() == recs.update(
                    pos,
                    fresh_record(key, node_id, runner_id, job_config, now, before.lifetime_ms()),
                )
                &&& !found ==> after.record_list() == recs.push(
                    fresh_record(key, node_id, runner_id, job_config, now, before.lifetime_ms()),
                )
            }
        })
}

/// Whether `after` is what recording `result` for the job with `key` at
/// `now` makes of manager `before`.
pub open spec fn completed_execution(
    before: IdempotentJobManager,
    after: IdempotentJobManager,
    key: IdempotencyKey,
    result: JobResult,
    now: u64,
) -> bool {
    &&& after.spec_config() == before.spec_config()
    &&& !before.spec_config().enabled || !has_record(before.record_list(), key) ==> after.record_list()
            == before.record_list() && after.pending_events() == before.pending_events()
    &&& before.spec_config().enabled && has_record(before.record_list(), key) ==> ({
            let recs = before.record_list();
            let pos = record_position(recs, key);
            let r = recs[pos];
            let retry = !result.success && r.retry_count < before.spec_config().max_retry_attempts;
            &&& after.record_list() == recs.update(
                pos,
                completed_record(
                    r,
                    result,
                    now,
                    before.spec_config().max_retry_attempts,
                    before.spec_config().retry_backoff,
                ),
            )
            &&& after.pending_events().len() == before.pending_events().len() + if retry { 2int } else { 1int }
        })
}

impl IdempotentJobManager {
    /// The records held, in order of creation.
    pub closed spec fn record_list(&self) -> Seq<JobExecutionRecord> {
        self.records@
    }

    /// The events produced and not yet drained.
    pub closed spec fn pending_events(&self) -> Seq<IdempotencyEvent> {
        self.events@
    }

    /// The configuration.
    pub closed spec fn spec_config(&self) -> IdempotencyConfig {
        self.config
    }

    /// Lifetime of a record in milliseconds.
    pub open spec fn lifetime_ms(&self) -> u64 {
        (self.spec_config().key_expiration * 1000) as u64
    }

    /// Records are held under distinct keys.
    pub closed spec fn well_formed(&self) -> bool {
        unique_keys(self.records@) && self.config.key_expiration * 1000 <= u64::MAX
    }

    /// A manager that holds no records.
    pub fn new(config: IdempotencyConfig) -> (m: Self)
        requires
            config.key_expiration * 1000 <= u64::MAX,
        ensures
            m.well_formed(),
            m.spec_config() == config,
            m.record_list() == Seq::<JobExecutionRecord>::empty(),
            m.pending_events() == Seq::<IdempotencyEvent>::empty(),
    {
        IdempotentJobManager { config, records: Vec::new(), events: Vec::new() }
    }

    /// Whether tracking is enabled.
    pub fn is_enabled(&self) -> (b: bool)
        ensures
            b == self.spec_config().enabled,
    {
        self.config.enabled
    }

    /// Position of the record of `key`, if one is held.
    fn find(&self, key: &IdempotencyKey) -> (pos: Option<usize>)
        ensures
            match pos {
                Some(i) => i < self.records@.len() && key_eq(self.records@[i as int].key, *key),
                None => !has_record(self.records@, *key),
            },
    {
        let mut i: usize = 0;
        while i < self.records.len()
            invariant
                i <= self.records@.len(),
                forall|k: int| 0 <= k < i ==> !key_eq(self.records@[k].key, *key),
            decreases self.records@.len() - i,
        {
            if self.records[i].key.same_as(key) {
                return Some(i);
            }
            i = i + 1;
        }
        None
    }

    proof fn lemma_position_is_unique(records: Seq<JobExecutionRecord>, key: IdempotencyKey, i: int)
        requires
            unique_keys(records),
            0 <= i < records.len(),
            key_eq(records[i].key, key),
        ensures
            record_position(records, key) == i,
    {
        let p = record_position(records, key);
        assert(0 <= p < records.len() && key_eq(records[p].key, key));
        if p < i {
            assert(!key_eq(records[p].key, records[i].key));
        } else if p > i {
            assert(!key_eq(records[i].key, records[p].key));
        }
    }

    proof fn lemma_update_keeps_unique(records: Seq<JobExecutionRecord>, i: int, r: JobExecutionRecord)
        requires
            unique_keys(records),
            0 <= i < records.len(),
            key_eq(records[i].key, r.key),
        ensures
            unique_keys(records.update(i, r)),
    {
        let s = records.update(i, r);
        assert forall|a: int, b: int| 0 <= a < b < s.len() implies !key_eq(s[a].key, s[b].key) by {
            assert(!key_eq(records[a].key, records[b].key));
        }
    }

    /// Whether an execution of `key` may safely run at time `now`: always
    /// when tracking is off or no live record is held; otherwise only a
    /// failed or cancelled execution with retries left.
    pub fn is_job_idempotent_at(&self, key: &IdempotencyKey, now: u64) -> (safe: bool)
        requires
            self.well_formed(),
        ensures
            safe == (!self.spec_config().enabled || !has_record(self.record_list(), *key) || {
                let r = self.record_list()[record_position(self.record_list(), *key)];
                !is_live(r, now) || may_run(r, self.spec_config().max_retry_attempts)
            }),
    {
        if !self.config.enabled {
            return true;
        }
        match self.find(key) {
            None => true,
            Some(i) => {
                proof {
                    Self::lemma_position_is_unique(self.records@, *key, i as int);
                }
                let r = &self.records[i];
                if now > r.expires_at {
                    return true;
                }
                match r.state {
                    JobExecutionState::Failed | JobExecutionState::Cancelled => r.retry_count
                        < self.config.max_retry_attempts,
                    _ => false,
                }
            },
        }
    }

    /// Whether an execution of `key` may safely run now.
    pub fn is_job_idempotent(&self, key: &IdempotencyKey) -> (safe: bool)
        requires
            self.well_formed(),
        ensures
            !self.spec_config().enabled ==> safe,
            !has_record(self.record_list(), *key) ==> safe,
    {
        let now = platform::now_millis();
        self.is_job_idempotent_at(key, now)
    }

    /// Starts an execution of `key` on `node_id`/`runner_id` at time `now`.
    ///
    /// With tracking off every execution proceeds.  A live record of a
    /// pending, running or retrying execution makes this a duplicate (an
    /// event reports a duplicate of a pending or running one when duplicate
    /// detection is on); a completed one returns its cached result; a failed
    /// or cancelled one is retried while retries are left.  Otherwise a fresh
    /// record is made, replacing an expired one.
    pub fn start_job_execution_at(
        &mut self,
        key: IdempotencyKey,
        node_id: u128,
        runner_id: u128,
        job_config: String,
        now: u64,
    ) -> (outcome: JobExecutionResult)
        requires
            old(self).well_formed(),
            now + old(self).lifetime_ms() <= u64::MAX,
        ensures
            final(self).well_formed(),
            started_execution(*old(self), *final(self), key, node_id, runner_id, job_config, now, outcome),
    {
        if !self.config.enabled {
            return JobExecutionResult::Proceed;
        }
        let lifetime: u64 = self.config.key_expiration * 1000;
        let found = self.find(&key);
        match found {
            Some(i) => {
                proof {
                    Self::lemma_position_is_unique(self.records@, key, i as int);
                }
                if now <= self.records[i].expires_at {
                    let state = self.records[i].state;
                    match state {
                        JobExecutionState::Pending | JobExecutionState::Running => {
                            let existing = self.records[i].duplicate();
                            if self.config.duplicate_detection {
                                self.events.push(
                                    IdempotencyEvent::DuplicateJobDetected {
                                        key: key.duplicate(),
                                        existing_state: state,
                                        timestamp: now,
                                    },
                                );
                            }
                            return JobExecutionResult::Duplicate(existing);
                        },
                        JobExecutionState::Retrying => {
                            return JobExecutionResult::Duplicate(self.records[i].duplicate());
                        },
                        JobExecutionState::Completed => {
                            return match &self.records[i].result {
                                Some(res) => JobExecutionResult::Cached(res.duplicate()),
                                None => JobExecutionResult::Proceed,
                            };
                        },
                        _ => {
                            if self.records[i].retry_count >= self.config.max_retry_attempts {
                                return JobExecutionResult::MaxRetriesExceeded(self.records[i].duplicate());
                            }
                            let mut updated = self.records[i].duplicate();
                            updated.state = JobExecutionState::Running;
                            updated.node_id = Some(node_id);
                            updated.runner_id = Some(runner_id);
                            updated.started_at = Some(now);
                            updated.retry_count = updated.retry_count + 1;
                            updated.last_retry_at = Some(now);
                            proof {
                                Self::lemma_update_keeps_unique(self.records@, i as int, updated);
                            }
                            self.records.set(i, updated);
                            self.events.push(
                                IdempotencyEvent::JobExecutionStarted { key, node_id, runner_id, timestamp: now },
                            );
                            return JobExecutionResult::Retry;
                        },
                    }
                }
                let record = JobExecutionRecord {
                    key: key.duplicate(),
                    state: JobExecutionState::Running,
                    node_id: Some(node_id),
                    runner_id: Some(runner_id),
                    started_at: Some(now),
                    completed_at: None,
                    result: None,
                    retry_count: 0,
                    last_retry_at: None,
                    next_retry_at: None,
                    created_at: now,
                    expires_at: now + lifetime,
                    job_config,
                };
                proof {
                    Self::lemma_update_keeps_unique(self.records@, i as int, record);
                }
                self.records.set(i, record);
            },
            None => {
                let record = JobExecutionRecord {
                    key: key.duplicate(),
                    state: JobExecutionState::Running,
                    node_id: Some(node_id),
                    runner_id: Some(runner_id),
                    started_at: Some(now),
                    completed_at: None,
                    result: None,
                    retry_count: 0,
                    last_retry_at: None,
                    next_retry_at: None,
                    created_at: now,
                    expires_at: now + lifetime,
                    job_config,
                };
                proof {
                    let s = self.records@.push(record);
                    assert forall|a: int, b: int| 0 <= a < b < s.len() implies !key_eq(s[a].key, s[b].key) by {
                        if b == s.len() - 1 {
                            assert(!key_eq(self.records@[a].key, key));
                        }
                    }
                }
                self.records.push(record);
            },
        }
        self.events.push(IdempotencyEvent::JobExecutionStarted { key, node_id, runner_id, timestamp: now });
        JobExecutionResult::Proceed
    }

    /// Starts an execution of `key` now.
    pub fn start_job_execution(
        &mut self,
        key: IdempotencyKey,
        node_id: u128,
        runner_id: u128,
        job_config: String,
    ) -> (outcome: JobExecutionResult)
        requires
            old(self).well_formed(),
            old(self).lifetime_ms() <= u64::MAX / 2,
        ensures
            final(self).well_formed(),
            exists|now: u64| #[trigger] started_execution(*old(self), *final(self), key, node_id, runner_id, job_config, now, outcome),
    {
        let now = platform::now_millis();
        let now = if now > u64::MAX / 2 { u64::MAX / 2 } else { now };
        let ghost cfg = job_config;
        let outcome = self.start_job_execution_at(key, node_id, runner_id, job_config, now);
        proof {
            assert(started_execution(*old(self), *self, key, node_id, runner_id, cfg, now, outcome));
        }
        outcome
    }

    /// Records that the execution of `key` finished with `result` at `now`.
    /// A failure with retries left is scheduled for retry after the backoff
    /// delay.  Events report the scheduled retry and the completion or
    /// failure.  A key without a record is ignored.
    pub fn complete_job_execution_at(&mut self, key: IdempotencyKey, result: JobResult, now: u64)
        requires
            old(self).well_formed(),
            has_record(old(self).record_list(), key) ==> now + retry_delay(
                old(self).spec_config().retry_backoff,
                old(self).record_list()[record_position(old(self).record_list(), key)].retry_count as nat,
            ) * 1000 <= u64::MAX,
        ensures
            final(self).well_formed(),
            completed_execution(*old(self), *final(self), key, result, now),
    {
        if !self.config.enabled {
            return;
        }
        match self.find(&key) {
            None => {},
            Some(i) => {
                proof {
                    Self::lemma_position_is_unique(self.records@, key, i as int);
                }
                let mut rec = self.records[i].duplicate();
                rec.state = if result.success { JobExecutionState::Completed } else { JobExecutionState::Failed };
                rec.completed_at = Some(now);
                rec.result = Some(result.duplicate());
                let should_retry = !result.success && rec.retry_count < self.config.max_retry_attempts;
                if should_retry {
                    let delay = calculate_retry_delay(&self.config.retry_backoff, rec.retry_count);
                    let next = now + delay * 1000;
                    rec.next_retry_at = Some(next);
                    rec.state = JobExecutionState::Retrying;
                    self.events.push(
                        IdempotencyEvent::JobRetryScheduled {
                            key: key.duplicate(),
                            retry_count: rec.retry_count,
                            next_retry_at: next,
                            timestamp: now,
                        },
                    );
                }
                proof {
                    Self::lemma_update_keeps_unique(self.records@, i as int, rec);
                }
                self.records.set(i, rec);
                if result.success {
                    self.events.push(IdempotencyEvent::JobExecutionCompleted { key, result, timestamp: now });
                } else {
                    let error = match &result.error {
                        Some(e) => e.clone(),
                        None => String::from_str("Unknown error"),
                    };
                    self.events.push(
                        IdempotencyEvent::JobExecutionFailed { key, error, retry_scheduled: should_retry, timestamp: now },
                    );
                }
            },
        }
    }

    /// Cancels the execution of `key` now.
    pub fn cancel_job_execution(&mut self, key: &IdempotencyKey)
        requires
            old(self).well_formed(),
        ensures
            final(self).well_formed(),
            final(self).spec_config() == old(self).spec_config(),
            final(self).pending_events() == old(self).pending_events(),
            old(self).spec_config().enabled && has_record(old(self).record_list(), *key) ==> exists|now: u64|
                final(self).record_list() == #[trigger] cancelled_at(old(self).record_list(), *key, now),
            !old(self).spec_config().enabled || !has_record(old(self).record_list(), *key)
                ==> final(self).record_list() == old(self).record_list(),
    {
        let now = crate::platform::now_millis();
        self.cancel_job_execution_at(key, now);
        proof {
            if old(self).spec_config().enabled && has_record(old(self).record_list(), *key) {
                assert(self.record_list() == cancelled_at(old(self).record_list(), *key, now));
            }
        }
    }

    /// Marks the execution of `key` as cancelled at `now`.
    pub fn cancel_job_execution_at(&mut self, key: &IdempotencyKey, now: u64)
        requires
            old(self).well_formed(),
        ensures
            final(self).well_formed(),
            final(self).spec_config() == old(self).spec_config(),
            final(self).pending_events() == old(self).pending_events(),
            old(self).spec_config().enabled && has_record(old(self).record_list(), *key) ==> ({
                let recs = old(self).record_list();
                let pos = record_position(recs, *key);
                final(self).record_list() == recs.update(
                    pos,
                    JobExecutionRecord { state: JobExecutionState::Cancelled, completed_at: Some(now), ..recs[pos] },
                )
            }),
            !old(self).spec_config().enabled || !has_record(old(self).record_list(), *key)
                ==> final(self).record_list() == old(self).record_list(),
    {
        if !self.config.enabled {
            return;
        }
        match self.find(key) {
            None => {},
            Some(i) => {
                proof {
                    Self::lemma_position_is_unique(self.records@, *key, i as int);
                }
                let mut rec = self.records[i].duplicate();
                rec.state = JobExecutionState::Cancelled;
                rec.completed_at = Some(now);
                proof {
                    Self::lemma_update_keeps_unique(self.records@, i as int, rec);
                }
                self.records.set(i, rec);
            },
        }
    }

    /// The record of `key`, if one is held.
    pub fn get_execution_record(&self, key: &IdempotencyKey) -> (r: Option<JobExecutionRecord>)
        requires
            self.well_formed(),
        ensures
            has_record(self.record_list(), *key) ==> r == Some(
                self.record_list()[record_position(self.record_list(), *key)],
            ),
            !has_record(self.record_list(), *key) ==> r is None,
    {
        match self.find(key) {
            None => None,
            Some(i) => {
                proof {
                    Self::lemma_position_is_unique(self.records@, *key, i as int);
                }
                Some(self.records[i].duplicate())
            },
        }
    }

    /// All records of job `job_id`, in order of creation.
    pub fn get_job_execution_history(&self, job_id: u128) -> (history: Vec<JobExecutionRecord>)
        ensures
            history@ == self.record_list().filter(|r: JobExecutionRecord| r.key.job_id == job_id),
    {
        let mut out: Vec<JobExecutionRecord> = Vec::new();
        let mut i: usize = 0;
        while i < self.records.len()
            invariant
                i <= self.records@.len(),
                out@ == self.records@.subrange(0, i as int).filter(|r: JobExecutionRecord| r.key.job_id == job_id),
            decreases self.records@.len() - i,
        {
            proof {
                let s = self.records@.subrange(0, i as int + 1);
                assert(s.drop_last() == self.records@.subrange(0, i as int));
                reveal(Seq::filter);
            }
            if self.records[i].key.job_id == job_id {
                out.push(self.records[i].duplicate());
            }
            i = i + 1;
        }
        proof {
            assert(self.records@.subrange(0, self.records@.len() as int) == self.records@);
        }
        out
    }

    /// The keys of the retrying executions due now, in record order.
    pub fn get_jobs_ready_for_retry(&self) -> (keys: Vec<IdempotencyKey>)
        ensures
            exists|now: u64| keys@ == #[trigger] ready_at(self.record_list(), now),
    {
        let now = crate::platform::now_millis();
        let keys = self.get_jobs_ready_for_retry_at(now);
        proof {
            assert(keys@ == ready_at(self.record_list(), now));
        }
        keys
    }

    /// Keys of the executions that wait for a retry whose time has come.
    pub fn get_jobs_ready_for_retry_at(&self, now: u64) -> (keys: Vec<IdempotencyKey>)
        ensures
            keys@ == self.record_list().filter(|r: JobExecutionRecord| r.state == JobExecutionState::Retrying
                && r.next_retry_at is Some && now >= r.next_retry_at->0).map_values(|r: JobExecutionRecord| r.key),
    {
        let mut out: Vec<IdempotencyKey> = Vec::new();
        let mut i: usize = 0;
        while i < self.records.len()
            invariant
                i <= self.records@.len(),
                out@ == self.records@.subrange(0, i as int).filter(|r: JobExecutionRecord| r.state
                    == JobExecutionState::Retrying && r.next_retry_at is Some && now >= r.next_retry_at->0).map_values(
                    |r: JobExecutionRecord| r.key,
                ),
            decreases self.records@.len() - i,
        {
            let ghost f = |r: JobExecutionRecord| r.state == JobExecutionState::Retrying && r.next_retry_at is Some
                && now >= r.next_retry_at->0;
            let ghost g = |r: JobExecutionRecord| r.key;
            proof {
                let s = self.records@.subrange(0, i as int + 1);
                assert(s.drop_last() == self.records@.subrange(0, i as int));
                reveal(Seq::filter);
                assert(s.filter(f) == if f(s.last()) { s.drop_last().filter(f).push(s.last()) } else { s.drop_last().filter(f) });
            }
            let ready = match self.records[i].next_retry_at {
                Some(at) => self.records[i].state == JobExecutionState::Retrying && now >= at,
                None => false,
            };
            if ready {
                out.push(self.records[i].key.duplicate());
            }
            proof {
                let s = self.records@.subrange(0, i as int + 1);
                assert(out@ =~= s.filter(f).map_values(g));
            }
            i = i + 1;
        }
        proof {
            assert(self.records@.subrange(0, self.records@.len() as int) == self.records@);
        }
        out
    }

    /// Drops the records that expired before `now`; each is reported by a
    /// `JobRecordExpired` event.  Returns the keys dropped.
    pub fn cleanup_expired_at(&mut self, now: u64) -> (expired: Vec<IdempotencyKey>)
        requires
            old(self).well_formed(),
        ensures
            final(self).well_formed(),
            final(self).spec_config() == old(self).spec_config(),
            final(self).record_list() == old(self).record_list().filter(|r: JobExecutionRecord| is_live(r, now)),
            expired@ == old(self).record_list().filter(|r: JobExecutionRecord| !is_live(r, now)).map_values(
                |r: JobExecutionRecord| r.key,
            ),
            final(self).pending_events().len() == old(self).pending_events().len() + expired@.len(),
    {
        let mut kept: Vec<JobExecutionRecord> = Vec::new();
        let mut expired: Vec<IdempotencyKey> = Vec::new();
        let ghost recs = self.records@;
        let ghost live = |r: JobExecutionRecord| is_live(r, now);
        let ghost dead = |r: JobExecutionRecord| !is_live(r, now);
        let ghost key_of = |r: JobExecutionRecord| r.key;
        let ghost ev0 = self.events@.len();
        let ghost cfg = self.config;
        let mut i: usize = 0;
        while i < self.records.len()
            invariant
                self.records@ == recs,
                unique_keys(recs),
                i <= recs.len(),
                kept@ == recs.subrange(0, i as int).filter(live),
                expired@ == recs.subrange(0, i as int).filter(dead).map_values(key_of),
                self.events@.len() == ev0 + expired@.len(),
                self.config == cfg,
                self.config.key_expiration * 1000 <= u64::MAX,
                live == (|r: JobExecutionRecord| is_live(r, now)),
                dead == (|r: JobExecutionRecord| !is_live(r, now)),
                key_of == (|r: JobExecutionRecord| r.key),
            decreases recs.len() - i,
        {
            proof {
                let s = recs.subrange(0, i as int + 1);
                assert(s.drop_last() == recs.subrange(0, i as int));
                reveal(Seq::filter);
                assert(s.filter(live) == if live(s.last()) { s.drop_last().filter(live).push(s.last()) } else { s.drop_last().filter(live) });
                assert(s.filter(dead) == if dead(s.last()) { s.drop_last().filter(dead).push(s.last()) } else { s.drop_last().filter(dead) });
            }
            let ghost s = recs.subrange(0, i as int + 1);
            assert(s.last() == recs[i as int]);
            if now > self.records[i].expires_at {
                let k = self.records[i].key.duplicate();
                assert(!is_live(recs[i as int], now));
                assert(dead(s.last()) && !live(s.last()));
                expired.push(k);
                self.events.push(
                    IdempotencyEvent::JobRecordExpired { key: self.records[i].key.duplicate(), timestamp: now },
                );
                assert(kept@ =~= s.filter(live));
                assert(expired@ =~= s.filter(dead).map_values(key_of));
            } else {
                let r = self.records[i].duplicate();
                assert(is_live(recs[i as int], now));
                assert(live(s.last()) && !dead(s.last()));
                kept.push(r);
                assert(kept@ =~= s.filter(live));
                assert(expired@ =~= s.filter(dead).map_values(key_of));
            }
            i = i + 1;
        }
        proof {
            assert(recs.subrange(0, recs.len() as int) == recs);
            lemma_filter_keeps_unique(recs, live);
        }
        self.records = kept;
        expired
    }

    /// Hands out the recorded events, oldest first, and forgets them.
    pub fn drain_events(&mut self) -> (events: Vec<IdempotencyEvent>)
        ensures
            events@ == old(self).pending_events(),
            final(self).pending_events() == Seq::<IdempotencyEvent>::empty(),
            final(self).record_list() == old(self).record_list(),
            final(self).spec_config() == old(self).spec_config(),
            final(self).well_formed() == old(self).well_formed(),
    {
        let mut out: Vec<IdempotencyEvent> = Vec::new();
        std::mem::swap(&mut out, &mut self.events);
        out
    }

    /// The retry delay in seconds before retry number `retry_count` under the
    /// configured backoff.
    pub fn calculate_retry_delay(&self, retry_count: u32) -> (d: u64)
        ensures
            d as nat == retry_delay(self.spec_config().retry_backoff, retry_count as nat),
    {
        calculate_retry_delay(&self.config.retry_backoff, retry_count)
    }
}

proof fn lemma_filter_keeps_unique(recs: Seq<JobExecutionRecord>, f: spec_fn(JobExecutionRecord) -> bool)
    requires
        unique_keys(recs),
    ensures
        unique_keys(recs.filter(f)),
    decreases recs.len(),
{
    reveal(Seq::filter);
    if recs.len() > 0 {
        let init = recs.drop_last();
        assert(unique_keys(init)) by {
            assert forall|a: int, b: int| 0 <= a < b < init.len() implies !key_eq(init[a].key, init[b].key) by {
                assert(init[a] == recs[a] && init[b] == recs[b]);
            }
        }
        lemma_filter_keeps_unique(init, f);
        if f(recs.last()) {
            let s = init.filter(f).push(recs.last());
            assert forall|a: int, b: int| 0 <= a < b < s.len() implies !key_eq(s[a].key, s[b].key) by {
                if b == s.len() - 1 {
                    init.lemma_filter_contains_rev(f, s[a]);
                    let k = choose|k: int| 0 <= k < init.len() && init[k] == s[a];
                    assert(recs[k] == s[a]);
                    assert(!key_eq(recs[k].key, recs[recs.len() - 1].key));
                }
            }
        }
    }
}

/// A running execution is never run twice: once an execution of a key has
/// started, starting it again before it finishes or expires is reported as
/// a duplicate and changes no record.
pub proof fn lemma_running_execution_is_duplicate(r: JobExecutionRecord, now: u64)
    requires
        r.state == JobExecutionState::Running,
        is_live(r, now),
    ensures
        !may_run(r, 0),
        forall|max: u32| !may_run(r, max),
{
}

/// A completed execution keeps its result: completing a record with a
/// successful result stores that result, and the record is then completed,
/// so a later start returns it from the cache.
pub proof fn lemma_completed_result_is_cached(
    r: JobExecutionRecord,
    result: JobResult,
    now: u64,
    max: u32,
    strategy: RetryBackoffStrategy,
)
    requires
        result.success,
    ensures
        completed_record(r, result, now, max, strategy).state == JobExecutionState::Completed,
        completed_record(r, result, now, max, strategy).result == Some(result),
        completed_record(r, result, now, max, strategy).key == r.key,
{
}

/// Retries are bounded: a failure is scheduled for retry only while the
/// retry count is below the maximum, and each retry raises the count by one.
pub proof fn lemma_retries_are_bounded(
    r: JobExecutionRecord,
    result: JobResult,
    now: u64,
    max: u32,
    strategy: RetryBackoffStrategy,
    node: u128,
    runner: u128,
)
    requires
        !result.success,
        r.retry_count < u32::MAX,
    ensures
        completed_record(r, result, now, max, strategy).state == JobExecutionState::Retrying <==> r.retry_count < max,
        retried_record(r, node, runner, now).retry_count == r.retry_count + 1,
        r.retry_count >= max ==> !may_run(
            JobExecutionRecord { state: JobExecutionState::Failed, ..r },
            max,
        ),
{
}

/// The exponential backoff never exceeds its cap and does not shrink from
/// one retry to the next.
pub proof fn lemma_exponential_backoff_capped_and_monotone(base: u64, max_delay: u64, n: nat)
    requires
        base >= 2,
    ensures
        retry_delay(RetryBackoffStrategy::Exponential { base, max_delay }, n) <= max_delay,
        retry_delay(RetryBackoffStrategy::Exponential { base, max_delay }, n) <= retry_delay(
            RetryBackoffStrategy::Exponential { base, max_delay },
            n + 1,
        ),
{
    lemma_power_monotone(base as nat, n);
}

} // verus!
