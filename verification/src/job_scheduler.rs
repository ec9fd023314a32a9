//! The job scheduler: four priority queues, a line of delayed and retried
//! jobs, the jobs that run, and their results.
//!
//! Running a job is outside work: the scheduler hands out the jobs to
//! start, and is told how each one ended.  Times are milliseconds since
//! the epoch; delays are whole seconds.

use crate::domain::{priority_name, BackoffStrategy, Job, JobPriority, JobResult, JobStatus, RetryPolicy};
use crate::errors::AppError;
use crate::ids::{has_id, id_upserted, without_id, IdTable};
use crate::job_queue::{InMemoryJobQueue, JobQueueConfig, QueuedJobView};
use crate::keyed::{has_key, lemma_upserted_unique, upserted, value_of, KeyedTable};
use vstd::prelude::*;

verus! {

/// Settings of automatic retries.
#[derive(Debug, Clone, Copy)]
pub struct RetryConfig {
    pub enabled: bool,
    pub max_global_retries: u32,
    /// Seconds.
    pub default_retry_delay: u64,
    /// Longest delay between retries, in seconds.
    pub max_retry_delay: u64,
    pub backoff_multiplier: u64,
}

/// Sizes of the priority queues.
#[derive(Debug, Clone, Copy)]
pub struct PriorityConfig {
    pub enabled: bool,
    pub critical_queue_size: usize,
    pub high_queue_size: usize,
    pub normal_queue_size: usize,
    pub low_queue_size: usize,
}

/// Settings of the scheduler.
#[derive(Debug, Clone, Copy)]
pub struct JobSchedulerConfig {
    pub max_concurrent_jobs: usize,
    /// Seconds.
    pub default_job_timeout: u64,
    pub retry_config: RetryConfig,
    pub priority_config: PriorityConfig,
    pub scheduling_interval_ms: u64,
}

impl JobSchedulerConfig {
    /// Whether these are the default settings: 100 jobs at once, an hour's
    /// time limit, retries on (1000 in all, 30 s growing twofold up to an
    /// hour), queues of 50, 200, 500 and 1000 jobs by priority, a pass every
    /// 100 ms.
    pub open spec fn is_default(&self) -> bool {
        &&& self.max_concurrent_jobs == 100
        &&& self.default_job_timeout == 3600
        &&& self.retry_config.enabled
        &&& self.retry_config.max_global_retries == 1000
        &&& self.retry_config.default_retry_delay == 30
        &&& self.retry_config.max_retry_delay == 3600
        &&& self.retry_config.backoff_multiplier == 2
        &&& self.priority_config.enabled
        &&& self.priority_config.critical_queue_size == 50
        &&& self.priority_config.high_queue_size == 200
        &&& self.priority_config.normal_queue_size == 500
        &&& self.priority_config.low_queue_size == 1000
        &&& self.scheduling_interval_ms == 100
    }

    /// The default settings.
    pub fn default_config() -> (c: Self)
        ensures
            c.is_default(),
    {
        JobSchedulerConfig {
            max_concurrent_jobs: 100,
            default_job_timeout: 3600,
            retry_config: RetryConfig {
                enabled: true,
                max_global_retries: 1000,
                default_retry_delay: 30,
                max_retry_delay: 3600,
                backoff_multiplier: 2,
            },
            priority_config: PriorityConfig {
                enabled: true,
                critical_queue_size: 50,
                high_queue_size: 200,
                normal_queue_size: 500,
                low_queue_size: 1000,
            },
            scheduling_interval_ms: 100,
        }
    }
}

/// The most seconds a delay can hold.
pub open spec fn max_delay_secs() -> int {
    i64::MAX / 1000
}

/// `base` multiplied `k` times by `m`.
pub open spec fn grown(base: nat, m: nat, k: nat) -> nat
    decreases k,
{
    if k == 0 {
        base
    } else {
        grown(base, m, (k - 1) as nat) * m
    }
}

/// The smaller of `a` and `b`.
pub open spec fn at_most(a: int, b: int) -> int {
    if a < b {
        a
    } else {
        b
    }
}

/// Seconds to wait before attempt `attempt` of a job with `policy`, held
/// at `cap`: the base delay; that delay multiplied by the multiplier once
/// per attempt after the first; or grown by the increment once per attempt
/// after the first.  Attempt zero counts one step back.
pub open spec fn retry_delay_secs(policy: RetryPolicy, attempt: nat, cap: nat) -> int {
    let base = policy.retry_delay_secs as nat;
    match policy.backoff_strategy {
        BackoffStrategy::Fixed => base as int,
        BackoffStrategy::Exponential { multiplier } => if attempt == 0 {
            if multiplier == 0 {
                if base == 0 {
                    0
                } else {
                    cap as int
                }
            } else {
                at_most((base / (multiplier as nat)) as int, cap as int)
            }
        } else {
            at_most(grown(base, multiplier as nat, (attempt - 1) as nat) as int, cap as int)
        },
        BackoffStrategy::Linear { increment_secs } => if attempt == 0 {
            at_most(base - increment_secs, cap as int)
        } else {
            at_most(base + increment_secs * (attempt - 1), cap as int)
        },
    }
}

/// A multiplier of one or more never makes a value smaller.
proof fn lemma_grown_grows(base: nat, m: nat, j: nat, k: nat)
    requires
        m >= 1,
        j <= k,
    ensures
        grown(base, m, j) <= grown(base, m, k),
    decreases k - j,
{
    if j < k {
        lemma_grown_grows(base, m, j, (k - 1) as nat);
        let g = grown(base, m, (k - 1) as nat);
        assert(g <= g * m) by (nonlinear_arith)
            requires
                m >= 1,
        ;
    }
}

/// Under exponential backoff with a multiplier of one or more, the delay
/// before a later attempt is never shorter than before an earlier one, and
/// no delay exceeds the cap.
pub proof fn lemma_retry_delays_grow_to_cap(policy: RetryPolicy, a: nat, b: nat, cap: nat)
    requires
        1 <= a <= b,
        policy.backoff_strategy matches BackoffStrategy::Exponential { multiplier } && multiplier >= 1,
    ensures
        retry_delay_secs(policy, a, cap) <= retry_delay_secs(policy, b, cap),
        retry_delay_secs(policy, b, cap) <= cap,
{
    let m = policy.backoff_strategy->multiplier;
    lemma_grown_grows(policy.retry_delay_secs as nat, m as nat, (a - 1) as nat, (b - 1) as nat);
}

/// `min(base * m^k, cap)`, stopping as soon as the cap is passed.
fn capped_growth(base: u64, m: u64, k: u32, cap: u64) -> (r: u64)
    ensures
        r == at_most(grown(base as nat, m as nat, k as nat) as int, cap as int),
{
    if m == 0 {
        if k == 0 {
            return if base < cap {
                base
            } else {
                cap
            };
        }
        proof {
            assert(grown(base as nat, 0, k as nat) == 0) by {
                reveal_with_fuel(grown, 2);
            }
        }
        return 0;
    }
    let mut acc: u64 = base;
    let mut i: u32 = 0;
    while i < k
        invariant
            m >= 1,
            i <= k,
            acc as nat == grown(base as nat, m as nat, i as nat),
            acc <= cap || i == 0,
        decreases k - i,
    {
        if acc > cap {
            proof {
                lemma_grown_grows(base as nat, m as nat, i as nat, k as nat);
            }
            return cap;
        }
        proof {
            assert(acc as u128 * m as u128 <= u64::MAX as u128 * u64::MAX as u128) by (nonlinear_arith)
                requires
                    acc <= u64::MAX,
                    m <= u64::MAX,
            ;
        }
        let next: u128 = acc as u128 * m as u128;
        if next > cap as u128 {
            proof {
                assert(grown(base as nat, m as nat, (i + 1) as nat) == next);
                lemma_grown_grows(base as nat, m as nat, (i + 1) as nat, k as nat);
            }
            return cap;
        }
        acc = next as u64;
        i = i + 1;
    }
    if acc < cap {
        acc
    } else {
        cap
    }
}

/// Seconds to wait before attempt `attempt` of a job with `policy`, held
/// at `cap` seconds.
pub fn calculate_retry_delay(policy: RetryPolicy, attempt: u32, cap: u64) -> (d: i64)
    requires
        policy.retry_delay_secs <= max_delay_secs(),
        cap <= max_delay_secs(),
        policy.backoff_strategy matches BackoffStrategy::Linear { increment_secs } ==> increment_secs
            <= max_delay_secs() && policy.retry_delay_secs + increment_secs * (attempt - 1) <= i64::MAX,
    ensures
        d == retry_delay_secs(policy, attempt as nat, cap as nat),
        -max_delay_secs() <= d <= max_delay_secs(),
{
    let base = policy.retry_delay_secs;
    match policy.backoff_strategy {
        BackoffStrategy::Fixed => base as i64,
        BackoffStrategy::Exponential { multiplier } => {
            if attempt == 0 {
                if multiplier == 0 {
                    if base == 0 {
                        0
                    } else {
                        cap as i64
                    }
                } else {
                    let q = base / multiplier;
                    if q < cap {
                        q as i64
                    } else {
                        cap as i64
                    }
                }
            } else {
                capped_growth(base, multiplier, attempt - 1, cap) as i64
            }
        },
        BackoffStrategy::Linear { increment_secs } => {
            if attempt == 0 {
                let v: i64 = base as i64 - increment_secs as i64;
                if v < cap as i64 {
                    v
                } else {
                    cap as i64
                }
            } else {
                let steps: u64 = (attempt - 1) as u64;
                proof {
                    assert(increment_secs * steps <= i64::MAX);
                    assert(increment_secs * steps <= u64::MAX) by (nonlinear_arith)
                        requires
                            increment_secs * steps <= i64::MAX,
                    ;
                }
                let grow: u64 = increment_secs * steps;
                let v: u64 = base + grow;
                if v < cap {
                    v as i64
                } else {
                    cap as i64
                }
            }
        },
    }
}

/// `prefix`, the text of identifier `id`, then `suffix`.
pub fn text_around_id(prefix: &str, id: u128, suffix: &str) -> (s: String)
    ensures
        s@ == prefix@ + crate::platform::uuid_hyphenated(id) + suffix@,
{
    let mut s = String::from_str(prefix);
    let t = crate::platform::uuid_text(id);
    s.append(t.as_str());
    s.append(suffix);
    s
}

/// How a job is to be run.
#[derive(Debug)]
pub struct JobExecutionContext {
    pub job: Job,
    pub attempt: u32,
    /// When the attempt is due.
    pub scheduled_at: u64,
    pub previous_results: Vec<JobResult>,
    pub metadata: Vec<(String, String)>,
}

/// A job waiting for its time.
#[derive(Debug)]
pub struct ScheduledJob {
    pub context: JobExecutionContext,
    pub next_execution: u64,
    pub retry_delay_secs: i64,
}

/// Counters of the scheduler.  Execution times are milliseconds; the
/// success rate is a whole percent of finished jobs.
#[derive(Debug)]
pub struct JobSchedulerStats {
    pub total_scheduled: u64,
    pub total_completed: u64,
    pub total_failed: u64,
    pub total_retried: u64,
    pub pending_jobs: usize,
    pub running_jobs: usize,
    pub jobs_by_priority: KeyedTable<u64>,
    pub avg_execution_time_ms: u64,
    pub success_rate: u64,
}

impl JobSchedulerStats {
    /// Counters at zero.
    pub fn empty() -> (s: Self)
        ensures
            s.total_scheduled == 0,
            s.total_completed == 0,
            s.total_failed == 0,
            s.total_retried == 0,
            s.pending_jobs == 0,
            s.running_jobs == 0,
            s.jobs_by_priority.entries().len() == 0,
            s.avg_execution_time_ms == 0,
            s.success_rate == 0,
    {
        JobSchedulerStats {
            total_scheduled: 0,
            total_completed: 0,
            total_failed: 0,
            total_retried: 0,
            pending_jobs: 0,
            running_jobs: 0,
            jobs_by_priority: KeyedTable::new(),
            avg_execution_time_ms: 0,
            success_rate: 0,
        }
    }
}

/// Whether the counts `after` are the counts `before` with one more under
/// key `k`.
pub open spec fn counted_once(before: Seq<(String, u64)>, after: Seq<(String, u64)>, k: Seq<char>) -> bool {
    &&& has_key(after, k)
    &&& value_of(after, k) == if has_key(before, k) {
        value_of(before, k) + 1
    } else {
        1
    }
    &&& forall|q: Seq<char>| q != k ==> (#[trigger] has_key(after, q) == has_key(before, q))
    &&& forall|q: Seq<char>| q != k && has_key(before, q) ==> #[trigger] value_of(after, q) == value_of(before, q)
}

/// The running mean after one more value `t`, the `n`-th.
pub open spec fn next_mean(avg: nat, n: nat, t: nat) -> nat {
    if n == 0 {
        t
    } else {
        (avg * ((n - 1) as nat) + t) / n
    }
}

/// Finished jobs that succeeded, in whole percent.
pub open spec fn success_percent(completed: nat, failed: nat) -> nat {
    if completed + failed == 0 {
        0
    } else {
        completed * 100 / (completed + failed)
    }
}

/// The running mean after one more value `t`, the `n`-th.
pub fn mean_update(avg: u64, n: u64, t: u64) -> (r: u64)
    ensures
        r == next_mean(avg as nat, n as nat, t as nat),
{
    if n == 0 {
        return t;
    }
    let m: u64 = n - 1;
    proof {
        assert((avg as nat) * (m as nat) <= (u64::MAX as nat) * (u64::MAX as nat)) by (nonlinear_arith)
            requires
                avg <= u64::MAX,
                m <= u64::MAX,
        ;
        let hi: nat = if avg >= t { avg as nat } else { t as nat };
        assert(avg as nat * (m as nat) + t as nat <= hi * n) by (nonlinear_arith)
            requires
                avg <= hi,
                t <= hi,
                m + 1 == n,
        ;
        assert((avg as nat * (m as nat) + t as nat) / (n as nat) <= hi) by (nonlinear_arith)
            requires
                avg as nat * (m as nat) + t as nat <= hi * n,
                n >= 1,
        ;
    }
    let prod: u128 = avg as u128 * m as u128;
    let total: u128 = prod + t as u128;
    (total / n as u128) as u64
}

fn percent_done(completed: u64, failed: u64) -> (r: u64)
    ensures
        r == success_percent(completed as nat, failed as nat),
{
    let all: u128 = completed as u128 + failed as u128;
    if all == 0 {
        return 0;
    }
    proof {
        assert(completed as nat * 100 / (all as nat) <= 100) by (nonlinear_arith)
            requires
                completed <= all,
                all > 0,
        ;
    }
    ((completed as u128 * 100) / all) as u64
}

impl JobExecutionContext {
    /// An equal copy.
    pub fn duplicate(&self) -> (c: Self)
        ensures
            c.job@ == self.job@,
            c.attempt == self.attempt,
            c.scheduled_at == self.scheduled_at,
            c.previous_results@.len() == self.previous_results@.len(),
            c.metadata@ == self.metadata@,
    {
        let mut previous: Vec<JobResult> = Vec::new();
        let mut i: usize = 0;
        while i < self.previous_results.len()
            invariant
                i <= self.previous_results@.len(),
                previous@.len() == i,
            decreases self.previous_results@.len() - i,
        {
            previous.push(self.previous_results[i].clone());
            i = i + 1;
        }
        JobExecutionContext {
            job: self.job.duplicate(),
            attempt: self.attempt,
            scheduled_at: self.scheduled_at,
            previous_results: previous,
            metadata: crate::domain::copy_pairs(&self.metadata),
        }
    }
}

/// The first attempt of `job`, due at `at`.
pub fn first_attempt(job: Job, at: u64) -> (c: JobExecutionContext)
    ensures
        c.job == job,
        c.attempt == 1,
        c.scheduled_at == at,
        c.previous_results@.len() == 0,
        c.metadata@.len() == 0,
{
    JobExecutionContext { job, attempt: 1, scheduled_at: at, previous_results: Vec::new(), metadata: Vec::new() }
}

/// Whether a queue can count `extra` more jobs taken and one more queued.
pub open spec fn queue_room(q: InMemoryJobQueue, extra: nat) -> bool {
    &&& q.counters().total_processed + extra < u64::MAX
    &&& q.counters().total_queued < u64::MAX
}

/// The scheduler.
pub struct DefaultJobScheduler {
    critical_queue: InMemoryJobQueue,
    high_queue: InMemoryJobQueue,
    normal_queue: InMemoryJobQueue,
    low_queue: InMemoryJobQueue,
    scheduled_jobs: Vec<ScheduledJob>,
    running_jobs: IdTable<JobExecutionContext>,
    job_results: IdTable<JobResult>,
    config: JobSchedulerConfig,
    stats: JobSchedulerStats,
    running: bool,
}

impl DefaultJobScheduler {
    /// The queue of priority `p`.
    pub closed spec fn queue(&self, p: JobPriority) -> InMemoryJobQueue {
        match p {
            JobPriority::Critical => self.critical_queue,
            JobPriority::High => self.high_queue,
            JobPriority::Normal => self.normal_queue,
            JobPriority::Low => self.low_queue,
        }
    }

    /// Delayed and retried jobs, earliest queued first.
    pub closed spec fn scheduled(&self) -> Seq<ScheduledJob> {
        self.scheduled_jobs@
    }

    /// The jobs that run, by job identifier.
    pub closed spec fn running(&self) -> Seq<(u128, JobExecutionContext)> {
        self.running_jobs.entries()
    }

    /// The results of finished jobs, by job identifier.
    pub closed spec fn results(&self) -> Seq<(u128, JobResult)> {
        self.job_results.entries()
    }

    /// The counters.
    pub closed spec fn counters(&self) -> JobSchedulerStats {
        self.stats
    }

    /// The settings.
    pub closed spec fn settings(&self) -> JobSchedulerConfig {
        self.config
    }

    /// Whether the scheduler was started.
    pub closed spec fn started(&self) -> bool {
        self.running
    }

    /// Sound queues and one entry per job in each table.
    pub closed spec fn well_formed(&self) -> bool {
        &&& self.critical_queue.well_formed()
        &&& self.high_queue.well_formed()
        &&& self.normal_queue.well_formed()
        &&& self.low_queue.well_formed()
        &&& self.running_jobs.well_formed()
        &&& self.job_results.well_formed()
        &&& self.stats.jobs_by_priority.well_formed()
    }

    /// A stopped scheduler with `config`, empty queues of the default size,
    /// and counters at zero.
    pub fn new(config: JobSchedulerConfig) -> (s: Self)
        ensures
            s.well_formed(),
            s.settings() == config,
            !s.started(),
            forall|p: JobPriority| #[trigger] s.queue(p).waiting().len() == 0,
            forall|p: JobPriority| #[trigger] s.queue(p).known().len() == 0,
            forall|p: JobPriority| #[trigger] s.queue(p).spec_config().max_queue_size == 10000,
            s.scheduled().len() == 0,
            s.running().len() == 0,
            s.results().len() == 0,
            s.counters().total_scheduled == 0,
            s.counters().total_completed == 0,
            s.counters().total_failed == 0,
            s.counters().total_retried == 0,
            s.counters().jobs_by_priority.entries().len() == 0,
    {
        DefaultJobScheduler {
            critical_queue: InMemoryJobQueue::new(JobQueueConfig::default_config()),
            high_queue: InMemoryJobQueue::new(JobQueueConfig::default_config()),
            normal_queue: InMemoryJobQueue::new(JobQueueConfig::default_config()),
            low_queue: InMemoryJobQueue::new(JobQueueConfig::default_config()),
            scheduled_jobs: Vec::new(),
            running_jobs: IdTable::new(),
            job_results: IdTable::new(),
            config,
            stats: JobSchedulerStats {
                total_scheduled: 0,
                total_completed: 0,
                total_failed: 0,
                total_retried: 0,
                pending_jobs: 0,
                running_jobs: 0,
                jobs_by_priority: KeyedTable::new(),
                avg_execution_time_ms: 0,
                success_rate: 0,
            },
            running: false,
        }
    }

    /// Whether another job may start.
    pub fn can_execute_job(&self) -> (b: bool)
        ensures
            b == (self.running().len() < self.settings().max_concurrent_jobs),
    {
        self.running_jobs.len() < self.config.max_concurrent_jobs
    }

    /// Queues `job` at `now` in the queue of its priority, and counts it.
    /// A full queue refuses it with `ResourceExhausted`, and nothing
    /// changes.
    pub fn schedule_job_at(&mut self, job: Job, now: u64) -> (r: Result<(), AppError>)
        requires
            old(self).well_formed(),
            old(self).queue(job.priority).counters().total_queued < u64::MAX,
            old(self).counters().total_scheduled < u64::MAX,
            has_key(old(self).counters().jobs_by_priority.entries(), priority_name(job.priority)) ==> value_of(
                old(self).counters().jobs_by_priority.entries(),
                priority_name(job.priority),
            ) < u64::MAX,
        ensures
            final(self).well_formed(),
            forall|p: JobPriority| p != job.priority ==> #[trigger] final(self).queue(p) == old(self).queue(p),
            final(self).queue(job.priority).spec_config() == old(self).queue(job.priority).spec_config(),
            (r is Err) == (old(self).queue(job.priority).waiting().len() >= old(self).queue(
                job.priority,
            ).spec_config().max_queue_size),
            r is Err ==> r matches Err(AppError::ResourceExhausted(_)),
            r is Err ==> final(self).queue(job.priority).waiting() == old(self).queue(job.priority).waiting(),
            r is Err ==> final(self).counters() == old(self).counters(),
            r is Ok ==> final(self).queue(job.priority).waiting() == old(self).queue(job.priority).waiting().push(
                QueuedJobView {
                    job: job@,
                    queued_at: now,
                    sequence: old(self).queue(job.priority).next_seq(),
                    attempts: 0,
                    last_attempt: None,
                    assigned_runner: None,
                },
            ),
            r is Ok ==> final(self).counters().total_scheduled == old(self).counters().total_scheduled + 1,
            r is Ok ==> counted_once(
                old(self).counters().jobs_by_priority.entries(),
                final(self).counters().jobs_by_priority.entries(),
                priority_name(job.priority),
            ),
            r is Ok ==> final(self).counters().total_completed == old(self).counters().total_completed,
            r is Ok ==> final(self).counters().total_failed == old(self).counters().total_failed,
            r is Ok ==> final(self).counters().total_retried == old(self).counters().total_retried,
            final(self).scheduled() == old(self).scheduled(),
            final(self).running() == old(self).running(),
            final(self).results() == old(self).results(),
            final(self).settings() == old(self).settings(),
            final(self).started() == old(self).started(),
    {
        let p = job.priority;
        let name = p.name();
        let r = match p {
            JobPriority::Critical => self.critical_queue.enqueue_at(job, now),
            JobPriority::High => self.high_queue.enqueue_at(job, now),
            JobPriority::Normal => self.normal_queue.enqueue_at(job, now),
            JobPriority::Low => self.low_queue.enqueue_at(job, now),
        };
        if r.is_ok() {
            self.stats.total_scheduled = self.stats.total_scheduled + 1;
            count_one_more(&mut self.stats.jobs_by_priority, name);
        }
        r
    }

    /// Queues `job` now.
    pub fn schedule_job(&mut self, job: Job) -> (r: Result<(), AppError>)
        requires
            old(self).well_formed(),
            old(self).queue(job.priority).counters().total_queued < u64::MAX,
            old(self).counters().total_scheduled < u64::MAX,
            has_key(old(self).counters().jobs_by_priority.entries(), priority_name(job.priority)) ==> value_of(
                old(self).counters().jobs_by_priority.entries(),
                priority_name(job.priority),
            ) < u64::MAX,
        ensures
            final(self).well_formed(),
            (r is Err) == (old(self).queue(job.priority).waiting().len() >= old(self).queue(
                job.priority,
            ).spec_config().max_queue_size),
            r is Ok ==> final(self).queue(job.priority).waiting().len() == old(self).queue(job.priority).waiting().len()
                + 1,
            r is Ok ==> final(self).counters().total_scheduled == old(self).counters().total_scheduled + 1,
            r is Err ==> (r matches Err(AppError::ResourceExhausted(_))) && final(self).queue(job.priority).waiting()
                == old(self).queue(job.priority).waiting() && final(self).counters() == old(self).counters(),
            r is Ok ==> exists|now: u64|
                final(self).queue(job.priority).waiting() == old(self).queue(job.priority).waiting().push(
                    #[trigger] crate::job_queue::queued_view(job@, now, old(self).queue(job.priority).next_seq()),
                ),
            r is Ok ==> counted_once(
                old(self).counters().jobs_by_priority.entries(),
                final(self).counters().jobs_by_priority.entries(),
                priority_name(job.priority),
            ),
            forall|p: JobPriority| p != job.priority ==> #[trigger] final(self).queue(p) == old(self).queue(p),
            final(self).scheduled() == old(self).scheduled(),
            final(self).running() == old(self).running(),
            final(self).results() == old(self).results(),
            final(self).settings() == old(self).settings(),
            final(self).started() == old(self).started(),
    {
        let now = crate::platform::now_millis();
        let ghost v = job@;
        let ghost p = job.priority;
        let r = self.schedule_job_at(job, now);
        proof {
            assert(crate::job_queue::queued_view(v, now, old(self).queue(p).next_seq()) == (QueuedJobView {
                job: v,
                queued_at: now,
                sequence: old(self).queue(p).next_seq(),
                attempts: 0,
                last_attempt: None,
                assigned_runner: None,
            }));
        }
        r
    }

    /// Puts `job` aside to run `delay_secs` seconds after `now`, as its
    /// first attempt, and counts it.
    pub fn schedule_job_with_delay_at(&mut self, job: Job, delay_secs: i64, now: u64) -> (r: Result<(), AppError>)
        requires
            old(self).counters().total_scheduled < u64::MAX,
            0 <= now + delay_secs * 1000 <= u64::MAX,
        ensures
            r is Ok,
            final(self).scheduled().len() == old(self).scheduled().len() + 1,
            final(self).scheduled().drop_last() == old(self).scheduled(),
            final(self).scheduled().last().context.job == job,
            final(self).scheduled().last().context.attempt == 1,
            final(self).scheduled().last().context.scheduled_at == now + delay_secs * 1000,
            final(self).scheduled().last().next_execution == now + delay_secs * 1000,
            final(self).scheduled().last().retry_delay_secs == delay_secs,
            final(self).counters().total_scheduled == old(self).counters().total_scheduled + 1,
            final(self).counters().jobs_by_priority == old(self).counters().jobs_by_priority,
            forall|p: JobPriority| #[trigger] final(self).queue(p) == old(self).queue(p),
            final(self).running() == old(self).running(),
            final(self).results() == old(self).results(),
            final(self).settings() == old(self).settings(),
            final(self).started() == old(self).started(),
            final(self).well_formed() == old(self).well_formed(),
    {
        let next: u64 = (now as i128 + delay_secs as i128 * 1000) as u64;
        let entry = ScheduledJob { context: first_attempt(job, next), next_execution: next, retry_delay_secs: delay_secs };
        self.scheduled_jobs.push(entry);
        self.stats.total_scheduled = self.stats.total_scheduled + 1;
        proof {
            assert(self.scheduled_jobs@.drop_last() =~= old(self).scheduled_jobs@);
        }
        Ok(())
    }

    /// Starts the scheduler; one already started is refused with
    /// `BadRequest`.
    pub fn start(&mut self) -> (r: Result<(), AppError>)
        ensures
            old(self).started() ==> (r matches Err(AppError::BadRequest(m)) && m@ == "Job scheduler is already running"@),
            !old(self).started() ==> r is Ok,
            final(self).started(),
            forall|p: JobPriority| #[trigger] final(self).queue(p) == old(self).queue(p),
            final(self).scheduled() == old(self).scheduled(),
            final(self).running() == old(self).running(),
            final(self).results() == old(self).results(),
            final(self).counters() == old(self).counters(),
            final(self).settings() == old(self).settings(),
            final(self).well_formed() == old(self).well_formed(),
    {
        if self.running {
            return Err(AppError::BadRequest(String::from_str("Job scheduler is already running")));
        }
        self.running = true;
        Ok(())
    }

    /// Stops the scheduler.
    pub fn stop(&mut self) -> (r: Result<(), AppError>)
        ensures
            r is Ok,
            !final(self).started(),
            forall|p: JobPriority| #[trigger] final(self).queue(p) == old(self).queue(p),
            final(self).scheduled() == old(self).scheduled(),
            final(self).running() == old(self).running(),
            final(self).results() == old(self).results(),
            final(self).counters() == old(self).counters(),
            final(self).settings() == old(self).settings(),
            final(self).well_formed() == old(self).well_formed(),
    {
        self.running = false;
        Ok(())
    }

    /// Where job `job_id` stands: running, finished with its result's
    /// status, or queued (put aside, or known to a priority queue).
    pub fn get_job_status(&self, job_id: u128) -> (r: Option<JobStatus>)
        requires
            self.well_formed(),
        ensures
            has_id(self.running(), job_id) ==> r == Some(JobStatus::Running),
            !has_id(self.running(), job_id) && has_id(self.results(), job_id) ==> r == Some(
                crate::ids::value_at_id(self.results(), job_id).status,
            ),
            !has_id(self.running(), job_id) && !has_id(self.results(), job_id) ==> (r == if put_aside(
                self.scheduled(),
                job_id,
            ) || queued_anywhere(self, job_id) {
                Some(JobStatus::Queued)
            } else {
                None::<JobStatus>
            }),
    {
        if self.running_jobs.get(job_id).is_some() {
            return Some(JobStatus::Running);
        }
        match self.job_results.get(job_id) {
            Some(res) => {
                return Some(res.status);
            },
            None => {},
        }
        let mut i: usize = 0;
        while i < self.scheduled_jobs.len()
            invariant
                i <= self.scheduled_jobs@.len(),
                !has_id(self.running(), job_id),
                !has_id(self.results(), job_id),
                forall|j: int| 0 <= j < i ==> #[trigger] self.scheduled_jobs@[j].context.job.id != job_id,
            decreases self.scheduled_jobs@.len() - i,
        {
            if self.scheduled_jobs[i].context.job.id == job_id {
                return Some(JobStatus::Queued);
            }
            i = i + 1;
        }
        if self.critical_queue.get_job(job_id).is_some() || self.high_queue.get_job(job_id).is_some()
            || self.normal_queue.get_job(job_id).is_some() || self.low_queue.get_job(job_id).is_some() {
            return Some(JobStatus::Queued);
        }
        None
    }

    /// Records that `job` starts its first attempt at `now`, and answers a
    /// copy of what was recorded.
    pub fn execute_job_at(&mut self, job: Job, now: u64) -> (c: JobExecutionContext)
        requires
            old(self).well_formed(),
        ensures
            final(self).well_formed(),
            c.job@ == job@,
            c.attempt == 1,
            c.scheduled_at == now,
            has_id(final(self).running(), job.id),
            crate::ids::value_at_id(final(self).running(), job.id).job@ == job@,
            crate::ids::value_at_id(final(self).running(), job.id).attempt == 1,
            crate::ids::value_at_id(final(self).running(), job.id).scheduled_at == now,
            final(self).running() == id_upserted(
                old(self).running(),
                job.id,
                crate::ids::value_at_id(final(self).running(), job.id),
            ),
            forall|p: JobPriority| #[trigger] final(self).queue(p) == old(self).queue(p),
            final(self).scheduled() == old(self).scheduled(),
            final(self).results() == old(self).results(),
            final(self).counters() == old(self).counters(),
            final(self).settings() == old(self).settings(),
            final(self).started() == old(self).started(),
    {
        let id = job.id;
        let context = first_attempt(job, now);
        let copy = context.duplicate();
        let ghost stored = context;
        self.running_jobs.insert(id, context);
        proof {
            crate::ids::lemma_id_upserted_unique(old(self).running_jobs.entries(), id, stored);
        }
        copy
    }

    /// Cancels job `job_id`: the first priority queue (from critical to
    /// low) that knows it forgets it and drops its waiting copies; failing
    /// that, every put-aside copy is dropped.  A running job is left alone.
    /// Returns whether anything was cancelled.
    pub fn cancel_job(&mut self, job_id: u128) -> (r: bool)
        requires
            old(self).well_formed(),
        ensures
            final(self).well_formed(),
            r == (first_holder(old(self), job_id) is Some || put_aside(old(self).scheduled(), job_id)),
            first_holder(old(self), job_id) is Some ==> removed_from(
                old(self).queue(first_holder(old(self), job_id)->0),
                final(self).queue(first_holder(old(self), job_id)->0),
                job_id,
            ),
            forall|p: JobPriority|
                Some(p) != first_holder(old(self), job_id) ==> #[trigger] final(self).queue(p) == old(self).queue(p),
            first_holder(old(self), job_id) is Some ==> final(self).scheduled() == old(self).scheduled(),
            first_holder(old(self), job_id) is None ==> final(self).scheduled() == old(self).scheduled().filter(
                |sj: ScheduledJob| sj.context.job.id != job_id,
            ),
            final(self).running() == old(self).running(),
            final(self).results() == old(self).results(),
            final(self).counters() == old(self).counters(),
            final(self).settings() == old(self).settings(),
            final(self).started() == old(self).started(),
    {
        if self.critical_queue.get_job(job_id).is_some() {
            self.critical_queue.remove_job(job_id);
            return true;
        }
        if self.high_queue.get_job(job_id).is_some() {
            self.high_queue.remove_job(job_id);
            return true;
        }
        if self.normal_queue.get_job(job_id).is_some() {
            self.normal_queue.remove_job(job_id);
            return true;
        }
        if self.low_queue.get_job(job_id).is_some() {
            self.low_queue.remove_job(job_id);
            return true;
        }
        let ghost before = self.scheduled_jobs@;
        let ghost keep = |sj: ScheduledJob| sj.context.job.id != job_id;
        let mut rest: Vec<ScheduledJob> = Vec::new();
        std::mem::swap(&mut rest, &mut self.scheduled_jobs);
        let mut kept: Vec<ScheduledJob> = Vec::new();
        let mut found = false;
        let ghost mut k: int = 0;
        while rest.len() > 0
            invariant
                0 <= k <= before.len(),
                rest@ == before.skip(k),
                kept@ == before.take(k).filter(keep),
                found == exists|i: int| 0 <= i < k && #[trigger] before[i].context.job.id == job_id,
                keep == (|sj: ScheduledJob| sj.context.job.id != job_id),
            decreases rest@.len(),
        {
            let x = rest.remove(0);
            proof {
                assert(before.take(k + 1) =~= before.take(k).push(before[k]));
                crate::concurrency::lemma_filter_snoc(before.take(k), before[k], keep);
                assert(rest@ =~= before.skip(k + 1));
            }
            if x.context.job.id != job_id {
                kept.push(x);
            } else {
                found = true;
            }
            proof {
                k = k + 1;
            }
        }
        proof {
            assert(before.take(k) =~= before);
        }
        self.scheduled_jobs = kept;
        found
    }

    /// Brings the counts of running and pending jobs up to date and
    /// answers a copy of the counters.
    pub fn get_stats(&mut self) -> (st: JobSchedulerStats)
        requires
            old(self).queue(JobPriority::Critical).waiting().len() + old(self).queue(JobPriority::High).waiting().len()
                + old(self).queue(JobPriority::Normal).waiting().len() + old(self).queue(
                JobPriority::Low,
            ).waiting().len() + old(self).scheduled().len() <= usize::MAX,
        ensures
            final(self).counters().running_jobs == old(self).running().len(),
            final(self).counters().pending_jobs == old(self).queue(JobPriority::Critical).waiting().len()
                + old(self).queue(JobPriority::High).waiting().len() + old(self).queue(JobPriority::Normal).waiting().len()
                + old(self).queue(JobPriority::Low).waiting().len() + old(self).scheduled().len(),
            final(self).counters() == (JobSchedulerStats {
                running_jobs: final(self).counters().running_jobs,
                pending_jobs: final(self).counters().pending_jobs,
                ..old(self).counters()
            }),
            st.total_scheduled == final(self).counters().total_scheduled,
            st.total_completed == final(self).counters().total_completed,
            st.total_failed == final(self).counters().total_failed,
            st.total_retried == final(self).counters().total_retried,
            st.pending_jobs == final(self).counters().pending_jobs,
            st.running_jobs == final(self).counters().running_jobs,
            st.jobs_by_priority.entries() == final(self).counters().jobs_by_priority.entries(),
            st.avg_execution_time_ms == final(self).counters().avg_execution_time_ms,
            st.success_rate == final(self).counters().success_rate,
            forall|p: JobPriority| #[trigger] final(self).queue(p) == old(self).queue(p),
            final(self).scheduled() == old(self).scheduled(),
            final(self).running() == old(self).running(),
            final(self).results() == old(self).results(),
            final(self).settings() == old(self).settings(),
            final(self).started() == old(self).started(),
            final(self).well_formed() == old(self).well_formed(),
    {
        self.stats.running_jobs = self.running_jobs.len();
        let pending = self.critical_queue.size() + self.high_queue.size() + self.normal_queue.size()
            + self.low_queue.size() + self.scheduled_jobs.len();
        self.stats.pending_jobs = pending;
        JobSchedulerStats {
            total_scheduled: self.stats.total_scheduled,
            total_completed: self.stats.total_completed,
            total_failed: self.stats.total_failed,
            total_retried: self.stats.total_retried,
            pending_jobs: self.stats.pending_jobs,
            running_jobs: self.stats.running_jobs,
            jobs_by_priority: self.stats.jobs_by_priority.duplicate(),
            avg_execution_time_ms: self.stats.avg_execution_time_ms,
            success_rate: self.stats.success_rate,
        }
    }

    /// Records how the running job `job_id` ended at `now`, `elapsed_ms`
    /// after it was handed out.  Success keeps a successful result and
    /// counts it; a failure with attempts left (and retries on) puts the
    /// next attempt aside for after its retry delay; any other failure
    /// keeps a failed result with the error.  The job no longer runs.
    /// Returns whether the job was running; if not, nothing changes.
    pub fn complete_job_at(
        &mut self,
        job_id: u128,
        outcome: Result<(), String>,
        elapsed_ms: u64,
        now: u64,
    ) -> (was_running: bool)
        requires
            old(self).well_formed(),
            has_id(old(self).running(), job_id) ==> completion_fits(
                old(self),
                crate::ids::value_at_id(old(self).running(), job_id),
                outcome is Ok,
                now,
            ),
        ensures
            final(self).well_formed(),
            was_running == has_id(old(self).running(), job_id),
            !was_running ==> final(self).running() == old(self).running() && final(self).results() == old(
                self,
            ).results() && final(self).scheduled() == old(self).scheduled() && final(self).counters() == old(
                self,
            ).counters(),
            was_running ==> final(self).running() == without_id(old(self).running(), job_id),
            was_running ==> ended_as(
                old(self),
                final(self),
                job_id,
                crate::ids::value_at_id(old(self).running(), job_id),
                outcome,
                elapsed_ms,
                now,
            ),
            forall|p: JobPriority| #[trigger] final(self).queue(p) == old(self).queue(p),
            final(self).settings() == old(self).settings(),
            final(self).started() == old(self).started(),
    {
        let ctx = match self.running_jobs.remove(job_id) {
            Some(c) => c,
            None => {
                return false;
            },
        };
        let started_at = if now >= elapsed_ms {
            now - elapsed_ms
        } else {
            0
        };
        match outcome {
            Ok(()) => {
                let result = JobResult {
                    job_id,
                    status: JobStatus::Success,
                    exit_code: Some(0),
                    stdout: String::from_str("Job completed successfully"),
                    stderr: String::new(),
                    started_at,
                    finished_at: Some(now),
                    error_message: None,
                };
                let ghost kept = result;
                self.job_results.insert(job_id, result);
                proof {
                    crate::ids::lemma_id_upserted_unique(old(self).job_results.entries(), job_id, kept);
                }
                self.stats.total_completed = self.stats.total_completed + 1;
                self.stats.avg_execution_time_ms = mean_update(
                    self.stats.avg_execution_time_ms,
                    self.stats.total_completed,
                    elapsed_ms,
                );
                self.stats.success_rate = percent_done(self.stats.total_completed, self.stats.total_failed);
            },
            Err(e) => {
                if ctx.attempt < ctx.job.retry_policy.max_retries && self.config.retry_config.enabled {
                    let delay = calculate_retry_delay(
                        ctx.job.retry_policy,
                        ctx.attempt + 1,
                        self.config.retry_config.max_retry_delay,
                    );
                    let next: u64 = now + (delay as u64) * 1000;
                    let entry = ScheduledJob {
                        context: JobExecutionContext {
                            job: ctx.job,
                            attempt: ctx.attempt + 1,
                            scheduled_at: next,
                            previous_results: ctx.previous_results,
                            metadata: ctx.metadata,
                        },
                        next_execution: next,
                        retry_delay_secs: delay,
                    };
                    self.scheduled_jobs.push(entry);
                    self.stats.total_retried = self.stats.total_retried + 1;
                    proof {
                        assert(self.scheduled_jobs@.drop_last() =~= old(self).scheduled_jobs@);
                    }
                } else {
                    let result = JobResult {
                        job_id,
                        status: JobStatus::Failed,
                        exit_code: Some(1),
                        stdout: String::new(),
                        stderr: e.clone(),
                        started_at,
                        finished_at: Some(now),
                        error_message: Some(e),
                    };
                    let ghost kept = result;
                    self.job_results.insert(job_id, result);
                    proof {
                        crate::ids::lemma_id_upserted_unique(old(self).job_results.entries(), job_id, kept);
                    }
                    self.stats.total_failed = self.stats.total_failed + 1;
                    self.stats.success_rate = percent_done(self.stats.total_completed, self.stats.total_failed);
                }
            },
        }
        true
    }

    /// Queues a failed job `job_id` once more at `now`, as a fresh
    /// normal-priority job with the same identifier named after it.  A job
    /// without a result is refused with `NotFound`, one that did not fail
    /// with `BadRequest`; nothing changes then.
    pub fn retry_job_at(&mut self, job_id: u128, now: u64) -> (r: Result<(), AppError>)
        requires
            old(self).well_formed(),
            old(self).queue(JobPriority::Normal).counters().total_queued < u64::MAX,
            old(self).counters().total_scheduled < u64::MAX,
            has_key(old(self).counters().jobs_by_priority.entries(), priority_name(JobPriority::Normal)) ==> value_of(
                old(self).counters().jobs_by_priority.entries(),
                priority_name(JobPriority::Normal),
            ) < u64::MAX,
        ensures
            final(self).well_formed(),
            !has_id(old(self).results(), job_id) ==> (r matches Err(AppError::NotFound(m)) && m@ == "Job "@
                + crate::platform::uuid_hyphenated(job_id) + " not found"@),
            has_id(old(self).results(), job_id) && crate::ids::value_at_id(old(self).results(), job_id).status
                != JobStatus::Failed ==> (r matches Err(AppError::BadRequest(m)) && m@ == "Job "@
                + crate::platform::uuid_hyphenated(job_id) + " is not in a failed state"@),
            !(has_id(old(self).results(), job_id) && crate::ids::value_at_id(old(self).results(), job_id).status
                == JobStatus::Failed) ==> final(self).queue(JobPriority::Normal) == old(self).queue(JobPriority::Normal)
                && final(self).counters() == old(self).counters(),
            has_id(old(self).results(), job_id) && crate::ids::value_at_id(old(self).results(), job_id).status
                == JobStatus::Failed ==> {
                &&& (r is Err) == (old(self).queue(JobPriority::Normal).waiting().len() >= old(self).queue(
                    JobPriority::Normal,
                ).spec_config().max_queue_size)
                &&& r is Ok ==> final(self).queue(JobPriority::Normal).waiting().len() == old(self).queue(
                    JobPriority::Normal,
                ).waiting().len() + 1
                &&& r is Ok ==> final(self).queue(JobPriority::Normal).waiting().last().job.id == job_id
                &&& r is Ok ==> final(self).queue(JobPriority::Normal).waiting().last().job.name@ == "retry-"@
                    + crate::platform::uuid_hyphenated(crate::ids::value_at_id(old(self).results(), job_id).job_id)
                &&& r is Ok ==> final(self).counters().total_scheduled == old(self).counters().total_scheduled + 1
            },
            forall|p: JobPriority| p != JobPriority::Normal ==> #[trigger] final(self).queue(p) == old(self).queue(p),
            final(self).scheduled() == old(self).scheduled(),
            final(self).running() == old(self).running(),
            final(self).results() == old(self).results(),
            final(self).settings() == old(self).settings(),
            final(self).started() == old(self).started(),
    {
        let (failed, origin) = match self.job_results.get(job_id) {
            None => {
                return Err(AppError::NotFound(text_around_id("Job ", job_id, " not found")));
            },
            Some(res) => (res.is_failed(), res.job_id),
        };
        if !failed {
            return Err(AppError::BadRequest(text_around_id("Job ", job_id, " is not in a failed state")));
        }
        let name = text_around_id("retry-", origin, "");
        let mut job = Job::new(name, crate::platform::new_identifier());
        job.id = job_id;
        proof {
            reveal_strlit("");
            assert(name@ =~= "retry-"@ + crate::platform::uuid_hyphenated(origin));
        }
        self.schedule_job_at(job, now)
    }

    /// Takes the next job of the queue of priority `p` at `now`.
    fn dequeue_from(&mut self, p: JobPriority, now: u64) -> (r: Option<Job>)
        requires
            old(self).well_formed(),
            old(self).queue(p).counters().total_processed < u64::MAX,
        ensures
            final(self).well_formed(),
            old(self).queue(p).waiting().len() == 0 ==> r is None && final(self).queue(p).waiting() == old(
                self,
            ).queue(p).waiting() && final(self).queue(p).counters() == old(self).queue(p).counters(),
            old(self).queue(p).waiting().len() > 0 ==> exists|i: int|
                {
                    &&& 0 <= i < old(self).queue(p).waiting().len()
                    &&& #[trigger] crate::job_queue::is_next(old(self).queue(p).waiting(), i)
                    &&& r matches Some(j) && j@ == old(self).queue(p).waiting()[i].job
                    &&& final(self).queue(p).waiting() == old(self).queue(p).waiting().remove(i)
                },
            old(self).queue(p).waiting().len() > 0 ==> final(self).queue(p).counters().total_processed == old(
                self,
            ).queue(p).counters().total_processed + 1,
            final(self).queue(p).counters().total_queued == old(self).queue(p).counters().total_queued,
            final(self).queue(p).spec_config() == old(self).queue(p).spec_config(),
            forall|q: JobPriority| q != p ==> #[trigger] final(self).queue(q) == old(self).queue(q),
            final(self).scheduled() == old(self).scheduled(),
            final(self).running() == old(self).running(),
            final(self).results() == old(self).results(),
            final(self).counters() == old(self).counters(),
            final(self).settings() == old(self).settings(),
            final(self).started() == old(self).started(),
    {
        match p {
            JobPriority::Critical => self.critical_queue.dequeue_at(now),
            JobPriority::High => self.high_queue.dequeue_at(now),
            JobPriority::Normal => self.normal_queue.dequeue_at(now),
            JobPriority::Low => self.low_queue.dequeue_at(now),
        }
    }

    /// Puts `job` back in the queue of priority `p` at `now`: at its end,
    /// unless the queue is full, which refuses it with `ResourceExhausted`.
    fn requeue(&mut self, p: JobPriority, job: Job, now: u64) -> (r: Result<(), AppError>)
        requires
            old(self).well_formed(),
            old(self).queue(p).counters().total_queued < u64::MAX,
        ensures
            final(self).well_formed(),
            final(self).queue(p).waiting().len() <= old(self).queue(p).waiting().len() + 1,
            final(self).queue(p).spec_config() == old(self).queue(p).spec_config(),
            r is Ok == (old(self).queue(p).waiting().len() < old(self).queue(p).spec_config().max_queue_size),
            r is Err ==> (r matches Err(AppError::ResourceExhausted(_))) && final(self).queue(p).waiting()
                == old(self).queue(p).waiting(),
            r is Ok ==> final(self).queue(p).waiting() == old(self).queue(p).waiting().push(
                (QueuedJobView {
                    job: job@,
                    queued_at: now,
                    sequence: old(self).queue(p).next_seq(),
                    attempts: 0,
                    last_attempt: None,
                    assigned_runner: None,
                }),
            ),
            final(self).queue(p).counters().total_processed == old(self).queue(p).counters().total_processed,
            forall|q: JobPriority| q != p ==> #[trigger] final(self).queue(q) == old(self).queue(q),
            final(self).scheduled() == old(self).scheduled(),
            final(self).running() == old(self).running(),
            final(self).results() == old(self).results(),
            final(self).counters() == old(self).counters(),
            final(self).settings() == old(self).settings(),
            final(self).started() == old(self).started(),
    {
        match p {
            JobPriority::Critical => self.critical_queue.enqueue_at(job, now),
            JobPriority::High => self.high_queue.enqueue_at(job, now),
            JobPriority::Normal => self.normal_queue.enqueue_at(job, now),
            JobPriority::Low => self.low_queue.enqueue_at(job, now),
        }
    }

    /// Starts jobs of the queue of priority `p` while another job may
    /// start; a job taken when none may start goes back to its queue.
    fn drain_queue(&mut self, p: JobPriority, now: u64, started: &mut Vec<Job>) -> (r: Result<(), AppError>)
        requires
            old(self).well_formed(),
            queue_room(old(self).queue(p), old(self).queue(p).waiting().len()),
            forall|i: int|
                0 <= i < old(started)@.len() ==> has_id(old(self).running(), #[trigger] old(started)@[i].id),
        ensures
            final(self).well_formed(),
            final(started)@.len() >= old(started)@.len(),
            final(started)@.subrange(0, old(started)@.len() as int) == old(started)@,
            forall|i: int|
                old(started)@.len() <= i < final(started)@.len() ==> #[trigger] waits_in(
                    old(self).queue(p).waiting(),
                    final(started)@[i]@,
                ),
            forall|i: int| 0 <= i < final(started)@.len() ==> has_id(final(self).running(), #[trigger] final(started)@[i].id),
            forall|q: u128| has_id(old(self).running(), q) ==> #[trigger] has_id(final(self).running(), q),
            final(self).running().len() <= at_most_one_more(old(self).running().len(), old(self).settings().max_concurrent_jobs),
            final(self).queue(p).waiting().len() <= old(self).queue(p).waiting().len(),
            final(self).queue(p).spec_config() == old(self).queue(p).spec_config(),
            final(self).running().len() >= old(self).running().len(),
            old(self).queue(p).waiting().len() <= old(self).queue(p).spec_config().max_queue_size ==> r is Ok,
            r is Err ==> (r matches Err(AppError::ResourceExhausted(_))),
            r is Ok ==> final(self).queue(p).waiting().len() == 0 || final(self).running().len() >= final(self).settings().max_concurrent_jobs,
            forall|q: JobPriority| q != p ==> #[trigger] final(self).queue(q) == old(self).queue(q),
            final(self).scheduled() == old(self).scheduled(),
            final(self).results() == old(self).results(),
            final(self).counters() == old(self).counters(),
            final(self).settings() == old(self).settings(),
            final(self).started() == old(self).started(),
    {
        let ghost first = old(started)@.len();
        let ghost orig = self.queue(p).waiting();
        loop
            invariant
                self.well_formed(),
                orig == old(self).queue(p).waiting(),
                started@.len() >= first,
                started@.subrange(0, first as int) == old(started)@,
                forall|x: QueuedJobView| #[trigger] self.queue(p).waiting().contains(x) ==> orig.contains(x),
                self.queue(p).waiting().len() <= orig.len(),
                self.queue(p).spec_config() == old(self).queue(p).spec_config(),
                self.running().len() >= old(self).running().len(),
                self.queue(p).counters().total_processed + self.queue(p).waiting().len() < u64::MAX,
                self.queue(p).counters().total_queued < u64::MAX,
                forall|i: int| first <= i < started@.len() ==> #[trigger] waits_in(orig, started@[i]@),
                forall|i: int| 0 <= i < started@.len() ==> has_id(self.running(), #[trigger] started@[i].id),
                forall|q: u128| has_id(old(self).running(), q) ==> #[trigger] has_id(self.running(), q),
                self.running().len() <= at_most_one_more(old(self).running().len(), old(self).settings().max_concurrent_jobs),
                forall|q: JobPriority| q != p ==> #[trigger] self.queue(q) == old(self).queue(q),
                self.scheduled() == old(self).scheduled(),
                self.results() == old(self).results(),
                self.counters() == old(self).counters(),
                self.settings() == old(self).settings(),
                self.started() == old(self).started(),
            ensures
                self.well_formed(),
                orig == old(self).queue(p).waiting(),
                started@.len() >= first,
                started@.subrange(0, first as int) == old(started)@,
                self.queue(p).waiting().len() <= orig.len(),
                self.queue(p).spec_config() == old(self).queue(p).spec_config(),
                self.running().len() >= old(self).running().len(),
                forall|i: int| first <= i < started@.len() ==> #[trigger] waits_in(orig, started@[i]@),
                forall|i: int| 0 <= i < started@.len() ==> has_id(self.running(), #[trigger] started@[i].id),
                forall|q: u128| has_id(old(self).running(), q) ==> #[trigger] has_id(self.running(), q),
                self.running().len() <= at_most_one_more(old(self).running().len(), old(self).settings().max_concurrent_jobs),
                forall|q: JobPriority| q != p ==> #[trigger] self.queue(q) == old(self).queue(q),
                self.scheduled() == old(self).scheduled(),
                self.results() == old(self).results(),
                self.counters() == old(self).counters(),
                self.settings() == old(self).settings(),
                self.started() == old(self).started(),
            decreases self.queue(p).waiting().len(),
        {
            let ghost w = self.queue(p).waiting();
            let next = self.dequeue_from(p, now);
            match next {
                None => {
                    return Ok(());
                },
                Some(job) => {
                    proof {
                        let i = choose|i: int|
                            {
                                &&& 0 <= i < w.len()
                                &&& #[trigger] crate::job_queue::is_next(w, i)
                                &&& next matches Some(j) && j@ == w[i].job
                                &&& self.queue(p).waiting() == w.remove(i)
                            };
                        assert(w.contains(w[i]));
                        assert(waits_in(orig, job@));
                        assert forall|x: QueuedJobView| #[trigger] self.queue(p).waiting().contains(x) implies orig.contains(x) by {
                            let k = choose|k: int| 0 <= k < self.queue(p).waiting().len() && self.queue(p).waiting()[k] == x;
                            let kk = if k < i { k } else { k + 1 };
                            assert(w[kk] == x);
                            assert(w.contains(x));
                        }
                    }
                    if self.can_execute_job() {
                        let ghost running_before = self.running();
                        let c = self.execute_job_at(job, now);
                        proof {
                            crate::ids::lemma_id_upserted_unique(
                                running_before,
                                c.job.id,
                                crate::ids::value_at_id(self.running(), c.job.id),
                            );
                            assert forall|q: u128| has_id(old(self).running(), q) implies #[trigger] has_id(
                                self.running(),
                                q,
                            ) by {
                                if q != c.job.id {
                                    assert(has_id(running_before, q));
                                }
                            }
                            assert forall|i: int| 0 <= i < started@.len() implies has_id(self.running(), #[trigger] started@[i].id) by {
                                if started@[i].id != c.job.id {
                                    assert(has_id(running_before, started@[i].id));
                                }
                            }
                        }
                        let ghost before_push = started@;
                        started.push(c.job);
                        proof {
                            assert(started@.subrange(0, first as int) =~= before_push.subrange(0, first as int));
                            assert forall|i: int| first <= i < started@.len() implies #[trigger] waits_in(orig, started@[i]@) by {
                                if i < before_push.len() {
                                    assert(started@[i] == before_push[i]);
                                }
                            }
                        }
                    } else {
                        let r = self.requeue(p, job, now);
                        if r.is_err() {
                            return r;
                        }
                        return Ok(());
                    }
                },
            }
        }
    }

    /// Starts queued jobs at `now`, critical ones first, then high, normal
    /// and low, while another job may start.  A job taken when none may
    /// start goes back to its queue, and the pass moves on to the next
    /// priority.  Returns the jobs started, each taken from the waiting
    /// jobs of one queue.
    pub fn process_priority_queues_at(&mut self, now: u64) -> (r: Result<Vec<Job>, AppError>)
        requires
            old(self).well_formed(),
            forall|p: JobPriority| #[trigger] queue_room(old(self).queue(p), old(self).queue(p).waiting().len()),
        ensures
            final(self).well_formed(),
            r matches Ok(started) ==> {
                &&& forall|i: int| 0 <= i < started@.len() ==> #[trigger] taken_from_queues(*old(self), started@[i]@)
                &&& forall|i: int| 0 <= i < started@.len() ==> has_id(final(self).running(), #[trigger] started@[i].id)
            },
            (forall|p: JobPriority| #[trigger] old(self).queue(p).waiting().len() <= old(self).queue(p).spec_config().max_queue_size)
                ==> r is Ok,
            r is Err ==> (r matches Err(AppError::ResourceExhausted(_))),
            r is Ok ==> forall|p: JobPriority| #[trigger] final(self).queue(p).waiting().len() == 0 || final(self).running().len()
                >= final(self).settings().max_concurrent_jobs,
            forall|q: u128| has_id(old(self).running(), q) ==> #[trigger] has_id(final(self).running(), q),
            final(self).running().len() <= at_most_one_more(old(self).running().len(), old(self).settings().max_concurrent_jobs),
            forall|p: JobPriority| #[trigger] final(self).queue(p).waiting().len() <= old(self).queue(p).waiting().len(),
            final(self).scheduled() == old(self).scheduled(),
            final(self).results() == old(self).results(),
            final(self).counters() == old(self).counters(),
            final(self).settings() == old(self).settings(),
            final(self).started() == old(self).started(),
    {
        let mut started: Vec<Job> = Vec::new();
        let ghost s0 = *self;
        assert(queue_room(s0.queue(JobPriority::Critical), s0.queue(JobPriority::Critical).waiting().len()));
        assert(queue_room(s0.queue(JobPriority::High), s0.queue(JobPriority::High).waiting().len()));
        assert(queue_room(s0.queue(JobPriority::Normal), s0.queue(JobPriority::Normal).waiting().len()));
        assert(queue_room(s0.queue(JobPriority::Low), s0.queue(JobPriority::Low).waiting().len()));
        let r1 = self.drain_queue(JobPriority::Critical, now, &mut started);
        if r1.is_err() {
            return Err(r1.unwrap_err());
        }
        let ghost s1 = *self;
        let ghost st1 = started@;
        assert(s1.queue(JobPriority::High) == s0.queue(JobPriority::High));
        let r2 = self.drain_queue(JobPriority::High, now, &mut started);
        if r2.is_err() {
            return Err(r2.unwrap_err());
        }
        let ghost s2 = *self;
        let ghost st2 = started@;
        assert(s2.queue(JobPriority::Normal) == s0.queue(JobPriority::Normal));
        let r3 = self.drain_queue(JobPriority::Normal, now, &mut started);
        if r3.is_err() {
            return Err(r3.unwrap_err());
        }
        let ghost s3 = *self;
        let ghost st3 = started@;
        assert(s3.queue(JobPriority::Low) == s0.queue(JobPriority::Low));
        let r4 = self.drain_queue(JobPriority::Low, now, &mut started);
        if r4.is_err() {
            return Err(r4.unwrap_err());
        }
        proof {
            let st4 = started@;
            assert forall|i: int| 0 <= i < st4.len() implies #[trigger] taken_from_queues(s0, st4[i]@) by {
                if i < st3.len() {
                    assert(st4[i] == st4.subrange(0, st3.len() as int)[i]);
                    assert(st4[i] == st3[i]);
                    if i < st2.len() {
                        assert(st3[i] == st3.subrange(0, st2.len() as int)[i]);
                        if i < st1.len() {
                            assert(st2[i] == st2.subrange(0, st1.len() as int)[i]);
                            assert(waits_in(s0.queue(JobPriority::Critical).waiting(), st1[i]@));
                        } else {
                            assert(waits_in(s0.queue(JobPriority::High).waiting(), st2[i]@));
                        }
                    } else {
                        assert(waits_in(s0.queue(JobPriority::Normal).waiting(), st3[i]@));
                    }
                } else {
                    assert(waits_in(s0.queue(JobPriority::Low).waiting(), st4[i]@));
                }
            }
            assert forall|p: JobPriority| #[trigger] self.queue(p).waiting().len() <= s0.queue(p).waiting().len() by {
                match p {
                    JobPriority::Critical => {},
                    JobPriority::High => {},
                    JobPriority::Normal => {},
                    JobPriority::Low => {},
                }
            }
        }
        Ok(started)
    }

    /// Starts the put-aside jobs that are due at `now`, in order, as long
    /// as another job may start.  The due jobs form a prefix of the line;
    /// the first of them that cannot start goes back to the front and the
    /// due jobs after it are dropped.  Returns the jobs started.
    pub fn process_scheduled_jobs_at(&mut self, now: u64) -> (started: Vec<Job>)
        requires
            old(self).well_formed(),
        ensures
            final(self).well_formed(),
            exists|k: int|
                {
                    &&& started@.len() <= k <= old(self).scheduled().len()
                    &&& #[trigger] due_prefix(old(self).scheduled(), k, now)
                    &&& final(self).scheduled() == if started@.len() < k {
                        seq![old(self).scheduled()[started@.len() as int]] + old(self).scheduled().skip(k)
                    } else {
                        old(self).scheduled().skip(k)
                    }
                },
            forall|i: int| 0 <= i < started@.len() ==> #[trigger] started@[i]@ == old(self).scheduled()[i].context.job@,
            forall|i: int| 0 <= i < started@.len() ==> has_id(final(self).running(), #[trigger] started@[i].id),
            forall|q: u128| has_id(old(self).running(), q) ==> #[trigger] has_id(final(self).running(), q),
            forall|p: JobPriority| #[trigger] final(self).queue(p) == old(self).queue(p),
            final(self).results() == old(self).results(),
            final(self).counters() == old(self).counters(),
            final(self).settings() == old(self).settings(),
            final(self).started() == old(self).started(),
    {
        let ghost before = self.scheduled_jobs@;
        let mut ready: Vec<ScheduledJob> = Vec::new();
        let ghost mut k: int = 0;
        while self.scheduled_jobs.len() > 0 && self.scheduled_jobs[0].next_execution <= now
            invariant
                0 <= k <= before.len(),
                ready@ == before.take(k),
                self.scheduled_jobs@ == before.skip(k),
                forall|i: int| 0 <= i < k ==> #[trigger] before[i].next_execution <= now,
                self.well_formed() == old(self).well_formed(),
                self.running() == old(self).running(),
                self.results() == old(self).results(),
                self.counters() == old(self).counters(),
                self.settings() == old(self).settings(),
                self.started() == old(self).started(),
                self.critical_queue == old(self).critical_queue,
                self.high_queue == old(self).high_queue,
                self.normal_queue == old(self).normal_queue,
                self.low_queue == old(self).low_queue,
            decreases self.scheduled_jobs@.len(),
        {
            let x = self.scheduled_jobs.remove(0);
            ready.push(x);
            proof {
                assert(ready@ =~= before.take(k + 1));
                assert(self.scheduled_jobs@ =~= before.skip(k + 1));
                k = k + 1;
            }
        }
        proof {
            assert(due_prefix(before, k, now));
        }
        let mut started: Vec<Job> = Vec::new();
        let mut stopped = false;
        let ghost mut m: int = 0;
        while ready.len() > 0 && !stopped
            invariant
                0 <= m <= k <= before.len(),
                !stopped ==> ready@ == before.subrange(m, k),
                !stopped ==> self.scheduled_jobs@ == before.skip(k),
                stopped ==> m < k && self.scheduled_jobs@ == seq![before[m]] + before.skip(k),
                started@.len() == m,
                forall|i: int| 0 <= i < m ==> #[trigger] started@[i]@ == before[i].context.job@,
                forall|i: int| 0 <= i < m ==> has_id(self.running(), #[trigger] started@[i].id),
                forall|q: u128| has_id(old(self).running(), q) ==> #[trigger] has_id(self.running(), q),
                self.well_formed(),
                self.results() == old(self).results(),
                self.counters() == old(self).counters(),
                self.settings() == old(self).settings(),
                self.started() == old(self).started(),
                self.critical_queue == old(self).critical_queue,
                self.high_queue == old(self).high_queue,
                self.normal_queue == old(self).normal_queue,
                self.low_queue == old(self).low_queue,
            decreases ready@.len() + if stopped { 0int } else { 1int },
        {
            let sj = ready.remove(0);
            proof {
                assert(sj == before[m]);
            }
            if self.can_execute_job() {
                let ghost running_before = self.running();
                let c = self.execute_job_at(sj.context.job, now);
                proof {
                    crate::ids::lemma_id_upserted_unique(
                        running_before,
                        c.job.id,
                        crate::ids::value_at_id(self.running(), c.job.id),
                    );
                }
                proof {
                    assert(self.queue(JobPriority::Critical) == old(self).queue(JobPriority::Critical));
                    assert(self.queue(JobPriority::High) == old(self).queue(JobPriority::High));
                    assert(self.queue(JobPriority::Normal) == old(self).queue(JobPriority::Normal));
                    assert(self.queue(JobPriority::Low) == old(self).queue(JobPriority::Low));
                    assert forall|q: u128| has_id(old(self).running(), q) implies #[trigger] has_id(
                        self.running(),
                        q,
                    ) by {
                        if q != c.job.id {
                            assert(has_id(running_before, q));
                        }
                    }
                    assert forall|i: int| 0 <= i < m implies has_id(self.running(), #[trigger] started@[i].id) by {
                        if started@[i].id != c.job.id {
                            assert(has_id(running_before, started@[i].id));
                        }
                    }
                }
                started.push(c.job);
                proof {
                    assert(ready@ =~= before.subrange(m + 1, k));
                    m = m + 1;
                }
            } else {
                self.scheduled_jobs.insert(0, sj);
                stopped = true;
                proof {
                    assert(self.scheduled_jobs@ =~= seq![before[m]] + before.skip(k));
                }
            }
        }
        proof {
            if !stopped {
                assert(m == k);
            }
            assert(started@.len() == m);
        }
        started
    }
}

/// Whether a job with value `j` waits in `w`.
pub open spec fn waits_in(w: Seq<QueuedJobView>, j: crate::domain::JobView) -> bool {
    exists|k: int| 0 <= k < w.len() && #[trigger] w[k].job == j
}

/// Whether a job with value `j` waits in one of the priority queues of `s`.
pub open spec fn taken_from_queues(s: DefaultJobScheduler, j: crate::domain::JobView) -> bool {
    ||| waits_in(s.queue(JobPriority::Critical).waiting(), j)
    ||| waits_in(s.queue(JobPriority::High).waiting(), j)
    ||| waits_in(s.queue(JobPriority::Normal).waiting(), j)
    ||| waits_in(s.queue(JobPriority::Low).waiting(), j)
}

/// The most jobs that may run after starting: the limit, or what ran
/// already when that was more.
pub open spec fn at_most_one_more(running: nat, limit: usize) -> nat {
    if running >= limit {
        running
    } else {
        limit as nat
    }
}

/// Whether the first `k` jobs of `s` are due at `now` and no more are.
pub open spec fn due_prefix(s: Seq<ScheduledJob>, k: int, now: u64) -> bool {
    &&& forall|i: int| 0 <= i < k ==> #[trigger] s[i].next_execution <= now
    &&& (k == s.len() || s[k].next_execution > now)
}

/// The queue that `cancel_job` would take job `id` from: the first, from
/// critical to low, that knows it.
pub open spec fn first_holder(s: &DefaultJobScheduler, id: u128) -> Option<JobPriority> {
    if crate::job_queue::knows(s.queue(JobPriority::Critical).known(), id) {
        Some(JobPriority::Critical)
    } else if crate::job_queue::knows(s.queue(JobPriority::High).known(), id) {
        Some(JobPriority::High)
    } else if crate::job_queue::knows(s.queue(JobPriority::Normal).known(), id) {
        Some(JobPriority::Normal)
    } else if crate::job_queue::knows(s.queue(JobPriority::Low).known(), id) {
        Some(JobPriority::Low)
    } else {
        None
    }
}

/// Whether `after` is `before` with job `id` forgotten and its waiting
/// copies dropped.
pub open spec fn removed_from(before: InMemoryJobQueue, after: InMemoryJobQueue, id: u128) -> bool {
    &&& after.known() == before.known().remove(crate::job_queue::known_position(before.known(), id))
    &&& after.waiting() == before.waiting().filter(|q: QueuedJobView| q.job.id != id)
    &&& after.retry_line() == before.retry_line()
    &&& after.counters() == before.counters()
    &&& after.spec_config() == before.spec_config()
}

/// Whether a failed attempt `ctx` gets another one under `config`.
pub open spec fn retry_allowed(ctx: JobExecutionContext, config: JobSchedulerConfig) -> bool {
    ctx.attempt < ctx.job.retry_policy.max_retries && config.retry_config.enabled
}

/// Seconds before the next attempt after `ctx` failed.
pub open spec fn next_delay(ctx: JobExecutionContext, config: JobSchedulerConfig) -> int {
    retry_delay_secs(ctx.job.retry_policy, (ctx.attempt + 1) as nat, config.retry_config.max_retry_delay as nat)
}

/// Whether the end of `ctx` at `now` can be counted and, for a retry,
/// timed.
pub open spec fn completion_fits(s: &DefaultJobScheduler, ctx: JobExecutionContext, success: bool, now: u64) -> bool {
    if success {
        s.counters().total_completed < u64::MAX
    } else if retry_allowed(ctx, s.settings()) {
        &&& s.counters().total_retried < u64::MAX
        &&& ctx.job.retry_policy.retry_delay_secs <= max_delay_secs()
        &&& s.settings().retry_config.max_retry_delay <= max_delay_secs()
        &&& ctx.job.retry_policy.backoff_strategy matches BackoffStrategy::Linear { increment_secs }
            ==> increment_secs <= max_delay_secs() && ctx.job.retry_policy.retry_delay_secs + increment_secs
            * ctx.attempt <= i64::MAX
        &&& now + next_delay(ctx, s.settings()) * 1000 <= u64::MAX
    } else {
        s.counters().total_failed < u64::MAX
    }
}

/// When a job that ran `elapsed` ms up to `now` started.
pub open spec fn started_at(now: u64, elapsed: u64) -> u64 {
    if now >= elapsed {
        (now - elapsed) as u64
    } else {
        0
    }
}

/// Whether the scheduler went from `a` to `b` by recording how attempt
/// `ctx` of job `id` ended.
pub open spec fn ended_as(
    a: &DefaultJobScheduler,
    b: &DefaultJobScheduler,
    id: u128,
    ctx: JobExecutionContext,
    outcome: Result<(), String>,
    elapsed: u64,
    now: u64,
) -> bool {
    match outcome {
        Ok(_) => {
            let res = crate::ids::value_at_id(b.results(), id);
            &&& b.results() == id_upserted(a.results(), id, res)
            &&& res.job_id == id
            &&& res.status == JobStatus::Success
            &&& res.exit_code == Some(0i32)
            &&& res.stdout@ == "Job completed successfully"@
            &&& res.stderr@ == Seq::<char>::empty()
            &&& res.started_at == started_at(now, elapsed)
            &&& res.finished_at == Some(now)
            &&& res.error_message is None
            &&& b.scheduled() == a.scheduled()
            &&& b.counters() == (JobSchedulerStats {
                total_completed: (a.counters().total_completed + 1) as u64,
                avg_execution_time_ms: next_mean(
                    a.counters().avg_execution_time_ms as nat,
                    (a.counters().total_completed + 1) as nat,
                    elapsed as nat,
                ) as u64,
                success_rate: success_percent(
                    (a.counters().total_completed + 1) as nat,
                    a.counters().total_failed as nat,
                ) as u64,
                ..a.counters()
            })
        },
        Err(e) => if retry_allowed(ctx, a.settings()) {
            let next = now + next_delay(ctx, a.settings()) * 1000;
            let sj = b.scheduled().last();
            &&& b.results() == a.results()
            &&& b.scheduled().len() == a.scheduled().len() + 1
            &&& b.scheduled().drop_last() == a.scheduled()
            &&& sj.context.job == ctx.job
            &&& sj.context.attempt == ctx.attempt + 1
            &&& sj.context.scheduled_at == next
            &&& sj.context.previous_results == ctx.previous_results
            &&& sj.context.metadata == ctx.metadata
            &&& sj.next_execution == next
            &&& sj.retry_delay_secs == next_delay(ctx, a.settings())
            &&& b.counters() == (JobSchedulerStats {
                total_retried: (a.counters().total_retried + 1) as u64,
                ..a.counters()
            })
        } else {
            let res = crate::ids::value_at_id(b.results(), id);
            &&& b.results() == id_upserted(a.results(), id, res)
            &&& res.job_id == id
            &&& res.status == JobStatus::Failed
            &&& res.exit_code == Some(1i32)
            &&& res.stdout@ == Seq::<char>::empty()
            &&& res.stderr == e
            &&& res.started_at == started_at(now, elapsed)
            &&& res.finished_at == Some(now)
            &&& res.error_message == Some(e)
            &&& b.scheduled() == a.scheduled()
            &&& b.counters() == (JobSchedulerStats {
                total_failed: (a.counters().total_failed + 1) as u64,
                success_rate: success_percent(
                    a.counters().total_completed as nat,
                    (a.counters().total_failed + 1) as nat,
                ) as u64,
                ..a.counters()
            })
        },
    }
}

/// Whether a job with identifier `id` is put aside.
pub open spec fn put_aside(s: Seq<ScheduledJob>, id: u128) -> bool {
    exists|i: int| 0 <= i < s.len() && #[trigger] s[i].context.job.id == id
}

/// Whether a priority queue knows job `id`.
pub open spec fn queued_anywhere(s: &DefaultJobScheduler, id: u128) -> bool {
    ||| crate::job_queue::knows(s.queue(JobPriority::Critical).known(), id)
    ||| crate::job_queue::knows(s.queue(JobPriority::High).known(), id)
    ||| crate::job_queue::knows(s.queue(JobPriority::Normal).known(), id)
    ||| crate::job_queue::knows(s.queue(JobPriority::Low).known(), id)
}

/// Counts one more under `k`.
fn count_one_more(t: &mut KeyedTable<u64>, k: String)
    requires
        old(t).well_formed(),
        has_key(old(t).entries(), k@) ==> value_of(old(t).entries(), k@) < u64::MAX,
    ensures
        final(t).well_formed(),
        counted_once(old(t).entries(), final(t).entries(), k@),
{
    let n: u64 = match t.get(&k) {
        Some(v) => *v + 1,
        None => 1,
    };
    proof {
        lemma_upserted_unique(t.entries(), k, n);
    }
    t.insert(k, n);
}

} // verus!