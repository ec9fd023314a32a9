//! A priority job queue.
//!
//! Jobs leave the queue highest priority first and, within a priority, in the
//! order they were queued.  The queue is bounded, keeps every job it has seen
//! for lookups, and keeps failed jobs in a retry line that is drained once
//! the retry delay has passed.

use crate::domain::{priority_rank, Job, JobPriority, JobStatus, JobView};
use crate::errors::AppError;
use vstd::prelude::*;

verus! {

/// Configuration of a job queue.
#[derive(Debug, Clone, Copy)]
pub struct JobQueueConfig {
    /// Most jobs waiting at once.
    pub max_queue_size: usize,
    /// Retries allowed per job.
    pub max_retry_attempts: u32,
    /// Delay before a failed job is retried, in seconds.
    pub retry_delay_seconds: u64,
    /// Whether jobs are ordered by priority.
    pub enable_prioritization: bool,
    /// Interval of queue processing in milliseconds.
    pub processing_interval_ms: u64,
}

impl JobQueueConfig {
    /// The default configuration: 10000 jobs, three retries thirty seconds
    /// apart, prioritization on, processing every 100 ms.
    pub fn default_config() -> (c: JobQueueConfig)
        ensures
            c.max_queue_size == 10000,
            c.max_retry_attempts == 3,
            c.retry_delay_seconds == 30,
            c.enable_prioritization,
            c.processing_interval_ms == 100,
    {
        JobQueueConfig {
            max_queue_size: 10000,
            max_retry_attempts: 3,
            retry_delay_seconds: 30,
            enable_prioritization: true,
            processing_interval_ms: 100,
        }
    }
}

/// Counters of a job queue.
#[derive(Debug, Clone, Copy, PartialEq, Eq, Structural)]
pub struct JobQueueStats {
    /// Jobs ever queued.
    pub total_queued: u64,
    /// Jobs taken from the queue.
    pub total_processed: u64,
    /// Jobs that failed, or ran out of retries.
    pub total_failed: u64,
    /// Reserved for a size snapshot; the current size is `size()`.
    pub current_queue_size: usize,
}

/// A job with its queueing metadata.
#[derive(Debug, Clone)]
pub struct QueuedJob {
    /// The job.
    pub job: Job,
    /// When the job was queued, in milliseconds since the epoch.
    pub queued_at: u64,
    /// Order of queueing, to keep jobs queued in the same instant in order.
    pub sequence: u64,
    /// Retries made so far.
    pub attempts: u32,
    /// When the job was last taken or retried.
    pub last_attempt: Option<u64>,
    /// Runner the job was assigned to.
    pub assigned_runner: Option<u128>,
}

/// The value of a queued job.
pub struct QueuedJobView {
    pub job: JobView,
    pub queued_at: u64,
    pub sequence: u64,
    pub attempts: u32,
    pub last_attempt: Option<u64>,
    pub assigned_runner: Option<u128>,
}

impl View for QueuedJob {
    type V = QueuedJobView;

    open spec fn view(&self) -> QueuedJobView {
        QueuedJobView {
            job: self.job@,
            queued_at: self.queued_at,
            sequence: self.sequence,
            attempts: self.attempts,
            last_attempt: self.last_attempt,
            assigned_runner: self.assigned_runner,
        }
    }
}

impl QueuedJob {
    /// An equal copy.
    pub fn duplicate(&self) -> (q: QueuedJob)
        ensures
            q@ == self@,
    {
        QueuedJob {
            job: self.job.duplicate(),
            queued_at: self.queued_at,
            sequence: self.sequence,
            attempts: self.attempts,
            last_attempt: self.last_attempt,
            assigned_runner: self.assigned_runner,
        }
    }
}

/// Whether `a` leaves the queue before `b`: a higher priority, or the same
/// priority and queued earlier.
pub open spec fn precedes(a: QueuedJobView, b: QueuedJobView) -> bool {
    priority_rank(a.job.priority) > priority_rank(b.job.priority) || (priority_rank(a.job.priority)
        == priority_rank(b.job.priority) && (a.queued_at < b.queued_at || (a.queued_at == b.queued_at
        && a.sequence < b.sequence)))
}

/// How `job` waits after being queued at `now` under sequence number
/// `sequence`.
pub open spec fn queued_view(job: JobView, now: u64, sequence: u64) -> QueuedJobView {
    QueuedJobView { job, queued_at: now, sequence, attempts: 0, last_attempt: None, assigned_runner: None }
}

/// How waiting job `e` waits after being queued again at `now`.
pub open spec fn retried_view(e: QueuedJobView, now: u64) -> QueuedJobView {
    QueuedJobView { attempts: (e.attempts + 1) as u32, last_attempt: Some(now), ..e }
}

/// Whether position `i` holds a job that no other waiting job precedes.
pub open spec fn is_next(q: Seq<QueuedJobView>, i: int) -> bool {
    0 <= i < q.len() && forall|j: int| 0 <= j < q.len() ==> !precedes(#[trigger] q[j], q[i])
}

/// Whether no two known jobs share an identifier.
pub open spec fn unique_job_ids(jobs: Seq<QueuedJobView>) -> bool {
    forall|i: int, j: int| 0 <= i < j < jobs.len() ==> jobs[i].job.id != jobs[j].job.id
}

/// Whether a job with identifier `id` is known.
pub open spec fn knows(jobs: Seq<QueuedJobView>, id: u128) -> bool {
    exists|i: int| 0 <= i < jobs.len() && jobs[i].job.id == id
}

/// Position of the known job with identifier `id`.
pub open spec fn known_position(jobs: Seq<QueuedJobView>, id: u128) -> int {
    choose|i: int| 0 <= i < jobs.len() && jobs[i].job.id == id
}

/// `jobs` with the entry of `q`'s job replaced by `q`, or `q` added.
pub open spec fn upsert(jobs: Seq<QueuedJobView>, q: QueuedJobView) -> Seq<QueuedJobView> {
    if knows(jobs, q.job.id) {
        jobs.update(known_position(jobs, q.job.id), q)
    } else {
        jobs.push(q)
    }
}

/// In-memory priority job queue.
pub struct InMemoryJobQueue {
    queue: Vec<QueuedJob>,
    jobs: Vec<QueuedJob>,
    config: JobQueueConfig,
    stats: JobQueueStats,
    failed_jobs: Vec<QueuedJob>,
    next_sequence: u64,
}

/// Views of a list of queued jobs.
pub open spec fn views(v: Seq<QueuedJob>) -> Seq<QueuedJobView> {
    v.map_values(|q: QueuedJob| q@)
}

impl InMemoryJobQueue {
    /// The waiting jobs.
    pub closed spec fn waiting(&self) -> Seq<QueuedJobView> {
        views(self.queue@)
    }

    /// Every job the queue has seen, one entry per job.
    pub closed spec fn known(&self) -> Seq<QueuedJobView> {
        views(self.jobs@)
    }

    /// The failed jobs waiting for a retry, oldest first.
    pub closed spec fn retry_line(&self) -> Seq<QueuedJobView> {
        views(self.failed_jobs@)
    }

    /// The counters.
    pub closed spec fn counters(&self) -> JobQueueStats {
        self.stats
    }

    /// The configuration.
    pub closed spec fn spec_config(&self) -> JobQueueConfig {
        self.config
    }

    /// Sequence number the next queued job gets.
    pub closed spec fn next_seq(&self) -> u64 {
        self.next_sequence
    }

    /// Known jobs have distinct identifiers.
    pub closed spec fn well_formed(&self) -> bool {
        unique_job_ids(views(self.jobs@))
    }

    /// An empty queue.
    pub fn new(config: JobQueueConfig) -> (q: Self)
        ensures
            q.well_formed(),
            q.spec_config() == config,
            q.waiting() == Seq::<QueuedJobView>::empty(),
            q.known() == Seq::<QueuedJobView>::empty(),
            q.retry_line() == Seq::<QueuedJobView>::empty(),
            q.counters() == (JobQueueStats { total_queued: 0, total_processed: 0, total_failed: 0, current_queue_size: 0 }),
    {
        let q = InMemoryJobQueue {
            queue: Vec::new(),
            jobs: Vec::new(),
            config,
            stats: JobQueueStats { total_queued: 0, total_processed: 0, total_failed: 0, current_queue_size: 0 },
            failed_jobs: Vec::new(),
            next_sequence: 0,
        };
        proof {
            assert(views(q.queue@) =~= Seq::<QueuedJobView>::empty());
            assert(views(q.jobs@) =~= Seq::<QueuedJobView>::empty());
            assert(views(q.failed_jobs@) =~= Seq::<QueuedJobView>::empty());
        }
        q
    }

    /// An empty queue with the default configuration.
    pub fn with_default_config() -> (q: Self)
        ensures
            q.well_formed(),
            q.spec_config().max_queue_size == 10000,
            q.waiting() == Seq::<QueuedJobView>::empty(),
    {
        Self::new(JobQueueConfig::default_config())
    }

    /// The configuration.
    pub fn config(&self) -> (c: JobQueueConfig)
        ensures
            c == self.spec_config(),
    {
        self.config
    }

    /// Position of the known job with identifier `id`.
    fn find_known(&self, id: u128) -> (pos: Option<usize>)
        ensures
            match pos {
                Some(i) => i < self.jobs@.len() && self.jobs@[i as int].job.id == id,
                None => !knows(views(self.jobs@), id),
            },
    {
        let mut i: usize = 0;
        while i < self.jobs.len()
            invariant
                i <= self.jobs@.len(),
                forall|k: int| 0 <= k < i ==> self.jobs@[k].job.id != id,
            decreases self.jobs@.len() - i,
        {
            if self.jobs[i].job.id == id {
                return Some(i);
            }
            i = i + 1;
        }
        proof {
            assert forall|k: int| 0 <= k < views(self.jobs@).len() implies views(self.jobs@)[k].job.id != id by {
                assert(views(self.jobs@)[k] == self.jobs@[k]@);
            }
        }
        None
    }

    proof fn lemma_known_position(jobs: Seq<QueuedJob>, id: u128, i: int)
        requires
            unique_job_ids(views(jobs)),
            0 <= i < jobs.len(),
            jobs[i].job.id == id,
        ensures
            knows(views(jobs), id),
            known_position(views(jobs), id) == i,
    {
        let vs = views(jobs);
        assert(vs[i].job.id == id);
        let p = known_position(vs, id);
        if p < i {
            assert(vs[p].job.id != vs[i].job.id);
        } else if p > i {
            assert(vs[i].job.id != vs[p].job.id);
        }
    }

    /// Records `q` in the list of known jobs, replacing an entry of the
    /// same job.
    fn upsert_known(&mut self, q: QueuedJob)
        requires
            old(self).well_formed(),
        ensures
            final(self).well_formed(),
            final(self).known() == upsert(old(self).known(), q@),
            final(self).waiting() == old(self).waiting(),
            final(self).retry_line() == old(self).retry_line(),
            final(self).counters() == old(self).counters(),
            final(self).spec_config() == old(self).spec_config(),
            final(self).next_seq() == old(self).next_seq(),
    {
        let ghost before = self.jobs@;
        match self.find_known(q.job.id) {
            Some(i) => {
                proof {
                    Self::lemma_known_position(before, q.job.id, i as int);
                }
                self.jobs.set(i, q);
                proof {
                    assert(views(self.jobs@) =~= views(before).update(i as int, q@));
                    let vs = views(self.jobs@);
                    assert forall|a: int, b: int| 0 <= a < b < vs.len() implies vs[a].job.id != vs[b].job.id by {
                        assert(views(before)[a].job.id != views(before)[b].job.id);
                    }
                }
            },
            None => {
                self.jobs.push(q);
                proof {
                    assert(views(self.jobs@) =~= views(before).push(q@));
                    let vs = views(self.jobs@);
                    assert forall|a: int, b: int| 0 <= a < b < vs.len() implies vs[a].job.id != vs[b].job.id by {
                        if b == vs.len() - 1 {
                            assert(views(before)[a].job.id != q.job.id);
                        } else {
                            assert(views(before)[a].job.id != views(before)[b].job.id);
                        }
                    }
                }
            },
        }
    }

    /// Queues `job` at time `now`.  A full queue refuses the job with
    /// `ResourceExhausted` and stays as it was.
    pub fn enqueue_at(&mut self, job: Job, now: u64) -> (r: Result<(), AppError>)
        requires
            old(self).well_formed(),
            old(self).counters().total_queued < u64::MAX,
        ensures
            final(self).well_formed(),
            final(self).spec_config() == old(self).spec_config(),
            old(self).waiting().len() >= old(self).spec_config().max_queue_size ==> {
                &&& r matches Err(AppError::ResourceExhausted(_))
                &&& final(self).waiting() == old(self).waiting()
                &&& final(self).known() == old(self).known()
                &&& final(self).counters() == old(self).counters()
                &&& final(self).retry_line() == old(self).retry_line()
            },
            old(self).waiting().len() < old(self).spec_config().max_queue_size ==> {
                let q = QueuedJobView {
                    job: job@,
                    queued_at: now,
                    sequence: old(self).next_seq(),
                    attempts: 0,
                    last_attempt: None,
                    assigned_runner: None,
                };
                &&& r is Ok
                &&& final(self).waiting() == old(self).waiting().push(q)
                &&& final(self).known() == upsert(old(self).known(), q)
                &&& final(self).counters() == (JobQueueStats {
                    total_queued: (old(self).counters().total_queued + 1) as u64,
                    ..old(self).counters()
                })
                &&& final(self).retry_line() == old(self).retry_line()
            },
    {
        if self.queue.len() >= self.config.max_queue_size {
            proof {
                assert(views(self.queue@).len() == self.queue@.len());
            }
            return Err(AppError::ResourceExhausted(String::from_str("Job queue is full")));
        }
        let seq = self.next_sequence;
        self.next_sequence = if seq < u64::MAX { seq + 1 } else { seq };
        let queued = QueuedJob { job, queued_at: now, sequence: seq, attempts: 0, last_attempt: None, assigned_runner: None };
        let copy = queued.duplicate();
        let ghost before = self.queue@;
        self.queue.push(queued);
        proof {
            assert(views(self.queue@) =~= views(before).push(copy@));
        }
        self.upsert_known(copy);
        self.stats.total_queued = self.stats.total_queued + 1;
        Ok(())
    }

    /// Queues `job` now.
    pub fn enqueue(&mut self, job: Job) -> (r: Result<(), AppError>)
        requires
            old(self).well_formed(),
            old(self).counters().total_queued < u64::MAX,
        ensures
            final(self).well_formed(),
            final(self).spec_config() == old(self).spec_config(),
            old(self).waiting().len() >= old(self).spec_config().max_queue_size <==> r is Err,
            r is Err ==> (r matches Err(AppError::ResourceExhausted(_))) && final(self).waiting() == old(self).waiting()
                && final(self).known() == old(self).known() && final(self).counters() == old(self).counters(),
            r is Ok ==> exists|now: u64| {
                let q = #[trigger] queued_view(job@, now, old(self).next_seq());
                &&& final(self).waiting() == old(self).waiting().push(q)
                &&& final(self).known() == upsert(old(self).known(), q)
            },
            r is Ok ==> final(self).counters() == (JobQueueStats {
                total_queued: (old(self).counters().total_queued + 1) as u64,
                ..old(self).counters()
            }),
            final(self).retry_line() == old(self).retry_line(),
    {
        let now = crate::platform::now_millis();
        let ghost v = job@;
        let r = self.enqueue_at(job, now);
        proof {
            if r is Ok {
                assert(queued_view(v, now, old(self).next_seq()) == (QueuedJobView {
                    job: v,
                    queued_at: now,
                    sequence: old(self).next_seq(),
                    attempts: 0,
                    last_attempt: None,
                    assigned_runner: None,
                }));
            }
        }
        r
    }

    /// Position of the job that leaves the queue next.
    fn next_position(&self) -> (pos: usize)
        requires
            self.queue@.len() > 0,
        ensures
            is_next(views(self.queue@), pos as int),
    {
        let ghost q = views(self.queue@);
        let mut best: usize = 0;
        let mut i: usize = 1;
        while i < self.queue.len()
            invariant
                q == views(self.queue@),
                q.len() == self.queue@.len(),
                1 <= i <= self.queue@.len(),
                best < i,
                forall|j: int| 0 <= j < i ==> !precedes(#[trigger] q[j], q[best as int]),
            decreases self.queue@.len() - i,
        {
            let a = self.queue[i].job.priority.rank();
            let b = self.queue[best].job.priority.rank();
            let better = a > b || (a == b && (self.queue[i].queued_at < self.queue[best].queued_at || (
            self.queue[i].queued_at == self.queue[best].queued_at && self.queue[i].sequence
                < self.queue[best].sequence)));
            proof {
                assert(q[i as int] == self.queue@[i as int]@);
                assert(q[best as int] == self.queue@[best as int]@);
                assert(better == precedes(q[i as int], q[best as int]));
            }
            if better {
                proof {
                    assert forall|j: int| 0 <= j < i + 1 implies !precedes(#[trigger] q[j], q[i as int]) by {
                        if j < i {
                            assert(!precedes(q[j], q[best as int]));
                        }
                    }
                }
                best = i;
            }
            i = i + 1;
        }
        best
    }

    /// Takes the next job at time `now`: the highest priority, and within it
    /// the one queued first.  The known entry of the job records the time
    /// it was taken.  An empty queue yields nothing.
    pub fn dequeue_at(&mut self, now: u64) -> (r: Option<Job>)
        requires
            old(self).well_formed(),
            old(self).counters().total_processed < u64::MAX,
        ensures
            final(self).well_formed(),
            final(self).spec_config() == old(self).spec_config(),
            final(self).retry_line() == old(self).retry_line(),
            old(self).waiting().len() == 0 ==> r is None && final(self).waiting() == old(self).waiting()
                && final(self).known() == old(self).known() && final(self).counters() == old(self).counters(),
            old(self).waiting().len() > 0 ==> exists|i: int| {
                &&& #[trigger] is_next(old(self).waiting(), i)
                &&& r matches Some(j) && j@ == old(self).waiting()[i].job
                &&& final(self).waiting() == old(self).waiting().remove(i)
                &&& final(self).known() == upsert(
                    old(self).known(),
                    QueuedJobView { last_attempt: Some(now), ..old(self).waiting()[i] },
                )
            },
            old(self).waiting().len() > 0 ==> final(self).counters() == (JobQueueStats {
                total_processed: (old(self).counters().total_processed + 1) as u64,
                ..old(self).counters()
            }),
    {
        if self.queue.len() == 0 {
            return None;
        }
        let pos = self.next_position();
        let ghost before = self.queue@;
        let taken = self.queue.remove(pos);
        proof {
            assert(views(self.queue@) =~= views(before).remove(pos as int));
        }
        let job = taken.job.duplicate();
        let mut updated = taken;
        updated.last_attempt = Some(now);
        self.upsert_known(updated);
        self.stats.total_processed = self.stats.total_processed + 1;
        proof {
            assert(is_next(views(before), pos as int));
        }
        Some(job)
    }

    /// Takes the next job now.
    pub fn dequeue(&mut self) -> (r: Option<Job>)
        requires
            old(self).well_formed(),
            old(self).counters().total_processed < u64::MAX,
        ensures
            final(self).well_formed(),
            old(self).waiting().len() == 0 <==> r is None,
            old(self).waiting().len() > 0 ==> final(self).waiting().len() == old(self).waiting().len() - 1,
            old(self).waiting().len() > 0 ==> exists|i: int|
                #[trigger] is_next(old(self).waiting(), i) && (r matches Some(j) && j@ == old(self).waiting()[i].job)
                    && final(self).waiting() == old(self).waiting().remove(i),
            old(self).waiting().len() == 0 ==> final(self).waiting() == old(self).waiting() && final(self).counters()
                == old(self).counters(),
            old(self).waiting().len() > 0 ==> final(self).counters().total_processed == old(self).counters().total_processed
                + 1,
    {
        let now = crate::platform::now_millis();
        self.dequeue_at(now)
    }

    /// The job that would leave the queue next, without taking it.
    pub fn peek(&self) -> (r: Option<Job>)
        ensures
            self.waiting().len() == 0 ==> r is None,
            self.waiting().len() > 0 ==> exists|i: int|
                #[trigger] is_next(self.waiting(), i) && (r matches Some(j) && j@ == self.waiting()[i].job),
    {
        if self.queue.len() == 0 {
            return None;
        }
        let pos = self.next_position();
        Some(self.queue[pos].job.duplicate())
    }

    /// The known job with identifier `job_id`.
    pub fn get_job(&self, job_id: u128) -> (r: Option<Job>)
        requires
            self.well_formed(),
        ensures
            knows(self.known(), job_id) ==> (r matches Some(j) && j@ == self.known()[known_position(
                self.known(),
                job_id,
            )].job),
            !knows(self.known(), job_id) ==> r is None,
    {
        match self.find_known(job_id) {
            Some(i) => {
                proof {
                    Self::lemma_known_position(self.jobs@, job_id, i as int);
                }
                Some(self.jobs[i].job.duplicate())
            },
            None => None,
        }
    }

    /// Forgets job `job_id` and takes every waiting copy of it out of
    /// the queue.  Returns whether the job was known.
    pub fn remove_job(&mut self, job_id: u128) -> (removed: bool)
        requires
            old(self).well_formed(),
        ensures
            final(self).well_formed(),
            removed == knows(old(self).known(), job_id),
            removed ==> final(self).known() == old(self).known().remove(
                known_position(old(self).known(), job_id),
            ),
            removed ==> final(self).waiting() == old(self).waiting().filter(|q: QueuedJobView| q.job.id != job_id),
            !removed ==> final(self).known() == old(self).known() && final(self).waiting()
                == old(self).waiting(),
            final(self).retry_line() == old(self).retry_line(),
            final(self).counters() == old(self).counters(),
            final(self).spec_config() == old(self).spec_config(),
    {
        match self.find_known(job_id) {
            None => false,
            Some(i) => {
                proof {
                    Self::lemma_known_position(self.jobs@, job_id, i as int);
                }
                let ghost before_jobs = self.jobs@;
                self.jobs.remove(i);
                proof {
                    assert(views(self.jobs@) =~= views(before_jobs).remove(i as int));
                    let vs = views(self.jobs@);
                    let old_vs = views(before_jobs);
                    assert forall|a: int, b: int| 0 <= a < b < vs.len() implies vs[a].job.id != vs[b].job.id by {
                        let aa = if a < i { a } else { a + 1 };
                        let bb = if b < i { b } else { b + 1 };
                        assert(vs[a] == old_vs[aa] && vs[b] == old_vs[bb]);
                    }
                }
                let ghost before = self.queue@;
                let ghost keep = |q: QueuedJobView| q.job.id != job_id;
                let mut kept: Vec<QueuedJob> = Vec::new();
                let mut k: usize = 0;
                while k < self.queue.len()
                    invariant
                        self.queue@ == before,
                        k <= before.len(),
                        views(kept@) == views(before).subrange(0, k as int).filter(keep),
                        keep == (|q: QueuedJobView| q.job.id != job_id),
                    decreases before.len() - k,
                {
                    let ghost s = views(before).subrange(0, k as int + 1);
                    proof {
                        assert(s.drop_last() == views(before).subrange(0, k as int));
                        reveal(Seq::filter);
                        assert(s.last() == before[k as int]@);
                    }
                    if self.queue[k].job.id != job_id {
                        let c = self.queue[k].duplicate();
                        let ghost kb = kept@;
                        kept.push(c);
                        proof {
                            assert(views(kept@) =~= views(kb).push(c@));
                        }
                    }
                    proof {
                        assert(views(kept@) =~= s.filter(keep));
                    }
                    k = k + 1;
                }
                proof {
                    assert(views(before).subrange(0, before.len() as int) == views(before));
                }
                self.queue = kept;
                true
            },
        }
    }

    /// Number of waiting jobs.
    pub fn size(&self) -> (n: usize)
        ensures
            n == self.waiting().len(),
    {
        self.queue.len()
    }

    /// Whether no job waits.
    pub fn is_empty(&self) -> (b: bool)
        ensures
            b == (self.waiting().len() == 0),
    {
        self.queue.len() == 0
    }

    /// The counters.
    pub fn get_stats(&self) -> (s: JobQueueStats)
        ensures
            s == self.counters(),
    {
        self.stats
    }

    /// Empties the queue, the known jobs and the retry line, and resets the
    /// counters.
    pub fn clear(&mut self)
        ensures
            final(self).well_formed(),
            final(self).waiting() == Seq::<QueuedJobView>::empty(),
            final(self).known() == Seq::<QueuedJobView>::empty(),
            final(self).retry_line() == Seq::<QueuedJobView>::empty(),
            final(self).counters() == (JobQueueStats { total_queued: 0, total_processed: 0, total_failed: 0, current_queue_size: 0 }),
            final(self).spec_config() == old(self).spec_config(),
    {
        self.queue.clear();
        self.jobs.clear();
        self.failed_jobs.clear();
        self.stats = JobQueueStats { total_queued: 0, total_processed: 0, total_failed: 0, current_queue_size: 0 };
        proof {
            assert(views(self.queue@) =~= Seq::<QueuedJobView>::empty());
            assert(views(self.jobs@) =~= Seq::<QueuedJobView>::empty());
            assert(views(self.failed_jobs@) =~= Seq::<QueuedJobView>::empty());
        }
    }

    /// The known jobs of priority `priority`.
    pub fn get_jobs_by_priority(&self, priority: JobPriority) -> (r: Vec<Job>)
        ensures
            r@.map_values(|j: Job| j@) == self.known().filter(|q: QueuedJobView| q.job.priority == priority).map_values(
                |q: QueuedJobView| q.job,
            ),
    {
        let ghost f = |q: QueuedJobView| q.job.priority == priority;
        let ghost g = |q: QueuedJobView| q.job;
        let mut out: Vec<Job> = Vec::new();
        let mut i: usize = 0;
        while i < self.jobs.len()
            invariant
                i <= self.jobs@.len(),
                out@.map_values(|j: Job| j@) == views(self.jobs@).subrange(0, i as int).filter(f).map_values(g),
                f == (|q: QueuedJobView| q.job.priority == priority),
                g == (|q: QueuedJobView| q.job),
            decreases self.jobs@.len() - i,
        {
            let ghost s = views(self.jobs@).subrange(0, i as int + 1);
            proof {
                assert(s.drop_last() == views(self.jobs@).subrange(0, i as int));
                reveal(Seq::filter);
                assert(s.last() == self.jobs@[i as int]@);
            }
            if self.jobs[i].job.priority == priority {
                let j = self.jobs[i].job.duplicate();
                let ghost ob = out@;
                out.push(j);
                proof {
                    assert(out@.map_values(|j: Job| j@) =~= ob.map_values(|j: Job| j@).push(j@));
                }
            }
            proof {
                assert(out@.map_values(|j: Job| j@) =~= s.filter(f).map_values(g));
            }
            i = i + 1;
        }
        proof {
            assert(views(self.jobs@).subrange(0, self.jobs@.len() as int) == views(self.jobs@));
        }
        out
    }

    /// Jobs by status: this queue does not follow the status of a job once
    /// taken, so the answer is always empty.
    pub fn get_jobs_by_status(&self, _status: JobStatus) -> (r: Vec<Job>)
        ensures
            r@.len() == 0,
    {
        Vec::new()
    }

    /// Records a status of known job `job_id`; a failure puts the job in
    /// the retry line and counts it as failed.
    pub fn update_job_status(&mut self, job_id: u128, status: JobStatus)
        requires
            old(self).well_formed(),
            old(self).counters().total_failed < u64::MAX,
        ensures
            final(self).well_formed(),
            final(self).waiting() == old(self).waiting(),
            final(self).known() == old(self).known(),
            final(self).spec_config() == old(self).spec_config(),
            knows(old(self).known(), job_id) && status == JobStatus::Failed ==> {
                &&& final(self).retry_line() == old(self).retry_line().push(
                    old(self).known()[known_position(old(self).known(), job_id)],
                )
                &&& final(self).counters() == (JobQueueStats {
                    total_failed: (old(self).counters().total_failed + 1) as u64,
                    ..old(self).counters()
                })
            },
            !(knows(old(self).known(), job_id) && status == JobStatus::Failed) ==> final(self).retry_line()
                == old(self).retry_line() && final(self).counters() == old(self).counters(),
    {
        if status != JobStatus::Failed {
            return;
        }
        match self.find_known(job_id) {
            None => {},
            Some(i) => {
                proof {
                    Self::lemma_known_position(self.jobs@, job_id, i as int);
                }
                let c = self.jobs[i].duplicate();
                let ghost before = self.failed_jobs@;
                self.failed_jobs.push(c);
                proof {
                    assert(views(self.failed_jobs@) =~= views(before).push(c@));
                }
                self.stats.total_failed = self.stats.total_failed + 1;
            },
        }
    }

    /// Queues known job `job_id` again at `now` with one more attempt.  A
    /// job out of attempts is refused with `BadRequest`, an unknown job with
    /// `NotFound`.
    pub fn retry_job_at(&mut self, job_id: u128, now: u64) -> (r: Result<(), AppError>)
        requires
            old(self).well_formed(),
        ensures
            final(self).well_formed(),
            final(self).spec_config() == old(self).spec_config(),
            final(self).retry_line() == old(self).retry_line(),
            final(self).counters() == old(self).counters(),
            !knows(old(self).known(), job_id) ==> (r matches Err(AppError::NotFound(_))
                && final(self).waiting() == old(self).waiting() && final(self).known() == old(self).known()),
            knows(old(self).known(), job_id) ==> ({
                let e = old(self).known()[known_position(old(self).known(), job_id)];
                if e.attempts < old(self).spec_config().max_retry_attempts {
                    let q = QueuedJobView { attempts: (e.attempts + 1) as u32, last_attempt: Some(now), ..e };
                    &&& r is Ok
                    &&& final(self).waiting() == old(self).waiting().push(q)
                    &&& final(self).known() == upsert(old(self).known(), q)
                } else {
                    &&& r matches Err(AppError::BadRequest(_))
                    &&& final(self).waiting() == old(self).waiting()
                    &&& final(self).known() == old(self).known()
                }
            }),
    {
        match self.find_known(job_id) {
            None => Err(AppError::NotFound(String::from_str("Job not found"))),
            Some(i) => {
                proof {
                    Self::lemma_known_position(self.jobs@, job_id, i as int);
                }
                if self.jobs[i].attempts < self.config.max_retry_attempts {
                    let mut retry = self.jobs[i].duplicate();
                    retry.attempts = retry.attempts + 1;
                    retry.last_attempt = Some(now);
                    let copy = retry.duplicate();
                    let ghost before = self.queue@;
                    self.queue.push(retry);
                    proof {
                        assert(views(self.queue@) =~= views(before).push(copy@));
                    }
                    self.upsert_known(copy);
                    Ok(())
                } else {
                    Err(AppError::BadRequest(String::from_str("Job has exceeded maximum retry attempts")))
                }
            },
        }
    }

    /// Queues known job `job_id` again now.
    pub fn retry_job(&mut self, job_id: u128) -> (r: Result<(), AppError>)
        requires
            old(self).well_formed(),
        ensures
            final(self).well_formed(),
            final(self).spec_config() == old(self).spec_config(),
            final(self).retry_line() == old(self).retry_line(),
            final(self).counters() == old(self).counters(),
            !knows(old(self).known(), job_id) ==> (r matches Err(AppError::NotFound(_)) && final(self).waiting() == old(
                self,
            ).waiting() && final(self).known() == old(self).known()),
            knows(old(self).known(), job_id) ==> ({
                let e = old(self).known()[known_position(old(self).known(), job_id)];
                if e.attempts < old(self).spec_config().max_retry_attempts {
                    &&& r is Ok
                    &&& exists|now: u64| {
                        let q = #[trigger] retried_view(e, now);
                        &&& final(self).waiting() == old(self).waiting().push(q)
                        &&& final(self).known() == upsert(old(self).known(), q)
                    }
                } else {
                    &&& r matches Err(AppError::BadRequest(_))
                    &&& final(self).waiting() == old(self).waiting()
                    &&& final(self).known() == old(self).known()
                }
            }),
    {
        let now = crate::platform::now_millis();
        let r = self.retry_job_at(job_id, now);
        proof {
            if knows(old(self).known(), job_id) {
                let e = old(self).known()[known_position(old(self).known(), job_id)];
                assert(retried_view(e, now) == (QueuedJobView { attempts: (e.attempts + 1) as u32, last_attempt: Some(now), ..e }));
            }
        }
        r
    }

    /// The jobs in the retry line, oldest first.
    pub fn get_retry_jobs(&self) -> (r: Vec<Job>)
        ensures
            r@.map_values(|j: Job| j@) == self.retry_line().map_values(|q: QueuedJobView| q.job),
    {
        let mut out: Vec<Job> = Vec::new();
        let mut i: usize = 0;
        while i < self.failed_jobs.len()
            invariant
                i <= self.failed_jobs@.len(),
                out@.map_values(|j: Job| j@) == views(self.failed_jobs@).subrange(0, i as int).map_values(
                    |q: QueuedJobView| q.job,
                ),
            decreases self.failed_jobs@.len() - i,
        {
            let j = self.failed_jobs[i].job.duplicate();
            let ghost ob = out@;
            out.push(j);
            proof {
                assert(views(self.failed_jobs@)[i as int] == self.failed_jobs@[i as int]@);
                assert(out@.map_values(|j: Job| j@) =~= ob.map_values(|j: Job| j@).push(j@));
                assert(out@.map_values(|j: Job| j@) =~= views(self.failed_jobs@).subrange(0, i as int + 1).map_values(
                    |q: QueuedJobView| q.job,
                ));
            }
            i = i + 1;
        }
        proof {
            assert(views(self.failed_jobs@).subrange(0, self.failed_jobs@.len() as int) == views(
                self.failed_jobs@,
            ));
        }
        out
    }

    /// Requeues the failed jobs whose retry delay has passed now.
    pub fn process_retries(&mut self) -> (requeued: usize)
        requires
            old(self).well_formed(),
            old(self).counters().total_failed + old(self).retry_line().len() <= u64::MAX,
        ensures
            final(self).well_formed(),
            final(self).spec_config() == old(self).spec_config(),
            final(self).retry_line().len() <= old(self).retry_line().len(),
            final(self).retry_line() == old(self).retry_line().subrange(
                old(self).retry_line().len() - final(self).retry_line().len(),
                old(self).retry_line().len() as int,
            ),
            final(self).waiting().len() == old(self).waiting().len() + requeued,
            final(self).counters().total_failed + requeued == old(self).counters().total_failed + (old(self).retry_line().len()
                - final(self).retry_line().len()),
            final(self).counters().total_queued == old(self).counters().total_queued,
            final(self).counters().total_processed == old(self).counters().total_processed,
    {
        let now = crate::platform::now_millis();
        self.process_retries_at(now)
    }

    /// Moves the failed jobs whose retry delay has passed at `now` out of the
    /// retry line, oldest first, stopping at the first that must wait.  Each
    /// with attempts left is queued again with one more attempt; each without
    /// is counted as failed.  Returns how many jobs were queued again.
    pub fn process_retries_at(&mut self, now: u64) -> (requeued: usize)
        requires
            old(self).well_formed(),
            old(self).counters().total_failed + old(self).retry_line().len() <= u64::MAX,
        ensures
            final(self).well_formed(),
            final(self).spec_config() == old(self).spec_config(),
            final(self).retry_line().len() <= old(self).retry_line().len(),
            final(self).retry_line() == old(self).retry_line().subrange(
                old(self).retry_line().len() - final(self).retry_line().len(),
                old(self).retry_line().len() as int,
            ),
            final(self).waiting().len() == old(self).waiting().len() + requeued,
            final(self).counters().total_failed + requeued == old(self).counters().total_failed + (old(self).retry_line().len()
                - final(self).retry_line().len()),
            final(self).counters().total_queued == old(self).counters().total_queued,
            final(self).counters().total_processed == old(self).counters().total_processed,
            final(self).retry_line().len() > 0 ==> ({
                let head = final(self).retry_line()[0];
                head.last_attempt matches Some(t) && now < t + old(self).spec_config().retry_delay_seconds * 1000
            }),
    {
        let delay_ms: u128 = self.config.retry_delay_seconds as u128 * 1000;
        let mut requeued: usize = 0;
        let ghost line0 = views(self.failed_jobs@);
        let ghost waiting0 = views(self.queue@).len();
        let ghost failed0 = self.stats.total_failed;
        let ghost cfg = self.config;
        let ghost st0 = self.stats;
        proof {
            assert(self.failed_jobs.len() == self.failed_jobs@.len());
        }
        while self.failed_jobs.len() > 0
            invariant
                self.well_formed(),
                self.config == cfg,
                delay_ms == cfg.retry_delay_seconds as u128 * 1000,
                views(self.failed_jobs@).len() <= line0.len(),
                views(self.failed_jobs@) == line0.subrange(line0.len() - views(self.failed_jobs@).len(), line0.len() as int),
                views(self.queue@).len() == waiting0 + requeued,
                self.stats.total_failed + requeued == failed0 + (line0.len() - views(self.failed_jobs@).len()),
                failed0 + line0.len() <= u64::MAX,
                self.stats.total_queued == st0.total_queued,
                self.stats.total_processed == st0.total_processed,
                line0.len() <= usize::MAX,
                requeued <= line0.len() - views(self.failed_jobs@).len(),
            ensures
                views(self.failed_jobs@).len() > 0 ==> ({
                    let head = views(self.failed_jobs@)[0];
                    head.last_attempt matches Some(t) && now < t + cfg.retry_delay_seconds * 1000
                }),
            decreases self.failed_jobs@.len(),
        {
            let ready = match self.failed_jobs[0].last_attempt {
                Some(t) => now as u128 >= t as u128 + delay_ms,
                None => true,
            };
            if !ready {
                proof {
                    assert(views(self.failed_jobs@)[0] == self.failed_jobs@[0]@);
                }
                break;
            }
            let ghost fb = self.failed_jobs@;
            let mut job = self.failed_jobs.remove(0);
            proof {
                assert(views(self.failed_jobs@) =~= views(fb).subrange(1, views(fb).len() as int));
                assert(views(self.failed_jobs@) =~= line0.subrange(line0.len() - views(self.failed_jobs@).len(), line0.len() as int));
            }
            if job.attempts < self.config.max_retry_attempts {
                job.attempts = job.attempts + 1;
                job.last_attempt = Some(now);
                let copy = job.duplicate();
                let ghost qb = self.queue@;
                self.queue.push(job);
                proof {
                    assert(views(self.queue@) =~= views(qb).push(copy@));
                }
                self.upsert_known(copy);
                requeued = requeued + 1;
            } else {
                self.stats.total_failed = self.stats.total_failed + 1;
            }
        }
        requeued
    }
}

/// Jobs leave the queue in priority order: the job that is taken next is
/// never preceded by a job that stays behind, so a higher-priority job is
/// always taken before a lower-priority one, and among equal priorities the
/// one queued first goes first.
pub proof fn lemma_dequeue_respects_priority(q: Seq<QueuedJobView>, i: int, j: int)
    requires
        is_next(q, i),
        0 <= j < q.len(),
    ensures
        priority_rank(q[j].job.priority) <= priority_rank(q[i].job.priority),
        priority_rank(q[j].job.priority) == priority_rank(q[i].job.priority) ==> q[i].queued_at <= q[j].queued_at,
{
    assert(!precedes(q[j], q[i]));
}

/// A single queued job is the one taken next.
pub proof fn lemma_single_job_is_next(q: Seq<QueuedJobView>)
    requires
        q.len() == 1,
    ensures
        is_next(q, 0),
{
    assert forall|j: int| 0 <= j < q.len() implies !precedes(#[trigger] q[j], q[0]) by {
        assert(j == 0);
    }
}

} // verus!
