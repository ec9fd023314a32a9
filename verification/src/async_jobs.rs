//! A queue of background jobs: pending jobs wait highest priority first,
//! a bounded number run at once, and each ends completed or failed.
//!
//! Running a job is outside work: the queue hands out the next job when a
//! slot is free, and is told how it ended.  The queue keeps the metadata of
//! the jobs; times are seconds since the epoch.

pub use crate::domain::JobPriority;
use crate::domain::priority_rank;
use crate::errors::AppError;
use dashmap::DashMap;
use vstd::prelude::*;

verus! {

/// The JSON data a job may answer with.
#[verifier::external_type_specification]
#[verifier::external_body]
pub struct ExJsonValue(serde_json::Value);

/// Where a background job stands.
#[derive(Debug, Clone, Copy, PartialEq, Eq, Structural)]
pub enum JobStatus {
    Pending,
    Running,
    Completed,
    Failed,
    Cancelled,
    Retrying,
}

/// What the queue knows of a job.
#[derive(Debug, Clone)]
pub struct JobMetadata {
    pub id: u128,
    pub name: String,
    pub priority: JobPriority,
    pub status: JobStatus,
    pub created_at: u64,
    pub started_at: Option<u64>,
    pub completed_at: Option<u64>,
    pub retry_count: u32,
    pub max_retries: u32,
    pub timeout_seconds: u64,
    pub tags: Vec<String>,
    pub metadata: Vec<(String, String)>,
    pub error_message: Option<String>,
    /// Progress in whole percent.
    pub progress: Option<u64>,
}

impl JobMetadata {
    /// A pending job named `name` with `priority`, made at `now`: three
    /// retries, five minutes to run, no tags.
    pub fn new_at(name: String, priority: JobPriority, id: u128, now: u64) -> (m: Self)
        ensures
            m.id == id,
            m.name == name,
            m.priority == priority,
            m.status == JobStatus::Pending,
            m.created_at == now,
            m.started_at is None,
            m.completed_at is None,
            m.retry_count == 0,
            m.max_retries == 3,
            m.timeout_seconds == 300,
            m.tags@.len() == 0,
            m.metadata@.len() == 0,
            m.error_message is None,
            m.progress is None,
    {
        JobMetadata {
            id,
            name,
            priority,
            status: JobStatus::Pending,
            created_at: now,
            started_at: None,
            completed_at: None,
            retry_count: 0,
            max_retries: 3,
            timeout_seconds: 300,
            tags: Vec::new(),
            metadata: Vec::new(),
            error_message: None,
            progress: None,
        }
    }

    /// A pending job named `name` with `priority`, with a fresh identifier,
    /// made now.
    pub fn new(name: String, priority: JobPriority) -> (m: Self)
        ensures
            m.name == name,
            m.priority == priority,
            m.status == JobStatus::Pending,
            m.max_retries == 3,
            m.timeout_seconds == 300,
            m.tags@.len() == 0,
            m.id != 0,
            m.started_at is None,
            m.completed_at is None,
            m.retry_count == 0,
            m.metadata@.len() == 0,
            m.error_message is None,
            m.progress is None,
    {
        Self::new_at(name, priority, crate::platform::new_identifier(), crate::platform::now_secs())
    }

    /// The same job with `max_retries` retries.
    pub fn with_max_retries(self, max_retries: u32) -> (m: Self)
        ensures
            m == (JobMetadata { max_retries, ..self }),
    {
        JobMetadata { max_retries, ..self }
    }

    /// The same job with `timeout_seconds` to run.
    pub fn with_timeout(self, timeout_seconds: u64) -> (m: Self)
        ensures
            m == (JobMetadata { timeout_seconds, ..self }),
    {
        JobMetadata { timeout_seconds, ..self }
    }

    /// The same job with `tags`.
    pub fn with_tags(self, tags: Vec<String>) -> (m: Self)
        ensures
            m == (JobMetadata { tags, ..self }),
    {
        JobMetadata { tags, ..self }
    }

    /// The same job with `metadata`.
    pub fn with_metadata(self, metadata: Vec<(String, String)>) -> (m: Self)
        ensures
            m == (JobMetadata { metadata, ..self }),
    {
        JobMetadata { metadata, ..self }
    }

    /// Seconds from start to completion, once both are known.
    pub fn duration(&self) -> (d: Option<u64>)
        requires
            self.started_at matches Some(s) ==> (self.completed_at matches Some(c) ==> s <= c),
        ensures
            d == match (self.started_at, self.completed_at) {
                (Some(s), Some(c)) => Some((c - s) as u64),
                _ => None::<u64>,
            },
    {
        match (self.started_at, self.completed_at) {
            (Some(s), Some(c)) => Some(c - s),
            _ => None,
        }
    }

    /// An equal copy.
    pub fn duplicate(&self) -> (m: Self)
        ensures
            same_metadata(m, *self),
    {
        let mut tags: Vec<String> = Vec::new();
        let mut i: usize = 0;
        while i < self.tags.len()
            invariant
                i <= self.tags@.len(),
                tags@ == self.tags@.take(i as int),
            decreases self.tags@.len() - i,
        {
            tags.push(self.tags[i].clone());
            proof {
                assert(tags@ =~= self.tags@.take(i as int + 1));
            }
            i = i + 1;
        }
        proof {
            assert(self.tags@.take(self.tags@.len() as int) =~= self.tags@);
        }
        JobMetadata {
            id: self.id,
            name: self.name.clone(),
            priority: self.priority,
            status: self.status,
            created_at: self.created_at,
            started_at: self.started_at,
            completed_at: self.completed_at,
            retry_count: self.retry_count,
            max_retries: self.max_retries,
            timeout_seconds: self.timeout_seconds,
            tags,
            metadata: crate::domain::copy_pairs(&self.metadata),
            error_message: crate::control_plane_observability::copy_text(&self.error_message),
            progress: self.progress,
        }
    }
}

/// Whether `a` and `b` describe the same job alike.
pub open spec fn same_metadata(a: JobMetadata, b: JobMetadata) -> bool {
    &&& a.id == b.id
    &&& a.name == b.name
    &&& a.priority == b.priority
    &&& a.status == b.status
    &&& a.created_at == b.created_at
    &&& a.started_at == b.started_at
    &&& a.completed_at == b.completed_at
    &&& a.retry_count == b.retry_count
    &&& a.max_retries == b.max_retries
    &&& a.timeout_seconds == b.timeout_seconds
    &&& a.tags@ == b.tags@
    &&& a.metadata@ == b.metadata@
    &&& a.error_message == b.error_message
    &&& a.progress == b.progress
}

/// What a job answers when it ends.
#[derive(Debug, Clone)]
pub struct JobResult {
    pub success: bool,
    pub message: Option<String>,
    pub data: Option<serde_json::Value>,
    pub should_retry: bool,
}

impl JobResult {
    /// Success, without data.
    pub fn success() -> (r: Self)
        ensures
            r.success,
            r.message is None,
            r.data is None,
            !r.should_retry,
    {
        JobResult { success: true, message: None, data: None, should_retry: false }
    }

    /// Success with `data`.
    pub fn success_with_data(data: serde_json::Value) -> (r: Self)
        ensures
            r.success,
            r.message is None,
            r.data == Some(data),
            !r.should_retry,
    {
        JobResult { success: true, message: None, data: Some(data), should_retry: false }
    }

    /// Failure with `message`, to be retried or not.
    pub fn failure(message: String, should_retry: bool) -> (r: Self)
        ensures
            !r.success,
            r.message == Some(message),
            r.data is None,
            r.should_retry == should_retry,
    {
        JobResult { success: false, message: Some(message), data: None, should_retry }
    }
}

/// How the execution of a job ended.
#[derive(Debug)]
pub enum JobOutcome {
    /// The job answered.
    Answered(JobResult),
    /// The job failed with an error.
    Error(AppError),
    /// The job ran out of time.
    TimedOut,
}

/// Counts of the queue.
#[derive(Debug, Clone, Copy, PartialEq, Eq, Structural)]
pub struct QueueStats {
    pub pending_jobs: usize,
    pub running_jobs: usize,
    pub completed_jobs: usize,
    pub failed_jobs: usize,
    pub total_capacity: usize,
    pub available_capacity: usize,
}

/// Whether the priorities of `s` never rise.
pub open spec fn by_priority(s: Seq<JobMetadata>) -> bool {
    forall|i: int, j: int| 0 <= i < j < s.len() ==> priority_rank(#[trigger] s[i].priority) >= priority_rank(
        #[trigger] s[j].priority,
    )
}

/// Whether `i` is the first position of `s` holding a job with
/// identifier `id`.
pub open spec fn first_pending(s: Seq<JobMetadata>, id: u128, i: int) -> bool {
    &&& 0 <= i < s.len()
    &&& s[i].id == id
    &&& forall|j: int| 0 <= j < i ==> #[trigger] s[j].id != id
}

/// Whether a job with identifier `id` waits in `s`.
pub open spec fn pending_has(s: Seq<JobMetadata>, id: u128) -> bool {
    exists|i: int| 0 <= i < s.len() && #[trigger] s[i].id == id
}

/// Jobs by identifier, in a concurrent map.
pub type JobMap = DashMap<u128, JobMetadata>;

/// What a map of jobs holds, by identifier.
pub uninterp spec fn job_entries(m: JobMap) -> Map<u128, JobMetadata>;

/// No jobs.
pub open spec fn no_jobs() -> Map<u128, JobMetadata> {
    Map::empty()
}

/// An empty map, from `DashMap::new`.
#[verifier::external_body]
fn jobs_new() -> (m: JobMap)
    ensures
        job_entries(m) == no_jobs(),
{
    DashMap::new()
}

/// `DashMap::insert`: stores `job` under `id`, in place of one already
/// there.
#[verifier::external_body]
fn jobs_insert(m: &mut JobMap, id: u128, job: JobMetadata)
    ensures
        job_entries(*final(m)) == job_entries(*old(m)).insert(id, job),
{
    m.insert(id, job);
}

/// `DashMap::remove`: takes out the job under `id`, if any.
#[verifier::external_body]
fn jobs_remove(m: &mut JobMap, id: u128) -> (r: Option<JobMetadata>)
    ensures
        job_entries(*final(m)) == job_entries(*old(m)).remove(id),
        r is Some == job_entries(*old(m)).contains_key(id),
        r matches Some(j) ==> j == job_entries(*old(m))[id],
{
    match m.remove(&id) {
        Some((_, j)) => Some(j),
        None => None,
    }
}

/// `DashMap::get`: a copy of the job under `id`, if any.
#[verifier::external_body]
fn jobs_get(m: &JobMap, id: u128) -> (r: Option<JobMetadata>)
    ensures
        r is Some == job_entries(*m).contains_key(id),
        r matches Some(j) ==> same_metadata(j, job_entries(*m)[id]),
{
    m.get(&id).map(|j| j.value().duplicate())
}

/// `DashMap::contains_key`: whether a job is stored under `id`.
#[verifier::external_body]
fn jobs_contains(m: &JobMap, id: u128) -> (b: bool)
    ensures
        b == job_entries(*m).contains_key(id),
{
    m.contains_key(&id)
}

/// `DashMap::len`: the number of jobs.
#[verifier::external_body]
fn jobs_len(m: &JobMap) -> (n: usize)
    ensures
        n == job_entries(*m).len(),
{
    m.len()
}

/// The queue of background jobs.
pub struct JobQueue {
    pending_jobs: Vec<JobMetadata>,
    running_jobs: JobMap,
    completed_jobs: JobMap,
    failed_jobs: JobMap,
    max_concurrent_jobs: usize,
    available_permits: usize,
    processing_started: bool,
}

impl JobQueue {
    /// Pending jobs, next first.
    pub closed spec fn pending(&self) -> Seq<JobMetadata> {
        self.pending_jobs@
    }

    /// Jobs handed out and not yet started.
    pub closed spec fn running(&self) -> Map<u128, JobMetadata> {
        job_entries(self.running_jobs)
    }

    /// Completed jobs.
    pub closed spec fn completed(&self) -> Map<u128, JobMetadata> {
        job_entries(self.completed_jobs)
    }

    /// Failed jobs.
    pub closed spec fn failed(&self) -> Map<u128, JobMetadata> {
        job_entries(self.failed_jobs)
    }

    /// Jobs allowed at once.
    pub closed spec fn capacity(&self) -> usize {
        self.max_concurrent_jobs
    }

    /// Free slots.
    pub closed spec fn free(&self) -> usize {
        self.available_permits
    }

    /// Whether processing was started.
    pub closed spec fn processing(&self) -> bool {
        self.processing_started
    }

    /// Pending jobs in priority order, one entry per job in each table, and
    /// no more free slots than allowed.
    pub closed spec fn well_formed(&self) -> bool {
        &&& by_priority(self.pending_jobs@)
        &&& self.running().dom().finite()
        &&& self.completed().dom().finite()
        &&& self.failed().dom().finite()
        &&& self.available_permits <= self.max_concurrent_jobs
    }

    /// An empty queue running at most `max_concurrent_jobs` jobs at once.
    pub fn new(max_concurrent_jobs: usize) -> (q: Self)
        ensures
            q.well_formed(),
            q.pending().len() == 0,
            q.running() == no_jobs(),
            q.completed() == no_jobs(),
            q.failed() == no_jobs(),
            q.capacity() == max_concurrent_jobs,
            q.free() == max_concurrent_jobs,
            !q.processing(),
    {
        JobQueue {
            pending_jobs: Vec::new(),
            running_jobs: jobs_new(),
            completed_jobs: jobs_new(),
            failed_jobs: jobs_new(),
            max_concurrent_jobs,
            available_permits: max_concurrent_jobs,
            processing_started: false,
        }
    }

    /// Starts processing the queue, once: a second start is refused with
    /// `InternalServerError` and changes nothing.
    pub fn start_processing(&mut self) -> (r: Result<(), AppError>)
        requires
            old(self).well_formed(),
        ensures
            final(self).well_formed(),
            old(self).processing() ==> (r matches Err(AppError::InternalServerError(m)) && m@
                == "Job queue already started"@) && *final(self) == *old(self),
            !old(self).processing() ==> r is Ok && final(self).processing() && final(self).pending() == old(
                self,
            ).pending() && final(self).running() == old(self).running() && final(self).completed() == old(self).completed()
                && final(self).failed() == old(self).failed() && final(self).capacity() == old(self).capacity()
                && final(self).free() == old(self).free(),
    {
        if self.processing_started {
            return Err(AppError::InternalServerError(String::from_str("Job queue already started")));
        }
        self.processing_started = true;
        Ok(())
    }

    /// Adds a job: it waits after every pending job of the same or a
    /// higher priority and before the others.  Returns its identifier.
    pub fn submit_job(&mut self, job: JobMetadata) -> (id: u128)
        requires
            old(self).well_formed(),
        ensures
            final(self).well_formed(),
            id == job.id,
            exists|k: int|
                #![trigger old(self).pending().insert(k, job)]
                0 <= k <= old(self).pending().len() && final(self).pending() == old(self).pending().insert(
                    k,
                    job,
                ) && (forall|i: int| 0 <= i < k ==> priority_rank(old(self).pending()[i].priority) >= priority_rank(
                    job.priority,
                )) && (forall|i: int| k <= i < old(self).pending().len() ==> priority_rank(
                    old(self).pending()[i].priority,
                ) < priority_rank(job.priority)),
            final(self).running() == old(self).running(),
            final(self).completed() == old(self).completed(),
            final(self).failed() == old(self).failed(),
            final(self).capacity() == old(self).capacity(),
            final(self).free() == old(self).free(),
    {
        let id = job.id;
        let rank = job.priority.rank();
        let mut pos: usize = 0;
        while pos < self.pending_jobs.len() && self.pending_jobs[pos].priority.rank() >= rank
            invariant
                pos <= self.pending_jobs@.len(),
                rank == priority_rank(job.priority),
                forall|i: int| 0 <= i < pos ==> priority_rank(#[trigger] self.pending_jobs@[i].priority) >= rank,
            decreases self.pending_jobs@.len() - pos,
        {
            pos = pos + 1;
        }
        let ghost before = self.pending_jobs@;
        proof {
            assert forall|i: int| pos <= i < before.len() implies priority_rank(before[i].priority) < rank by {
                assert(priority_rank(before[pos as int].priority) < rank);
                assert(priority_rank(before[pos as int].priority) >= priority_rank(before[i].priority));
            }
        }
        self.pending_jobs.insert(pos, job);
        proof {
            let s = self.pending_jobs@;
            assert(s == before.insert(pos as int, job));
            assert(old(self).pending().insert(pos as int, job) == s);
            assert forall|i: int, j: int| 0 <= i < j < s.len() implies priority_rank(#[trigger] s[i].priority)
                >= priority_rank(#[trigger] s[j].priority) by {
                if j < pos {
                    assert(s[i] == before[i] && s[j] == before[j]);
                } else if j == pos {
                    assert(s[i] == before[i]);
                } else if i == pos {
                    assert(s[j] == before[j - 1]);
                } else if i < pos {
                    assert(s[i] == before[i] && s[j] == before[j - 1]);
                } else {
                    assert(s[i] == before[i - 1] && s[j] == before[j - 1]);
                }
            }
        }
        id
    }

    /// Hands out the next pending job when a slot is free: it leaves the
    /// pending jobs, takes a slot and counts as running.
    pub fn take_next(&mut self) -> (r: Option<JobMetadata>)
        requires
            old(self).well_formed(),
        ensures
            final(self).well_formed(),
            (old(self).free() == 0 || old(self).pending().len() == 0) ==> r is None && final(self).pending() == old(
                self,
            ).pending() && final(self).running() == old(self).running() && final(self).free() == old(self).free(),
            (old(self).free() > 0 && old(self).pending().len() > 0) ==> {
                &&& r is Some && same_metadata(r->0, old(self).pending()[0])
                &&& final(self).pending() == old(self).pending().drop_first()
                &&& final(self).running() == old(self).running().insert(old(self).pending()[0].id, old(self).pending()[0])
                &&& final(self).free() == old(self).free() - 1
            },
            final(self).completed() == old(self).completed(),
            final(self).failed() == old(self).failed(),
            final(self).capacity() == old(self).capacity(),
    {
        if self.available_permits == 0 || self.pending_jobs.len() == 0 {
            return None;
        }
        let job = self.pending_jobs.remove(0);
        let copy = job.duplicate();
        self.available_permits = self.available_permits - 1;
        jobs_insert(&mut self.running_jobs, job.id, job);
        proof {
            assert(self.pending_jobs@ =~= old(self).pending_jobs@.drop_first());
            let s = self.pending_jobs@;
            assert forall|i: int, j: int| 0 <= i < j < s.len() implies priority_rank(#[trigger] s[i].priority)
                >= priority_rank(#[trigger] s[j].priority) by {
                assert(s[i] == old(self).pending_jobs@[i + 1] && s[j] == old(self).pending_jobs@[j + 1]);
            }
        }
        Some(copy)
    }

    /// Starts the handed-out job `job_id` at `now`: it leaves the running
    /// jobs, and its metadata, now running and dated, is answered for the
    /// execution.
    pub fn begin_execution(&mut self, job_id: u128, now: u64) -> (r: Option<JobMetadata>)
        requires
            old(self).well_formed(),
        ensures
            final(self).well_formed(),
            !old(self).running().contains_key(job_id) ==> r is None && final(self).running() == old(self).running(),
            old(self).running().contains_key(job_id) ==> r == Some(
                JobMetadata {
                    status: JobStatus::Running,
                    started_at: Some(now),
                    ..old(self).running()[job_id]
                },
            ) && final(self).running() == old(self).running().remove(job_id),
            final(self).pending() == old(self).pending(),
            final(self).completed() == old(self).completed(),
            final(self).failed() == old(self).failed(),
            final(self).capacity() == old(self).capacity(),
            final(self).free() == old(self).free(),
    {
        match jobs_remove(&mut self.running_jobs, job_id) {
            Some(m) => Some(JobMetadata { status: JobStatus::Running, started_at: Some(now), ..m }),
            None => None,
        }
    }

    /// Records at `now` how the execution of `job` ended, and frees its
    /// slot.  A successful answer completes the job; an unsuccessful
    /// answer (with its message, or "Job execution failed"), an error, or
    /// running out of time fails it with the error's text.  Returns the
    /// error, if any.
    pub fn finish_execution(&mut self, job: JobMetadata, outcome: JobOutcome, now: u64) -> (r: Result<(), AppError>)
        requires
            old(self).well_formed(),
            old(self).free() < old(self).capacity(),
        ensures
            final(self).well_formed(),
            final(self).free() == old(self).free() + 1,
            r is Ok <==> (outcome matches JobOutcome::Answered(a) && a.success),
            r is Ok ==> final(self).completed() == old(self).completed().insert(job.id, JobMetadata { status: JobStatus::Completed, completed_at: Some(now), ..job }) && final(self).failed() == old(self).failed(),
            r matches Err(e) ==> final(self).failed() == old(self).failed().insert(job.id, JobMetadata {
                    status: JobStatus::Failed,
                    error_message: Some(final(self).failed()[job.id].error_message->0),
                    completed_at: Some(now),
                    ..job
                }) && final(self).failed()[job.id].error_message is Some
                && final(self).failed()[job.id].error_message->0@ == crate::errors::error_display(e)
                && final(self).completed() == old(self).completed(),
            outcome is Answered && !outcome->Answered_0.success ==> (r matches Err(AppError::InternalServerError(m))
                && (outcome->Answered_0.message is Some ==> m == outcome->Answered_0.message->0) && (
                outcome->Answered_0.message is None ==> m@ == "Job execution failed"@)),
            outcome matches JobOutcome::Error(e0) ==> r == Err::<(), AppError>(e0),
            outcome is TimedOut ==> (r matches Err(AppError::TimeoutError(m)) && m@ == "Job "@ + job.name@
                + " timed out after "@ + crate::text::decimal(job.timeout_seconds as nat) + " seconds"@),
            final(self).pending() == old(self).pending(),
            final(self).running() == old(self).running(),
            final(self).capacity() == old(self).capacity(),
    {
        self.available_permits = self.available_permits + 1;
        let result: Result<(), AppError> = match outcome {
            JobOutcome::Answered(a) => {
                if a.success {
                    Ok(())
                } else {
                    Err(
                        AppError::InternalServerError(
                            match a.message {
                                Some(m) => m,
                                None => String::from_str("Job execution failed"),
                            },
                        ),
                    )
                }
            },
            JobOutcome::Error(e) => Err(e),
            JobOutcome::TimedOut => {
                let mut m = String::from_str("Job ");
                m.append(job.name.as_str());
                let tail = crate::text::text_with_number(" timed out after ", job.timeout_seconds);
                m.append(tail.as_str());
                m.append(" seconds");
                Err(AppError::TimeoutError(m))
            },
        };
        match &result {
            Ok(()) => {
                let id = job.id;
                let done = JobMetadata { status: JobStatus::Completed, completed_at: Some(now), ..job };
                jobs_insert(&mut self.completed_jobs, id, done);
            },
            Err(e) => {
                let id = job.id;
                let text = crate::errors::error_string(e);
                let failed = JobMetadata {
                    status: JobStatus::Failed,
                    error_message: Some(text),
                    completed_at: Some(now),
                    ..job
                };
                jobs_insert(&mut self.failed_jobs, id, failed);
            },
        }
        result
    }

    /// Where job `job_id` stands: the status recorded for it as handed
    /// out, completed, failed or pending, looked up in that order.
    pub fn get_job_status(&self, job_id: u128) -> (r: Option<JobStatus>)
        requires
            self.well_formed(),
        ensures
            self.running().contains_key(job_id) ==> r == Some(self.running()[job_id].status),
            !self.running().contains_key(job_id) && self.completed().contains_key(job_id) ==> r == Some(
                self.completed()[job_id].status,
            ),
            !self.running().contains_key(job_id) && !self.completed().contains_key(job_id) && self.failed().contains_key(job_id) ==> r
                == Some(self.failed()[job_id].status),
            !self.running().contains_key(job_id) && !self.completed().contains_key(job_id) && !self.failed().contains_key(job_id)
                ==> (r is Some <==> pending_has(self.pending(), job_id)) && (r matches Some(st) ==> exists|i: int|
                #[trigger] first_pending(self.pending(), job_id, i) && st == self.pending()[i].status),
    {
        match self.get_job_metadata(job_id) {
            Some(m) => Some(m.status),
            None => None,
        }
    }

    /// Copies of the waiting jobs, next first.
    pub fn pending_jobs(&self) -> (v: Vec<JobMetadata>)
        ensures
            v@.len() == self.pending().len(),
            forall|i: int| 0 <= i < v@.len() ==> same_metadata(#[trigger] v@[i], self.pending()[i]),
    {
        let mut v: Vec<JobMetadata> = Vec::new();
        let n = self.pending_jobs.len();
        let mut i: usize = 0;
        while i < n
            invariant
                n == self.pending().len(),
                i <= n,
                v@.len() == i,
                forall|j: int| 0 <= j < i ==> same_metadata(#[trigger] v@[j], self.pending()[j]),
            decreases n - i,
        {
            v.push(self.pending_jobs[i].duplicate());
            i = i + 1;
        }
        v
    }

    /// The metadata of job `job_id`, looked up as `get_job_status` does.
    pub fn get_job_metadata(&self, job_id: u128) -> (r: Option<JobMetadata>)
        requires
            self.well_formed(),
        ensures
            self.running().contains_key(job_id) ==> r is Some && same_metadata(r->0, self.running()[job_id]),
            !self.running().contains_key(job_id) && self.completed().contains_key(job_id) ==> r is Some && same_metadata(
                r->0,
                self.completed()[job_id],
            ),
            !self.running().contains_key(job_id) && !self.completed().contains_key(job_id) && self.failed().contains_key(job_id) ==> r
                is Some && same_metadata(r->0, self.failed()[job_id]),
            !self.running().contains_key(job_id) && !self.completed().contains_key(job_id) && !self.failed().contains_key(job_id)
                ==> (r is Some <==> pending_has(self.pending(), job_id)) && (r matches Some(m) ==> exists|i: int|
                #[trigger] first_pending(self.pending(), job_id, i) && same_metadata(m, self.pending()[i])),
    {
        if let Some(m) = jobs_get(&self.running_jobs, job_id) {
            return Some(m);
        }
        if let Some(m) = jobs_get(&self.completed_jobs, job_id) {
            return Some(m);
        }
        if let Some(m) = jobs_get(&self.failed_jobs, job_id) {
            return Some(m);
        }
        let mut i: usize = 0;
        while i < self.pending_jobs.len()
            invariant
                i <= self.pending_jobs@.len(),
                !self.running().contains_key(job_id),
                !self.completed().contains_key(job_id),
                !self.failed().contains_key(job_id),
                forall|j: int| 0 <= j < i ==> #[trigger] self.pending_jobs@[j].id != job_id,
            decreases self.pending_jobs@.len() - i,
        {
            if self.pending_jobs[i].id == job_id {
                proof {
                    assert(first_pending(self.pending(), job_id, i as int));
                }
                return Some(self.pending_jobs[i].duplicate());
            }
            i = i + 1;
        }
        None
    }

    /// Cancels pending job `job_id`.  A handed-out job cannot be cancelled
    /// (`BadRequest`); an unknown one is refused with `NotFound`.
    pub fn cancel_job(&mut self, job_id: u128) -> (r: Result<(), AppError>)
        requires
            old(self).well_formed(),
        ensures
            final(self).well_formed(),
            pending_has(old(self).pending(), job_id) ==> r is Ok && exists|k: int|
                0 <= k < old(self).pending().len() && #[trigger] old(self).pending()[k].id == job_id
                    && final(self).pending() == old(self).pending().remove(k),
            !pending_has(old(self).pending(), job_id) && old(self).running().contains_key(job_id) ==> (r matches Err(
                AppError::BadRequest(m),
            ) && m@ == "Cannot cancel running job"@),
            !pending_has(old(self).pending(), job_id) && !old(self).running().contains_key(job_id) ==> (r matches Err(
                AppError::NotFound(m),
            ) && m@ == "Job "@ + crate::platform::uuid_hyphenated(job_id) + " not found"@),
            !pending_has(old(self).pending(), job_id) ==> final(self).pending() == old(self).pending(),
            final(self).running() == old(self).running(),
            final(self).completed() == old(self).completed(),
            final(self).failed() == old(self).failed(),
            final(self).capacity() == old(self).capacity(),
            final(self).free() == old(self).free(),
    {
        let mut i: usize = 0;
        while i < self.pending_jobs.len()
            invariant
                i <= self.pending_jobs@.len(),
                self.pending_jobs@ == old(self).pending_jobs@,
                self.running_jobs == old(self).running_jobs,
                self.completed_jobs == old(self).completed_jobs,
                self.failed_jobs == old(self).failed_jobs,
                self.max_concurrent_jobs == old(self).max_concurrent_jobs,
                self.available_permits == old(self).available_permits,
                old(self).well_formed(),
                forall|j: int| 0 <= j < i ==> #[trigger] self.pending_jobs@[j].id != job_id,
            decreases self.pending_jobs@.len() - i,
        {
            if self.pending_jobs[i].id == job_id {
                let ghost before = self.pending_jobs@;
                self.pending_jobs.remove(i);
                proof {
                    let s = self.pending_jobs@;
                    assert(s == before.remove(i as int));
                    assert forall|a: int, b: int| 0 <= a < b < s.len() implies priority_rank(#[trigger] s[a].priority)
                        >= priority_rank(#[trigger] s[b].priority) by {
                        let aa = if a < i { a } else { a + 1 };
                        let bb = if b < i { b } else { b + 1 };
                        assert(s[a] == before[aa] && s[b] == before[bb]);
                    }
                }
                return Ok(());
            }
            i = i + 1;
        }
        if jobs_contains(&self.running_jobs, job_id) {
            return Err(AppError::BadRequest(String::from_str("Cannot cancel running job")));
        }
        Err(AppError::NotFound(crate::job_scheduler::text_around_id("Job ", job_id, " not found")))
    }

    /// The counts of the queue.
    pub fn get_queue_stats(&self) -> (s: QueueStats)
        ensures
            s == (QueueStats {
                pending_jobs: self.pending().len() as usize,
                running_jobs: self.running().len() as usize,
                completed_jobs: self.completed().len() as usize,
                failed_jobs: self.failed().len() as usize,
                total_capacity: self.capacity(),
                available_capacity: self.free(),
            }),
    {
        QueueStats {
            pending_jobs: self.pending_jobs.len(),
            running_jobs: jobs_len(&self.running_jobs),
            completed_jobs: jobs_len(&self.completed_jobs),
            failed_jobs: jobs_len(&self.failed_jobs),
            total_capacity: self.max_concurrent_jobs,
            available_capacity: self.available_permits,
        }
    }
}

} // verus!
