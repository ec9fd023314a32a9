//! Jobs as the schedulers and queues see them.

use vstd::prelude::*;

verus! {

/// Priority of a job; a higher priority runs first.
#[derive(Debug, Clone, Copy, PartialEq, Eq, Structural, Hash)]
pub enum JobPriority {
    Low,
    Normal,
    High,
    Critical,
}

/// Rank of a priority: Low 1, Normal 2, High 3, Critical 4.
pub open spec fn priority_rank(p: JobPriority) -> int {
    match p {
        JobPriority::Low => 1,
        JobPriority::Normal => 2,
        JobPriority::High => 3,
        JobPriority::Critical => 4,
    }
}

impl JobPriority {
    /// Rank of the priority: Low 1, Normal 2, High 3, Critical 4.
    pub fn rank(&self) -> (r: u8)
        ensures
            r as int == priority_rank(*self),
    {
        match self {
            JobPriority::Low => 1,
            JobPriority::Normal => 2,
            JobPriority::High => 3,
            JobPriority::Critical => 4,
        }
    }

    /// The name of the priority, as used in statistics.
    pub fn name(&self) -> (s: String)
        ensures
            s@ == priority_name(*self),
    {
        match self {
            JobPriority::Low => String::from_str("Low"),
            JobPriority::Normal => String::from_str("Normal"),
            JobPriority::High => String::from_str("High"),
            JobPriority::Critical => String::from_str("Critical"),
        }
    }
}

/// The name of a priority.
pub open spec fn priority_name(p: JobPriority) -> Seq<char> {
    match p {
        JobPriority::Low => "Low"@,
        JobPriority::Normal => "Normal"@,
        JobPriority::High => "High"@,
        JobPriority::Critical => "Critical"@,
    }
}

/// Status of a job.
#[derive(Debug, Clone, Copy, PartialEq, Eq, Structural)]
pub enum JobStatus {
    Pending,
    Queued,
    Running,
    Success,
    Failed,
    Cancelled,
}

/// How the delay between retries of a job grows.
#[derive(Debug, Clone, Copy, PartialEq, Eq, Structural)]
pub enum BackoffStrategy {
    /// The same delay every time.
    Fixed,
    /// The delay is multiplied by `multiplier` per attempt.
    Exponential { multiplier: u64 },
    /// The delay grows by `increment_secs` seconds per attempt.
    Linear { increment_secs: u64 },
}

/// Retry policy of a job.
#[derive(Debug, Clone, Copy, PartialEq, Eq, Structural)]
pub struct RetryPolicy {
    /// Retries allowed.
    pub max_retries: u32,
    /// Base delay before a retry, in seconds.
    pub retry_delay_secs: u64,
    /// Growth of the delay.
    pub backoff_strategy: BackoffStrategy,
}

/// A job of a pipeline.
#[derive(Debug, Clone)]
pub struct Job {
    /// Identifier of the job.
    pub id: u128,
    /// Pipeline the job belongs to.
    pub pipeline_id: u128,
    /// Name of the job.
    pub name: String,
    /// Priority of the job.
    pub priority: JobPriority,
    /// Time limit of the job in seconds.
    pub timeout_secs: u64,
    /// Retry policy of the job.
    pub retry_policy: RetryPolicy,
    /// Free-form metadata of the job, as key and value.
    pub metadata: Vec<(String, String)>,
    /// Creation time in milliseconds since the epoch.
    pub created_at: u64,
}

/// An equal copy of a list of key/value pairs.
pub fn copy_pairs(v: &Vec<(String, String)>) -> (r: Vec<(String, String)>)
    ensures
        r@ == v@,
{
    let mut out: Vec<(String, String)> = Vec::new();
    let mut i: usize = 0;
    while i < v.len()
        invariant
            i <= v@.len(),
            out@ == v@.subrange(0, i as int),
        decreases v@.len() - i,
    {
        let (k, val) = &v[i];
        out.push((k.clone(), val.clone()));
        proof {
            assert(out@ =~= v@.subrange(0, i as int + 1));
        }
        i = i + 1;
    }
    proof {
        assert(out@ =~= v@);
    }
    out
}

/// The value of a job, with its metadata as a sequence.
pub struct JobView {
    pub id: u128,
    pub pipeline_id: u128,
    pub name: String,
    pub priority: JobPriority,
    pub timeout_secs: u64,
    pub retry_policy: RetryPolicy,
    pub metadata: Seq<(String, String)>,
    pub created_at: u64,
}

impl View for Job {
    type V = JobView;

    open spec fn view(&self) -> JobView {
        JobView {
            id: self.id,
            pipeline_id: self.pipeline_id,
            name: self.name,
            priority: self.priority,
            timeout_secs: self.timeout_secs,
            retry_policy: self.retry_policy,
            metadata: self.metadata@,
            created_at: self.created_at,
        }
    }
}

impl Job {
    /// A job named `name` of pipeline `pipeline_id` with a fresh identifier,
    /// normal priority, an hour's time limit and three retries thirty
    /// seconds apart.
    pub fn new(name: String, pipeline_id: u128) -> (j: Job)
        ensures
            j.name == name,
            j.pipeline_id == pipeline_id,
            j.priority == JobPriority::Normal,
            j.timeout_secs == 3600,
            j.retry_policy == (RetryPolicy {
                max_retries: 3,
                retry_delay_secs: 30,
                backoff_strategy: BackoffStrategy::Fixed,
            }),
            j.metadata@ == Seq::<(String, String)>::empty(),
    {
        Job {
            id: crate::platform::new_identifier(),
            pipeline_id,
            name,
            priority: JobPriority::Normal,
            timeout_secs: 3600,
            retry_policy: RetryPolicy { max_retries: 3, retry_delay_secs: 30, backoff_strategy: BackoffStrategy::Fixed },
            metadata: Vec::new(),
            created_at: crate::platform::now_millis(),
        }
    }

    /// An equal copy of the job.
    pub fn duplicate(&self) -> (j: Job)
        ensures
            j@ == self@,
    {
        Job {
            id: self.id,
            pipeline_id: self.pipeline_id,
            name: self.name.clone(),
            priority: self.priority,
            timeout_secs: self.timeout_secs,
            retry_policy: self.retry_policy,
            metadata: copy_pairs(&self.metadata),
            created_at: self.created_at,
        }
    }
}

/// Outcome of a job.
#[derive(Debug, Clone)]
pub struct JobResult {
    pub job_id: u128,
    pub status: JobStatus,
    pub exit_code: Option<i32>,
    pub stdout: String,
    pub stderr: String,
    pub started_at: u64,
    pub finished_at: Option<u64>,
    pub error_message: Option<String>,
}

impl JobResult {
    /// Whether the job failed.
    pub fn is_failed(&self) -> (b: bool)
        ensures
            b == (self.status == JobStatus::Failed),
    {
        self.status == JobStatus::Failed
    }

    /// An equal copy.
    pub fn duplicate(&self) -> (r: Self)
        ensures
            r == *self,
    {
        JobResult {
            job_id: self.job_id,
            status: self.status,
            exit_code: self.exit_code,
            stdout: self.stdout.clone(),
            stderr: self.stderr.clone(),
            started_at: self.started_at,
            finished_at: self.finished_at,
            error_message: match &self.error_message {
                Some(e) => Some(e.clone()),
                None => None,
            },
        }
    }
}

} // verus!
