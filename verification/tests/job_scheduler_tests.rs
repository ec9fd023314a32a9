use rustci_core::domain::{BackoffStrategy, Job, JobPriority, JobStatus, RetryPolicy};
use rustci_core::job_scheduler::{calculate_retry_delay, DefaultJobScheduler, JobSchedulerConfig};

fn create_test_job(name: &str, priority: JobPriority) -> Job {
    let mut job = Job::new(name.to_string(), uuid::Uuid::new_v4().as_u128());
    job.priority = priority;
    job
}

#[test]
fn test_job_scheduler_creation() {
    let mut scheduler = DefaultJobScheduler::new(JobSchedulerConfig::default_config());
    let stats = scheduler.get_stats();
    assert_eq!(stats.total_scheduled, 0);
    assert_eq!(stats.total_completed, 0);
}

#[test]
fn test_schedule_job() {
    let mut scheduler = DefaultJobScheduler::new(JobSchedulerConfig::default_config());
    let job = create_test_job("test-job", JobPriority::Normal);
    let job_id = job.id;
    scheduler.schedule_job(job).unwrap();
    let stats = scheduler.get_stats();
    assert_eq!(stats.total_scheduled, 1);
    assert_eq!(scheduler.get_job_status(job_id), Some(JobStatus::Queued));
}

#[test]
fn test_schedule_job_with_delay() {
    let mut scheduler = DefaultJobScheduler::new(JobSchedulerConfig::default_config());
    let job = create_test_job("delayed-job", JobPriority::Normal);
    let job_id = job.id;
    scheduler.schedule_job_with_delay_at(job, 60, 1_700_000_000_000).unwrap();
    let stats = scheduler.get_stats();
    assert_eq!(stats.total_scheduled, 1);
    assert_eq!(scheduler.get_job_status(job_id), Some(JobStatus::Queued));
}

#[test]
fn test_cancel_job() {
    let mut scheduler = DefaultJobScheduler::new(JobSchedulerConfig::default_config());
    let job = create_test_job("test-job", JobPriority::Normal);
    let job_id = job.id;
    scheduler.schedule_job(job).unwrap();
    assert!(scheduler.cancel_job(job_id));
    assert!(scheduler.get_job_status(job_id).is_none());
    assert!(!scheduler.cancel_job(job_id));
}

#[test]
fn job_scheduler_test_retry_delay_calculation() {
    let config = JobSchedulerConfig::default_config();
    let policy = RetryPolicy {
        max_retries: 3,
        retry_delay_secs: 30,
        backoff_strategy: BackoffStrategy::Exponential { multiplier: 2 },
    };
    let cap = config.retry_config.max_retry_delay;
    assert_eq!(calculate_retry_delay(policy, 1, cap), 30);
    assert_eq!(calculate_retry_delay(policy, 2, cap), 60);
    assert_eq!(calculate_retry_delay(policy, 3, cap), 120);
}

#[test]
fn retry_delay_is_capped_and_linear_grows() {
    let policy = RetryPolicy {
        max_retries: 3,
        retry_delay_secs: 30,
        backoff_strategy: BackoffStrategy::Exponential { multiplier: 2 },
    };
    assert_eq!(calculate_retry_delay(policy, 20, 3600), 3600);
    let linear = RetryPolicy {
        max_retries: 3,
        retry_delay_secs: 10,
        backoff_strategy: BackoffStrategy::Linear { increment_secs: 5 },
    };
    assert_eq!(calculate_retry_delay(linear, 1, 3600), 10);
    assert_eq!(calculate_retry_delay(linear, 3, 3600), 20);
    let fixed = RetryPolicy { max_retries: 3, retry_delay_secs: 45, backoff_strategy: BackoffStrategy::Fixed };
    assert_eq!(calculate_retry_delay(fixed, 7, 3600), 45);
}

#[test]
fn priority_queues_start_critical_first() {
    let mut scheduler = DefaultJobScheduler::new(JobSchedulerConfig::default_config());
    scheduler.start().unwrap();
    let now = 1_700_000_000_000u64;
    scheduler.schedule_job_at(create_test_job("low", JobPriority::Low), now).unwrap();
    scheduler.schedule_job_at(create_test_job("critical", JobPriority::Critical), now).unwrap();
    scheduler.schedule_job_at(create_test_job("normal", JobPriority::Normal), now).unwrap();
    let started = scheduler.process_priority_queues_at(now + 1).unwrap();
    let names: Vec<String> = started.iter().map(|j| j.name.clone()).collect();
    assert_eq!(names, vec!["critical", "normal", "low"]);
}
