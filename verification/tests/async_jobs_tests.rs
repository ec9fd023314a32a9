use rustci_core::async_jobs::{JobMetadata, JobOutcome, JobPriority, JobQueue, JobStatus};

#[test]
fn test_job_metadata() {
    let metadata = JobMetadata::new("test_job".to_string(), JobPriority::High)
        .with_max_retries(5)
        .with_timeout(60)
        .with_tags(vec!["test".to_string(), "example".to_string()]);

    assert_eq!(metadata.name, "test_job");
    assert_eq!(metadata.priority, JobPriority::High);
    assert_eq!(metadata.max_retries, 5);
    assert_eq!(metadata.timeout_seconds, 60);
    assert_eq!(metadata.tags, vec!["test", "example"]);
}

#[test]
fn test_job_queue() {
    let mut queue = JobQueue::new(2);
    let job = JobMetadata::new("test_job".to_string(), JobPriority::Normal);
    let job_id = job.id;
    let submitted_id = queue.submit_job(job);
    assert_eq!(submitted_id, job_id);
    assert_eq!(queue.get_job_status(job_id), Some(JobStatus::Pending));
    let stats = queue.get_queue_stats();
    assert_eq!(stats.pending_jobs, 1);
    assert_eq!(stats.running_jobs, 0);
}

#[test]
fn async_jobs_test_job_priority_ordering() {
    let mut queue = JobQueue::new(1);
    queue.submit_job(JobMetadata::new("low".to_string(), JobPriority::Low));
    queue.submit_job(JobMetadata::new("high".to_string(), JobPriority::High));
    queue.submit_job(JobMetadata::new("critical".to_string(), JobPriority::Critical));
    let pending = queue.pending_jobs();
    assert_eq!(pending[0].priority, JobPriority::Critical);
    assert_eq!(pending[1].priority, JobPriority::High);
    assert_eq!(pending[2].priority, JobPriority::Low);
    assert_eq!(queue.take_next().unwrap().priority, JobPriority::Critical);
    assert!(queue.take_next().is_none());
}

#[test]
fn timed_out_job_fails_with_message() {
    let mut queue = JobQueue::new(1);
    let job = JobMetadata::new_at("slow".to_string(), JobPriority::Normal, 5, 1_000).with_timeout(2);
    queue.submit_job(job);
    let job = queue.take_next().unwrap();
    assert!(queue.get_job_status(5).is_some());
    let running = queue.begin_execution(job.id, 2_000).unwrap();
    assert_eq!(running.status, JobStatus::Running);
    assert_eq!(running.started_at, Some(2_000));
    let r = queue.finish_execution(running, JobOutcome::TimedOut, 4_000);
    assert!(r.is_err());
    assert_eq!(queue.get_job_status(5), Some(JobStatus::Failed));
    let meta = queue.get_job_metadata(5).unwrap();
    assert!(meta.error_message.unwrap().ends_with("Job slow timed out after 2 seconds"));
}

#[test]
fn cancel_pending_job() {
    let mut queue = JobQueue::new(1);
    let job = JobMetadata::new_at("x".to_string(), JobPriority::Low, 9, 1);
    queue.submit_job(job);
    assert!(queue.cancel_job(9).is_ok());
    assert_eq!(queue.get_job_status(9), None);
    assert!(queue.cancel_job(10).is_err());
}

#[test]
fn metadata_duration() {
    let mut m = JobMetadata::new_at("d".to_string(), JobPriority::Normal, 1, 100);
    assert_eq!(m.duration(), None);
    m.started_at = Some(1_000);
    m.completed_at = Some(1_500);
    assert_eq!(m.duration(), Some(500));
}

#[test]
fn processing_starts_once() {
    let mut q = JobQueue::new(2);
    assert!(q.start_processing().is_ok());
    match q.start_processing() {
        Err(rustci_core::errors::AppError::InternalServerError(m)) => assert_eq!(m, "Job queue already started"),
        _ => panic!("a second start must be refused"),
    }
}
