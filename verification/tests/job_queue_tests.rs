use rustci_core::domain::{Job, JobPriority};
use rustci_core::job_queue::{InMemoryJobQueue, JobQueueConfig};

fn create_test_job(name: &str, priority: JobPriority) -> Job {
    let mut job = Job::new(name.to_string(), uuid::Uuid::new_v4().as_u128());
    job.priority = priority;
    job.timeout_secs = 300;
    job
}

#[test]
fn test_job_queue_enqueue_dequeue() {
    let mut queue = InMemoryJobQueue::with_default_config();
    let job = create_test_job("test-job", JobPriority::Normal);
    let job_id = job.id;

    queue.enqueue(job).unwrap();
    assert_eq!(queue.size(), 1);
    assert!(!queue.is_empty());

    let dequeued = queue.dequeue();
    assert!(dequeued.is_some());
    assert_eq!(dequeued.unwrap().id, job_id);
    assert_eq!(queue.size(), 0);
}

#[test]
fn job_queue_test_job_priority_ordering() {
    let mut queue = InMemoryJobQueue::with_default_config();
    let low_job = create_test_job("low-priority", JobPriority::Low);
    let high_job = create_test_job("high-priority", JobPriority::High);
    let normal_job = create_test_job("normal-priority", JobPriority::Normal);
    let high_id = high_job.id;
    let normal_id = normal_job.id;

    queue.enqueue(low_job).unwrap();
    queue.enqueue(high_job).unwrap();
    queue.enqueue(normal_job).unwrap();

    assert_eq!(queue.dequeue().unwrap().id, high_id);
    assert_eq!(queue.dequeue().unwrap().id, normal_id);
    assert_eq!(queue.dequeue().unwrap().name, "low-priority");
}

#[test]
fn test_job_queue_peek() {
    let mut queue = InMemoryJobQueue::with_default_config();
    let job = create_test_job("test-job", JobPriority::Normal);
    let job_id = job.id;
    queue.enqueue(job).unwrap();

    let peeked = queue.peek();
    assert!(peeked.is_some());
    assert_eq!(peeked.unwrap().id, job_id);
    assert_eq!(queue.size(), 1);
}

#[test]
fn test_job_queue_remove() {
    let mut queue = InMemoryJobQueue::with_default_config();
    let job = create_test_job("test-job", JobPriority::Normal);
    let job_id = job.id;
    queue.enqueue(job).unwrap();
    assert_eq!(queue.size(), 1);

    assert!(queue.remove_job(job_id));
    assert_eq!(queue.size(), 0);
    assert!(!queue.remove_job(job_id));
}

#[test]
fn test_job_queue_stats() {
    let mut queue = InMemoryJobQueue::with_default_config();
    queue.enqueue(create_test_job("test-job", JobPriority::Normal)).unwrap();
    queue.dequeue();

    let stats = queue.get_stats();
    assert_eq!(stats.total_queued, 1);
    assert_eq!(stats.total_processed, 1);
}

#[test]
fn test_job_queue_clear() {
    let mut queue = InMemoryJobQueue::with_default_config();
    queue.enqueue(create_test_job("test-job", JobPriority::Normal)).unwrap();
    assert_eq!(queue.size(), 1);
    queue.clear();
    assert_eq!(queue.size(), 0);
    assert!(queue.is_empty());
}

#[test]
fn test_job_queue_max_size() {
    let mut config = JobQueueConfig::default_config();
    config.max_queue_size = 2;
    let mut queue = InMemoryJobQueue::new(config);
    queue.enqueue(create_test_job("job1", JobPriority::Normal)).unwrap();
    queue.enqueue(create_test_job("job2", JobPriority::Normal)).unwrap();
    assert!(queue.enqueue(create_test_job("job3", JobPriority::Normal)).is_err());
}

#[test]
fn equal_priorities_leave_in_arrival_order() {
    let mut queue = InMemoryJobQueue::with_default_config();
    let a = create_test_job("a", JobPriority::Normal);
    let b = create_test_job("b", JobPriority::Normal);
    let c = create_test_job("c", JobPriority::Critical);
    queue.enqueue_at(a, 10).unwrap();
    queue.enqueue_at(b, 20).unwrap();
    queue.enqueue_at(c, 30).unwrap();
    assert_eq!(queue.dequeue_at(40).unwrap().name, "c");
    assert_eq!(queue.dequeue_at(41).unwrap().name, "a");
    assert_eq!(queue.dequeue_at(42).unwrap().name, "b");
    assert!(queue.dequeue_at(43).is_none());
}

#[test]
fn jobs_by_priority_lists_only_that_priority() {
    let mut queue = InMemoryJobQueue::with_default_config();
    queue.enqueue(create_test_job("a", JobPriority::Low)).unwrap();
    queue.enqueue(create_test_job("b", JobPriority::High)).unwrap();
    queue.enqueue(create_test_job("c", JobPriority::Low)).unwrap();
    let lows = queue.get_jobs_by_priority(JobPriority::Low);
    assert_eq!(lows.len(), 2);
    assert_eq!(lows[0].name, "a");
    assert_eq!(lows[1].name, "c");
}
