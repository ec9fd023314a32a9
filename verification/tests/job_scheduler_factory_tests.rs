use rustci_core::job_scheduler_factory::{CreatedScheduler, JobSchedulerFactory, JobSchedulerType};
use rustci_core::errors::AppError;
use rustci_core::job_scheduler::JobSchedulerConfig;

#[test]
fn test_scheduler_type_detection() {
    let scheduler_type = JobSchedulerFactory::detect_scheduler_type(true, true, true);
    assert!(matches!(scheduler_type, JobSchedulerType::Distributed { .. }));

    let scheduler_type = JobSchedulerFactory::detect_scheduler_type(false, false, false);
    assert!(matches!(scheduler_type, JobSchedulerType::Standard { .. }));

    let scheduler_type = JobSchedulerFactory::detect_scheduler_type(true, false, false);
    assert!(matches!(scheduler_type, JobSchedulerType::Standard { .. }));
}

#[test]
fn test_create_standard_scheduler() {
    let scheduler = JobSchedulerFactory::create_standard_scheduler().unwrap();
    match scheduler {
        CreatedScheduler::Standard(mut s) => {
            let stats = s.get_stats();
            assert_eq!(stats.total_scheduled, 0);
        }
        _ => panic!("expected a standard scheduler"),
    }
}

#[test]
fn distributed_scheduler_needs_every_dependency() {
    let t = JobSchedulerFactory::detect_scheduler_type(true, true, true);
    let r = JobSchedulerFactory::create_scheduler(t, true, false, true);
    match r {
        Err(AppError::ValidationError(m)) => assert_eq!(m, "NodeRegistry required for distributed scheduler"),
        _ => panic!("expected a validation error"),
    }
    let r = JobSchedulerFactory::create_scheduler(t, false, false, false);
    match r {
        Err(AppError::ValidationError(m)) => assert_eq!(m, "ClusterCoordinator required for distributed scheduler"),
        _ => panic!("expected a validation error"),
    }
    let r = JobSchedulerFactory::create_scheduler(t, true, true, false);
    match r {
        Err(AppError::ValidationError(m)) => assert_eq!(m, "EventBus required for distributed scheduler"),
        _ => panic!("expected a validation error"),
    }
    assert!(matches!(
        JobSchedulerFactory::create_scheduler(t, true, true, true),
        Ok(CreatedScheduler::Distributed { .. })
    ));
}

#[test]
fn standard_type_ignores_missing_dependencies() {
    let t = JobSchedulerType::Standard { config: JobSchedulerConfig::default_config() };
    assert!(matches!(JobSchedulerFactory::create_scheduler(t, false, false, false), Ok(CreatedScheduler::Standard(_))));
}

#[test]
fn distributed_scheduler_with_given_config() {
    let r = JobSchedulerFactory::create_distributed_scheduler(None).unwrap();
    match r {
        CreatedScheduler::Distributed { mut base, scheduler } => {
            let stats = scheduler.get_distributed_stats(&mut base);
            assert_eq!(stats.total_jobs_placed, 0);
            assert_eq!(stats.total_jobs_rescheduled, 0);
        }
        _ => panic!("expected a distributed scheduler"),
    }
}
