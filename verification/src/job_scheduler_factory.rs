//! Choosing and building a job scheduler: a standard single-node one, or a
//! cluster-aware one placed over a standard base.

use vstd::prelude::*;
use crate::distributed_job_scheduler::{DistributedJobScheduler, DistributedJobSchedulerConfig};
use crate::errors::AppError;
use crate::job_scheduler::{DefaultJobScheduler, JobSchedulerConfig};

verus! {

/// Which scheduler to build, with its settings.
#[derive(Debug, Clone, Copy)]
pub enum JobSchedulerType {
    /// A single-node scheduler.
    Standard { config: JobSchedulerConfig },
    /// A cluster-aware scheduler.
    Distributed { config: DistributedJobSchedulerConfig },
}

/// A scheduler that the factory built.
pub enum CreatedScheduler {
    Standard(DefaultJobScheduler),
    /// The cluster-aware scheduler and the standard one it places jobs for.
    Distributed { base: DefaultJobScheduler, scheduler: DistributedJobScheduler },
}

/// Whether `c` is a fresh scheduler built with the settings `t` asks for.
pub open spec fn built_from(c: CreatedScheduler, t: JobSchedulerType) -> bool {
    match t {
        JobSchedulerType::Standard { config } => match c {
            CreatedScheduler::Standard(s) => {
                &&& s.well_formed()
                &&& s.settings() == config
                &&& !s.started()
                &&& s.scheduled().len() == 0
            },
            CreatedScheduler::Distributed { .. } => false,
        },
        JobSchedulerType::Distributed { config } => match c {
            CreatedScheduler::Distributed { base, scheduler } => {
                &&& base.well_formed()
                &&& base.settings() == config.base_config
                &&& !base.started()
                &&& base.scheduled().len() == 0
                &&& scheduler.well_formed()
                &&& scheduler.settings() == config
                &&& scheduler.placements().len() == 0
                &&& scheduler.history().len() == 0
            },
            CreatedScheduler::Standard(_) => false,
        },
    }
}

/// Whether a scheduler of type `t` can be built with the dependencies at
/// hand: a standard one always, a cluster-aware one with all three.
pub open spec fn dependencies_met(t: JobSchedulerType, has_cluster_coordinator: bool, has_node_registry: bool, has_event_bus: bool) -> bool {
    t is Standard || (has_cluster_coordinator && has_node_registry && has_event_bus)
}

/// Builds job schedulers.
pub struct JobSchedulerFactory;

impl JobSchedulerFactory {
    /// Builds the scheduler `scheduler_type` asks for.  A cluster-aware one
    /// needs a cluster coordinator, a node registry and an event bus, and
    /// the first that is missing is named in a validation error.
    pub fn create_scheduler(
        scheduler_type: JobSchedulerType,
        has_cluster_coordinator: bool,
        has_node_registry: bool,
        has_event_bus: bool,
    ) -> (r: Result<CreatedScheduler, AppError>)
        ensures
            scheduler_type is Standard ==> r is Ok,
            scheduler_type is Distributed ==> {
                &&& !has_cluster_coordinator ==> (r matches Err(AppError::ValidationError(m))
                    && m@ == "ClusterCoordinator required for distributed scheduler"@)
                &&& has_cluster_coordinator && !has_node_registry ==> (r matches Err(AppError::ValidationError(m))
                    && m@ == "NodeRegistry required for distributed scheduler"@)
                &&& has_cluster_coordinator && has_node_registry && !has_event_bus ==> (r matches Err(
                    AppError::ValidationError(m),
                ) && m@ == "EventBus required for distributed scheduler"@)
                &&& (r is Ok <==> (has_cluster_coordinator && has_node_registry && has_event_bus))
            },
            r is Ok <==> dependencies_met(scheduler_type, has_cluster_coordinator, has_node_registry, has_event_bus),
            r matches Ok(c) ==> built_from(c, scheduler_type),
    {
        match scheduler_type {
            JobSchedulerType::Standard { config } => {
                let s = DefaultJobScheduler::new(config);
                Ok(CreatedScheduler::Standard(s))
            },
            JobSchedulerType::Distributed { config } => {
                let base = DefaultJobScheduler::new(config.base_config);
                if !has_cluster_coordinator {
                    return Err(
                        AppError::ValidationError(
                            String::from_str("ClusterCoordinator required for distributed scheduler"),
                        ),
                    );
                }
                if !has_node_registry {
                    return Err(
                        AppError::ValidationError(
                            String::from_str("NodeRegistry required for distributed scheduler"),
                        ),
                    );
                }
                if !has_event_bus {
                    return Err(
                        AppError::ValidationError(String::from_str("EventBus required for distributed scheduler")),
                    );
                }
                let scheduler = DistributedJobScheduler::new(config);
                Ok(CreatedScheduler::Distributed { base, scheduler })
            },
        }
    }

    /// A standard scheduler with the default settings.
    pub fn create_standard_scheduler() -> (r: Result<CreatedScheduler, AppError>)
        ensures
            r matches Ok(c) && (c matches CreatedScheduler::Standard(s) && s.settings().is_default() && s.well_formed()),
    {
        let config = JobSchedulerConfig::default_config();
        Self::create_scheduler(JobSchedulerType::Standard { config }, false, false, false)
    }

    /// A cluster-aware scheduler with `config`, or the default settings.
    pub fn create_distributed_scheduler(config: Option<DistributedJobSchedulerConfig>) -> (r: Result<
        CreatedScheduler,
        AppError,
    >)
        ensures
            r is Ok,
            config matches Some(cfg) ==> (r matches Ok(c) && built_from(
                c,
                (JobSchedulerType::Distributed { config: cfg }),
            )),
            config is None ==> (r matches Ok(c) && c matches CreatedScheduler::Distributed { scheduler, .. }
                && scheduler.settings().is_default() && built_from(
                c,
                (JobSchedulerType::Distributed { config: scheduler.settings() }),
            )),
    {
        let config = match config {
            Some(c) => c,
            None => DistributedJobSchedulerConfig::default_config(),
        };
        Self::create_scheduler(JobSchedulerType::Distributed { config }, true, true, true)
    }

    /// The cluster-aware scheduler with default settings where a cluster
    /// coordinator, a node registry and an event bus are all at hand, and
    /// the standard one with default settings otherwise.
    pub fn detect_scheduler_type(
        has_cluster_coordinator: bool,
        has_node_registry: bool,
        has_event_bus: bool,
    ) -> (t: JobSchedulerType)
        ensures
            (t is Distributed) == (has_cluster_coordinator && has_node_registry && has_event_bus),
            t matches JobSchedulerType::Distributed { config } ==> config.is_default(),
            t matches JobSchedulerType::Standard { config } ==> config.is_default(),
    {
        if has_cluster_coordinator && has_node_registry && has_event_bus {
            JobSchedulerType::Distributed { config: DistributedJobSchedulerConfig::default_config() }
        } else {
            JobSchedulerType::Standard { config: JobSchedulerConfig::default_config() }
        }
    }
}

/// The type detected from the dependencies at hand can always be built with
/// them.
pub proof fn lemma_detected_type_is_buildable(
    t: JobSchedulerType,
    has_cluster_coordinator: bool,
    has_node_registry: bool,
    has_event_bus: bool,
)
    requires
        (t is Distributed) == (has_cluster_coordinator && has_node_registry && has_event_bus),
    ensures
        dependencies_met(t, has_cluster_coordinator, has_node_registry, has_event_bus),
{
}

} // verus!
