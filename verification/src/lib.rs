//! Verified core of the RustCI control plane: cluster coordination, job
//! scheduling and the infrastructure patterns (locks, rate limits, circuit
//! breakers, caches) that sit underneath them.
//!
//! Every structure here is plain synchronous state with a contract; callers
//! that need sharing across tasks wrap a value in their own lock.

pub mod platform;
pub mod errors;
pub mod leader_election;
pub mod idempotent_jobs;
pub mod domain;
pub mod job_queue;
pub mod text;
pub mod keyed;
pub mod control_plane_health;
pub mod ids;
pub mod failover;
pub mod cluster_coordinator;
pub mod error_manager;
pub mod resilience;
pub mod concurrency;
pub mod state_snapshot;
pub mod control_plane_metrics;
pub mod control_plane;
pub mod control_plane_observability;
pub mod traits;
pub mod job_scheduler;
pub mod distributed_job_scheduler;
pub mod job_failure_recovery;
pub mod distributed_scheduling;
pub mod caching;
pub mod cache_manager;
pub mod async_jobs;
pub mod event_loop;
pub mod job_scheduler_factory;
pub mod logging;
pub mod metrics;
pub mod integration_example;
pub mod dependency_injection;
