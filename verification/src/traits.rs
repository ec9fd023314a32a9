//! The contracts between the layers of the system: repositories, units of
//! work, services, factories, validators, event stores and configuration
//! providers, each for its users to implement, and the result of a
//! validation.  Times are milliseconds since the epoch.

use crate::errors::AppError;
use std::collections::HashMap;
use std::sync::Arc;
use vstd::prelude::*;

verus! {

/// Data access to entities of type `T` by identifiers of type `ID`.
pub trait Repository<T, ID> {
    /// The entity with identifier `id`, if any.
    fn find_by_id(&self, id: ID) -> Result<Option<T>, AppError>;

    /// Every entity.
    fn find_all(&self) -> Result<Vec<T>, AppError>;

    /// At most `limit` entities, skipping the first `offset`.
    fn find_with_pagination(&self, limit: usize, offset: usize) -> Result<Vec<T>, AppError>;

    /// Inserts or updates `entity`, answering what was stored.
    fn save(&self, entity: &T) -> Result<T, AppError>;

    /// Deletes the entity with identifier `id`.
    fn delete(&self, id: ID) -> Result<(), AppError>;

    /// Whether an entity has identifier `id`.
    fn entity_exists(&self, id: ID) -> Result<bool, AppError>;

    /// How many entities there are.
    fn count(&self) -> Result<u64, AppError>;

    /// The entities whose fields match `criteria`.
    fn find_by_criteria(&self, criteria: HashMap<String, String>) -> Result<Vec<T>, AppError>;
}

/// A transaction over several repositories.
pub trait UnitOfWork {
    /// Begins a transaction.
    fn begin_transaction(&mut self) -> Result<(), AppError>;

    /// Commits the transaction.
    fn commit(&mut self) -> Result<(), AppError>;

    /// Rolls the transaction back.
    fn rollback(&mut self) -> Result<(), AppError>;

    /// Whether a transaction is under way.
    fn is_transaction_active(&self) -> bool;

    /// The repository of kind `repo_type` inside this unit of work.
    fn get_repository<T, ID>(&self, repo_type: &str) -> Result<Arc<dyn Repository<T, ID>>, AppError>;
}

/// A component of the business logic.
pub trait Service {
    /// The service's name.
    fn service_name(&self) -> &'static str;

    /// Prepares the service; nothing to do unless a service says otherwise.
    fn initialize(&self) -> Result<(), AppError> {
        Ok(())
    }

    /// Stops the service; nothing to do unless a service says otherwise.
    fn shutdown(&self) -> Result<(), AppError> {
        Ok(())
    }

    /// How the service is.
    fn health_check(&self) -> Result<ServiceHealth, AppError>;
}

/// How a service is.
#[derive(Debug, Clone, Copy, PartialEq, Eq, Structural)]
pub enum HealthStatus {
    Healthy,
    Degraded,
    Unhealthy,
}

/// The answer of a service's health check.
#[derive(Debug, Clone)]
pub struct ServiceHealth {
    pub service_name: String,
    pub status: HealthStatus,
    pub message: Option<String>,
    pub details: HashMap<String, String>,
    pub checked_at: i64,
}

/// Makes values of type `T`.
pub trait Factory<T> {
    /// A new value.
    fn create(&self) -> Result<T, AppError>;

    /// A new value made with `config`.
    fn create_with_config(&self, config: HashMap<String, String>) -> Result<T, AppError>;

    /// Whether this factory makes values of the type named `kind`.
    fn can_create(&self, kind: &str) -> bool;
}

/// Checks inputs of type `T`.
pub trait Validator<T> {
    /// The outcome of checking `input`.
    fn validate(&self, input: &T) -> Result<ValidationResult, AppError>;

    /// The validator's name.
    fn validator_name(&self) -> &'static str;
}

/// A problem that makes an input invalid.
#[derive(Debug, Clone)]
pub struct ValidationError {
    pub field: String,
    pub message: String,
    pub code: String,
}

/// A remark on an input that leaves it valid.
#[derive(Debug, Clone)]
pub struct ValidationWarning {
    pub field: String,
    pub message: String,
    pub code: String,
}

/// The outcome of a validation.
#[derive(Debug, Clone)]
pub struct ValidationResult {
    pub is_valid: bool,
    pub errors: Vec<ValidationError>,
    pub warnings: Vec<ValidationWarning>,
}

impl ValidationResult {
    /// A valid outcome with no errors and no warnings.
    pub fn success() -> (r: Self)
        ensures
            r.is_valid,
            r.errors@.len() == 0,
            r.warnings@.len() == 0,
    {
        ValidationResult { is_valid: true, errors: Vec::new(), warnings: Vec::new() }
    }

    /// An invalid outcome with `errors` and no warnings.
    pub fn failure(errors: Vec<ValidationError>) -> (r: Self)
        ensures
            !r.is_valid,
            r.errors@ == errors@,
            r.warnings@.len() == 0,
    {
        ValidationResult { is_valid: false, errors, warnings: Vec::new() }
    }

    /// Adds an error on `field`, which makes the outcome invalid.
    pub fn add_error(&mut self, field: &str, message: &str, code: &str)
        ensures
            !final(self).is_valid,
            final(self).errors@.len() == old(self).errors@.len() + 1,
            final(self).errors@.drop_last() == old(self).errors@,
            final(self).errors@.last().field@ == field@,
            final(self).errors@.last().message@ == message@,
            final(self).errors@.last().code@ == code@,
            final(self).warnings@ == old(self).warnings@,
    {
        self.errors.push(
            ValidationError {
                field: String::from_str(field),
                message: String::from_str(message),
                code: String::from_str(code),
            },
        );
        self.is_valid = false;
        proof {
            assert(self.errors@.drop_last() =~= old(self).errors@);
        }
    }

    /// Adds a warning on `field`; validity is left as it was.
    pub fn add_warning(&mut self, field: &str, message: &str, code: &str)
        ensures
            final(self).is_valid == old(self).is_valid,
            final(self).warnings@.len() == old(self).warnings@.len() + 1,
            final(self).warnings@.drop_last() == old(self).warnings@,
            final(self).warnings@.last().field@ == field@,
            final(self).warnings@.last().message@ == message@,
            final(self).warnings@.last().code@ == code@,
            final(self).errors@ == old(self).errors@,
    {
        self.warnings.push(
            ValidationWarning {
                field: String::from_str(field),
                message: String::from_str(message),
                code: String::from_str(code),
            },
        );
        proof {
            assert(self.warnings@.drop_last() =~= old(self).warnings@);
        }
    }
}

/// An event kept for event sourcing; its data is JSON text.
#[derive(Debug, Clone)]
pub struct StoredEvent {
    pub event_id: u128,
    pub stream_id: String,
    pub event_type: String,
    pub event_data: String,
    pub metadata: HashMap<String, String>,
    pub version: u64,
    pub timestamp: i64,
}

/// A store of event streams.
pub trait EventStore {
    /// Appends `events` to stream `stream_id`.
    fn append_events(&self, stream_id: &str, events: Vec<StoredEvent>) -> Result<(), AppError>;

    /// The events of stream `stream_id` from version `from_version` on.
    fn read_events(&self, stream_id: &str, from_version: u64) -> Result<Vec<StoredEvent>, AppError>;

    /// Every event of stream `stream_id`.
    fn read_all_events(&self, stream_id: &str) -> Result<Vec<StoredEvent>, AppError>;

    /// The current version of stream `stream_id`.
    fn get_stream_version(&self, stream_id: &str) -> Result<u64, AppError>;

    /// Whether stream `stream_id` exists.
    fn stream_exists(&self, stream_id: &str) -> Result<bool, AppError>;
}

/// A source of configuration values.
pub trait ConfigurationProvider {
    /// The value under `key`, if any.
    fn get_string(&self, key: &str) -> Result<Option<String>, AppError>;

    /// The value under `key`, or `default`.
    fn get_string_or_default(&self, key: &str, default: &str) -> Result<String, AppError>;

    /// The integer under `key`, if any.
    fn get_int(&self, key: &str) -> Result<Option<i64>, AppError>;

    /// The truth value under `key`, if any.
    fn get_bool(&self, key: &str) -> Result<Option<bool>, AppError>;

    /// Every value whose key starts with `prefix`.
    fn get_with_prefix(&self, prefix: &str) -> Result<HashMap<String, String>, AppError>;

    /// Reads the configuration again.
    fn reload(&self) -> Result<(), AppError>;
}

} // verus!
