//! The pipeline-creation command, the event it publishes and the handlers
//! that react to it.

use vstd::prelude::*;
use crate::keyed::{has_key, value_of, KeyedTable};
use crate::platform::uuid_hyphenated;
use crate::text::decimal;

verus! {

/// A request to create a pipeline.
#[derive(Debug)]
pub struct CreatePipelineCommand {
    pub command_id: u128,
    pub correlation_id: u128,
    pub name: String,
    pub description: Option<String>,
    pub stages: Vec<String>,
    pub user_id: u128,
}

impl CreatePipelineCommand {
    /// The command's identifier.
    pub fn command_id(&self) -> (r: u128)
        ensures
            r == self.command_id,
    {
        self.command_id
    }

    /// The identifier tying the command to its events.
    pub fn correlation_id(&self) -> (r: u128)
        ensures
            r == self.correlation_id,
    {
        self.correlation_id
    }

    /// The command's name.
    pub fn command_name(&self) -> (r: &'static str)
        ensures
            r@ == "CreatePipeline"@,
    {
        "CreatePipeline"
    }

    /// Pipeline creations may be batched together.
    pub fn can_batch(&self) -> (r: bool)
        ensures
            r,
    {
        true
    }

    /// The batch pipeline creations share.
    pub fn batch_key(&self) -> (r: Option<String>)
        ensures
            r matches Some(k) && k@ == "pipeline_creation"@,
    {
        Some(String::from_str("pipeline_creation"))
    }

    /// The pipeline's name under "pipeline_name", the user's identifier
    /// under "user_id" and the number of stages under "stage_count".
    pub fn metadata(&self) -> (m: KeyedTable<String>)
        requires
            self.stages@.len() <= u64::MAX,
        ensures
            m.well_formed(),
            m.entries().len() == 3,
            has_key(m.entries(), "pipeline_name"@) && value_of(m.entries(), "pipeline_name"@)@ == self.name@,
            has_key(m.entries(), "user_id"@) && value_of(m.entries(), "user_id"@)@ == uuid_hyphenated(self.user_id),
            has_key(m.entries(), "stage_count"@) && value_of(m.entries(), "stage_count"@)@ == decimal(
                self.stages@.len(),
            ),
    {
        let mut m: KeyedTable<String> = KeyedTable::new();
        let k1 = String::from_str("pipeline_name");
        let k2 = String::from_str("user_id");
        let k3 = String::from_str("stage_count");
        let v1 = self.name.clone();
        let v2 = crate::platform::uuid_text(self.user_id);
        let n: u64 = self.stages.len() as u64;
        let v3 = crate::text::decimal_string(n);
        proof {
            reveal_strlit("pipeline_name");
            reveal_strlit("user_id");
            reveal_strlit("stage_count");
            assert(k1@.len() != k2@.len() && k1@.len() != k3@.len() && k2@.len() != k3@.len());
            crate::keyed::lemma_upserted_unique(m.entries(), k1, v1);
        }
        m.insert(k1, v1);
        proof {
            crate::keyed::lemma_upserted_unique(m.entries(), k2, v2);
        }
        m.insert(k2, v2);
        proof {
            crate::keyed::lemma_upserted_unique(m.entries(), k3, v3);
        }
        m.insert(k3, v3);
        m
    }
}

/// The event published once a pipeline was created.
#[derive(Debug)]
pub struct PipelineCreatedEvent {
    pub pipeline_id: u128,
    pub name: String,
    pub description: Option<String>,
    pub stages: Vec<String>,
    pub created_by: u128,
    pub correlation_id: u128,
    /// Milliseconds since the Unix epoch.
    pub occurred_at: u64,
    pub metadata: KeyedTable<String>,
}

impl PipelineCreatedEvent {
    /// The event for the pipeline `pipeline_id` that `command` created at
    /// `now`, with no metadata.
    pub fn for_command(command: &CreatePipelineCommand, pipeline_id: u128, now: u64) -> (e: Self)
        ensures
            e.pipeline_id == pipeline_id,
            e.name == command.name,
            e.description == command.description,
            e.stages@ == command.stages@,
            e.created_by == command.user_id,
            e.correlation_id == command.correlation_id,
            e.occurred_at == now,
            e.metadata.well_formed(),
            e.metadata.entries().len() == 0,
    {
        PipelineCreatedEvent {
            pipeline_id,
            name: command.name.clone(),
            description: command.description.clone(),
            stages: command.stages.clone(),
            created_by: command.user_id,
            correlation_id: command.correlation_id,
            occurred_at: now,
            metadata: KeyedTable::new(),
        }
    }

    /// The event's type.
    pub fn event_type(&self) -> (r: &'static str)
        ensures
            r@ == "pipeline.created"@,
    {
        "pipeline.created"
    }

    /// The pipeline the event is about.
    pub fn aggregate_id(&self) -> (r: u128)
        ensures
            r == self.pipeline_id,
    {
        self.pipeline_id
    }

    /// When the pipeline was created.
    pub fn occurred_at(&self) -> (r: u64)
        ensures
            r == self.occurred_at,
    {
        self.occurred_at
    }

    /// The identifier tying the event to its command.
    pub fn correlation_id(&self) -> (r: u128)
        ensures
            r == self.correlation_id,
    {
        self.correlation_id
    }

    /// A copy of the event's metadata.
    pub fn metadata(&self) -> (m: KeyedTable<String>)
        ensures
            m.entries() == self.metadata.entries(),
    {
        self.metadata.duplicate()
    }
}

/// Sends notifications about pipelines.
#[derive(Debug, Clone, Copy, PartialEq, Eq, Structural)]
pub struct NotificationService;

impl NotificationService {
    /// The service.
    pub fn new() -> (s: Self)
        ensures
            s == NotificationService,
    {
        NotificationService
    }
}

impl Default for NotificationService {
    fn default() -> (s: Self)
        ensures
            s == NotificationService,
    {
        NotificationService
    }
}

/// Reacts to created pipelines by notifying their creators.
#[derive(Debug, Clone, Copy, PartialEq, Eq, Structural)]
pub struct PipelineCreatedEventHandler {
    notification_service: NotificationService,
}

impl PipelineCreatedEventHandler {
    /// The service it notifies through.
    pub closed spec fn notifier(&self) -> NotificationService {
        self.notification_service
    }

    /// The handler, notifying through `notification_service`.
    pub fn new(notification_service: NotificationService) -> (h: Self)
        ensures
            h.notifier() == notification_service,
    {
        PipelineCreatedEventHandler { notification_service }
    }

    /// The handler's name.
    pub fn handler_name(&self) -> (r: &'static str)
        ensures
            r@ == "PipelineCreatedEventHandler"@,
    {
        "PipelineCreatedEventHandler"
    }
}

} // verus!
