use rustci_core::integration_example::{
    CreatePipelineCommand, NotificationService, PipelineCreatedEvent, PipelineCreatedEventHandler,
};

fn command() -> CreatePipelineCommand {
    CreatePipelineCommand {
        command_id: 11,
        correlation_id: 22,
        name: "Demo Pipeline 1".to_string(),
        description: Some("This is demo pipeline number 1".to_string()),
        stages: vec!["build".to_string(), "test".to_string(), "deploy".to_string()],
        user_id: 0x1234,
    }
}

#[test]
fn command_identity() {
    let c = command();
    assert_eq!(c.command_id(), 11);
    assert_eq!(c.correlation_id(), 22);
    assert_eq!(c.command_name(), "CreatePipeline");
    assert!(c.can_batch());
    assert_eq!(c.batch_key(), Some("pipeline_creation".to_string()));
}

#[test]
fn command_metadata() {
    let c = command();
    let m = c.metadata();
    assert_eq!(m.len(), 3);
    assert_eq!(m.get(&"pipeline_name".to_string()), Some(&"Demo Pipeline 1".to_string()));
    assert_eq!(m.get(&"stage_count".to_string()), Some(&"3".to_string()));
    assert_eq!(
        m.get(&"user_id".to_string()),
        Some(&uuid::Uuid::from_u128(0x1234).to_string())
    );
}

#[test]
fn created_event_from_command() {
    let c = command();
    let e = PipelineCreatedEvent::for_command(&c, 77, 1_000);
    assert_eq!(e.event_type(), "pipeline.created");
    assert_eq!(e.aggregate_id(), 77);
    assert_eq!(e.correlation_id(), 22);
    assert_eq!(e.occurred_at(), 1_000);
    assert_eq!(e.created_by, 0x1234);
    assert_eq!(e.stages.len(), 3);
    assert_eq!(e.metadata().len(), 0);
}

#[test]
fn handler_name() {
    let h = PipelineCreatedEventHandler::new(NotificationService::new());
    assert_eq!(h.handler_name(), "PipelineCreatedEventHandler");
    let _ = NotificationService::default();
}
