use rustci_core::event_loop::{Event, EventDemultiplexer, EventPayload, EventPriority, EventType};

fn submission() -> EventPayload {
    EventPayload::JobSubmission { job_id: uuid::Uuid::new_v4().as_u128(), runner_id: None }
}

#[test]
fn test_event_demultiplexer_creation() {
    let demux = EventDemultiplexer::new();
    let stats = demux.get_stats();
    assert_eq!(stats.total_events, 0);
}

#[test]
fn test_event_handler_registration() {
    let mut demux = EventDemultiplexer::new();
    demux.register_handler(1, "test-handler", &vec![EventType::JobSubmission]);
    let event = Event::new(EventType::JobSubmission, submission());
    let handlers = demux.handlers_for(&event.event_type);
    assert_eq!(handlers.len(), 1);
    assert_eq!(handlers[0].name, "test-handler");
    assert!(demux.handlers_for(&EventType::Timer).is_empty());
}

#[test]
fn test_event_priority_ordering() {
    let mut demux = EventDemultiplexer::new();
    let low_event = Event::with_priority(EventType::JobSubmission, submission(), EventPriority::Low);
    let high_event = Event::with_priority(EventType::JobSubmission, submission(), EventPriority::High);
    demux.submit_event(low_event);
    demux.submit_event(high_event);
    let events = demux.poll_events();
    assert_eq!(events.len(), 2);
    assert_eq!(events[0].priority, EventPriority::High);
    assert_eq!(events[1].priority, EventPriority::Low);
    assert!(demux.poll_events().is_empty());
}

#[test]
fn test_timer_scheduling() {
    let mut demux = EventDemultiplexer::new();
    demux.schedule_timer_at("test-timer".to_string(), 10, false, 1_000);
    assert!(demux.process_timers_at(1_005).is_empty());
    let due = demux.process_timers_at(1_020);
    assert_eq!(due, vec!["test-timer".to_string()]);
    assert!(demux.process_timers_at(2_000).is_empty());
}

#[test]
fn test_event_statistics() {
    let mut demux = EventDemultiplexer::new();
    demux.register_handler(1, "test-handler", &vec![EventType::JobSubmission]);
    demux.record_processed(&EventType::JobSubmission, true, 500, 1_000);
    let stats = demux.get_stats();
    assert_eq!(stats.total_events, 1);
    assert_eq!(stats.successful_events, 1);
    assert_eq!(stats.failed_events, 0);
    assert!(stats.last_processed.is_some());
}

#[test]
fn recurring_timer_comes_back() {
    let mut demux = EventDemultiplexer::new();
    demux.schedule_timer_at("tick".to_string(), 100, true, 0);
    assert_eq!(demux.process_timers_at(100), vec!["tick".to_string()]);
    assert!(demux.process_timers_at(150).is_empty());
    assert_eq!(demux.process_timers_at(200), vec!["tick".to_string()]);
    demux.cancel_timer(&"tick".to_string());
    assert!(demux.process_timers_at(1_000).is_empty());
}

#[test]
fn equal_priority_events_keep_arrival_order() {
    let mut demux = EventDemultiplexer::new();
    let a = Event::with_priority_at(EventType::IO, submission(), EventPriority::Normal, 1, 10);
    let b = Event::with_priority_at(EventType::IO, submission(), EventPriority::Normal, 2, 20);
    let c = Event::with_priority_at(EventType::IO, submission(), EventPriority::High, 3, 30);
    demux.submit_event(a);
    demux.submit_event(b);
    demux.submit_event(c);
    let ids: Vec<u128> = demux.poll_events().iter().map(|e| e.id).collect();
    assert_eq!(ids, vec![3, 1, 2]);
}

#[test]
fn unregister_drops_named_handlers() {
    let mut demux = EventDemultiplexer::new();
    demux.register_handler(1, "a", &vec![EventType::JobSubmission, EventType::Timer]);
    demux.register_handler(2, "b", &vec![EventType::JobSubmission]);
    demux.unregister_handler("a");
    let h = demux.handlers_for(&EventType::JobSubmission);
    assert_eq!(h.len(), 1);
    assert_eq!(h[0].handler_id, 2);
    assert!(demux.handlers_for(&EventType::Timer).is_empty());
}

#[test]
fn statistics_average_and_reset() {
    let mut demux = EventDemultiplexer::new();
    demux.record_processed(&EventType::Custom("x".to_string()), true, 100, 5);
    demux.record_processed(&EventType::Custom("x".to_string()), false, 300, 6);
    let stats = demux.get_stats();
    assert_eq!(stats.total_events, 2);
    assert_eq!(stats.failed_events, 1);
    assert_eq!(stats.avg_processing_time_ns, 200);
    assert_eq!(stats.events_by_type.get(&"Custom:x".to_string()), Some(&2));
    demux.reset_stats();
    assert_eq!(demux.get_stats().total_events, 0);
}

#[test]
fn registering_keeps_the_statistics() {
    let mut demux = EventDemultiplexer::new();
    demux.record_processed(&EventType::JobSubmission, true, 400, 7);
    demux.record_processed(&EventType::JobSubmission, false, 200, 8);
    demux.register_handler(3, "late", &vec![EventType::JobSubmission, EventType::Timer]);
    let stats = demux.get_stats();
    assert_eq!(stats.total_events, 2);
    assert_eq!(stats.successful_events, 1);
    assert_eq!(stats.failed_events, 1);
    assert_eq!(stats.avg_processing_time_ns, 300);
    assert_eq!(stats.last_processed, Some(8));
}

#[test]
fn a_run_of_submissions_polls_sorted_and_stable() {
    let mut demux = EventDemultiplexer::new();
    demux.submit_event(Event::with_priority_at(EventType::IO, submission(), EventPriority::Low, 1, 1));
    demux.submit_event(Event::with_priority_at(EventType::IO, submission(), EventPriority::Normal, 2, 2));
    demux.submit_event(Event::with_priority_at(EventType::IO, submission(), EventPriority::Critical, 3, 3));
    demux.submit_event(Event::with_priority_at(EventType::IO, submission(), EventPriority::Low, 4, 4));
    demux.submit_event(Event::with_priority_at(EventType::IO, submission(), EventPriority::Normal, 5, 5));
    demux.submit_event(Event::with_priority_at(EventType::IO, submission(), EventPriority::High, 6, 6));
    let ids: Vec<u128> = demux.poll_events().iter().map(|e| e.id).collect();
    assert_eq!(ids, vec![3, 6, 2, 5, 1, 4]);
    assert!(demux.poll_events().is_empty());
}
