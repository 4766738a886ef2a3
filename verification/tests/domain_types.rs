use tyl_pubsub_port::config::{BackoffStrategy, RetryPolicy};
use tyl_pubsub_port::dlq::{FailedEvent, FailureReason};
use tyl_pubsub_port::dlq_manager::{decimal_string, rank_reasons, tally, MockDlqManager};
use tyl_pubsub_port::event::{Event, EventMetadata, TopicEvent};
use tyl_pubsub_port::store::{EventStream, GlobalPosition, Snapshot, StoredEvent};

#[test]
fn positions_order_and_text() {
    let a = GlobalPosition::new(5);
    let b = a.next();
    assert_eq!(b.value(), 6);
    assert!(a.is_before(&b));
    assert!(b.is_after(&a));
    assert!(!a.is_after(&b));
    assert_eq!(b.to_text(), "6");
    assert_eq!(GlobalPosition::new(0).to_text(), "0");
    assert_eq!(GlobalPosition::new(1234567).to_text(), "1234567");
}

#[test]
fn decimal_text_of_numbers() {
    assert_eq!(decimal_string(0), "0");
    assert_eq!(decimal_string(10), "10");
    assert_eq!(decimal_string(u64::MAX), "18446744073709551615");
}

#[test]
fn topic_event_constructors() {
    let e = TopicEvent::new("t", 1u8);
    assert_eq!(e.topic, "t");
    assert!(e.partition_key.is_none());
    let k = TopicEvent::with_key("t", 2u8, "key");
    assert_eq!(k.partition_key, Some("key".to_string()));
}

#[test]
fn event_headers_and_metadata() {
    let e = Event::new("topic", 7u32).with_header("a", "1").with_header("a", "2");
    assert_eq!(e.get_header("a"), Some(&"2".to_string()));
    assert!(e.has_header("a"));
    assert!(!e.has_header("b"));
    assert_eq!(e.id.len(), 36);
    let m = EventMetadata::new("svc", "kind").with_trace_id("tr").with_partition_key("pk");
    assert_eq!(m.source, "svc");
    assert_eq!(m.trace_id, Some("tr".to_string()));
    assert_eq!(m.partition_key, Some("pk".to_string()));
    assert_eq!(m.schema_version, "1.0");
}

#[test]
fn stream_queries() {
    let mut stream = EventStream::new("s");
    let mut a = StoredEvent::new("A", "{}".to_string());
    a.stream_version = 1;
    a.global_position = GlobalPosition(10);
    let mut b = StoredEvent::new("B", "{}".to_string());
    b.stream_version = 2;
    b.global_position = GlobalPosition(20);
    stream.add_event(a);
    stream.add_event(b);
    assert_eq!(stream.event_count(), 2);
    assert_eq!(stream.current_version, 2);
    assert_eq!(stream.end_position, GlobalPosition(20));
    assert_eq!(stream.events_of_type("B").len(), 1);
    assert_eq!(stream.events_in_version_range(1, 1).len(), 1);
    assert_eq!(stream.latest_event().unwrap().event_type, "B");
    assert_eq!(stream.earliest_event().unwrap().event_type, "A");
}

#[test]
fn snapshot_age() {
    let s = Snapshot::new("s", 1, "T", "{}".to_string());
    let now = s.created_at + 500;
    assert_eq!(s.age_at(now), 500);
    assert!(s.is_recent_at(500, now));
    assert!(!s.is_recent_at(499, now));
}

#[test]
fn failed_event_attempts() {
    let mut e = FailedEvent::new(
        "id".to_string(),
        "t",
        "{}".to_string(),
        FailureReason::TimeoutError,
        EventMetadata::new("s", "k"),
    );
    assert_eq!(e.attempt_count, 1);
    assert!(MockDlqManager::can_retry_event(&e, 2));
    assert!(!e.has_exceeded_max_retries(2));
    e.add_failure_attempt(FailureReason::MaxRetriesExceeded);
    assert_eq!(e.attempt_count, 2);
    assert!(!MockDlqManager::can_retry_event(&e, 2));
    assert!(e.has_exceeded_max_retries(2));
    assert_eq!(MockDlqManager::failure_reason_key(&e.failure_reason), "MaxRetriesExceeded");
}

#[test]
fn failure_reason_descriptions() {
    assert_eq!(
        FailureReason::ValidationError { field: "f".to_string(), message: "m".to_string() }.description(),
        "Validation error in field 'f': m"
    );
    assert_eq!(FailureReason::TimeoutError.description(), "Operation timed out");
}

#[test]
fn reasons_ranked_by_count() {
    let keys = vec!["B".to_string(), "A".to_string(), "B".to_string(), "C".to_string(), "A".to_string(), "B".to_string()];
    let counts = tally(&keys);
    assert_eq!(counts.get("B"), Some(&3));
    let ranked = rank_reasons(&counts);
    assert_eq!(ranked[0].reason, "B");
    assert_eq!(ranked[0].count, 3);
    assert_eq!(ranked[1].reason, "A");
    assert_eq!(ranked[2].reason, "C");
}

#[test]
fn backoff_doubles_and_caps() {
    assert_eq!(MockDlqManager::capped_backoff_ms(1, 100, 10_000), 100);
    assert_eq!(MockDlqManager::capped_backoff_ms(3, 100, 10_000), 400);
    assert_eq!(MockDlqManager::capped_backoff_ms(10, 100, 10_000), 10_000);
    assert_eq!(MockDlqManager::capped_backoff_ms(0, 100, 10_000), 100);
}

#[test]
fn retry_policy_delays_are_capped() {
    let fixed = RetryPolicy::fixed_delay(3, 250);
    assert!(matches!(fixed.backoff_strategy, BackoffStrategy::Fixed));
    let d = fixed.calculate_delay(2, 0, 0);
    assert_eq!(d, 250);
    let linear = RetryPolicy::linear_backoff(3, 100);
    assert_eq!(linear.calculate_delay(3, 0, 0), 300);
    let mut capped = RetryPolicy::linear_backoff(3, 50_000);
    capped.max_delay_ms = 60_000;
    assert_eq!(capped.calculate_delay(2, 0, 0), 60_000);
    for _ in 0..20 {
        assert!(capped.calculate_delay(1, 0, 50_000) <= 60_000);
    }
}

#[test]
fn non_retriable_errors_win() {
    let mut policy = RetryPolicy::default();
    assert!(policy.should_retry_error("Anything"));
    policy.retriable_errors = vec!["Timeout".to_string()];
    assert!(policy.should_retry_error("Timeout"));
    assert!(!policy.should_retry_error("Other"));
    policy.non_retriable_errors = vec!["Timeout".to_string()];
    assert!(!policy.should_retry_error("Timeout"));
}

#[test]
fn random_failure_reason_is_one_of_five() {
    for _ in 0..50 {
        let key = MockDlqManager::failure_reason_key(&MockDlqManager::random_failure_reason());
        assert!(
            ["HandlerError", "TimeoutError", "NetworkError", "ValidationError", "DependencyUnavailable"]
                .contains(&key.as_str()),
            "{}",
            key
        );
    }
}

#[test]
fn failed_event_from_published_event() {
    let event = Event::new("orders", 1u8);
    let failed = MockDlqManager::create_failed_event(
        &event,
        Some("1".to_string()),
        FailureReason::TimeoutError,
        Some("Handler"),
    );
    assert_eq!(failed.original_event_id, event.id);
    assert_eq!(failed.topic, "orders");
    assert_eq!(failed.payload, "1");
    assert_eq!(failed.failed_handler, Some("Handler".to_string()));
    let unserialized = MockDlqManager::create_failed_event(&event, None, FailureReason::TimeoutError, None);
    assert_eq!(unserialized.payload, "\"Serialization failed\"");
    assert!(unserialized.failed_handler.is_none());
}
