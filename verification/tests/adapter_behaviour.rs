use tyl_pubsub_port::adapter::MockPubSubAdapter;
use tyl_pubsub_port::dlq::{FailedEvent, FailureReason};
use tyl_pubsub_port::error::PubSubError;
use tyl_pubsub_port::event::{Event, EventMetadata, TopicEvent};
use tyl_pubsub_port::monitoring::Health;
use tyl_pubsub_port::ports::ExportFormat;
use tyl_pubsub_port::store::{GlobalPosition, Snapshot, StoredEvent};
use tyl_pubsub_port::subscription::{SubscriptionOptions, SubscriptionState};
use tyl_pubsub_port::config::{BackoffStrategy, RetryPolicy};

fn payload(id: &str, data: &str) -> Result<String, String> {
    Ok(format!(r#"{{"id":"{}","data":"{}"}}"#, id, data))
}

fn failed(id: &str, topic: &str) -> FailedEvent {
    FailedEvent::new(
        id.to_string(),
        topic,
        r#"{"id":"failed"}"#.to_string(),
        FailureReason::HandlerError { error: "Test failure".to_string() },
        EventMetadata::new("test", "TestEvent"),
    )
}

#[test]
fn test_basic_publish_functionality() {
    let mut pubsub = MockPubSubAdapter::new();
    let event_id = pubsub.publish("test.topic", payload("test-1", "test data")).unwrap();
    assert!(!event_id.is_empty());
    assert_eq!(event_id.len(), 36);
    assert_eq!(pubsub.event_count("test.topic"), 1);
}

#[test]
fn published_event_keeps_payload_and_fresh_id() {
    let mut pubsub = MockPubSubAdapter::new();
    let a = pubsub.publish("t", payload("1", "x")).unwrap();
    let b = pubsub.publish("t", payload("2", "y")).unwrap();
    assert_ne!(a, b);
    let events = pubsub.storage.get_events("t");
    assert_eq!(events.len(), 2);
    assert_eq!(events[0].id, a);
    assert_eq!(events[1].payload, r#"{"id":"2","data":"y"}"#);
    assert_eq!(events[0].metadata.source, "unknown");
    assert!(events[0].metadata.partition_key.is_none());
}

#[test]
fn unserializable_payload_is_rejected_and_nothing_stored() {
    let mut pubsub = MockPubSubAdapter::new();
    let result = pubsub.publish("t", Err("key must be a string".to_string()));
    match result {
        Err(PubSubError::Serialization { message }) => {
            assert_eq!(message, "Failed to serialize event: key must be a string")
        }
        other => panic!("unexpected {:?}", other),
    }
    assert_eq!(pubsub.event_count("t"), 0);
    assert!(!pubsub.topic_exists("t"));
}

#[test]
fn publish_with_key_sets_partition_key() {
    let mut pubsub = MockPubSubAdapter::new();
    pubsub.publish_with_key("t", "k-1", payload("1", "x")).unwrap();
    let events = pubsub.storage.get_events("t");
    assert_eq!(events[0].metadata.partition_key, Some("k-1".to_string()));
}

#[test]
fn publish_event_keeps_identity() {
    let mut pubsub = MockPubSubAdapter::new();
    let event = Event::new("orders", Ok::<String, String>("{}".to_string())).with_id("fixed-id");
    let id = pubsub.publish_event(event).unwrap();
    assert_eq!(id, "fixed-id");
    assert_eq!(pubsub.storage.get_events("orders")[0].id, "fixed-id");
}

#[test]
fn test_batch_publishing() {
    let mut pubsub = MockPubSubAdapter::new();
    let events = vec![
        TopicEvent::new("test.topic", payload("batch-1", "batch data 1")),
        TopicEvent::new("test.topic", payload("batch-2", "batch data 2")),
    ];
    let event_ids = pubsub.publish_batch(events).unwrap();
    assert_eq!(event_ids.len(), 2);
    assert_eq!(pubsub.event_count("test.topic"), 2);
}

#[test]
fn batch_stops_at_first_unserializable_entry() {
    let mut pubsub = MockPubSubAdapter::new();
    let events = vec![
        TopicEvent::new("a", payload("1", "x")),
        TopicEvent::with_key("b", payload("2", "y"), "key"),
        TopicEvent::new("a", Err("bad".to_string())),
        TopicEvent::new("a", payload("4", "z")),
    ];
    let result = pubsub.publish_batch(events);
    assert!(matches!(result, Err(PubSubError::Serialization { .. })));
    assert_eq!(pubsub.event_count("a"), 1);
    assert_eq!(pubsub.event_count("b"), 1);
    assert_eq!(pubsub.storage.get_events("b")[0].metadata.partition_key, Some("key".to_string()));
}

#[test]
fn transactional_publishing_is_a_batch() {
    let mut pubsub = MockPubSubAdapter::new();
    let ids = pubsub
        .publish_transactional(vec![TopicEvent::new("t", payload("1", "x"))], "tx-1".to_string())
        .unwrap();
    assert_eq!(ids.len(), 1);
    assert_eq!(pubsub.storage.get_events("t")[0].id, ids[0]);
}

#[test]
fn test_subscription_management() {
    let mut pubsub = MockPubSubAdapter::new();
    let subscription_id = pubsub.subscribe("test.topic", "TestHandler").unwrap();
    assert!(!subscription_id.is_empty());
    pubsub.unsubscribe(&subscription_id).unwrap();
}

#[test]
fn second_unsubscribe_reports_not_found() {
    let mut pubsub = MockPubSubAdapter::new();
    let id = pubsub.subscribe("t", "h").unwrap();
    assert!(pubsub.unsubscribe(&id).is_ok());
    match pubsub.unsubscribe(&id) {
        Err(PubSubError::NotFound { resource, id: missing }) => {
            assert_eq!(resource, "subscription");
            assert_eq!(missing, id);
        }
        other => panic!("unexpected {:?}", other),
    }
}

#[test]
fn subscription_variants_record_subscriptions() {
    let mut pubsub = MockPubSubAdapter::new();
    let a = pubsub.subscribe_with_options("t1", SubscriptionOptions::default(), "h").unwrap();
    let b = pubsub.subscribe_consumer_group("t2", "group", "h").unwrap();
    let many = pubsub.subscribe_multiple(vec!["x".to_string(), "y".to_string()], "h").unwrap();
    assert_eq!(many.len(), 2);
    assert_eq!(pubsub.storage.subscriptions.len(), 4);
    assert_eq!(pubsub.storage.subscriptions.get(&a).unwrap().topic, "t1");
    assert_eq!(pubsub.storage.subscriptions.get(&b).unwrap().topic, "t2");
    assert_eq!(pubsub.storage.subscriptions.get(&many[1]).unwrap().topic, "y");
    assert!(pubsub.pause_subscription(&a).is_ok());
    assert!(pubsub.resume_subscription(&a).is_ok());
}

#[test]
fn test_dead_letter_queue() {
    let mut pubsub = MockPubSubAdapter::new();
    pubsub.send_to_dlq(failed("failed-event-1", "test.topic"), FailureReason::MaxRetriesExceeded).unwrap();
    let dlq_events = pubsub.get_dlq_events("test.topic", None).unwrap();
    assert_eq!(dlq_events.len(), 1);
    assert_eq!(dlq_events[0].original_event_id, "failed-event-1");
}

#[test]
fn test_dlq_statistics() {
    let mut pubsub = MockPubSubAdapter::new();
    for i in 0..5 {
        pubsub
            .send_to_dlq(failed(&format!("failed-event-{}", i), "test.topic"), FailureReason::MaxRetriesExceeded)
            .unwrap();
    }
    let stats = pubsub.dlq_stats("test.topic").unwrap();
    assert_eq!(stats.total_events, 5);
    assert_eq!(stats.unique_event_types, 1);
    assert_eq!(stats.total_retry_attempts, 5);
}

#[test]
fn test_retry_from_dlq() {
    let mut pubsub = MockPubSubAdapter::new();
    pubsub.send_to_dlq(failed("retry-event-1", "test.topic"), FailureReason::MaxRetriesExceeded).unwrap();
    assert_eq!(pubsub.get_dlq_events("test.topic", None).unwrap().len(), 1);
    pubsub.retry_from_dlq("retry-event-1").unwrap();
    assert_eq!(pubsub.get_dlq_events("test.topic", None).unwrap().len(), 0);
}

#[test]
fn retry_of_unknown_event_is_not_found() {
    let mut pubsub = MockPubSubAdapter::new();
    match pubsub.retry_from_dlq("nope") {
        Err(PubSubError::NotFound { resource, id }) => {
            assert_eq!(resource, "dlq_event");
            assert_eq!(id, "nope");
        }
        other => panic!("unexpected {:?}", other),
    }
}

#[test]
fn batch_retry_matches_one_by_one() {
    let mut pubsub = MockPubSubAdapter::new();
    pubsub.send_to_dlq(failed("a", "t1"), FailureReason::MaxRetriesExceeded).unwrap();
    pubsub.send_to_dlq(failed("b", "t2"), FailureReason::MaxRetriesExceeded).unwrap();
    let results = pubsub
        .retry_dlq_batch(vec!["a".to_string(), "a".to_string(), "b".to_string()])
        .unwrap();
    assert_eq!(results.len(), 3);
    assert!(results[0].success && results[0].error_message.is_none());
    assert!(!results[1].success);
    assert_eq!(results[1].error_message, Some("Event not found in DLQ".to_string()));
    assert!(results[2].success);
    assert_eq!(pubsub.get_dlq_events("t1", None).unwrap().len(), 0);
    assert_eq!(pubsub.get_dlq_events("t2", None).unwrap().len(), 0);
}

#[test]
fn dlq_limit_purge_details_and_topics() {
    let mut pubsub = MockPubSubAdapter::new();
    for i in 0..3 {
        pubsub.send_to_dlq(failed(&format!("e{}", i), "t"), FailureReason::TimeoutError).unwrap();
    }
    assert_eq!(pubsub.get_dlq_events("t", Some(2)).unwrap().len(), 2);
    assert_eq!(pubsub.get_failing_events("t", Some(1)).unwrap().len(), 1);
    assert_eq!(pubsub.list_dlq_topics().unwrap(), vec!["t".to_string()]);
    let details = pubsub.get_dlq_event_details("e1").unwrap().unwrap();
    assert_eq!(details.original_event_id, "e1");
    assert!(pubsub.get_dlq_event_details("zz").unwrap().is_none());
    assert_eq!(pubsub.purge_dlq("t", Some(i64::MIN)).unwrap(), 0);
    assert_eq!(pubsub.get_dlq_events("t", None).unwrap().len(), 3);
    assert_eq!(pubsub.purge_dlq("t", None).unwrap(), 3);
    assert_eq!(pubsub.get_dlq_events("t", None).unwrap().len(), 0);
    assert!(pubsub.list_dlq_topics().unwrap().is_empty());
}

#[test]
fn purge_with_cutoff_removes_only_older_events_in_order() {
    let mut pubsub = MockPubSubAdapter::new();
    for (id, time) in [("a", 100), ("b", 300), ("c", 200), ("d", 400)] {
        let mut e = failed(id, "t");
        e.first_failure_time = time;
        pubsub.send_to_dlq(e, FailureReason::TimeoutError).unwrap();
    }
    assert_eq!(pubsub.purge_dlq("t", Some(250)).unwrap(), 2);
    let left: Vec<String> =
        pubsub.get_dlq_events("t", None).unwrap().into_iter().map(|e| e.original_event_id).collect();
    assert_eq!(left, vec!["b".to_string(), "d".to_string()]);
    assert_eq!(pubsub.purge_dlq("t", Some(250)).unwrap(), 0);
    assert_eq!(pubsub.purge_dlq("t", Some(i64::MAX)).unwrap(), 2);
    assert!(pubsub.get_dlq_events("t", None).unwrap().is_empty());
    assert_eq!(pubsub.purge_dlq("absent", Some(i64::MAX)).unwrap(), 0);
}

#[test]
fn discard_takes_event_out() {
    let mut pubsub = MockPubSubAdapter::new();
    pubsub.send_to_dlq(failed("x", "t"), FailureReason::TimeoutError).unwrap();
    assert!(pubsub.discard_dlq_event("x").is_ok());
    assert!(pubsub.discard_dlq_event("x").is_err());
}

#[test]
fn csv_export_and_unsupported_formats() {
    let mut pubsub = MockPubSubAdapter::new();
    let mut event = failed("e-1", "t");
    event.first_failure_time = 0;
    event.last_failure_time = 1000;
    pubsub.send_to_dlq(event, FailureReason::TimeoutError).unwrap();
    let csv = pubsub.export_dlq_events("t", &ExportFormat::Csv, Ok(Vec::new())).unwrap();
    let text = String::from_utf8(csv).unwrap();
    assert_eq!(
        text,
        "event_id,topic,event_type,failure_reason,attempt_count,first_failure_time,last_failure_time,handler\n\
         e-1,t,TestEvent,HandlerError,1,1970-01-01 00:00:00 UTC,1970-01-01 00:00:01 UTC,unknown\n"
    );
    let json = pubsub.export_dlq_events("t", &ExportFormat::Json, Ok(b"[]".to_vec())).unwrap();
    assert_eq!(json, b"[]".to_vec());
    match pubsub.export_dlq_events("t", &ExportFormat::Json, Err("boom".to_string())) {
        Err(PubSubError::Serialization { message }) => assert_eq!(message, "JSON export failed: boom"),
        other => panic!("unexpected {:?}", other),
    }
    match pubsub.export_dlq_events("t", &ExportFormat::Xml, Ok(Vec::new())) {
        Err(PubSubError::Configuration { message }) => {
            assert_eq!(message, "Unsupported export format for mock implementation")
        }
        other => panic!("unexpected {:?}", other),
    }
}

#[test]
fn test_health_and_monitoring() {
    let pubsub = MockPubSubAdapter::new();
    let health = pubsub.health_check().unwrap();
    assert!(matches!(health.status, Health::Healthy));
    assert_eq!(health.version, "0.1.0-mock");
    let connection = pubsub.connection_status().unwrap();
    assert!(connection.connected);
    assert_eq!(connection.pool_stats.max_connections, 10);
}

#[test]
fn test_event_store_functionality() {
    let mut pubsub = MockPubSubAdapter::new();
    let events = vec![
        StoredEvent::new("UserCreated", r#"{"user_id":"123"}"#.to_string()),
        StoredEvent::new("UserUpdated", r#"{"user_id":"123","name":"John"}"#.to_string()),
    ];
    let version = pubsub.append_events("user_stream_123", events).unwrap();
    assert_eq!(version, 2);
    let stream = pubsub.read_events("user_stream_123", 0, None).unwrap();
    assert_eq!(stream.events.len(), 2);
    assert_eq!(stream.current_version, 2);
    assert_eq!(stream.events[0].event_type, "UserCreated");
    assert_eq!(stream.events[1].event_type, "UserUpdated");
}

#[test]
fn read_after_append_returns_the_appended_events() {
    let mut pubsub = MockPubSubAdapter::new();
    pubsub.append_events("s", vec![StoredEvent::new("A", "{}".to_string())]).unwrap();
    pubsub.append_events("other", vec![StoredEvent::new("X", "{}".to_string())]).unwrap();
    let v = pubsub
        .append_events("s", vec![StoredEvent::new("B", "{}".to_string()), StoredEvent::new("C", "{}".to_string())])
        .unwrap();
    assert_eq!(v, 3);
    let stream = pubsub.read_events("s", 2, None).unwrap();
    assert_eq!(stream.events.len(), 2);
    assert_eq!(stream.events[0].event_type, "B");
    assert_eq!(stream.events[0].stream_version, 2);
    assert_eq!(stream.events[1].stream_version, 3);
    assert_eq!(stream.events[0].stream_id, "s");
    assert_eq!(stream.events[0].global_position, GlobalPosition(3));
    assert_eq!(stream.events[1].global_position, GlobalPosition(4));
    assert!(stream.is_complete);
    let limited = pubsub.read_events("s", 1, Some(1)).unwrap();
    assert_eq!(limited.events.len(), 1);
    assert!(!limited.is_complete);
    let range = pubsub.read_events_range("s", 2, Some(2)).unwrap();
    assert_eq!(range.events.len(), 1);
    assert_eq!(range.events[0].event_type, "B");
}

#[test]
fn range_reads_include_both_ends() {
    let mut pubsub = MockPubSubAdapter::new();
    pubsub
        .append_events(
            "s",
            vec![
                StoredEvent::new("A", "1".to_string()),
                StoredEvent::new("B", "2".to_string()),
                StoredEvent::new("C", "3".to_string()),
            ],
        )
        .unwrap();
    let versions = |st: &tyl_pubsub_port::store::EventStream| -> Vec<u64> {
        st.events.iter().map(|e| e.stream_version).collect()
    };
    let first = pubsub.read_events_range("s", 0, Some(1)).unwrap();
    assert_eq!(versions(&first), vec![1]);
    assert_eq!(first.current_version, 1);
    assert!(!first.is_complete);
    let middle = pubsub.read_events_range("s", 2, Some(3)).unwrap();
    assert_eq!(versions(&middle), vec![2, 3]);
    assert_eq!(middle.start_position, GlobalPosition(2));
    assert_eq!(middle.end_position, GlobalPosition(3));
    let open = pubsub.replay_events("s", 2, None).unwrap();
    assert_eq!(versions(&open), vec![2, 3]);
    assert!(open.is_complete);
    let backwards = pubsub.read_events_range("s", 3, Some(1)).unwrap();
    assert!(backwards.events.is_empty());
    assert_eq!(backwards.current_version, 0);
    let beyond = pubsub.read_events_range("s", 4, Some(9)).unwrap();
    assert!(beyond.events.is_empty());
}

#[test]
fn streams_are_listed_by_prefix_and_limit() {
    let mut pubsub = MockPubSubAdapter::new();
    pubsub.append_events("user-1", vec![StoredEvent::new("A", "1".to_string())]).unwrap();
    pubsub.append_events("order-1", vec![StoredEvent::new("B", "2".to_string())]).unwrap();
    pubsub.append_events("user-2", vec![StoredEvent::new("C", "3".to_string())]).unwrap();
    assert_eq!(
        pubsub.list_streams(Some("user-"), None).unwrap(),
        vec!["user-1".to_string(), "user-2".to_string()]
    );
    assert_eq!(pubsub.list_streams(None, Some(1)).unwrap(), vec!["user-1".to_string()]);
    assert_eq!(pubsub.list_streams(Some("user-"), Some(1)).unwrap(), vec!["user-1".to_string()]);
    assert_eq!(pubsub.list_streams(None, None).unwrap().len(), 3);
    assert!(pubsub.list_streams(Some("invoice"), None).unwrap().is_empty());
    assert!(pubsub.list_streams(None, Some(0)).unwrap().is_empty());
    assert_eq!(pubsub.list_streams(Some(""), None).unwrap().len(), 3);
}

#[test]
fn stream_metadata_listing_and_deletion() {
    let mut pubsub = MockPubSubAdapter::new();
    assert!(pubsub.get_stream_metadata("s").unwrap().is_none());
    pubsub
        .append_events("s", vec![StoredEvent::new("A", "{}".to_string()), StoredEvent::new("B", "{}".to_string())])
        .unwrap();
    let meta = pubsub.get_stream_metadata("s").unwrap().unwrap();
    assert_eq!(meta.current_version, 2);
    assert_eq!(meta.event_count, 2);
    assert_eq!(pubsub.list_streams(None, None).unwrap(), vec!["s".to_string()]);
    pubsub.delete_stream("s").unwrap();
    assert!(pubsub.get_stream_metadata("s").unwrap().is_none());
    assert!(pubsub.read_all_events(GlobalPosition(0), None).unwrap().events.is_empty());
}

#[test]
fn test_snapshot_functionality() {
    let mut pubsub = MockPubSubAdapter::new();
    let snapshot = Snapshot::new(
        "user_stream_123",
        5,
        "UserAggregate",
        r#"{"user_id":"123","name":"John Doe","email":"john@example.com"}"#.to_string(),
    );
    pubsub.save_snapshot("user_stream_123", 5, snapshot).unwrap();
    let loaded_snapshot = pubsub.load_snapshot("user_stream_123").unwrap().unwrap();
    assert_eq!(loaded_snapshot.stream_id, "user_stream_123");
    assert_eq!(loaded_snapshot.version, 5);
    assert_eq!(loaded_snapshot.snapshot_type, "UserAggregate");
}

#[test]
fn newest_snapshot_is_loaded_whatever_the_order_of_saving() {
    let mut pubsub = MockPubSubAdapter::new();
    pubsub.save_snapshot("s", 7, Snapshot::new("s", 7, "A", "{}".to_string())).unwrap();
    pubsub.save_snapshot("s", 3, Snapshot::new("s", 3, "A", "{}".to_string())).unwrap();
    pubsub.save_snapshot("s", 9, Snapshot::new("s", 9, "B", "{}".to_string())).unwrap();
    let latest = pubsub.load_snapshot("s").unwrap().unwrap();
    assert_eq!(latest.version, 9);
    assert_eq!(latest.snapshot_type, "B");
    let loaded = pubsub.load_snapshot_at_version("s", 4).unwrap().unwrap();
    assert_eq!(loaded.version, 3);
    assert_eq!(pubsub.load_snapshot_at_version("s", 7).unwrap().unwrap().version, 7);
    assert_eq!(pubsub.load_snapshot_at_version("s", 100).unwrap().unwrap().version, 9);
    assert!(pubsub.load_snapshot_at_version("s", 2).unwrap().is_none());
    assert!(pubsub.load_snapshot("missing").unwrap().is_none());
    assert!(pubsub.load_snapshot_at_version("missing", 5).unwrap().is_none());
}

#[test]
fn test_metrics_collection() {
    let mut pubsub = MockPubSubAdapter::new();
    for i in 0..3 {
        pubsub.publish("metrics.topic", payload(&format!("metrics-{}", i), "metrics data")).unwrap();
    }
    let metrics = pubsub.get_metrics("metrics.topic").unwrap();
    assert_eq!(metrics.topic, "metrics.topic");
    assert_eq!(metrics.publishing.events_published, 3);
    assert_eq!(metrics.publishing.bytes_published, 3 * 1024);
    let global_metrics = pubsub.get_global_metrics().unwrap();
    assert!(global_metrics.total_topics > 0);
    assert!(global_metrics.total_events > 0);
}

#[test]
fn test_bulk_operations() {
    let mut pubsub = MockPubSubAdapter::new();
    let topics = vec!["topic1".to_string(), "topic2".to_string()];
    for topic in &topics {
        pubsub.publish(topic, payload("bulk-test", "bulk data")).unwrap();
    }
    let bulk_metrics = pubsub.get_bulk_metrics(topics.clone()).unwrap();
    assert_eq!(bulk_metrics.len(), topics.len());
    for topic in &topics {
        assert!(bulk_metrics.contains_key(topic));
    }
}

#[test]
fn test_adapter_reliability() {
    let mut pubsub = MockPubSubAdapter::reliable();
    for i in 0..10 {
        let result = pubsub.publish("reliable.topic", payload(&format!("reliable-{}", i), "d"));
        assert!(result.is_ok());
    }
    assert_eq!(pubsub.event_count("reliable.topic"), 10);
}

#[test]
fn test_clear_functionality() {
    let mut pubsub = MockPubSubAdapter::new();
    pubsub.publish("clear.topic", payload("clear-test", "clear data")).unwrap();
    assert_eq!(pubsub.event_count("clear.topic"), 1);
    pubsub.clear();
    assert_eq!(pubsub.event_count("clear.topic"), 0);
    assert!(pubsub.get_topics().is_empty());
}

#[test]
fn retry_manager_answers() {
    let mut pubsub = MockPubSubAdapter::new();
    assert!(pubsub.get_retry_policy("t").unwrap().is_none());
    assert_eq!(pubsub.get_default_retry_policy().unwrap().max_attempts, 3);
    let failed_retry = pubsub.retry_failed_event("e", false, 1_000).unwrap();
    assert_eq!(failed_retry.attempt_number, 2);
    assert_eq!(failed_retry.error_message, Some("Retry failed".to_string()));
    assert_eq!(failed_retry.next_retry_at, Some(301_000));
    let ok_retry = pubsub.retry_failed_event("e", true, 1_000).unwrap();
    assert!(ok_retry.error_message.is_none() && ok_retry.next_retry_at.is_none());
    assert_eq!(pubsub.export_traces(&tyl_pubsub_port::monitoring::TraceFormat::Json).unwrap(), b"Mock trace data".to_vec());
    assert!(pubsub.get_alert_status().unwrap().is_empty());
    assert_eq!(pubsub.create_alert("high latency").unwrap().len(), 36);
}

#[test]
fn retry_policies_are_stored_per_topic() {
    let mut pubsub = MockPubSubAdapter::new();
    let mut policy = RetryPolicy::default();
    policy.max_attempts = 7;
    policy.retry_delay_ms = 10;
    policy.backoff_strategy = BackoffStrategy::Fixed;
    policy.retriable_errors = vec!["timeout".to_string()];
    pubsub.set_retry_policy("t", policy).unwrap();
    let got = pubsub.get_retry_policy("t").unwrap().unwrap();
    assert_eq!(got.max_attempts, 7);
    assert_eq!(got.retry_delay_ms, 10);
    assert_eq!(got.retriable_errors, vec!["timeout".to_string()]);
    assert!(pubsub.get_retry_policy("other").unwrap().is_none());
    pubsub.remove_retry_policy("t").unwrap();
    assert!(pubsub.get_retry_policy("t").unwrap().is_none());
    let mut default = RetryPolicy::default();
    default.max_attempts = 9;
    pubsub.set_default_retry_policy(default).unwrap();
    assert_eq!(pubsub.get_default_retry_policy().unwrap().max_attempts, 9);
    pubsub.clear();
    assert_eq!(pubsub.get_default_retry_policy().unwrap().max_attempts, 3);
}

#[test]
fn paused_subscriptions_report_their_state() {
    let mut pubsub = MockPubSubAdapter::new();
    let id = pubsub.subscribe("orders", "h").unwrap();
    let status = pubsub.subscription_status(&id).unwrap();
    assert_eq!(status.state, SubscriptionState::Active);
    assert_eq!(status.topic, "orders");
    assert_eq!(status.events_processed, 0);
    pubsub.pause_subscription(&id).unwrap();
    assert_eq!(pubsub.subscription_status(&id).unwrap().state, SubscriptionState::Paused);
    assert!(!pubsub.storage.subscriptions.get(&id).unwrap().is_active);
    pubsub.resume_subscription(&id).unwrap();
    assert_eq!(pubsub.subscription_status(&id).unwrap().state, SubscriptionState::Active);
    assert!(pubsub.pause_subscription("nope").is_ok());
    assert!(pubsub.resume_subscription("nope").is_ok());
    assert_eq!(pubsub.storage.subscriptions.len(), 1);
    assert!(pubsub.storage.subscriptions.get(&id).unwrap().is_active);
    assert_eq!(pubsub.subscription_status("nope").unwrap().topic, "mock-topic");
}

#[test]
fn unrecorded_subscription_gets_placeholder_status() {
    let pubsub = MockPubSubAdapter::new();
    let status = pubsub.subscription_status_at("sub-1", 1000).unwrap();
    assert_eq!(status.subscription_id, "sub-1");
    assert_eq!(status.state, SubscriptionState::Active);
    assert_eq!(status.topic, "mock-topic");
    assert_eq!(status.events_processed, 100);
    assert_eq!(status.events_failed, 5);
    assert_eq!(status.lag, Some(0));
    assert_eq!(status.avg_processing_time, Some(50));
    assert_eq!(status.created_at, 1000);
    assert_eq!(status.last_activity, Some(1000));
    assert_eq!(status.current_position, Some("latest".to_string()));
}

#[test]
fn all_streams_are_read_in_global_order() {
    let mut pubsub = MockPubSubAdapter::new();
    pubsub
        .append_events("s1", vec![StoredEvent::new("A", "1".to_string()), StoredEvent::new("B", "2".to_string())])
        .unwrap();
    pubsub.append_events("s2", vec![StoredEvent::new("C", "3".to_string())]).unwrap();
    pubsub.append_events("s1", vec![StoredEvent::new("D", "4".to_string())]).unwrap();
    let types = |st: &tyl_pubsub_port::store::EventStream| -> Vec<String> {
        st.events.iter().map(|e| e.event_type.clone()).collect()
    };
    let all = pubsub.read_all_events(GlobalPosition(0), None).unwrap();
    assert_eq!(all.stream_id, "all");
    assert_eq!(types(&all), vec!["A", "B", "C", "D"]);
    assert_eq!(all.start_position, GlobalPosition(1));
    assert_eq!(all.end_position, GlobalPosition(4));
    assert_eq!(all.current_version, 3);
    assert!(all.is_complete);
    let later = pubsub.read_all_events(GlobalPosition(2), None).unwrap();
    assert_eq!(types(&later), vec!["B", "C", "D"]);
    let one = pubsub.read_all_events(GlobalPosition(3), Some(1)).unwrap();
    assert_eq!(types(&one), vec!["C"]);
    assert!(!one.is_complete);
    assert!(pubsub.read_all_events(GlobalPosition(5), None).unwrap().events.is_empty());
}

#[test]
fn alerts_are_recorded_until_removed() {
    let mut pubsub = MockPubSubAdapter::new();
    let a = pubsub.create_alert("errors").unwrap();
    let b = pubsub.create_alert("latency").unwrap();
    assert_ne!(a, b);
    let statuses = pubsub.get_alert_status().unwrap();
    assert_eq!(statuses.len(), 2);
    assert_eq!(statuses[0].alert_id, a);
    assert_eq!(statuses[0].name, "errors");
    assert!(statuses[0].active);
    assert_eq!(statuses[0].trigger_count, 0);
    assert!(statuses[0].last_triggered.is_none());
    assert_eq!(statuses[1].name, "latency");
    pubsub.remove_alert(&a).unwrap();
    let left = pubsub.get_alert_status().unwrap();
    assert_eq!(left.len(), 1);
    assert_eq!(left[0].alert_id, b);
    assert!(pubsub.remove_alert(&a).is_ok());
    assert_eq!(pubsub.get_alert_status().unwrap().len(), 1);
}

#[test]
fn reset_retry_count_gives_fresh_attempts() {
    let mut pubsub = MockPubSubAdapter::new();
    let mut tired = failed("e1", "t");
    tired.attempt_count = 4;
    let mut other = failed("e2", "t");
    other.attempt_count = 2;
    pubsub.send_to_dlq(tired, FailureReason::TimeoutError).unwrap();
    pubsub.send_to_dlq(other, FailureReason::TimeoutError).unwrap();
    pubsub.reset_retry_count("e1").unwrap();
    let events = pubsub.get_dlq_events("t", None).unwrap();
    assert_eq!(events[0].original_event_id, "e1");
    assert_eq!(events[0].attempt_count, 0);
    assert_eq!(events[1].attempt_count, 2);
    pubsub.reset_retry_count("unknown").unwrap();
    assert_eq!(pubsub.get_dlq_events("t", None).unwrap()[1].attempt_count, 2);
}
