use tyl_pubsub_port::error::PubSubError;
use tyl_pubsub_port::validated_adapter::ValidatedMockAdapter;

const SCHEMA: &str = r#"{"$schema":"http://json-schema.org/draft-07/schema#","title":"TestEvent","type":"object","required":["id","name","value"],"properties":{"id":{"type":"string"},"name":{"type":"string"},"value":{"type":"integer","format":"int32"}}}"#;
const EXAMPLE: &str = r#"{"id":"test-123","name":"Test Event","value":42}"#;
const EVENT_TYPE: &str = "test.event.v1";

#[test]
fn test_basic_functionality() {
    let adapter = ValidatedMockAdapter::reliable("test-service");
    assert_eq!(adapter.service_name(), "test-service");
}

#[test]
fn test_validated_publish_success() {
    let mut adapter = ValidatedMockAdapter::reliable("test-service");
    adapter.simulate_consumer_registration("test.event.v1", "consumer-service");
    let event = r#"{"id":"event-123","name":"Test","value":100}"#.to_string();
    let result = adapter.publish_validated(EVENT_TYPE, SCHEMA, Ok(event));
    assert!(result.is_ok());
    assert_eq!(adapter.inner.event_count(EVENT_TYPE), 1);
}

#[test]
fn test_validated_publish_fails_no_consumers() {
    let mut adapter = ValidatedMockAdapter::reliable("test-service");
    let result = adapter.publish_validated(EVENT_TYPE, SCHEMA, Ok(EXAMPLE.to_string()));
    assert!(result.is_err());
    assert_eq!(adapter.inner.event_count(EVENT_TYPE), 0);
    assert!(result.unwrap_err().message().contains("No consumers registered"));
}

#[test]
fn invalid_event_is_refused_before_publication() {
    let mut adapter = ValidatedMockAdapter::reliable("svc");
    adapter.simulate_consumer_registration(EVENT_TYPE, "c");
    let result = adapter.publish_validated(EVENT_TYPE, SCHEMA, Ok(r#"{"id":"x"}"#.to_string()));
    match result {
        Err(PubSubError::Validation { field, .. }) => assert_eq!(field, "schema"),
        other => panic!("unexpected {:?}", other),
    }
    assert_eq!(adapter.inner.event_count(EVENT_TYPE), 0);
}

#[test]
fn validated_adapter_test_producer_contract_registration() {
    let mut adapter = ValidatedMockAdapter::reliable("producer-service");
    let result = adapter.register_producer_contract(
        EVENT_TYPE,
        SCHEMA.to_string(),
        EXAMPLE.to_string(),
        "producer-service",
    );
    assert!(result.is_ok());
    let report = adapter.get_contract_report();
    assert_eq!(report.service_name, "producer-service");
}

#[test]
fn validated_adapter_test_consumer_contract_registration() {
    let mut adapter = ValidatedMockAdapter::reliable("consumer-service");
    let result = adapter.register_consumer_contract(EVENT_TYPE, EXAMPLE.to_string(), "consumer-service");
    assert!(result.is_ok());
    let report = adapter.get_contract_report();
    assert_eq!(report.service_name, "consumer-service");
    assert!(report.event_contracts.get(EVENT_TYPE).unwrap().has_consumer_expectations);
}

#[test]
fn validated_adapter_test_contract_clearing() {
    let mut adapter = ValidatedMockAdapter::reliable("test-service");
    adapter.simulate_consumer_registration("test.event.v1", "consumer-service");
    adapter.simulate_producer_registration("test.event.v1", "producer-service");
    let report = adapter.get_contract_report();
    assert!(!report.event_contracts.is_empty());
    adapter.clear_contracts();
    let report = adapter.get_contract_report();
    assert!(report.event_contracts.is_empty());
}

#[test]
fn contract_event_publisher_checks_kind_and_schema() {
    let mut adapter = ValidatedMockAdapter::reliable("svc");
    adapter.simulate_consumer_registration(EVENT_TYPE, "c");
    let refused = adapter.publish_pact("topic", "app::Plain", false, Ok(()), EVENT_TYPE, SCHEMA, Ok(EXAMPLE.to_string()));
    match refused {
        Err(PubSubError::Validation { field, message }) => {
            assert_eq!(field, "pact_event");
            assert_eq!(
                message,
                "Event of type 'app::Plain' is not a pact event. Use pact_event! macro to define your events."
            );
        }
        other => panic!("unexpected {:?}", other),
    }
    let schema_failed = adapter.publish_pact(
        "topic",
        "app::E",
        true,
        Err(PubSubError::validation("schema", "bad")),
        EVENT_TYPE,
        SCHEMA,
        Ok(EXAMPLE.to_string()),
    );
    assert!(matches!(schema_failed, Err(PubSubError::Validation { .. })));
    let id = adapter
        .publish_pact_with_key("topic", "k", "app::E", true, Ok(()), EVENT_TYPE, SCHEMA, Ok(EXAMPLE.to_string()))
        .unwrap();
    assert_eq!(adapter.inner.event_count("topic"), 1);
    assert_eq!(adapter.inner.storage.get_events("topic")[0].id, id);
}

#[test]
fn plain_publishing_is_refused() {
    let adapter = ValidatedMockAdapter::reliable("svc");
    let e = adapter.publish("t", "app::Plain").unwrap_err();
    assert!(e.message().contains("Event type: 'app::Plain'"));
    assert!(adapter.publish_with_key("t", "k", "X").unwrap_err().message().contains("publish_with_key()"));
    assert!(adapter.publish_batch("X").unwrap_err().message().contains("batch operations"));
    assert!(adapter.publish_transactional("tx", "X").unwrap_err().message().contains("transactional operations"));
    assert!(adapter.publish_event("X").unwrap_err().message().contains("Event<T>"));
    assert!(adapter.get_published_events().is_empty());
}
