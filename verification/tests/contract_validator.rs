use tyl_pubsub_port::error::PubSubError;
use tyl_pubsub_port::validation::{
    generate_consumer_expectation, generate_provider_verification, validate_instance,
    validate_schema, ContractValidator,
};

/// The JSON Schema of the test event {id: string, name: string, value: i32}.
const TEST_EVENT_SCHEMA: &str = r#"{"$schema":"http://json-schema.org/draft-07/schema#","title":"TestEvent","type":"object","required":["id","name","value"],"properties":{"id":{"type":"string"},"name":{"type":"string"},"value":{"type":"integer","format":"int32"}}}"#;

/// The example test event, serialized.
const TEST_EVENT_EXAMPLE: &str = r#"{"id":"test-123","name":"Test Event","value":42}"#;

const TEST_EVENT_TYPE: &str = "test.event.v1";

fn example_instance() -> Result<String, String> {
    Ok(TEST_EVENT_EXAMPLE.to_string())
}

#[test]
fn test_consumer_registration() {
    let mut validator = ContractValidator::new("test-service");
    validator.register_consumer("test.event", "consumer-service");

    let consumers = validator.get_consumers("test.event").unwrap();
    assert!(consumers.contains(&"consumer-service".to_string()));
}

#[test]
fn test_producer_registration() {
    let mut validator = ContractValidator::new("test-service");
    validator.register_producer("test.event", "producer-service");

    let producer = validator.get_producer("test.event").unwrap();
    assert_eq!(producer, "producer-service");
}

#[test]
fn test_consumer_compatibility_success() {
    let mut validator = ContractValidator::new("test-service");
    validator.register_consumer("test.event.v1", "consumer-service");

    let result =
        validator.validate_consumer_compatibility(TEST_EVENT_TYPE, TEST_EVENT_SCHEMA, &example_instance());
    assert!(result.is_ok());
}

#[test]
fn test_consumer_compatibility_fails_no_consumers() {
    let validator = ContractValidator::new("test-service");

    let result =
        validator.validate_consumer_compatibility(TEST_EVENT_TYPE, TEST_EVENT_SCHEMA, &example_instance());
    assert!(result.is_err());

    if let Err(tyl_error) = result {
        assert!(tyl_error.message().contains("No consumers registered"));
    }
}

#[test]
fn validator_test_contract_report_generation() {
    let mut validator = ContractValidator::new("test-service");
    validator.register_consumer("test.event.v1", "consumer1");
    validator.register_consumer("test.event.v1", "consumer2");
    validator.register_producer("test.event.v1", "producer1");

    let report = validator.generate_contract_report();
    assert_eq!(report.service_name, "test-service");
    assert_eq!(report.event_contracts.len(), 1);

    let event_contract = report.event_contracts.get("test.event.v1").unwrap();
    assert_eq!(event_contract.consumers.len(), 2);
    assert_eq!(event_contract.producer, Some("producer1".to_string()));
}

#[test]
fn test_consumer_expectation_registration() {
    let mut validator = ContractValidator::new("test-service");

    validator.register_consumer_expectation(TEST_EVENT_TYPE, TEST_EVENT_EXAMPLE.to_string(), "consumer-service");

    let expectations = validator.get_consumer_expectations("test.event.v1").unwrap();
    assert_eq!(expectations.len(), 1);
    assert_eq!(expectations[0].description, "expects test.event.v1");
}

#[test]
fn test_provider_verification_registration() {
    let mut validator = ContractValidator::new("test-service");
    let verification = generate_provider_verification(
        TEST_EVENT_TYPE,
        TEST_EVENT_SCHEMA.to_string(),
        TEST_EVENT_EXAMPLE.to_string(),
    );

    validator.register_provider_verification(verification, "producer-service");

    let verification = validator.get_provider_verification("test.event.v1").unwrap();
    assert_eq!(verification.event_type, "test.event.v1");
}

#[test]
fn test_valid_event_validation() {
    assert!(validate_schema(TEST_EVENT_SCHEMA, TEST_EVENT_EXAMPLE).is_ok());
}

#[test]
fn test_consumer_expectation_generation() {
    let expectation = generate_consumer_expectation(TEST_EVENT_TYPE, TEST_EVENT_EXAMPLE.to_string());

    assert_eq!(expectation.description, "expects test.event.v1");
    assert!(expectation.provider_state.is_some());
    let contents: serde_json::Value = serde_json::from_str(&expectation.contents).unwrap();
    assert!(contents.is_object());
}

#[test]
fn test_provider_verification_generation() {
    let verification = generate_provider_verification(
        TEST_EVENT_TYPE,
        TEST_EVENT_SCHEMA.to_string(),
        TEST_EVENT_EXAMPLE.to_string(),
    );

    assert_eq!(verification.event_type, "test.event.v1");
    let example: serde_json::Value = serde_json::from_str(&verification.example).unwrap();
    assert!(example.is_object());
}

#[test]
fn expectation_names_provider_state() {
    let expectation = generate_consumer_expectation("orders.v1", "{}".to_string());
    assert_eq!(expectation.provider_state, Some("orders.v1 is available".to_string()));
    assert_eq!(expectation.contents, "{}");
}

#[test]
fn invalid_instance_is_rejected_with_schema_errors() {
    let result = validate_schema(TEST_EVENT_SCHEMA, r#"{"id":"x","name":"n"}"#);
    match result {
        Err(PubSubError::Validation { field, message }) => {
            assert_eq!(field, "schema");
            assert!(message.starts_with("Schema validation failed: "));
            assert!(message.contains("value"));
        }
        other => panic!("unexpected {:?}", other),
    }
}

#[test]
fn uncompilable_schema_is_reported() {
    let result = validate_schema(r#"{"type": 12}"#, "{}");
    match result {
        Err(PubSubError::Validation { field, message }) => {
            assert_eq!(field, "schema");
            assert!(message.starts_with("Schema compilation failed: "));
        }
        other => panic!("unexpected {:?}", other),
    }
}

#[test]
fn unserializable_instance_is_a_serialization_error() {
    let result = validate_instance(TEST_EVENT_SCHEMA, &Err("no JSON".to_string()));
    match result {
        Err(PubSubError::Serialization { message }) => assert_eq!(message, "no JSON"),
        other => panic!("unexpected {:?}", other),
    }
}

#[test]
fn consumer_listed_once_when_registered_twice() {
    let mut validator = ContractValidator::new("svc");
    validator.register_consumer("t", "c");
    validator.register_consumer("t", "c");
    validator.register_consumer("t", "d");
    assert_eq!(validator.get_consumers("t").unwrap(), &vec!["c".to_string(), "d".to_string()]);
}

#[test]
fn schema_mismatch_with_provider_is_incompatible() {
    let mut validator = ContractValidator::new("svc");
    validator.register_consumer(TEST_EVENT_TYPE, "consumer");
    let verification = generate_provider_verification(
        TEST_EVENT_TYPE,
        r#"{"type":"object"}"#.to_string(),
        TEST_EVENT_EXAMPLE.to_string(),
    );
    validator.register_provider_verification(verification, "producer");
    let result =
        validator.validate_consumer_compatibility(TEST_EVENT_TYPE, TEST_EVENT_SCHEMA, &example_instance());
    match result {
        Err(e) => assert_eq!(
            e.message(),
            "Validation error in field 'contract': Contract incompatible: Schema structures are incompatible"
        ),
        Ok(()) => panic!("expected an incompatibility"),
    }
}

#[test]
fn same_schema_with_different_layout_is_compatible() {
    let mut validator = ContractValidator::new("svc");
    validator.register_consumer(TEST_EVENT_TYPE, "consumer");
    let spaced = TEST_EVENT_SCHEMA.replace(",", ", ");
    let verification =
        generate_provider_verification(TEST_EVENT_TYPE, spaced, TEST_EVENT_EXAMPLE.to_string());
    validator.register_provider_verification(verification, "producer");
    assert!(validator
        .validate_consumer_compatibility(TEST_EVENT_TYPE, TEST_EVENT_SCHEMA, &example_instance())
        .is_ok());
}

#[test]
fn report_covers_consumer_and_producer_only_types() {
    let mut validator = ContractValidator::new("svc");
    validator.register_consumer("a", "c1");
    validator.register_producer("b", "p1");
    validator.register_consumer_expectation("a", "{}".to_string(), "c2");
    let report = validator.generate_contract_report();
    assert_eq!(report.event_contracts.len(), 2);
    let a = report.event_contracts.get("a").unwrap();
    assert_eq!(a.consumers, vec!["c1".to_string(), "c2".to_string()]);
    assert_eq!(a.producer, None);
    assert!(a.has_consumer_expectations);
    assert!(!a.has_provider_verification);
    let b = report.event_contracts.get("b").unwrap();
    assert!(b.consumers.is_empty());
    assert_eq!(b.producer, Some("p1".to_string()));
}

#[test]
fn clearing_forgets_registrations() {
    let mut validator = ContractValidator::new("svc");
    validator.register_consumer("a", "c1");
    validator.register_producer("a", "p1");
    validator.clear();
    assert!(validator.get_consumers("a").is_none());
    assert!(validator.get_producer("a").is_none());
    assert_eq!(validator.generate_contract_report().event_contracts.len(), 0);
    assert_eq!(validator.service_name, "svc");
}
