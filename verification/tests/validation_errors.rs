use tyl_pubsub_port::error::{PubSubError, PubSubResult};
use tyl_pubsub_port::validation::ValidationError;

#[test]
fn test_validation_error_conversion() {
    let validation_error = ValidationError::NoConsumersRegistered("test.event".to_string());
    let tyl_error: PubSubError = validation_error.into();

    assert!(tyl_error.message().contains("No consumers registered"));
}

#[test]
fn test_schema_validation_error_with_multiple_errors() {
    let errors = vec![
        "Field 'id' is required".to_string(),
        "Field 'value' must be positive".to_string(),
    ];
    let validation_error = ValidationError::SchemaValidationFailed { errors };
    let tyl_error: PubSubError = validation_error.into();

    let error_message = tyl_error.message();
    assert!(error_message.contains("Field 'id' is required"));
    assert!(error_message.contains("Field 'value' must be positive"));
}

#[test]
fn test_version_mismatch_error() {
    let validation_error = ValidationError::VersionMismatch {
        expected: "v2".to_string(),
        found: "v1".to_string(),
    };
    let tyl_error: PubSubError = validation_error.into();

    let error_message = tyl_error.message();
    assert!(error_message.contains("expected v2"));
    assert!(error_message.contains("found v1"));
}

#[test]
fn test_pubsub_result_type_alias() {
    let result: PubSubResult<String> = Ok("test".to_string());
    assert!(result.is_ok());
    assert_eq!(result.unwrap(), "test");
}

#[test]
fn test_error_integration() {
    let error = PubSubError::validation("topic", "invalid topic name");
    let result: PubSubResult<()> = Err(error);
    assert!(result.is_err());
}

#[test]
fn every_contract_error_converts_with_its_field_and_text() {
    let e: PubSubError = ValidationError::NoConsumersRegistered("a.b".to_string()).into();
    assert_eq!(
        e.message(),
        "Validation error in field 'contract': No consumers registered for event type: a.b"
    );
    let e: PubSubError = ValidationError::SchemaCompilationFailed("bad".to_string()).into();
    assert_eq!(e.message(), "Validation error in field 'schema': Schema compilation failed: bad");
    let e: PubSubError = ValidationError::SchemaValidationFailed {
        errors: vec!["x".to_string(), "y".to_string(), "z".to_string()],
    }
    .into();
    assert_eq!(e.message(), "Validation error in field 'schema': Schema validation failed: x, y, z");
    let e: PubSubError = ValidationError::SerializationFailed("oops".to_string()).into();
    assert_eq!(e.message(), "Serialization error: oops");
    let e: PubSubError = ValidationError::ContractIncompatible("m".to_string()).into();
    assert_eq!(e.message(), "Validation error in field 'contract': Contract incompatible: m");
    let e: PubSubError = ValidationError::ProducerNotRegistered("t".to_string()).into();
    assert_eq!(
        e.message(),
        "Validation error in field 'contract': Producer not registered for event type: t"
    );
    let e: PubSubError =
        ValidationError::ConsumerValidationFailed { message: "c".to_string() }.into();
    assert_eq!(
        e.message(),
        "Validation error in field 'consumer': Consumer contract validation failed: c"
    );
    let e: PubSubError =
        ValidationError::ProducerValidationFailed { message: "p".to_string() }.into();
    assert_eq!(
        e.message(),
        "Validation error in field 'producer': Producer contract validation failed: p"
    );
    let e: PubSubError = ValidationError::PactBrokerFailed("down".to_string()).into();
    assert_eq!(e.message(), "Network error: Pact broker communication failed: down");
    let e: PubSubError = ValidationError::VersionMismatch {
        expected: "v2".to_string(),
        found: "v1".to_string(),
    }
    .into();
    assert_eq!(
        e.message(),
        "Validation error in field 'version': Contract version mismatch: expected v2, found v1"
    );
}

#[test]
fn contract_error_texts() {
    let e = ValidationError::SchemaValidationFailed { errors: vec![] };
    assert_eq!(e.message(), "Schema validation failed: ");
    let e = ValidationError::SchemaValidationFailed { errors: vec!["only".to_string()] };
    assert_eq!(e.message(), "Schema validation failed: only");
}

#[test]
fn port_error_texts() {
    assert_eq!(PubSubError::network("x").message(), "Network error: x");
    assert_eq!(PubSubError::not_found("subscription", "42").message(), "Not found: subscription '42'");
    assert_eq!(PubSubError::configuration("c").message(), "Configuration error: c");
    assert_eq!(PubSubError::serialization("s").message(), "Serialization error: s");
}
