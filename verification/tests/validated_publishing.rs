use tyl_pubsub_port::error::PubSubError;
use tyl_pubsub_port::ports::HandlerError;
use tyl_pubsub_port::validated_adapter::{handler_validation_result, ValidatedMockAdapter};
use tyl_pubsub_port::validation::validate_schema;

const ORDER_PLACED_SCHEMA: &str = r#"{"$schema":"http://json-schema.org/draft-07/schema#","title":"OrderPlaced","type":"object","required":["items","order_id","total","user_id"],"properties":{"items":{"type":"array","items":{"type":"string"}},"order_id":{"type":"string"},"total":{"type":"number","format":"double"},"user_id":{"type":"string"}}}"#;
const ORDER_PLACED_EXAMPLE: &str = r#"{"order_id":"order-123","user_id":"user-456","total":99.99,"items":["item1","item2"]}"#;
const ORDER_PLACED: &str = "order.placed.v1";

const PAYMENT_SCHEMA: &str = r#"{"$schema":"http://json-schema.org/draft-07/schema#","title":"PaymentProcessed","type":"object","required":["amount","order_id","payment_id","status"],"properties":{"amount":{"type":"number","format":"double"},"order_id":{"type":"string"},"payment_id":{"type":"string"},"status":{"type":"string"}}}"#;
const PAYMENT_EXAMPLE: &str = r#"{"payment_id":"payment-789","order_id":"order-123","amount":99.99,"status":"completed"}"#;
const PAYMENT_PROCESSED: &str = "payment.processed.v1";

fn order(order_id: &str, user_id: &str, total: f64, items: &[&str]) -> Result<String, String> {
    let items: Vec<String> = items.iter().map(|i| format!("\"{}\"", i)).collect();
    Ok(format!(
        r#"{{"order_id":"{}","user_id":"{}","total":{},"items":[{}]}}"#,
        order_id,
        user_id,
        total,
        items.join(",")
    ))
}

#[test]
fn test_validated_publish_with_registered_consumers() {
    let mut adapter = ValidatedMockAdapter::new("order-service");
    adapter.simulate_consumer_registration(ORDER_PLACED, "payment-service");
    adapter.simulate_consumer_registration(ORDER_PLACED, "inventory-service");
    adapter.simulate_consumer_registration(ORDER_PLACED, "notification-service");
    let result = adapter.publish_validated(
        ORDER_PLACED,
        ORDER_PLACED_SCHEMA,
        order("order-456", "user-789", 150.0, &["laptop", "mouse"]),
    );
    assert!(result.is_ok());
    assert!(!result.unwrap().is_empty());
}

#[test]
fn test_validated_publish_fails_without_consumers() {
    let mut adapter = ValidatedMockAdapter::new("order-service");
    let result = adapter.publish_validated(ORDER_PLACED, ORDER_PLACED_SCHEMA, Ok(ORDER_PLACED_EXAMPLE.to_string()));
    assert!(result.is_err());
    assert!(result.unwrap_err().message().contains("No consumers registered"));
}

#[test]
fn validation_tests_test_producer_contract_registration() {
    let mut adapter = ValidatedMockAdapter::new("payment-service");
    let result = adapter.register_producer_contract(
        PAYMENT_PROCESSED,
        PAYMENT_SCHEMA.to_string(),
        PAYMENT_EXAMPLE.to_string(),
        "payment-service",
    );
    assert!(result.is_ok());
    let report = adapter.get_contract_report();
    assert_eq!(report.service_name, "payment-service");
    let contract = report.event_contracts.get(PAYMENT_PROCESSED);
    assert!(contract.is_some());
    let contract = contract.unwrap();
    assert_eq!(contract.producer, Some("payment-service".to_string()));
    assert!(contract.has_provider_verification);
}

#[test]
fn validation_tests_test_consumer_contract_registration() {
    let mut adapter = ValidatedMockAdapter::new("notification-service");
    let result = adapter.register_consumer_contract(PAYMENT_PROCESSED, PAYMENT_EXAMPLE.to_string(), "notification-service");
    assert!(result.is_ok());
    let report = adapter.get_contract_report();
    assert_eq!(report.service_name, "notification-service");
    let contract = report.event_contracts.get(PAYMENT_PROCESSED);
    assert!(contract.is_some());
    let contract = contract.unwrap();
    assert!(contract.consumers.contains(&"notification-service".to_string()));
    assert!(contract.has_consumer_expectations);
}

#[test]
fn test_batch_validated_publishing() {
    let mut adapter = ValidatedMockAdapter::new("order-service");
    adapter.simulate_consumer_registration(ORDER_PLACED, "payment-service");
    adapter.simulate_consumer_registration(PAYMENT_PROCESSED, "notification-service");
    let orders = vec![
        order("order-001", "user-001", 25.99, &["book"]),
        order("order-002", "user-002", 45.5, &["headphones"]),
    ];
    let result = adapter.publish_validated_batch(ORDER_PLACED, ORDER_PLACED_SCHEMA, orders);
    assert!(result.is_ok());
    let event_ids = result.unwrap();
    assert_eq!(event_ids.len(), 2);
}

#[test]
fn batch_stops_at_first_refused_event() {
    let mut adapter = ValidatedMockAdapter::new("order-service");
    adapter.simulate_consumer_registration(ORDER_PLACED, "payment-service");
    let orders = vec![
        order("order-001", "user-001", 25.99, &["book"]),
        Ok(r#"{"order_id":"x"}"#.to_string()),
        order("order-003", "user-003", 1.0, &[]),
    ];
    let result = adapter.publish_validated_batch(ORDER_PLACED, ORDER_PLACED_SCHEMA, orders);
    assert!(result.is_err());
    assert_eq!(adapter.inner.event_count(ORDER_PLACED), 1);
}

#[test]
fn test_schema_validation() {
    let mut adapter = ValidatedMockAdapter::new("test-service");
    adapter.simulate_consumer_registration(ORDER_PLACED, "test-consumer");
    assert!(validate_schema(ORDER_PLACED_SCHEMA, ORDER_PLACED_EXAMPLE).is_ok());
    let result = adapter.publish_validated(ORDER_PLACED, ORDER_PLACED_SCHEMA, Ok(ORDER_PLACED_EXAMPLE.to_string()));
    assert!(result.is_ok());
}

#[test]
fn validation_tests_test_contract_report_generation() {
    let mut adapter = ValidatedMockAdapter::new("multi-service");
    adapter.simulate_consumer_registration(ORDER_PLACED, "payment-service");
    adapter.simulate_consumer_registration(ORDER_PLACED, "inventory-service");
    adapter.simulate_producer_registration(PAYMENT_PROCESSED, "payment-service");
    let _ = adapter.register_producer_contract(
        ORDER_PLACED,
        ORDER_PLACED_SCHEMA.to_string(),
        ORDER_PLACED_EXAMPLE.to_string(),
        "multi-service",
    );
    let _ = adapter.register_consumer_contract(PAYMENT_PROCESSED, PAYMENT_EXAMPLE.to_string(), "multi-service");
    let report = adapter.get_contract_report();
    assert_eq!(report.service_name, "multi-service");
    assert!(!report.event_contracts.is_empty());
    assert!(report.event_contracts.contains_key(ORDER_PLACED));
    assert!(report.event_contracts.contains_key(PAYMENT_PROCESSED));
}

#[test]
fn validation_tests_test_contract_clearing() {
    let mut adapter = ValidatedMockAdapter::new("test-service");
    adapter.simulate_consumer_registration(ORDER_PLACED, "consumer-1");
    adapter.simulate_producer_registration(PAYMENT_PROCESSED, "producer-1");
    let report = adapter.get_contract_report();
    assert!(!report.event_contracts.is_empty());
    adapter.clear_contracts();
    let report = adapter.get_contract_report();
    assert!(report.event_contracts.is_empty());
    let result = adapter.publish_validated(ORDER_PLACED, ORDER_PLACED_SCHEMA, Ok(ORDER_PLACED_EXAMPLE.to_string()));
    assert!(result.is_err());
}

#[test]
fn test_cross_service_compatibility() {
    let mut producer = ValidatedMockAdapter::new("order-service");
    producer.simulate_consumer_registration(ORDER_PLACED, "payment-service");
    producer.simulate_consumer_registration(ORDER_PLACED, "inventory-service");
    let mut consumer = ValidatedMockAdapter::new("payment-service");
    let _ = consumer.register_consumer_contract(ORDER_PLACED, ORDER_PLACED_EXAMPLE.to_string(), "payment-service");
    let result = producer.publish_validated(
        ORDER_PLACED,
        ORDER_PLACED_SCHEMA,
        order("cross-service-001", "user-cross-001", 75.25, &["widget"]),
    );
    assert!(result.is_ok());
    assert!(producer.get_contract_report().event_contracts.contains_key(ORDER_PLACED));
    assert!(consumer.get_contract_report().event_contracts.contains_key(ORDER_PLACED));
}

#[test]
fn validated_subscription_records_consumer() {
    let mut adapter = ValidatedMockAdapter::new("svc");
    let id = adapter
        .subscribe_validated(ORDER_PLACED, ORDER_PLACED_EXAMPLE.to_string(), "svc", "Handler")
        .unwrap();
    assert_eq!(id.len(), 36);
    let consumers = adapter.validator.get_consumers(ORDER_PLACED).unwrap();
    assert_eq!(consumers, &vec!["svc".to_string()]);
    assert_eq!(adapter.inner.storage.subscriptions.get(&id).unwrap().topic, ORDER_PLACED);
    assert!(adapter.unsubscribe(&id).is_ok());
}

#[test]
fn validated_handling_reports_invalid_format() {
    assert!(handler_validation_result(Ok(())).is_ok());
    match handler_validation_result(Err(PubSubError::validation("schema", "bad"))) {
        Err(HandlerError::InvalidEventFormat { details }) => {
            assert_eq!(details, "Validation error in field 'schema': bad")
        }
        other => panic!("unexpected {:?}", other),
    }
}
