use tyl_pubsub_port::validation::PactEventValidator;

/// An order event, written out as the event-definition macro defines it
/// when schema validation is not enabled.
#[derive(Debug, Clone)]
pub struct OrderCreated {
    pub order_id: String,
    pub customer_id: String,
    pub amount: f64,
}

impl OrderCreated {
    pub fn event_type(&self) -> &'static str {
        "ecommerce.order.created.v1"
    }

    pub fn example() -> Self {
        OrderCreated {
            order_id: "order-123".to_string(),
            customer_id: "customer-456".to_string(),
            amount: 199.99,
        }
    }
}

impl PactEventValidator for OrderCreated {
    fn is_pact_event(&self) -> bool {
        true
    }
}

#[derive(Debug, Clone)]
pub struct UserRegistered {
    pub user_id: String,
    pub email: String,
    pub registration_date: String,
}

impl UserRegistered {
    pub fn event_type(&self) -> &'static str {
        "users.user.registered.v1"
    }

    pub fn example() -> Self {
        UserRegistered {
            user_id: "user-789".to_string(),
            email: "user@example.com".to_string(),
            registration_date: "2024-01-15".to_string(),
        }
    }
}

impl PactEventValidator for UserRegistered {
    fn is_pact_event(&self) -> bool {
        true
    }
}

#[derive(Debug, Clone)]
pub struct BasicEvent {
    pub id: String,
    pub message: String,
}

impl BasicEvent {
    pub fn event_type(&self) -> &'static str {
        "basic.event.v1"
    }

    pub fn example() -> Self {
        BasicEvent { id: "basic-123".to_string(), message: "Basic event".to_string() }
    }
}

struct PlainPayload;

impl PactEventValidator for PlainPayload {}

#[test]
fn test_events_have_basic_functionality_without_validation() {
    let order = OrderCreated::example();
    let user = UserRegistered::example();

    assert_eq!(order.event_type(), "ecommerce.order.created.v1");
    assert_eq!(user.event_type(), "users.user.registered.v1");

    assert_eq!(order.order_id, "order-123");
    assert_eq!(user.email, "user@example.com");
}

#[test]
fn test_basic_event_without_validation() {
    let event = BasicEvent::example();
    assert_eq!(event.event_type(), "basic.event.v1");
    assert_eq!(event.id, "basic-123");
}

#[test]
fn contract_events_are_recognised_and_plain_payloads_are_not() {
    assert!(OrderCreated::example().is_pact_event());
    assert!(OrderCreated::example().validate_pact_schema().is_ok());
    assert!(!PlainPayload.is_pact_event());
    assert!(PlainPayload.validate_pact_schema().is_ok());
}
