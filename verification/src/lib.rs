//! Event-driven publish/subscribe port: event publishing, subscriptions,
//! a dead letter queue, retry rules, an event store with streams and
//! snapshots, monitoring data, and contract validation between producers
//! and consumers, together with an in-memory adapter that implements them.
//!
//! Times are carried as milliseconds since the Unix epoch (`i64`), durations
//! as milliseconds (`u64` or `i64`), and JSON documents as their compact text.

pub mod store;
pub mod string_map;
pub mod error;
pub mod platform;
pub mod event;
pub mod dlq;
pub mod monitoring;
pub mod storage;
pub mod dlq_manager;
pub mod config;
pub mod ports;
pub mod subscription;
pub mod adapter;
pub mod validation;
pub mod validated_adapter;
pub mod laws;

pub use adapter::MockPubSubAdapter;
pub use config::{BackoffStrategy, PubSubConfig, RetryPolicy};
pub use dlq::{DlqConfig, DlqStats, FailedEvent, FailureReason};
pub use error::{PubSubError, PubSubResult};
pub use event::{
    generate_event_id, generate_transaction_id, Event, EventId, EventMetadata, TopicEvent,
    TransactionId,
};
pub use ports::{DlqRetryResult, ExportFormat, HandlerError, HandlerInfo, HandlerResult};
pub use storage::SubscriptionId;
pub use store::{EventStream, GlobalPosition, Snapshot, StoredEvent};
pub use subscription::{generate_subscription_id, SubscriptionOptions};
pub use validated_adapter::ValidatedMockAdapter;
pub use validation::{ContractValidator, PactEventValidator, ValidationError, ValidationResult};
