//! Subscription options, filters, backpressure and status.

use vstd::prelude::*;
use crate::config::RetryPolicy;
use crate::dlq::DlqConfig;
use crate::platform::new_uuid_string;
use crate::string_map::StringMap;

verus! {

pub use crate::storage::SubscriptionId;

/// Where to start consuming events.
#[derive(Debug, Clone)]
pub enum StartPosition {
    Earliest,
    Latest,
    /// From a time, in milliseconds since the epoch.
    Timestamp(i64),
    EventId(String),
    Offset(u64),
}

/// Strategies for handling backpressure.
#[derive(Debug, Clone)]
pub enum BackpressureStrategy {
    Block,
    DropOldest,
    DropNewest,
    Custom(String),
}

/// Backpressure configuration; the timeout is in milliseconds.
#[derive(Debug, Clone)]
pub struct BackpressureConfig {
    pub strategy: BackpressureStrategy,
    pub buffer_size: usize,
    pub high_water_mark: usize,
    pub low_water_mark: usize,
    pub timeout: u64,
}

impl Default for BackpressureConfig {
    fn default() -> (r: Self)
        ensures
            r.strategy matches BackpressureStrategy::Block,
            r.buffer_size == 1000,
            r.high_water_mark == 800,
            r.low_water_mark == 200,
            r.timeout == 30_000,
    {
        BackpressureConfig {
            strategy: BackpressureStrategy::Block,
            buffer_size: 1000,
            high_water_mark: 800,
            low_water_mark: 200,
            timeout: 30_000,
        }
    }
}

/// Event filter. Attribute values are JSON texts.
#[derive(Debug, Clone)]
pub struct EventFilter {
    pub event_types: Option<Vec<String>>,
    pub sources: Option<Vec<String>>,
    pub attributes: Option<StringMap<String>>,
    pub expression: Option<String>,
    pub include_matching: bool,
}

impl EventFilter {
    /// A filter on event types.
    pub fn event_types(types: Vec<String>) -> (r: Self)
        ensures
            r.event_types == Some(types),
            r.sources is None,
            r.attributes is None,
            r.expression is None,
            r.include_matching,
    {
        EventFilter {
            event_types: Some(types),
            sources: None,
            attributes: None,
            expression: None,
            include_matching: true,
        }
    }

    /// A filter on sources.
    pub fn sources(sources: Vec<String>) -> (r: Self)
        ensures
            r.event_types is None,
            r.sources == Some(sources),
            r.attributes is None,
            r.expression is None,
            r.include_matching,
    {
        EventFilter {
            event_types: None,
            sources: Some(sources),
            attributes: None,
            expression: None,
            include_matching: true,
        }
    }

    /// A filter with an expression.
    pub fn expression(expr: &str) -> (r: Self)
        ensures
            r.event_types is None,
            r.sources is None,
            r.attributes is None,
            r.expression matches Some(e) && e@ == expr@,
            r.include_matching,
    {
        EventFilter {
            event_types: None,
            sources: None,
            attributes: None,
            expression: Some(expr.to_owned()),
            include_matching: true,
        }
    }
}

/// Subscription options. Metadata values are plain strings.
#[derive(Debug, Clone)]
pub struct SubscriptionOptions {
    pub auto_acknowledge: bool,
    pub max_in_flight: usize,
    pub consumer_group: Option<String>,
    pub start_position: StartPosition,
    pub retry_policy: Option<RetryPolicy>,
    pub dlq_config: Option<DlqConfig>,
    pub preserve_order: bool,
    pub metadata: StringMap<String>,
    pub filter: Option<EventFilter>,
    pub backpressure: BackpressureConfig,
}

/// The options of `SubscriptionOptions::default()` apart from the
/// acknowledgement, in-flight limit, consumer group, start position and
/// ordering.
pub open spec fn options_defaults_except(o: SubscriptionOptions) -> bool {
    &&& o.retry_policy is None
    &&& o.dlq_config is None
    &&& o.metadata.wf()
    &&& o.metadata@ == Map::<Seq<char>, String>::empty()
    &&& o.filter is None
    &&& o.backpressure.strategy matches BackpressureStrategy::Block
    &&& o.backpressure.buffer_size == 1000
    &&& o.backpressure.high_water_mark == 800
    &&& o.backpressure.low_water_mark == 200
    &&& o.backpressure.timeout == 30_000
}

impl Default for SubscriptionOptions {
    fn default() -> (r: Self)
        ensures
            options_defaults_except(r),
            r.auto_acknowledge,
            r.max_in_flight == 10,
            r.consumer_group is None,
            r.start_position matches StartPosition::Latest,
            !r.preserve_order,
    {
        SubscriptionOptions {
            auto_acknowledge: true,
            max_in_flight: 10,
            consumer_group: None,
            start_position: StartPosition::Latest,
            retry_policy: None,
            dlq_config: None,
            preserve_order: false,
            metadata: StringMap::new(),
            filter: None,
            backpressure: BackpressureConfig::default(),
        }
    }
}

impl SubscriptionOptions {
    /// Options for a consumer group, reading from the earliest event.
    pub fn consumer_group(group_name: &str) -> (r: Self)
        ensures
            options_defaults_except(r),
            r.auto_acknowledge,
            r.max_in_flight == 10,
            r.consumer_group matches Some(g) && g@ == group_name@,
            r.start_position matches StartPosition::Earliest,
            !r.preserve_order,
    {
        SubscriptionOptions {
            consumer_group: Some(group_name.to_owned()),
            start_position: StartPosition::Earliest,
            ..Default::default()
        }
    }

    /// Options that preserve event order, one event in flight at a time.
    pub fn ordered() -> (r: Self)
        ensures
            options_defaults_except(r),
            r.auto_acknowledge,
            r.max_in_flight == 1,
            r.consumer_group is None,
            r.start_position matches StartPosition::Latest,
            r.preserve_order,
    {
        SubscriptionOptions { preserve_order: true, max_in_flight: 1, ..Default::default() }
    }

    /// Options for high throughput: 100 events in flight, no ordering.
    pub fn high_throughput() -> (r: Self)
        ensures
            options_defaults_except(r),
            r.auto_acknowledge,
            r.max_in_flight == 100,
            r.consumer_group is None,
            r.start_position matches StartPosition::Latest,
            !r.preserve_order,
    {
        SubscriptionOptions {
            max_in_flight: 100,
            auto_acknowledge: true,
            preserve_order: false,
            ..Default::default()
        }
    }

    /// Add a metadata entry, replacing any earlier value under the key.
    pub fn with_metadata(self, key: &str, value: &str) -> (r: Self)
        requires
            self.metadata.wf(),
        ensures
            r.metadata.wf(),
            r.metadata@ == self.metadata@.insert(key@, r.metadata@[key@]),
            r.metadata@[key@]@ == value@,
            r == (SubscriptionOptions { metadata: r.metadata, ..self }),
    {
        let mut o = self;
        o.metadata.insert(key.to_owned(), value.to_owned());
        o
    }

    /// Set the retry policy.
    pub fn with_retry_policy(self, policy: RetryPolicy) -> (r: Self)
        ensures
            r == (SubscriptionOptions { retry_policy: Some(policy), ..self }),
    {
        SubscriptionOptions { retry_policy: Some(policy), ..self }
    }

    /// Set the dead letter queue configuration.
    pub fn with_dlq_config(self, config: DlqConfig) -> (r: Self)
        ensures
            r == (SubscriptionOptions { dlq_config: Some(config), ..self }),
    {
        SubscriptionOptions { dlq_config: Some(config), ..self }
    }

    /// Set the event filter.
    pub fn with_filter(self, filter: EventFilter) -> (r: Self)
        ensures
            r == (SubscriptionOptions { filter: Some(filter), ..self }),
    {
        SubscriptionOptions { filter: Some(filter), ..self }
    }
}

/// States of a subscription.
#[derive(Debug, Clone, Copy, PartialEq, Eq, Structural)]
pub enum SubscriptionState {
    Active,
    Paused,
    Stopped,
    Failed,
    Creating,
    Destroying,
}

/// Health of a subscription.
#[derive(Debug, Clone, Copy, PartialEq, Eq, Structural)]
pub enum SubscriptionHealth {
    Healthy,
    Degraded,
    Unhealthy,
}

/// Status of a subscription. Times are in milliseconds since the epoch and
/// the average processing time in milliseconds.
#[derive(Debug, Clone)]
pub struct SubscriptionStatus {
    pub subscription_id: SubscriptionId,
    pub state: SubscriptionState,
    pub topic: String,
    pub consumer_group: Option<String>,
    pub created_at: i64,
    pub last_activity: Option<i64>,
    pub current_position: Option<String>,
    pub events_processed: u64,
    pub events_failed: u64,
    pub lag: Option<u64>,
    pub avg_processing_time: Option<u64>,
    pub health: SubscriptionHealth,
}

/// A new unique subscription ID.
pub fn generate_subscription_id() -> (r: SubscriptionId)
    ensures
        r@.len() == 36,
{
    new_uuid_string()
}

} // verus!
