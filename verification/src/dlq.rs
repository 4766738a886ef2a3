//! Failed events and the data of the dead letter queue.

use vstd::prelude::*;
use crate::event::{same_metadata, EventId, EventMetadata};
use crate::platform::now_millis;
use crate::store::{clamp_i64, clone_opt_string, elapsed_millis};
use crate::string_map::StringMap;

verus! {

/// Why an event failed processing.
#[derive(Debug)]
pub enum FailureReason {
    /// The handler returned an error.
    HandlerError { error: String },
    /// The payload could not be deserialized.
    SerializationError { error: String },
    /// The handler took too long.
    TimeoutError,
    /// Network issues prevented processing.
    NetworkError { error: String },
    /// The event was retried the maximum number of times.
    MaxRetriesExceeded,
    /// The event format was invalid or corrupted.
    InvalidEventFormat { details: String },
    /// A dependency was unavailable.
    DependencyUnavailable { service: String },
    /// Resources ran out.
    ResourceExhausted { resource: String },
    /// Authentication or authorization failed.
    AuthenticationError { details: String },
    /// Business validation failed.
    ValidationError { field: String, message: String },
    /// Any other reason.
    Custom { reason: String },
}

impl Clone for FailureReason {
    fn clone(&self) -> (r: Self)
        ensures
            r == *self,
    {
        match self {
            FailureReason::HandlerError { error } => FailureReason::HandlerError {
                error: error.clone(),
            },
            FailureReason::SerializationError { error } => FailureReason::SerializationError {
                error: error.clone(),
            },
            FailureReason::TimeoutError => FailureReason::TimeoutError,
            FailureReason::NetworkError { error } => FailureReason::NetworkError {
                error: error.clone(),
            },
            FailureReason::MaxRetriesExceeded => FailureReason::MaxRetriesExceeded,
            FailureReason::InvalidEventFormat { details } => FailureReason::InvalidEventFormat {
                details: details.clone(),
            },
            FailureReason::DependencyUnavailable { service } => FailureReason::DependencyUnavailable {
                service: service.clone(),
            },
            FailureReason::ResourceExhausted { resource } => FailureReason::ResourceExhausted {
                resource: resource.clone(),
            },
            FailureReason::AuthenticationError { details } => FailureReason::AuthenticationError {
                details: details.clone(),
            },
            FailureReason::ValidationError { field, message } => FailureReason::ValidationError {
                field: field.clone(),
                message: message.clone(),
            },
            FailureReason::Custom { reason } => FailureReason::Custom { reason: reason.clone() },
        }
    }
}

impl FailureReason {
    /// The human-readable description of the reason.
    pub open spec fn spec_description(&self) -> Seq<char> {
        match self {
            FailureReason::HandlerError { error } => "Handler error: "@ + error@,
            FailureReason::SerializationError { error } => "Serialization error: "@ + error@,
            FailureReason::TimeoutError => "Operation timed out"@,
            FailureReason::NetworkError { error } => "Network error: "@ + error@,
            FailureReason::MaxRetriesExceeded => "Maximum retry attempts exceeded"@,
            FailureReason::InvalidEventFormat { details } => "Invalid event format: "@ + details@,
            FailureReason::DependencyUnavailable { service } => "Dependency unavailable: "@
                + service@,
            FailureReason::ResourceExhausted { resource } => "Resource exhausted: "@ + resource@,
            FailureReason::AuthenticationError { details } => "Authentication error: "@
                + details@,
            FailureReason::ValidationError { field, message } => "Validation error in field '"@
                + field@ + "': "@ + message@,
            FailureReason::Custom { reason } => "Custom error: "@ + reason@,
        }
    }

    /// The human-readable description of the reason.
    pub fn description(&self) -> (r: String)
        ensures
            r@ == self.spec_description(),
    {
        match self {
            FailureReason::HandlerError { error } => {
                let mut s = "Handler error: ".to_owned();
                s.append(error.as_str());
                s
            },
            FailureReason::SerializationError { error } => {
                let mut s = "Serialization error: ".to_owned();
                s.append(error.as_str());
                s
            },
            FailureReason::TimeoutError => "Operation timed out".to_owned(),
            FailureReason::NetworkError { error } => {
                let mut s = "Network error: ".to_owned();
                s.append(error.as_str());
                s
            },
            FailureReason::MaxRetriesExceeded => "Maximum retry attempts exceeded".to_owned(),
            FailureReason::InvalidEventFormat { details } => {
                let mut s = "Invalid event format: ".to_owned();
                s.append(details.as_str());
                s
            },
            FailureReason::DependencyUnavailable { service } => {
                let mut s = "Dependency unavailable: ".to_owned();
                s.append(service.as_str());
                s
            },
            FailureReason::ResourceExhausted { resource } => {
                let mut s = "Resource exhausted: ".to_owned();
                s.append(resource.as_str());
                s
            },
            FailureReason::AuthenticationError { details } => {
                let mut s = "Authentication error: ".to_owned();
                s.append(details.as_str());
                s
            },
            FailureReason::ValidationError { field, message } => {
                let mut s = "Validation error in field '".to_owned();
                s.append(field.as_str());
                s.append("': ");
                s.append(message.as_str());
                s
            },
            FailureReason::Custom { reason } => {
                let mut s = "Custom error: ".to_owned();
                s.append(reason.as_str());
                s
            },
        }
    }
}

/// An event that failed processing, with its failure context. The payload
/// and the context values are JSON texts.
#[derive(Debug, Clone)]
pub struct FailedEvent {
    /// The ID of the event that failed.
    pub original_event_id: EventId,
    /// The topic the event was published to.
    pub topic: String,
    /// The payload as a JSON text.
    pub payload: String,
    /// Why the event failed most recently.
    pub failure_reason: FailureReason,
    /// How many times the event has been attempted.
    pub attempt_count: u32,
    /// When the event first failed, in milliseconds since the epoch.
    pub first_failure_time: i64,
    /// When the event last failed, in milliseconds since the epoch.
    pub last_failure_time: i64,
    /// The original event metadata.
    pub metadata: EventMetadata,
    /// Detailed error information.
    pub error_details: Option<String>,
    /// The handler that failed.
    pub failed_handler: Option<String>,
    /// Additional context, each value a JSON text.
    pub failure_context: StringMap<String>,
}

/// `a` holds the same data as `b`.
pub open spec fn same_failed_event(a: FailedEvent, b: FailedEvent) -> bool {
    &&& a.original_event_id == b.original_event_id
    &&& a.topic == b.topic
    &&& a.payload == b.payload
    &&& a.failure_reason == b.failure_reason
    &&& a.attempt_count == b.attempt_count
    &&& a.first_failure_time == b.first_failure_time
    &&& a.last_failure_time == b.last_failure_time
    &&& same_metadata(a.metadata, b.metadata)
    &&& a.error_details == b.error_details
    &&& a.failed_handler == b.failed_handler
    &&& a.failure_context.key_seq() == b.failure_context.key_seq()
    &&& a.failure_context.value_seq() == b.failure_context.value_seq()
    &&& a.failure_context@ == b.failure_context@
}

impl FailedEvent {
    /// A copy of the failed event.
    pub fn copy(&self) -> (r: Self)
        ensures
            same_failed_event(r, *self),
    {
        FailedEvent {
            original_event_id: self.original_event_id.clone(),
            topic: self.topic.clone(),
            payload: self.payload.clone(),
            failure_reason: self.failure_reason.clone(),
            attempt_count: self.attempt_count,
            first_failure_time: self.first_failure_time,
            last_failure_time: self.last_failure_time,
            metadata: self.metadata.copy(),
            error_details: clone_opt_string(&self.error_details),
            failed_handler: clone_opt_string(&self.failed_handler),
            failure_context: self.failure_context.clone_strings(),
        }
    }

    /// A failed event with one attempt, failing now for the first time.
    pub fn new(
        original_event_id: EventId,
        topic: &str,
        payload: String,
        failure_reason: FailureReason,
        metadata: EventMetadata,
    ) -> (r: Self)
        ensures
            r.original_event_id == original_event_id,
            r.topic@ == topic@,
            r.payload == payload,
            r.failure_reason == failure_reason,
            r.attempt_count == 1,
            r.first_failure_time == r.last_failure_time,
            r.metadata == metadata,
            r.error_details is None,
            r.failed_handler is None,
            r.failure_context.wf(),
            r.failure_context@ == Map::<Seq<char>, String>::empty(),
    {
        let now = now_millis();
        FailedEvent {
            original_event_id,
            topic: topic.to_owned(),
            payload,
            failure_reason,
            attempt_count: 1,
            first_failure_time: now,
            last_failure_time: now,
            metadata,
            error_details: None,
            failed_handler: None,
            failure_context: StringMap::new(),
        }
    }

    /// Record another failed attempt, now, for `reason`.
    pub fn add_failure_attempt(&mut self, reason: FailureReason)
        requires
            old(self).attempt_count < u32::MAX,
        ensures
            final(self).attempt_count == old(self).attempt_count + 1,
            final(self).failure_reason == reason,
            *final(self) == (FailedEvent {
                attempt_count: final(self).attempt_count,
                last_failure_time: final(self).last_failure_time,
                failure_reason: final(self).failure_reason,
                ..*old(self)
            }),
    {
        self.attempt_count = self.attempt_count + 1;
        self.last_failure_time = now_millis();
        self.failure_reason = reason;
    }

    /// Set the error details.
    pub fn with_error_details(self, details: &str) -> (r: Self)
        ensures
            r.error_details matches Some(d) && d@ == details@,
            r == (FailedEvent { error_details: r.error_details, ..self }),
    {
        FailedEvent { error_details: Some(details.to_owned()), ..self }
    }

    /// Set the handler that failed.
    pub fn with_failed_handler(self, handler: &str) -> (r: Self)
        ensures
            r.failed_handler matches Some(h) && h@ == handler@,
            r == (FailedEvent { failed_handler: r.failed_handler, ..self }),
    {
        FailedEvent { failed_handler: Some(handler.to_owned()), ..self }
    }

    /// Add a failure context value (a JSON text), replacing any earlier
    /// value under the same key.
    pub fn with_context(self, key: &str, value: String) -> (r: Self)
        requires
            self.failure_context.wf(),
        ensures
            r.failure_context.wf(),
            r.failure_context@ == self.failure_context@.insert(key@, value),
            r == (FailedEvent { failure_context: r.failure_context, ..self }),
    {
        let mut e = self;
        e.failure_context.insert(key.to_owned(), value);
        e
    }

    /// How long the event has been failing: last minus first failure time,
    /// in milliseconds.
    pub fn failure_duration(&self) -> (r: i64)
        ensures
            r == clamp_i64(self.last_failure_time - self.first_failure_time),
    {
        elapsed_millis(self.last_failure_time, self.first_failure_time)
    }

    /// Whether the event has been attempted at least `max_retries` times.
    pub fn has_exceeded_max_retries(&self, max_retries: u32) -> (r: bool)
        ensures
            r == (self.attempt_count >= max_retries),
    {
        self.attempt_count >= max_retries
    }
}

/// Count of failed events with a given failure reason.
#[derive(Debug, Clone)]
pub struct FailureReasonStats {
    /// The failure reason key.
    pub reason: String,
    /// The number of events with that reason.
    pub count: u64,
}

/// Statistics about the events of one topic in the dead letter queue. The
/// mean number of attempts is `total_retry_attempts / total_events`.
#[derive(Debug, Clone)]
pub struct DlqStats {
    /// The topic.
    pub topic: String,
    /// The number of events in the queue.
    pub total_events: u64,
    /// The number of distinct event types.
    pub unique_event_types: u64,
    /// Age of the oldest event, in milliseconds.
    pub oldest_event_age: Option<i64>,
    /// Age of the newest event, in milliseconds.
    pub newest_event_age: Option<i64>,
    /// Sum of the attempt counts of all events.
    pub total_retry_attempts: u128,
    /// Reasons with their counts, most frequent first.
    pub common_failure_reasons: Vec<FailureReasonStats>,
    /// Events counted by failure reason key.
    pub events_by_reason: StringMap<u64>,
    /// Events counted by failed handler.
    pub events_by_handler: StringMap<u64>,
    /// When the statistics were generated, in milliseconds since the epoch.
    pub generated_at: i64,
}

/// Dead letter queue configuration. The retention period is in
/// milliseconds.
#[derive(Debug, Clone, Copy, PartialEq, Eq, Structural)]
pub struct DlqConfig {
    /// Maximum number of events kept per topic.
    pub max_events_per_topic: Option<u64>,
    /// How long events stay before being purged, in milliseconds.
    pub retention_period: Option<i64>,
    /// Whether old events are purged automatically.
    pub auto_purge_enabled: bool,
    /// Whether the queue preserves event order.
    pub preserve_order: bool,
    /// Whether stored events are compressed.
    pub compression_enabled: bool,
    /// Whether stack traces are stored with failed events.
    pub store_stack_traces: bool,
}

impl Default for DlqConfig {
    fn default() -> (r: Self)
        ensures
            r == (DlqConfig {
                max_events_per_topic: Some(10000),
                retention_period: Some(604_800_000),
                auto_purge_enabled: true,
                preserve_order: true,
                compression_enabled: false,
                store_stack_traces: true,
            }),
    {
        DlqConfig {
            max_events_per_topic: Some(10000),
            retention_period: Some(604_800_000),
            auto_purge_enabled: true,
            preserve_order: true,
            compression_enabled: false,
            store_stack_traces: true,
        }
    }
}

} // verus!
