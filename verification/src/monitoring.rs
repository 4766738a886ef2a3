//! Health, connection and metrics data. Durations are in milliseconds and
//! times in milliseconds since the epoch; rates and percentages are left to
//! the caller, who derives them from the counts held here.

use vstd::prelude::*;
use crate::string_map::StringMap;

verus! {

/// Health of the system or of a component.
#[derive(Debug, Clone, Copy, PartialEq, Eq, Structural)]
pub enum Health {
    Healthy,
    Degraded,
    Unhealthy,
}

/// Health of an individual component. Metric values are JSON texts.
#[derive(Debug, Clone)]
pub struct ComponentHealth {
    pub status: Health,
    /// When the component was last checked.
    pub last_check: i64,
    pub error_message: Option<String>,
    pub metrics: StringMap<String>,
}

/// Overall health of the system.
#[derive(Debug, Clone)]
pub struct HealthStatus {
    /// Overall health.
    pub status: Health,
    /// Health of individual components.
    pub components: StringMap<ComponentHealth>,
    /// When the check was performed.
    pub checked_at: i64,
    /// Messages and warnings.
    pub messages: Vec<String>,
    /// Uptime in whole seconds.
    pub uptime_secs: u64,
    /// Version information.
    pub version: String,
}

/// Information about one connection.
#[derive(Debug, Clone)]
pub struct ConnectionInfo {
    pub endpoint: String,
    pub connected: bool,
    pub connected_at: Option<i64>,
    pub last_activity: Option<i64>,
    pub bytes_sent: u64,
    pub bytes_received: u64,
    pub error_count: u32,
}

/// Connection pool statistics.
#[derive(Debug, Clone, Copy, PartialEq, Eq, Structural)]
pub struct PoolStats {
    pub total_connections: u32,
    pub active_connections: u32,
    pub idle_connections: u32,
    pub pending_requests: u32,
    pub max_connections: u32,
    pub min_connections: u32,
}

/// Connection status to the underlying infrastructure.
#[derive(Debug, Clone)]
pub struct ConnectionStatus {
    pub connected: bool,
    pub connections: Vec<ConnectionInfo>,
    pub active_connections: u32,
    pub pool_stats: PoolStats,
    pub last_connection_attempt: Option<i64>,
    pub error: Option<String>,
}

/// Publishing counters of a topic.
#[derive(Debug, Clone, Copy, PartialEq, Eq, Structural)]
pub struct PublishingMetrics {
    pub events_published: u64,
    pub events_published_last_minute: u64,
    pub events_published_last_hour: u64,
    pub bytes_published: u64,
    pub failed_publishes: u64,
}

/// Consumption counters of a topic.
#[derive(Debug, Clone, Copy, PartialEq, Eq, Structural)]
pub struct SubscriptionMetrics {
    pub events_consumed: u64,
    pub events_consumed_last_minute: u64,
    pub events_consumed_last_hour: u64,
    pub active_subscriptions: u32,
    pub consumer_groups: u32,
    pub lag: u64,
    pub failed_consumptions: u64,
}

/// Count of errors of one type.
#[derive(Debug, Clone)]
pub struct ErrorTypeCount {
    pub error_type: String,
    pub count: u64,
}

/// Error and retry counters of a topic.
#[derive(Debug, Clone)]
pub struct ErrorMetrics {
    pub total_errors: u64,
    pub errors_last_minute: u64,
    pub errors_last_hour: u64,
    pub dlq_events: u64,
    pub retry_attempts: u64,
    pub successful_retries: u64,
    pub failed_retries: u64,
    pub common_errors: Vec<ErrorTypeCount>,
}

/// Latencies (milliseconds) and memory of a topic.
#[derive(Debug, Clone, Copy, PartialEq, Eq, Structural)]
pub struct PerformanceMetrics {
    pub average_latency: u64,
    pub p95_latency: u64,
    pub p99_latency: u64,
    pub max_latency: u64,
    pub min_latency: u64,
    pub memory_usage_bytes: u64,
}

/// Metrics of one topic.
#[derive(Debug, Clone)]
pub struct TopicMetrics {
    pub topic: String,
    pub publishing: PublishingMetrics,
    pub subscription: SubscriptionMetrics,
    pub errors: ErrorMetrics,
    pub performance: PerformanceMetrics,
    /// When the metrics were collected.
    pub collected_at: i64,
}

/// System resource figures.
#[derive(Debug, Clone, Copy, PartialEq, Eq, Structural)]
pub struct SystemMetrics {
    pub memory_usage_bytes: u64,
    pub disk_usage_bytes: u64,
    pub network_bytes_in: u64,
    pub network_bytes_out: u64,
    pub file_descriptors: u32,
}

/// Metrics across all topics.
#[derive(Debug, Clone)]
pub struct GlobalMetrics {
    pub total_topics: u32,
    pub total_events: u64,
    pub publishing: PublishingMetrics,
    pub subscription: SubscriptionMetrics,
    pub errors: ErrorMetrics,
    pub performance: PerformanceMetrics,
    pub system: SystemMetrics,
    /// When the metrics were collected.
    pub collected_at: i64,
}

/// Retry count for one event type.
#[derive(Debug, Clone)]
pub struct EventTypeRetryCount {
    pub event_type: String,
    pub retry_count: u64,
    pub success_count: u64,
}

/// Trace export formats.
#[derive(Debug, Clone)]
pub enum TraceFormat {
    Jaeger,
    Zipkin,
    OpenTelemetry,
    Json,
    Custom(String),
}

/// Trace export configuration; the interval is in milliseconds.
#[derive(Debug, Clone)]
pub struct TraceExportConfig {
    pub endpoint: Option<String>,
    pub format: TraceFormat,
    pub interval: u64,
    pub batch_size: usize,
}

impl ErrorTypeCount {
    /// A copy of the count.
    pub fn copy(&self) -> (r: Self)
        ensures
            r == *self,
    {
        ErrorTypeCount { error_type: self.error_type.clone(), count: self.count }
    }
}

/// `a` holds the same metrics as `b`.
pub open spec fn same_topic_metrics(a: TopicMetrics, b: TopicMetrics) -> bool {
    &&& a.topic == b.topic
    &&& a.publishing == b.publishing
    &&& a.subscription == b.subscription
    &&& a.errors.total_errors == b.errors.total_errors
    &&& a.errors.errors_last_minute == b.errors.errors_last_minute
    &&& a.errors.errors_last_hour == b.errors.errors_last_hour
    &&& a.errors.dlq_events == b.errors.dlq_events
    &&& a.errors.retry_attempts == b.errors.retry_attempts
    &&& a.errors.successful_retries == b.errors.successful_retries
    &&& a.errors.failed_retries == b.errors.failed_retries
    &&& a.errors.common_errors@ == b.errors.common_errors@
    &&& a.performance == b.performance
    &&& a.collected_at == b.collected_at
}

impl TopicMetrics {
    /// A copy of the metrics.
    pub fn copy(&self) -> (r: Self)
        ensures
            same_topic_metrics(r, *self),
    {
        let mut common_errors: Vec<ErrorTypeCount> = Vec::new();
        let mut i: usize = 0;
        while i < self.errors.common_errors.len()
            invariant
                i <= self.errors.common_errors@.len(),
                common_errors@ == self.errors.common_errors@.take(i as int),
            decreases self.errors.common_errors@.len() - i,
        {
            common_errors.push(self.errors.common_errors[i].copy());
            assert(common_errors@ =~= self.errors.common_errors@.take(i as int + 1));
            i = i + 1;
        }
        assert(common_errors@ =~= self.errors.common_errors@);
        TopicMetrics {
            topic: self.topic.clone(),
            publishing: self.publishing,
            subscription: self.subscription,
            errors: ErrorMetrics {
                total_errors: self.errors.total_errors,
                errors_last_minute: self.errors.errors_last_minute,
                errors_last_hour: self.errors.errors_last_hour,
                dlq_events: self.errors.dlq_events,
                retry_attempts: self.errors.retry_attempts,
                successful_retries: self.errors.successful_retries,
                failed_retries: self.errors.failed_retries,
                common_errors,
            },
            performance: self.performance,
            collected_at: self.collected_at,
        }
    }
}

} // verus!
