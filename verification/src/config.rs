//! Configuration of the port: adapters, connections, retry rules, batching,
//! monitoring and serialization. Durations are in milliseconds.

use vstd::prelude::*;
use crate::dlq::DlqConfig;
use crate::platform::random_u64_through;
use crate::string_map::StringMap;
use crate::validation::copy_strings;

verus! {

/// Kinds of adapter.
#[derive(Debug, Clone)]
pub enum AdapterType {
    Mock,
    Redis,
    Kafka,
    Nats,
    Custom(String),
}

/// Authentication configuration.
#[derive(Debug, Clone)]
pub struct AuthConfig {
    pub username: Option<String>,
    pub password: Option<String>,
    pub token: Option<String>,
    pub certificate_path: Option<String>,
    pub key_path: Option<String>,
}

/// TLS configuration.
#[derive(Debug, Clone)]
pub struct TlsConfig {
    pub enabled: bool,
    pub verify_certificates: bool,
    pub ca_certificate_path: Option<String>,
    pub client_certificate_path: Option<String>,
    pub client_key_path: Option<String>,
}

/// Connection configuration. Additional settings are JSON texts.
#[derive(Debug, Clone)]
pub struct ConnectionConfig {
    pub urls: Vec<String>,
    /// Connection timeout in milliseconds.
    pub connection_timeout: u64,
    /// Keep-alive interval in milliseconds.
    pub keep_alive: Option<u64>,
    pub max_connections: u32,
    pub min_connections: u32,
    pub auth: Option<AuthConfig>,
    pub tls: Option<TlsConfig>,
    pub additional: StringMap<String>,
}

impl Default for ConnectionConfig {
    fn default() -> (r: Self)
        ensures
            r.urls@.len() == 1,
            r.urls@[0]@ == "localhost:6379"@,
            r.connection_timeout == 30_000,
            r.keep_alive == Some(60_000u64),
            r.max_connections == 10,
            r.min_connections == 1,
            r.auth is None,
            r.tls is None,
            r.additional.wf(),
            r.additional@ == Map::<Seq<char>, String>::empty(),
    {
        let mut urls: Vec<String> = Vec::new();
        urls.push("localhost:6379".to_owned());
        ConnectionConfig {
            urls,
            connection_timeout: 30_000,
            keep_alive: Some(60_000),
            max_connections: 10,
            min_connections: 1,
            auth: None,
            tls: None,
            additional: StringMap::new(),
        }
    }
}

/// Backoff strategies. The multiplier of the exponential strategy, a
/// floating-point number, is kept by the caller, who computes the
/// exponential base delay.
#[derive(Debug, Clone, Copy, PartialEq, Eq, Structural)]
pub enum BackoffStrategy {
    /// The same delay before every retry.
    Fixed,
    /// The delay grows linearly with the attempt number.
    Linear,
    /// The delay grows exponentially with the attempt number.
    Exponential,
}

/// Retry policy. Delays are in milliseconds; the jitter factor, a
/// floating-point number, is kept by the caller, who computes the largest
/// jitter.
#[derive(Debug, Clone)]
pub struct RetryPolicy {
    /// Maximum number of retry attempts.
    pub max_attempts: u32,
    /// Backoff strategy.
    pub backoff_strategy: BackoffStrategy,
    /// Initial retry delay.
    pub retry_delay_ms: u64,
    /// Maximum delay between retries.
    pub max_delay_ms: u64,
    /// Whether to send to the dead letter queue after the last attempt.
    pub dlq_after_max_retries: bool,
    /// Error types that are retried (all, when empty).
    pub retriable_errors: Vec<String>,
    /// Error types that are never retried.
    pub non_retriable_errors: Vec<String>,
}

/// The strings of `v`, as character sequences.
pub open spec fn texts(v: Seq<String>) -> Seq<Seq<char>> {
    v.map_values(|s: String| s@)
}

/// The policy that `RetryPolicy::default()` gives, apart from the attempts,
/// strategy and initial delay.
pub open spec fn policy_defaults_except(p: RetryPolicy) -> bool {
    &&& p.max_delay_ms == 60_000
    &&& p.dlq_after_max_retries
    &&& p.retriable_errors@.len() == 0
    &&& p.non_retriable_errors@.len() == 0
}

/// The delay before jitter for retry `attempt`.
pub open spec fn base_delay(p: RetryPolicy, attempt: u32, exponential_base_ms: u64) -> int {
    match p.backoff_strategy {
        BackoffStrategy::Fixed => p.retry_delay_ms as int,
        BackoffStrategy::Linear => p.retry_delay_ms * attempt,
        BackoffStrategy::Exponential => exponential_base_ms as int,
    }
}

/// `base + jitter`, capped at `max`.
pub open spec fn capped_delay(base: int, jitter: int, max: int) -> int {
    if base + jitter > max {
        max
    } else {
        base + jitter
    }
}

/// `base + jitter` milliseconds, capped at `max`.
pub fn delay_with_jitter(base: u64, jitter: u64, max: u64) -> (r: u64)
    ensures
        r == capped_delay(base as int, jitter as int, max as int),
{
    if base > max || jitter > max - base {
        max
    } else {
        base + jitter
    }
}

/// The default retry policy: three attempts with exponential backoff from
/// 500 ms up to a minute, then the dead letter queue.
pub open spec fn is_default_policy(p: RetryPolicy) -> bool {
    &&& policy_defaults_except(p)
    &&& p.max_attempts == 3
    &&& p.backoff_strategy == BackoffStrategy::Exponential
    &&& p.retry_delay_ms == 500
}

/// `a` and `b` are the same policy: equal settings and equal lists of error
/// types.
pub open spec fn same_policy(a: RetryPolicy, b: RetryPolicy) -> bool {
    &&& a.max_attempts == b.max_attempts
    &&& a.backoff_strategy == b.backoff_strategy
    &&& a.retry_delay_ms == b.retry_delay_ms
    &&& a.max_delay_ms == b.max_delay_ms
    &&& a.dlq_after_max_retries == b.dlq_after_max_retries
    &&& a.retriable_errors@ == b.retriable_errors@
    &&& a.non_retriable_errors@ == b.non_retriable_errors@
}

impl RetryPolicy {
    /// A copy of the policy.
    pub fn copy(&self) -> (r: Self)
        ensures
            same_policy(r, *self),
    {
        RetryPolicy {
            max_attempts: self.max_attempts,
            backoff_strategy: self.backoff_strategy,
            retry_delay_ms: self.retry_delay_ms,
            max_delay_ms: self.max_delay_ms,
            dlq_after_max_retries: self.dlq_after_max_retries,
            retriable_errors: copy_strings(&self.retriable_errors),
            non_retriable_errors: copy_strings(&self.non_retriable_errors),
        }
    }
}

impl Default for RetryPolicy {
    fn default() -> (r: Self)
        ensures
            policy_defaults_except(r),
            r.max_attempts == 3,
            r.backoff_strategy == BackoffStrategy::Exponential,
            r.retry_delay_ms == 500,
    {
        RetryPolicy {
            max_attempts: 3,
            backoff_strategy: BackoffStrategy::Exponential,
            retry_delay_ms: 500,
            max_delay_ms: 60_000,
            dlq_after_max_retries: true,
            retriable_errors: Vec::new(),
            non_retriable_errors: Vec::new(),
        }
    }
}

impl RetryPolicy {
    /// Exponential backoff from `initial_delay_ms`.
    pub fn exponential_backoff(max_attempts: u32, initial_delay_ms: u64) -> (r: Self)
        ensures
            policy_defaults_except(r),
            r.max_attempts == max_attempts,
            r.backoff_strategy == BackoffStrategy::Exponential,
            r.retry_delay_ms == initial_delay_ms,
    {
        RetryPolicy {
            max_attempts,
            retry_delay_ms: initial_delay_ms,
            backoff_strategy: BackoffStrategy::Exponential,
            ..Default::default()
        }
    }

    /// Linear backoff with step `delay_ms`.
    pub fn linear_backoff(max_attempts: u32, delay_ms: u64) -> (r: Self)
        ensures
            policy_defaults_except(r),
            r.max_attempts == max_attempts,
            r.backoff_strategy == BackoffStrategy::Linear,
            r.retry_delay_ms == delay_ms,
    {
        RetryPolicy {
            max_attempts,
            retry_delay_ms: delay_ms,
            backoff_strategy: BackoffStrategy::Linear,
            ..Default::default()
        }
    }

    /// A fixed delay of `delay_ms`.
    pub fn fixed_delay(max_attempts: u32, delay_ms: u64) -> (r: Self)
        ensures
            policy_defaults_except(r),
            r.max_attempts == max_attempts,
            r.backoff_strategy == BackoffStrategy::Fixed,
            r.retry_delay_ms == delay_ms,
    {
        RetryPolicy {
            max_attempts,
            retry_delay_ms: delay_ms,
            backoff_strategy: BackoffStrategy::Fixed,
            ..Default::default()
        }
    }

    /// The delay before retry `attempt`, in milliseconds: the base delay of
    /// the strategy (for the exponential strategy, `exponential_base_ms`,
    /// which the caller computes from the multiplier) plus a random jitter of
    /// at most `max_jitter_ms`, capped at the maximum delay.
    pub fn calculate_delay(&self, attempt: u32, exponential_base_ms: u64, max_jitter_ms: u64) -> (r:
        u64)
        requires
            self.backoff_strategy == BackoffStrategy::Linear ==> self.retry_delay_ms * attempt
                <= u64::MAX,
        ensures
            exists|jitter: int|
                0 <= jitter <= max_jitter_ms && r == capped_delay(
                    #[trigger] base_delay(*self, attempt, exponential_base_ms),
                    jitter,
                    self.max_delay_ms as int,
                ),
    {
        let base: u64 = match self.backoff_strategy {
            BackoffStrategy::Fixed => self.retry_delay_ms,
            BackoffStrategy::Linear => self.retry_delay_ms * attempt as u64,
            BackoffStrategy::Exponential => exponential_base_ms,
        };
        let jitter = random_u64_through(max_jitter_ms);
        let r = delay_with_jitter(base, jitter, self.max_delay_ms);
        assert(r == capped_delay(base_delay(*self, attempt, exponential_base_ms), jitter as int, self.max_delay_ms as int));
        r
    }

    /// Whether an error of type `error_type` is retried: never if it is
    /// listed as non-retriable; otherwise if the retriable list is empty or
    /// lists it.
    pub fn should_retry_error(&self, error_type: &str) -> (r: bool)
        ensures
            r == (!texts(self.non_retriable_errors@).contains(error_type@) && (
            self.retriable_errors@.len() == 0 || texts(self.retriable_errors@).contains(
                error_type@,
            ))),
    {
        if contains_text(&self.non_retriable_errors, error_type) {
            return false;
        }
        if self.retriable_errors.len() == 0 {
            true
        } else {
            contains_text(&self.retriable_errors, error_type)
        }
    }
}

/// Whether `v` holds a string with the text of `s`.
pub fn contains_text(v: &Vec<String>, s: &str) -> (r: bool)
    ensures
        r == texts(v@).contains(s@),
{
    let wanted: String = s.to_owned();
    let mut i: usize = 0;
    while i < v.len()
        invariant
            i <= v@.len(),
            wanted@ == s@,
            forall|j: int| 0 <= j < i ==> v@[j]@ != s@,
        decreases v@.len() - i,
    {
        if v[i] == wanted {
            assert(texts(v@)[i as int] == s@);
            return true;
        }
        i = i + 1;
    }
    proof {
        if texts(v@).contains(s@) {
            let j = choose|j: int| 0 <= j < texts(v@).len() && texts(v@)[j] == s@;
            assert(v@[j]@ == s@);
        }
    }
    false
}

/// Batch processing configuration.
#[derive(Debug, Clone, Copy, PartialEq, Eq, Structural)]
pub struct BatchConfig {
    pub max_batch_size: usize,
    /// Maximum wait before processing a partial batch, in milliseconds.
    pub batch_timeout: u64,
    pub max_batch_memory: usize,
    pub preserve_order: bool,
    pub compression_enabled: bool,
}

impl Default for BatchConfig {
    fn default() -> (r: Self)
        ensures
            r == (BatchConfig {
                max_batch_size: 100,
                batch_timeout: 100,
                max_batch_memory: 1048576,
                preserve_order: true,
                compression_enabled: false,
            }),
    {
        BatchConfig {
            max_batch_size: 100,
            batch_timeout: 100,
            max_batch_memory: 1024 * 1024,
            preserve_order: true,
            compression_enabled: false,
        }
    }
}

/// Log levels.
#[derive(Debug, Clone, Copy, PartialEq, Eq, Structural)]
pub enum LogLevel {
    Error,
    Warn,
    Info,
    Debug,
    Trace,
}

/// Monitoring configuration. Intervals are in milliseconds; the tracing
/// sample rate, a floating-point number, is kept by the caller.
#[derive(Debug, Clone, Copy, PartialEq, Eq, Structural)]
pub struct MonitoringConfig {
    pub metrics_enabled: bool,
    pub metrics_interval: u64,
    pub tracing_enabled: bool,
    pub health_checks_enabled: bool,
    pub health_check_interval: u64,
    pub log_events: bool,
    pub log_level: LogLevel,
}

impl Default for MonitoringConfig {
    fn default() -> (r: Self)
        ensures
            r == (MonitoringConfig {
                metrics_enabled: true,
                metrics_interval: 30_000,
                tracing_enabled: false,
                health_checks_enabled: true,
                health_check_interval: 30_000,
                log_events: false,
                log_level: LogLevel::Info,
            }),
    {
        MonitoringConfig {
            metrics_enabled: true,
            metrics_interval: 30_000,
            tracing_enabled: false,
            health_checks_enabled: true,
            health_check_interval: 30_000,
            log_events: false,
            log_level: LogLevel::Info,
        }
    }
}

/// Serialization formats.
#[derive(Debug, Clone)]
pub enum SerializationFormat {
    Json,
    MessagePack,
    Protobuf,
    Avro,
    Custom(String),
}

/// Compression algorithms.
#[derive(Debug, Clone, Copy, PartialEq, Eq, Structural)]
pub enum CompressionAlgorithm {
    Gzip,
    Lz4,
    Snappy,
    Zstd,
}

/// Event serialization configuration.
#[derive(Debug, Clone)]
pub struct SerializationConfig {
    pub format: SerializationFormat,
    pub compression_enabled: bool,
    pub compression_algorithm: CompressionAlgorithm,
    pub max_payload_size: usize,
    pub schema_validation_enabled: bool,
}

impl Default for SerializationConfig {
    fn default() -> (r: Self)
        ensures
            r.format matches SerializationFormat::Json,
            !r.compression_enabled,
            r.compression_algorithm == CompressionAlgorithm::Gzip,
            r.max_payload_size == 1048576,
            !r.schema_validation_enabled,
    {
        SerializationConfig {
            format: SerializationFormat::Json,
            compression_enabled: false,
            compression_algorithm: CompressionAlgorithm::Gzip,
            max_payload_size: 1024 * 1024,
            schema_validation_enabled: false,
        }
    }
}

/// Main configuration.
#[derive(Debug, Clone)]
pub struct PubSubConfig {
    pub adapter_type: AdapterType,
    pub connection_config: ConnectionConfig,
    pub default_retry_policy: RetryPolicy,
    pub dlq_config: DlqConfig,
    pub batch_config: BatchConfig,
    pub monitoring_config: MonitoringConfig,
    pub serialization_config: SerializationConfig,
}

impl Default for PubSubConfig {
    fn default() -> (r: Self)
        ensures
            r.adapter_type matches AdapterType::Mock,
            r.connection_config.connection_timeout == 30_000,
            r.connection_config.additional.wf(),
            policy_defaults_except(r.default_retry_policy),
            r.default_retry_policy.max_attempts == 3,
            r.default_retry_policy.backoff_strategy == BackoffStrategy::Exponential,
            r.default_retry_policy.retry_delay_ms == 500,
            r.dlq_config.max_events_per_topic == Some(10000u64),
            r.batch_config.max_batch_size == 100,
            r.monitoring_config.metrics_enabled,
            r.serialization_config.max_payload_size == 1048576,
    {
        PubSubConfig {
            adapter_type: AdapterType::Mock,
            connection_config: ConnectionConfig::default(),
            default_retry_policy: RetryPolicy::default(),
            dlq_config: DlqConfig::default(),
            batch_config: BatchConfig::default(),
            monitoring_config: MonitoringConfig::default(),
            serialization_config: SerializationConfig::default(),
        }
    }
}

} // verus!
