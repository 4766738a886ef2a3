//! Data exchanged through the ports: handler errors and information, retry
//! and dead-letter results, export formats, alerts, time ranges and stream
//! metadata. Times are in milliseconds since the epoch.

use vstd::prelude::*;

verus! {

/// Why an event handler did not handle an event.
#[derive(Debug, Clone)]
pub enum HandlerError {
    ProcessingFailed { message: String },
    RetryRequired { reason: String },
    SendToDlq { reason: String },
    TemporaryFailure { reason: String },
    PermanentFailure { reason: String },
    NotImplemented,
    Timeout,
    InvalidEventFormat { details: String },
}

/// Result of handling an event.
pub type HandlerResult = Result<(), HandlerError>;

impl HandlerError {
    /// The human-readable text of the error.
    pub open spec fn spec_message(&self) -> Seq<char> {
        match self {
            HandlerError::ProcessingFailed { message } => "Processing failed: "@ + message@,
            HandlerError::RetryRequired { reason } => "Retry required: "@ + reason@,
            HandlerError::SendToDlq { reason } => "Send to DLQ: "@ + reason@,
            HandlerError::TemporaryFailure { reason } => "Temporary failure - will retry: "@
                + reason@,
            HandlerError::PermanentFailure { reason } => "Permanent failure - will not retry: "@
                + reason@,
            HandlerError::NotImplemented => "Feature not implemented"@,
            HandlerError::Timeout => "Handler timeout: operation took too long"@,
            HandlerError::InvalidEventFormat { details } => "Invalid event format: "@ + details@,
        }
    }

    /// The human-readable text of the error.
    pub fn message(&self) -> (r: String)
        ensures
            r@ == self.spec_message(),
    {
        match self {
            HandlerError::ProcessingFailed { message } => {
                let mut s = "Processing failed: ".to_owned();
                s.append(message.as_str());
                s
            },
            HandlerError::RetryRequired { reason } => {
                let mut s = "Retry required: ".to_owned();
                s.append(reason.as_str());
                s
            },
            HandlerError::SendToDlq { reason } => {
                let mut s = "Send to DLQ: ".to_owned();
                s.append(reason.as_str());
                s
            },
            HandlerError::TemporaryFailure { reason } => {
                let mut s = "Temporary failure - will retry: ".to_owned();
                s.append(reason.as_str());
                s
            },
            HandlerError::PermanentFailure { reason } => {
                let mut s = "Permanent failure - will not retry: ".to_owned();
                s.append(reason.as_str());
                s
            },
            HandlerError::NotImplemented => "Feature not implemented".to_owned(),
            HandlerError::Timeout => "Handler timeout: operation took too long".to_owned(),
            HandlerError::InvalidEventFormat { details } => {
                let mut s = "Invalid event format: ".to_owned();
                s.append(details.as_str());
                s
            },
        }
    }
}

/// Information about an event handler.
#[derive(Debug, Clone)]
pub struct HandlerInfo {
    pub name: String,
    pub version: String,
    pub description: Option<String>,
}

impl HandlerInfo {
    /// The information a handler reports by default: its type name, version
    /// "unknown", no description.
    pub fn default_for(handler_type: &str) -> (r: Self)
        ensures
            r.name@ == handler_type@,
            r.version@ == "unknown"@,
            r.description is None,
    {
        HandlerInfo { name: handler_type.to_owned(), version: "unknown".to_owned(), description: None }
    }
}

/// Result of retrying an event from the dead letter queue.
#[derive(Debug, Clone)]
pub struct DlqRetryResult {
    pub event_id: String,
    pub success: bool,
    pub error_message: Option<String>,
}

/// Formats for exporting dead-lettered events.
#[derive(Debug, Clone)]
pub enum ExportFormat {
    Json,
    Csv,
    Xml,
    Custom(String),
}

/// Result of a retry operation.
#[derive(Debug, Clone)]
pub struct RetryResult {
    pub event_id: String,
    pub success: bool,
    pub attempt_number: u32,
    pub error_message: Option<String>,
    /// When the next retry is due.
    pub next_retry_at: Option<i64>,
}

/// Time range for historical queries.
#[derive(Debug, Clone, Copy, PartialEq, Eq, Structural)]
pub struct TimeRange {
    pub start: i64,
    pub end: i64,
}

/// Aggregation interval.
#[derive(Debug, Clone, Copy, PartialEq, Eq, Structural)]
pub enum Duration {
    Seconds(u64),
    Minutes(u64),
    Hours(u64),
    Days(u64),
}

/// Conditions that can trigger alerts.
#[derive(Debug, Clone)]
pub enum AlertCondition {
    HighErrorRate,
    HighLatency,
    LowThroughput,
    HighMemoryUsage,
    HighCpuUsage,
    QueueBacklog,
    ConnectionFailures,
    Custom(String),
}

/// Actions taken when an alert triggers.
#[derive(Debug, Clone)]
pub enum AlertAction {
    Log,
    Email(String),
    Webhook(String),
    Custom(String),
}

/// Identifier of an alert.
pub type AlertId = String;

/// Current status of an alert.
#[derive(Debug, Clone)]
pub struct AlertStatus {
    pub alert_id: AlertId,
    pub name: String,
    pub active: bool,
    pub last_triggered: Option<i64>,
    pub trigger_count: u64,
}

impl AlertStatus {
    /// A copy of the status.
    pub fn copy(&self) -> (r: Self)
        ensures
            r == *self,
    {
        AlertStatus {
            alert_id: self.alert_id.clone(),
            name: self.name.clone(),
            active: self.active,
            last_triggered: self.last_triggered,
            trigger_count: self.trigger_count,
        }
    }
}

/// Metadata about an event stream.
#[derive(Debug, Clone)]
pub struct StreamMetadata {
    pub stream_id: String,
    pub current_version: u64,
    pub event_count: u64,
    pub created_at: i64,
    pub updated_at: i64,
    pub last_snapshot_version: Option<u64>,
}

} // verus!
