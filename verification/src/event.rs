//! Events, their metadata, and topic/event pairs for batch publishing.

use vstd::prelude::*;
use crate::platform::{new_uuid_string, now_millis};
use crate::store::clone_opt_string;
use crate::string_map::StringMap;

verus! {

/// Unique identifier of an event.
pub type EventId = String;

/// Unique identifier of a transaction.
pub type TransactionId = String;

/// Rich metadata associated with an event. Custom values are JSON texts.
#[derive(Debug, Clone)]
pub struct EventMetadata {
    /// Distributed tracing ID for correlation across services.
    pub trace_id: Option<String>,
    /// Correlation ID linking related events.
    pub correlation_id: Option<String>,
    /// Causation ID linking this event to its cause.
    pub causation_id: Option<String>,
    /// The service or component that generated the event.
    pub source: String,
    /// The type or category of the event.
    pub event_type: String,
    /// Partition key for ordered processing.
    pub partition_key: Option<String>,
    /// Schema version for event evolution.
    pub schema_version: String,
    /// User or system that initiated the event.
    pub user_id: Option<String>,
    /// Session or request context.
    pub session_id: Option<String>,
    /// Additional custom metadata, each value a JSON text.
    pub custom: StringMap<String>,
}

/// The metadata that `EventMetadata::default()` gives, apart from its
/// source and event type.
pub open spec fn metadata_defaults_except_names(m: EventMetadata) -> bool {
    &&& m.trace_id is None
    &&& m.correlation_id is None
    &&& m.causation_id is None
    &&& m.partition_key is None
    &&& m.schema_version@ == "1.0"@
    &&& m.user_id is None
    &&& m.session_id is None
    &&& m.custom.wf()
    &&& m.custom@ == Map::<Seq<char>, String>::empty()
}

/// The metadata that `EventMetadata::default()` gives.
pub open spec fn is_default_metadata(m: EventMetadata) -> bool {
    &&& metadata_defaults_except_names(m)
    &&& m.source@ == "unknown"@
    &&& m.event_type@ == "unknown"@
}

/// `Some` of a string with the given text.
pub open spec fn is_some_text(o: Option<String>, text: Seq<char>) -> bool {
    o matches Some(s) && s@ == text
}

impl Default for EventMetadata {
    fn default() -> (r: Self)
        ensures
            is_default_metadata(r),
    {
        EventMetadata {
            trace_id: None,
            correlation_id: None,
            causation_id: None,
            source: "unknown".to_owned(),
            event_type: "unknown".to_owned(),
            partition_key: None,
            schema_version: "1.0".to_owned(),
            user_id: None,
            session_id: None,
            custom: StringMap::new(),
        }
    }
}

/// `a` and `b` hold the same metadata.
pub open spec fn same_metadata(a: EventMetadata, b: EventMetadata) -> bool {
    &&& a.trace_id == b.trace_id
    &&& a.correlation_id == b.correlation_id
    &&& a.causation_id == b.causation_id
    &&& a.source == b.source
    &&& a.event_type == b.event_type
    &&& a.partition_key == b.partition_key
    &&& a.schema_version == b.schema_version
    &&& a.user_id == b.user_id
    &&& a.session_id == b.session_id
    &&& a.custom.key_seq() == b.custom.key_seq()
    &&& a.custom.value_seq() == b.custom.value_seq()
    &&& a.custom@ == b.custom@
}

impl EventMetadata {
    /// A copy of the metadata.
    pub fn copy(&self) -> (r: Self)
        ensures
            same_metadata(r, *self),
    {
        EventMetadata {
            trace_id: clone_opt_string(&self.trace_id),
            correlation_id: clone_opt_string(&self.correlation_id),
            causation_id: clone_opt_string(&self.causation_id),
            source: self.source.clone(),
            event_type: self.event_type.clone(),
            partition_key: clone_opt_string(&self.partition_key),
            schema_version: self.schema_version.clone(),
            user_id: clone_opt_string(&self.user_id),
            session_id: clone_opt_string(&self.session_id),
            custom: self.custom.clone_strings(),
        }
    }

    /// Metadata with the given source and event type, all else default.
    pub fn new(source: &str, event_type: &str) -> (r: Self)
        ensures
            metadata_defaults_except_names(r),
            r.source@ == source@,
            r.event_type@ == event_type@,
    {
        EventMetadata {
            trace_id: None,
            correlation_id: None,
            causation_id: None,
            source: source.to_owned(),
            event_type: event_type.to_owned(),
            partition_key: None,
            schema_version: "1.0".to_owned(),
            user_id: None,
            session_id: None,
            custom: StringMap::new(),
        }
    }

    /// Set the trace ID.
    pub fn with_trace_id(self, trace_id: &str) -> (r: Self)
        ensures
            is_some_text(r.trace_id, trace_id@),
            r == (EventMetadata { trace_id: r.trace_id, ..self }),
    {
        EventMetadata { trace_id: Some(trace_id.to_owned()), ..self }
    }

    /// Set the correlation ID.
    pub fn with_correlation_id(self, correlation_id: &str) -> (r: Self)
        ensures
            is_some_text(r.correlation_id, correlation_id@),
            r == (EventMetadata { correlation_id: r.correlation_id, ..self }),
    {
        EventMetadata { correlation_id: Some(correlation_id.to_owned()), ..self }
    }

    /// Set the causation ID.
    pub fn with_causation_id(self, causation_id: &str) -> (r: Self)
        ensures
            is_some_text(r.causation_id, causation_id@),
            r == (EventMetadata { causation_id: r.causation_id, ..self }),
    {
        EventMetadata { causation_id: Some(causation_id.to_owned()), ..self }
    }

    /// Set the partition key.
    pub fn with_partition_key(self, partition_key: &str) -> (r: Self)
        ensures
            is_some_text(r.partition_key, partition_key@),
            r == (EventMetadata { partition_key: r.partition_key, ..self }),
    {
        EventMetadata { partition_key: Some(partition_key.to_owned()), ..self }
    }

    /// Set the user ID.
    pub fn with_user_id(self, user_id: &str) -> (r: Self)
        ensures
            is_some_text(r.user_id, user_id@),
            r == (EventMetadata { user_id: r.user_id, ..self }),
    {
        EventMetadata { user_id: Some(user_id.to_owned()), ..self }
    }

    /// Set the session ID.
    pub fn with_session_id(self, session_id: &str) -> (r: Self)
        ensures
            is_some_text(r.session_id, session_id@),
            r == (EventMetadata { session_id: r.session_id, ..self }),
    {
        EventMetadata { session_id: Some(session_id.to_owned()), ..self }
    }

    /// Add a custom metadata value (a JSON text), replacing any earlier value
    /// under the same key.
    pub fn with_custom(self, key: &str, value: String) -> (r: Self)
        requires
            self.custom.wf(),
        ensures
            r.custom.wf(),
            r.custom@ == self.custom@.insert(key@, value),
            r == (EventMetadata { custom: r.custom, ..self }),
    {
        let mut m = self;
        m.custom.insert(key.to_owned(), value);
        m
    }

    /// Set the schema version.
    pub fn with_schema_version(self, version: &str) -> (r: Self)
        ensures
            r.schema_version@ == version@,
            r == (EventMetadata { schema_version: r.schema_version, ..self }),
    {
        EventMetadata { schema_version: version.to_owned(), ..self }
    }
}

/// An event: a payload with its topic, identity, metadata, time and headers.
#[derive(Debug, Clone)]
pub struct Event<T> {
    /// Unique identifier of the event.
    pub id: String,
    /// The topic the event belongs to.
    pub topic: String,
    /// The event payload.
    pub payload: T,
    /// Metadata about the event.
    pub metadata: EventMetadata,
    /// When the event was created, in milliseconds since the epoch.
    pub timestamp: i64,
    /// Custom headers.
    pub headers: StringMap<String>,
}

/// The first `i` entries of `m`, as a map.
pub open spec fn map_prefix<V>(m: StringMap<V>, i: int) -> Map<Seq<char>, V> {
    Map::new(|k: Seq<char>| m.key_seq().take(i).contains(k), |k: Seq<char>| m@[k])
}

impl<T> Event<T> {
    /// A new event on `topic` with a fresh identifier, default metadata, the
    /// current time and no headers.
    pub fn new(topic: &str, payload: T) -> (r: Self)
        ensures
            r.id@.len() == 36,
            r.topic@ == topic@,
            r.payload == payload,
            is_default_metadata(r.metadata),
            r.headers.wf(),
            r.headers@ == Map::<Seq<char>, String>::empty(),
    {
        Event {
            id: new_uuid_string(),
            topic: topic.to_owned(),
            payload,
            metadata: EventMetadata::default(),
            timestamp: now_millis(),
            headers: StringMap::new(),
        }
    }

    /// A new event on `topic` with the given metadata, a fresh identifier,
    /// the current time and no headers.
    pub fn with_metadata(topic: &str, payload: T, metadata: EventMetadata) -> (r: Self)
        ensures
            r.id@.len() == 36,
            r.topic@ == topic@,
            r.payload == payload,
            r.metadata == metadata,
            r.headers.wf(),
            r.headers@ == Map::<Seq<char>, String>::empty(),
    {
        Event {
            id: new_uuid_string(),
            topic: topic.to_owned(),
            payload,
            metadata,
            timestamp: now_millis(),
            headers: StringMap::new(),
        }
    }

    /// Add a header, replacing any earlier value under the same key.
    pub fn with_header(self, key: &str, value: &str) -> (r: Self)
        requires
            self.headers.wf(),
        ensures
            r.headers.wf(),
            r.headers@ == self.headers@.insert(key@, r.headers@[key@]),
            r.headers@[key@]@ == value@,
            r == (Event { headers: r.headers, ..self }),
    {
        let mut e = self;
        e.headers.insert(key.to_owned(), value.to_owned());
        e
    }

    /// Add every header of `headers`, each replacing any earlier value under
    /// the same key.
    pub fn with_headers(self, headers: StringMap<String>) -> (r: Self)
        requires
            self.headers.wf(),
            headers.wf(),
        ensures
            r.headers.wf(),
            r.headers@ == self.headers@.union_prefer_right(headers@),
            r == (Event { headers: r.headers, ..self }),
    {
        let mut e = self;
        let n = headers.len();
        let mut i: usize = 0;
        proof {
            headers.lemma_view();
            assert(map_prefix(headers, 0) =~= Map::<Seq<char>, String>::empty());
            assert(e.headers@.union_prefer_right(map_prefix(headers, 0)) =~= e.headers@);
        }
        while i < n
            invariant
                i <= n,
                n == headers.key_seq().len(),
                headers.wf(),
                e.headers.wf(),
                e == (Event { headers: e.headers, ..self }),
                e.headers@ == self.headers@.union_prefer_right(map_prefix(headers, i as int)),
            decreases n - i,
        {
            let k = headers.key_at(i).clone();
            let v = headers.value_at(i).clone();
            proof {
                headers.lemma_view();
            }
            let ghost before = e.headers@;
            e.headers.insert(k, v);
            proof {
                let ks = headers.key_seq();
                let t1 = ks.take(i as int + 1);
                let t0 = ks.take(i as int);
                assert(t1 =~= t0.push(ks[i as int]));
                assert forall|k: Seq<char>| t1.contains(k) <==> (t0.contains(k) || k == ks[i as int]) by {
                    if t1.contains(k) {
                        let j = choose|j: int| 0 <= j < t1.len() && t1[j] == k;
                        if j < i as int {
                            assert(t0[j] == k);
                        }
                    }
                    if t0.contains(k) {
                        let j = choose|j: int| 0 <= j < t0.len() && t0[j] == k;
                        assert(t1[j] == k);
                    }
                    if k == ks[i as int] {
                        assert(t1[i as int] == k);
                    }
                }
                assert(map_prefix(headers, i as int + 1) =~= map_prefix(headers, i as int).insert(
                    ks[i as int],
                    headers@[ks[i as int]],
                ));
                assert(e.headers@ =~= self.headers@.union_prefer_right(
                    map_prefix(headers, i as int + 1),
                ));
            }
            i = i + 1;
        }
        proof {
            let ks = headers.key_seq();
            assert(ks.take(n as int) =~= ks);
            assert(map_prefix(headers, n as int) =~= headers@);
        }
        e
    }

    /// Set a custom event ID.
    pub fn with_id(self, id: &str) -> (r: Self)
        ensures
            r.id@ == id@,
            r == (Event { id: r.id, ..self }),
    {
        Event { id: id.to_owned(), ..self }
    }

    /// Set a custom timestamp.
    pub fn with_timestamp(self, timestamp: i64) -> (r: Self)
        ensures
            r == (Event { timestamp, ..self }),
    {
        Event { timestamp, ..self }
    }

    /// The value of header `key`, if present.
    pub fn get_header(&self, key: &str) -> (r: Option<&String>)
        requires
            self.headers.wf(),
        ensures
            match r {
                Some(v) => self.headers@.contains_key(key@) && *v == self.headers@[key@],
                None => !self.headers@.contains_key(key@),
            },
    {
        self.headers.get(key)
    }

    /// Whether header `key` is present.
    pub fn has_header(&self, key: &str) -> (r: bool)
        requires
            self.headers.wf(),
        ensures
            r == self.headers@.contains_key(key@),
    {
        self.headers.contains_key(key)
    }
}

/// A topic/event pair for batch publishing.
#[derive(Debug, Clone)]
pub struct TopicEvent<T> {
    /// The topic to publish to.
    pub topic: String,
    /// The event payload.
    pub event: T,
    /// Optional partition key.
    pub partition_key: Option<String>,
}

impl<T> TopicEvent<T> {
    /// A topic/event pair without partition key.
    pub fn new(topic: &str, event: T) -> (r: Self)
        ensures
            r.topic@ == topic@,
            r.event == event,
            r.partition_key is None,
    {
        TopicEvent { topic: topic.to_owned(), event, partition_key: None }
    }

    /// A topic/event pair with a partition key.
    pub fn with_key(topic: &str, event: T, partition_key: &str) -> (r: Self)
        ensures
            r.topic@ == topic@,
            r.event == event,
            is_some_text(r.partition_key, partition_key@),
    {
        TopicEvent { topic: topic.to_owned(), event, partition_key: Some(partition_key.to_owned()) }
    }
}

/// A new unique event ID.
pub fn generate_event_id() -> (r: EventId)
    ensures
        r@.len() == 36,
{
    new_uuid_string()
}

/// A new unique transaction ID.
pub fn generate_transaction_id() -> (r: TransactionId)
    ensures
        r@.len() == 36,
{
    new_uuid_string()
}

} // verus!
