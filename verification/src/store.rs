//! Event-sourcing data: global positions, stored events, streams, snapshots.

use vstd::prelude::*;
use crate::platform::{new_uuid_string, now_millis};
use crate::string_map::StringMap;

verus! {

/// Global position in the event store across all streams.
#[derive(Debug, Clone, Copy, PartialEq, Eq, PartialOrd, Ord, Hash, Structural)]
pub struct GlobalPosition(pub u64);

impl GlobalPosition {
    /// Create a new global position.
    pub fn new(position: u64) -> (r: Self)
        ensures
            r.0 == position,
    {
        GlobalPosition(position)
    }

    /// The position value.
    pub fn value(&self) -> (r: u64)
        ensures
            r == self.0,
    {
        self.0
    }

    /// The next position.
    pub fn next(&self) -> (r: Self)
        requires
            self.0 < u64::MAX,
        ensures
            r.0 == self.0 + 1,
    {
        GlobalPosition(self.0 + 1)
    }

    /// Whether this position comes before `other`.
    pub fn is_before(&self, other: &GlobalPosition) -> (r: bool)
        ensures
            r == (self.0 < other.0),
    {
        self.0 < other.0
    }

    /// Whether this position comes after `other`.
    pub fn is_after(&self, other: &GlobalPosition) -> (r: bool)
        ensures
            r == (self.0 > other.0),
    {
        self.0 > other.0
    }

    /// The position written in decimal.
    pub fn to_text(&self) -> (r: String)
        ensures
            r@ == crate::dlq_manager::decimal_text(self.0 as nat),
    {
        crate::dlq_manager::decimal_string(self.0)
    }
}


/// Filtering a sequence extended by one element.
pub proof fn lemma_filter_push<A>(s: Seq<A>, x: A, pred: spec_fn(A) -> bool)
    ensures
        s.push(x).filter(pred) == (if pred(x) {
            s.filter(pred).push(x)
        } else {
            s.filter(pred)
        }),
{
    reveal_with_fuel(Seq::filter, 1);
    assert(s.push(x).drop_last() =~= s);
}

/// `d` clamped to the range of `i64`.
pub open spec fn clamp_i64(d: int) -> int {
    if d > i64::MAX {
        i64::MAX as int
    } else if d < i64::MIN {
        i64::MIN as int
    } else {
        d
    }
}

/// `later - earlier`, clamped to the range of `i64`. For times that chrono
/// can represent the difference is exact.
pub fn elapsed_millis(later: i64, earlier: i64) -> (r: i64)
    ensures
        r == clamp_i64(later - earlier),
{
    let d: i128 = later as i128 - earlier as i128;
    if d > i64::MAX as i128 {
        i64::MAX
    } else if d < i64::MIN as i128 {
        i64::MIN
    } else {
        d as i64
    }
}

/// A stored event in the event store. Data and metadata are JSON texts.
#[derive(Debug)]
pub struct StoredEvent {
    /// Unique identifier of the stored event.
    pub event_id: String,
    /// The stream the event belongs to.
    pub stream_id: String,
    /// Version number within the stream.
    pub stream_version: u64,
    /// Position across all streams.
    pub global_position: GlobalPosition,
    /// Event type identifier.
    pub event_type: String,
    /// Event data as a JSON text.
    pub data: String,
    /// Additional metadata as a JSON text.
    pub metadata: String,
    /// When the event was stored, in milliseconds since the epoch.
    pub created_at: i64,
    /// Correlation ID.
    pub correlation_id: Option<String>,
    /// Causation ID.
    pub causation_id: Option<String>,
}

/// A copy of an optional string.
pub fn clone_opt_string(o: &Option<String>) -> (r: Option<String>)
    ensures
        r == *o,
{
    match o {
        Some(s) => Some(s.clone()),
        None => None,
    }
}

impl Clone for StoredEvent {
    fn clone(&self) -> (r: Self)
        ensures
            r == *self,
    {
        StoredEvent {
            event_id: self.event_id.clone(),
            stream_id: self.stream_id.clone(),
            stream_version: self.stream_version,
            global_position: self.global_position,
            event_type: self.event_type.clone(),
            data: self.data.clone(),
            metadata: self.metadata.clone(),
            created_at: self.created_at,
            correlation_id: clone_opt_string(&self.correlation_id),
            causation_id: clone_opt_string(&self.causation_id),
        }
    }
}

impl StoredEvent {
    /// A new stored event of the given type with a fresh identifier, no
    /// stream yet (empty stream ID, version 0, position 0), empty JSON object
    /// metadata and the current time.
    pub fn new(event_type: &str, data: String) -> (r: Self)
        ensures
            r.event_id@.len() == 36,
            r.stream_id@ == Seq::<char>::empty(),
            r.stream_version == 0,
            r.global_position.0 == 0,
            r.event_type@ == event_type@,
            r.data == data,
            r.metadata@ == "{}"@,
            r.correlation_id is None,
            r.causation_id is None,
    {
        StoredEvent {
            event_id: new_uuid_string(),
            stream_id: String::new(),
            stream_version: 0,
            global_position: GlobalPosition(0),
            event_type: event_type.to_owned(),
            data,
            metadata: "{}".to_owned(),
            created_at: now_millis(),
            correlation_id: None,
            causation_id: None,
        }
    }

    /// A new stored event with the given metadata JSON text.
    pub fn with_metadata(event_type: &str, data: String, metadata: String) -> (r: Self)
        ensures
            r.event_id@.len() == 36,
            r.stream_id@ == Seq::<char>::empty(),
            r.stream_version == 0,
            r.global_position.0 == 0,
            r.event_type@ == event_type@,
            r.data == data,
            r.metadata == metadata,
            r.correlation_id is None,
            r.causation_id is None,
    {
        StoredEvent { metadata, ..Self::new(event_type, data) }
    }

    /// Set the correlation ID.
    pub fn with_correlation_id(self, correlation_id: &str) -> (r: Self)
        ensures
            r.correlation_id matches Some(c) && c@ == correlation_id@,
            r == (StoredEvent { correlation_id: r.correlation_id, ..self }),
    {
        StoredEvent { correlation_id: Some(correlation_id.to_owned()), ..self }
    }

    /// Set the causation ID.
    pub fn with_causation_id(self, causation_id: &str) -> (r: Self)
        ensures
            r.causation_id matches Some(c) && c@ == causation_id@,
            r == (StoredEvent { causation_id: r.causation_id, ..self }),
    {
        StoredEvent { causation_id: Some(causation_id.to_owned()), ..self }
    }

    /// Set a custom event ID.
    pub fn with_event_id(self, event_id: &str) -> (r: Self)
        ensures
            r.event_id@ == event_id@,
            r == (StoredEvent { event_id: r.event_id, ..self }),
    {
        StoredEvent { event_id: event_id.to_owned(), ..self }
    }
}

/// Is `e` of type `event_type`?
pub open spec fn has_type(e: StoredEvent, event_type: Seq<char>) -> bool {
    e.event_type@ == event_type
}

/// Is the stream version of `e` within `start..=end`?
pub open spec fn in_version_range(e: StoredEvent, start: u64, end: u64) -> bool {
    start <= e.stream_version <= end
}

/// A stream of events with metadata.
#[derive(Debug, Clone)]
pub struct EventStream {
    /// The stream identifier.
    pub stream_id: String,
    /// Events in this stream.
    pub events: Vec<StoredEvent>,
    /// Current version of the stream.
    pub current_version: u64,
    /// Whether this is the complete stream or a partial read.
    pub is_complete: bool,
    /// The position the stream starts from.
    pub start_position: GlobalPosition,
    /// The position the stream ends at.
    pub end_position: GlobalPosition,
    /// When the stream was read, in milliseconds since the epoch.
    pub read_at: i64,
}

impl EventStream {
    /// An empty, complete stream at version 0 and position 0.
    pub fn new(stream_id: &str) -> (r: Self)
        ensures
            r.stream_id@ == stream_id@,
            r.events@ == Seq::<StoredEvent>::empty(),
            r.current_version == 0,
            r.is_complete,
            r.start_position.0 == 0,
            r.end_position.0 == 0,
    {
        EventStream {
            stream_id: stream_id.to_owned(),
            events: Vec::new(),
            current_version: 0,
            is_complete: true,
            start_position: GlobalPosition(0),
            end_position: GlobalPosition(0),
            read_at: now_millis(),
        }
    }

    /// Append an event; the current version and end position become the
    /// larger of their old values and those of the event.
    pub fn add_event(&mut self, event: StoredEvent)
        ensures
            final(self).events@ == old(self).events@.push(event),
            final(self).current_version == (if event.stream_version > old(
                self,
            ).current_version {
                event.stream_version
            } else {
                old(self).current_version
            }),
            final(self).end_position.0 == (if event.global_position.0 > old(
                self,
            ).end_position.0 {
                event.global_position.0
            } else {
                old(self).end_position.0
            }),
            final(self).stream_id == old(self).stream_id,
            final(self).is_complete == old(self).is_complete,
            final(self).start_position == old(self).start_position,
            final(self).read_at == old(self).read_at,
    {
        if event.stream_version > self.current_version {
            self.current_version = event.stream_version;
        }
        if event.global_position.0 > self.end_position.0 {
            self.end_position = event.global_position;
        }
        self.events.push(event);
    }

    /// The number of events.
    pub fn event_count(&self) -> (r: usize)
        ensures
            r == self.events@.len(),
    {
        self.events.len()
    }

    /// Whether the stream holds no event.
    pub fn is_empty(&self) -> (r: bool)
        ensures
            r == (self.events@.len() == 0),
    {
        self.events.len() == 0
    }

    /// The events of type `event_type`, in stream order.
    pub fn events_of_type(&self, event_type: &str) -> (r: Vec<&StoredEvent>)
        ensures
            r@.map_values(|e: &StoredEvent| *e) == self.events@.filter(
                |e: StoredEvent| has_type(e, event_type@),
            ),
    {
        let ghost pred = |e: StoredEvent| has_type(e, event_type@);
        let wanted: String = event_type.to_owned();
        let mut r: Vec<&StoredEvent> = Vec::new();
        let mut i: usize = 0;
        while i < self.events.len()
            invariant
                i <= self.events@.len(),
                wanted@ == event_type@,
                pred == (|e: StoredEvent| has_type(e, event_type@)),
                r@.map_values(|e: &StoredEvent| *e) == self.events@.take(i as int).filter(pred),
            decreases self.events@.len() - i,
        {
            let e = &self.events[i];
            proof {
                lemma_filter_push(self.events@.take(i as int), self.events@[i as int], pred);
                assert(self.events@.take(i as int + 1) =~= self.events@.take(i as int).push(
                    self.events@[i as int],
                ));
            }
            if e.event_type == wanted {
                r.push(e);
            }
            assert(r@.map_values(|e: &StoredEvent| *e) =~= self.events@.take(i as int + 1).filter(
                pred,
            ));
            i = i + 1;
        }
        assert(self.events@.take(i as int) =~= self.events@);
        r
    }

    /// The events whose stream version lies within `start..=end`, in stream
    /// order.
    pub fn events_in_version_range(&self, start: u64, end: u64) -> (r: Vec<&StoredEvent>)
        ensures
            r@.map_values(|e: &StoredEvent| *e) == self.events@.filter(
                |e: StoredEvent| in_version_range(e, start, end),
            ),
    {
        let ghost pred = |e: StoredEvent| in_version_range(e, start, end);
        let mut r: Vec<&StoredEvent> = Vec::new();
        let mut i: usize = 0;
        while i < self.events.len()
            invariant
                i <= self.events@.len(),
                pred == (|e: StoredEvent| in_version_range(e, start, end)),
                r@.map_values(|e: &StoredEvent| *e) == self.events@.take(i as int).filter(pred),
            decreases self.events@.len() - i,
        {
            let e = &self.events[i];
            proof {
                lemma_filter_push(self.events@.take(i as int), self.events@[i as int], pred);
                assert(self.events@.take(i as int + 1) =~= self.events@.take(i as int).push(
                    self.events@[i as int],
                ));
            }
            if e.stream_version >= start && e.stream_version <= end {
                r.push(e);
            }
            assert(r@.map_values(|e: &StoredEvent| *e) =~= self.events@.take(i as int + 1).filter(
                pred,
            ));
            i = i + 1;
        }
        assert(self.events@.take(i as int) =~= self.events@);
        r
    }

    /// The event with the highest stream version; among several, the last.
    pub fn latest_event(&self) -> (r: Option<&StoredEvent>)
        ensures
            match r {
                None => self.events@.len() == 0,
                Some(e) => exists|i: int|
                    0 <= i < self.events@.len() && self.events@[i] == *e && (forall|j: int|
                        0 <= j < self.events@.len() ==> #[trigger] self.events@[j].stream_version
                            <= e.stream_version) && (forall|j: int|
                        i < j < self.events@.len() ==> #[trigger] self.events@[j].stream_version
                            < e.stream_version),
            },
    {
        if self.events.len() == 0 {
            return None;
        }
        let mut best: usize = 0;
        let mut i: usize = 1;
        while i < self.events.len()
            invariant
                1 <= i <= self.events@.len(),
                best < i,
                forall|j: int|
                    0 <= j < i ==> #[trigger] self.events@[j].stream_version
                        <= self.events@[best as int].stream_version,
                forall|j: int|
                    best < j < i ==> #[trigger] self.events@[j].stream_version
                        < self.events@[best as int].stream_version,
            decreases self.events@.len() - i,
        {
            if self.events[i].stream_version >= self.events[best].stream_version {
                best = i;
            }
            i = i + 1;
        }
        Some(&self.events[best])
    }

    /// The event with the lowest stream version; among several, the first.
    pub fn earliest_event(&self) -> (r: Option<&StoredEvent>)
        ensures
            match r {
                None => self.events@.len() == 0,
                Some(e) => exists|i: int|
                    0 <= i < self.events@.len() && self.events@[i] == *e && (forall|j: int|
                        0 <= j < self.events@.len() ==> e.stream_version
                            <= #[trigger] self.events@[j].stream_version) && (forall|j: int|
                        0 <= j < i ==> e.stream_version < #[trigger] self.events@[j].stream_version),
            },
    {
        if self.events.len() == 0 {
            return None;
        }
        let mut best: usize = 0;
        let mut i: usize = 1;
        while i < self.events.len()
            invariant
                1 <= i <= self.events@.len(),
                best < i,
                forall|j: int|
                    0 <= j < i ==> self.events@[best as int].stream_version
                        <= #[trigger] self.events@[j].stream_version,
                forall|j: int|
                    0 <= j < best ==> self.events@[best as int].stream_version
                        < #[trigger] self.events@[j].stream_version,
            decreases self.events@.len() - i,
        {
            if self.events[i].stream_version < self.events[best].stream_version {
                best = i;
            }
            i = i + 1;
        }
        Some(&self.events[best])
    }
}

/// A snapshot of aggregate state at a version. Data and metadata are JSON
/// texts.
#[derive(Debug)]
pub struct Snapshot {
    /// The stream the snapshot belongs to.
    pub stream_id: String,
    /// The version at which the snapshot was taken.
    pub version: u64,
    /// The snapshot data as a JSON text.
    pub data: String,
    /// Additional metadata as a JSON text.
    pub metadata: String,
    /// When the snapshot was created, in milliseconds since the epoch.
    pub created_at: i64,
    /// The type of snapshot.
    pub snapshot_type: String,
    /// Compression used for the data.
    pub compression: Option<String>,
    /// Checksum for data integrity.
    pub checksum: Option<String>,
}

impl Clone for Snapshot {
    fn clone(&self) -> (r: Self)
        ensures
            r == *self,
    {
        Snapshot {
            stream_id: self.stream_id.clone(),
            version: self.version,
            data: self.data.clone(),
            metadata: self.metadata.clone(),
            created_at: self.created_at,
            snapshot_type: self.snapshot_type.clone(),
            compression: clone_opt_string(&self.compression),
            checksum: clone_opt_string(&self.checksum),
        }
    }
}

impl Snapshot {
    /// A new snapshot with empty JSON object metadata, taken now.
    pub fn new(stream_id: &str, version: u64, snapshot_type: &str, data: String) -> (r: Self)
        ensures
            r.stream_id@ == stream_id@,
            r.version == version,
            r.data == data,
            r.metadata@ == "{}"@,
            r.snapshot_type@ == snapshot_type@,
            r.compression is None,
            r.checksum is None,
    {
        Snapshot {
            stream_id: stream_id.to_owned(),
            version,
            data,
            metadata: "{}".to_owned(),
            created_at: now_millis(),
            snapshot_type: snapshot_type.to_owned(),
            compression: None,
            checksum: None,
        }
    }

    /// A new snapshot with the given metadata JSON text, taken now.
    pub fn with_metadata(
        stream_id: &str,
        version: u64,
        snapshot_type: &str,
        data: String,
        metadata: String,
    ) -> (r: Self)
        ensures
            r.stream_id@ == stream_id@,
            r.version == version,
            r.data == data,
            r.metadata == metadata,
            r.snapshot_type@ == snapshot_type@,
            r.compression is None,
            r.checksum is None,
    {
        Snapshot { metadata, ..Self::new(stream_id, version, snapshot_type, data) }
    }

    /// Set the compression information.
    pub fn with_compression(self, compression: &str) -> (r: Self)
        ensures
            r.compression matches Some(c) && c@ == compression@,
            r == (Snapshot { compression: r.compression, ..self }),
    {
        Snapshot { compression: Some(compression.to_owned()), ..self }
    }

    /// Set the checksum.
    pub fn with_checksum(self, checksum: &str) -> (r: Self)
        ensures
            r.checksum matches Some(c) && c@ == checksum@,
            r == (Snapshot { checksum: r.checksum, ..self }),
    {
        Snapshot { checksum: Some(checksum.to_owned()), ..self }
    }

    /// The age of the snapshot at time `now`, in milliseconds.
    pub open spec fn age_when(&self, now: i64) -> int {
        clamp_i64(now - self.created_at)
    }

    /// The age of the snapshot at time `now`, in milliseconds.
    pub fn age_at(&self, now: i64) -> (r: i64)
        ensures
            r == self.age_when(now),
    {
        elapsed_millis(now, self.created_at)
    }

    /// The age of the snapshot now, in milliseconds: its age at the clock's
    /// reading, of which nothing is known.
    pub fn age(&self) -> (r: i64)
        ensures
            exists|now: i64| r == #[trigger] self.age_when(now),
    {
        let now = now_millis();
        let r = self.age_at(now);
        assert(r == self.age_when(now));
        r
    }

    /// Whether the snapshot is at most `max_age` milliseconds old at time
    /// `now`.
    pub fn is_recent_at(&self, max_age: i64, now: i64) -> (r: bool)
        ensures
            r == (self.age_when(now) <= max_age),
    {
        self.age_at(now) <= max_age
    }

    /// Whether the snapshot is at most `max_age` milliseconds old now:
    /// `is_recent_at` applied to the clock's reading.
    pub fn is_recent(&self, max_age: i64) -> (r: bool)
        ensures
            exists|now: i64| r == (#[trigger] self.age_when(now) <= max_age),
    {
        let now = now_millis();
        let r = self.is_recent_at(max_age, now);
        assert(r == (self.age_when(now) <= max_age));
        r
    }
}

/// Direction for reading events.
#[derive(Debug, Clone, Copy, PartialEq, Eq, Structural)]
pub enum ReadDirection {
    /// Chronological order.
    Forward,
    /// Reverse chronological order.
    Backward,
}

/// Event store query parameters. Filter values are JSON texts.
#[derive(Debug, Clone)]
pub struct EventQuery {
    /// Stream to query (`None` for all streams).
    pub stream_id: Option<String>,
    /// Event types to include.
    pub event_types: Option<Vec<String>>,
    /// Start position (inclusive).
    pub start_position: Option<GlobalPosition>,
    /// End position (exclusive).
    pub end_position: Option<GlobalPosition>,
    /// Start version for a specific stream.
    pub start_version: Option<u64>,
    /// End version for a specific stream.
    pub end_version: Option<u64>,
    /// Start time, in milliseconds since the epoch.
    pub start_time: Option<i64>,
    /// End time, in milliseconds since the epoch.
    pub end_time: Option<i64>,
    /// Maximum number of events to return.
    pub limit: Option<usize>,
    /// Direction to read events.
    pub direction: ReadDirection,
    /// Additional filters.
    pub filters: StringMap<String>,
}

impl Default for EventQuery {
    fn default() -> (r: Self)
        ensures
            r.stream_id is None,
            r.event_types is None,
            r.start_position is None,
            r.end_position is None,
            r.start_version is None,
            r.end_version is None,
            r.start_time is None,
            r.end_time is None,
            r.limit is None,
            r.direction == ReadDirection::Forward,
            r.filters.wf(),
            r.filters@ == Map::<Seq<char>, String>::empty(),
    {
        EventQuery {
            stream_id: None,
            event_types: None,
            start_position: None,
            end_position: None,
            start_version: None,
            end_version: None,
            start_time: None,
            end_time: None,
            limit: None,
            direction: ReadDirection::Forward,
            filters: StringMap::new(),
        }
    }
}

/// Result of appending events to a stream.
#[derive(Debug, Clone)]
pub struct AppendResult {
    /// The stream appended to.
    pub stream_id: String,
    /// The version of the stream after appending.
    pub new_version: u64,
    /// The version before appending.
    pub previous_version: u64,
    /// Number of events appended.
    pub events_appended: usize,
    /// Global positions of the appended events.
    pub global_positions: Vec<GlobalPosition>,
    /// When the append completed, in milliseconds since the epoch.
    pub appended_at: i64,
}

} // verus!
