//! In-memory storage behind the mock adapter: published events by topic,
//! the dead letter queue, event streams, snapshots, subscriptions and topic
//! metrics.

use vstd::prelude::*;
use crate::dlq::FailedEvent;
use crate::event::{Event, EventId};
use crate::monitoring::{
    ComponentHealth, ErrorMetrics, Health, HealthStatus, PerformanceMetrics, PublishingMetrics,
    SubscriptionMetrics, TopicMetrics,
};
use crate::platform::{new_uuid_string, now_millis};
use crate::store::{
    clamp_i64, elapsed_millis, lemma_filter_push, EventStream, GlobalPosition, Snapshot, StoredEvent,
};
use crate::string_map::StringMap;
use crate::config::{is_default_policy, RetryPolicy};
use crate::ports::AlertStatus;

verus! {

/// Identifier of a subscription.
pub type SubscriptionId = String;

/// A subscription registered with the mock storage.
#[derive(Debug, Clone)]
pub struct MockSubscription {
    pub id: SubscriptionId,
    pub topic: String,
    pub handler_name: String,
    /// When the subscription was created.
    pub created_at: i64,
    pub events_processed: u64,
    pub events_failed: u64,
    pub is_active: bool,
}

/// The IDs of a sequence of failed events.
pub open spec fn failed_ids(s: Seq<FailedEvent>) -> Seq<Seq<char>> {
    s.map_values(|e: FailedEvent| e.original_event_id@)
}

/// Stream `s` stored under `id`: versions count up from 1, each event names
/// the stream, and global positions are positive, increasing and at most
/// `last_position`.
pub open spec fn stream_wf(id: Seq<char>, s: Seq<StoredEvent>, last_position: u64) -> bool {
    &&& forall|i: int| 0 <= i < s.len() ==> #[trigger] s[i].stream_version == i + 1
    &&& forall|i: int| 0 <= i < s.len() ==> #[trigger] s[i].stream_id@ == id
    &&& forall|i: int|
        0 <= i < s.len() ==> 1 <= #[trigger] s[i].global_position.0 <= last_position
    &&& forall|i: int, j: int|
        0 <= i < j < s.len() ==> #[trigger] s[i].global_position.0
            < #[trigger] s[j].global_position.0
}

/// Snapshots strictly ordered by version.
pub open spec fn snapshots_sorted(s: Seq<Snapshot>) -> bool {
    forall|i: int, j: int| 0 <= i < j < s.len() ==> #[trigger] s[i].version < #[trigger] s[j].version
}

/// `s` keeps at most `k` elements from its front.
pub open spec fn take_at_most<A>(s: Seq<A>, k: int) -> Seq<A> {
    if k < s.len() {
        s.take(k)
    } else {
        s
    }
}

/// The limit `None` stands for no limit.
pub open spec fn limit_of(limit: Option<usize>) -> int {
    match limit {
        Some(n) => n as int,
        None => usize::MAX as int,
    }
}

/// Is the stream version of `e` at least `from`?
pub open spec fn version_at_least(e: StoredEvent, from: u64) -> bool {
    e.stream_version >= from
}

/// The events that reading stream `s` from version `from` with `limit`
/// returns.
pub open spec fn read_selection(s: Seq<StoredEvent>, from: u64, limit: Option<usize>) -> Seq<
    StoredEvent,
> {
    take_at_most(s.filter(|e: StoredEvent| version_at_least(e, from)), limit_of(limit))
}

/// Whole seconds of `ms`, rounded toward zero.
pub open spec fn whole_seconds(ms: int) -> int {
    if ms >= 0 {
        ms / 1000
    } else {
        -((-ms) / 1000)
    }
}

/// The metrics that `update_metrics` records for a topic with
/// `events_count` published events and `dlq_count` dead-lettered events.
pub open spec fn recorded_metrics(
    m: TopicMetrics,
    topic: Seq<char>,
    events_count: int,
    dlq_count: int,
) -> bool {
    &&& m.topic@ == topic
    &&& m.publishing == (PublishingMetrics {
        events_published: events_count as u64,
        events_published_last_minute: 0,
        events_published_last_hour: 0,
        bytes_published: (events_count * 1024) as u64,
        failed_publishes: 0,
    })
    &&& m.subscription == (SubscriptionMetrics {
        events_consumed: events_count as u64,
        events_consumed_last_minute: 0,
        events_consumed_last_hour: 0,
        active_subscriptions: 1,
        consumer_groups: 0,
        lag: 0,
        failed_consumptions: 0,
    })
    &&& m.errors.total_errors == dlq_count
    &&& m.errors.errors_last_minute == 0
    &&& m.errors.errors_last_hour == 0
    &&& m.errors.dlq_events == dlq_count
    &&& m.errors.retry_attempts == 0
    &&& m.errors.successful_retries == 0
    &&& m.errors.failed_retries == dlq_count
    &&& m.errors.common_errors@.len() == 0
    &&& m.performance == (PerformanceMetrics {
        average_latency: 10,
        p95_latency: 20,
        p99_latency: 50,
        max_latency: 100,
        min_latency: 1,
        memory_usage_bytes: 1048576,
    })
}

/// A stored event as appended to stream `id`: `src` with the stream ID,
/// version and position that the store assigns.
pub open spec fn appended_as(
    e: StoredEvent,
    src: StoredEvent,
    id: Seq<char>,
    version: int,
    position: int,
) -> bool {
    &&& e.stream_id@ == id
    &&& e == (StoredEvent {
        stream_id: e.stream_id,
        stream_version: version as u64,
        global_position: GlobalPosition(position as u64),
        ..src
    })
}

/// Is the version of `s` below `v`?
pub open spec fn version_below(s: Snapshot, v: u64) -> bool {
    s.version < v
}

/// Is the version of `s` above `v`?
pub open spec fn version_above(s: Snapshot, v: u64) -> bool {
    s.version > v
}

/// The snapshots of a stream after saving `snap`: those older, then `snap`,
/// then those newer; one with the same version is replaced.
pub open spec fn snapshots_after_save(old_list: Seq<Snapshot>, snap: Snapshot) -> Seq<Snapshot> {
    old_list.filter(|x: Snapshot| version_below(x, snap.version)).push(snap) + old_list.filter(
        |x: Snapshot| version_above(x, snap.version),
    )
}

/// In a well-formed stream the `i`-th event, for `i` below `k`, has a
/// position of at least `i + 1`.
proof fn lemma_stream_positions(id: Seq<char>, s: Seq<StoredEvent>, last_position: u64, k: int)
    requires
        stream_wf(id, s, last_position),
        0 <= k <= s.len(),
    ensures
        forall|i: int| 0 <= i < k ==> #[trigger] s[i].global_position.0 >= i + 1,
    decreases k,
{
    if k > 0 {
        lemma_stream_positions(id, s, last_position, k - 1);
        if k >= 2 {
            assert(s[k - 2].global_position.0 < s[k - 1].global_position.0);
        }
    }
}

/// A well-formed stream is no longer than the last position handed out.
pub proof fn lemma_stream_len_bounded(id: Seq<char>, s: Seq<StoredEvent>, last_position: u64)
    requires
        stream_wf(id, s, last_position),
    ensures
        forall|i: int| 0 <= i < s.len() ==> #[trigger] s[i].global_position.0 >= i + 1,
        s.len() <= last_position,
{
    lemma_stream_positions(id, s, last_position, s.len() as int);
    if s.len() > 0 {
        assert(s[s.len() - 1].global_position.0 >= s.len());
    }
}

/// The health that storage created at `start_time` reports at time `now`:
/// healthy, with one healthy "storage" component checked then, one message,
/// and the uptime in whole seconds.
pub open spec fn storage_health(r: HealthStatus, start_time: i64, now: i64) -> bool {
    &&& r.status == Health::Healthy
    &&& r.components.wf()
    &&& r.components.key_seq() == seq!["storage"@]
    &&& r.components@["storage"@].status == Health::Healthy
    &&& r.components@["storage"@].last_check == now
    &&& r.components@["storage"@].error_message is None
    &&& r.components@["storage"@].metrics@ == Map::<Seq<char>, String>::empty()
    &&& r.checked_at == now
    &&& r.messages@.len() == 1
    &&& r.messages@[0]@ == "Mock PubSub adapter is running"@
    &&& r.uptime_secs == whole_seconds(clamp_i64(now - start_time)) as u64
    &&& r.version@ == "0.1.0-mock"@
}

/// In-memory storage for the mock adapter.
#[derive(Debug)]
pub struct MockStorage {
    /// Published events by topic; payloads are JSON texts.
    pub events: StringMap<Vec<Event<String>>>,
    /// Dead letter queue events by topic.
    pub dlq_events: StringMap<Vec<FailedEvent>>,
    /// Event store streams.
    pub event_streams: StringMap<Vec<StoredEvent>>,
    /// Snapshots by stream ID.
    pub snapshots: StringMap<Vec<Snapshot>>,
    /// Active subscriptions.
    pub subscriptions: StringMap<MockSubscription>,
    /// Metrics by topic.
    pub topic_metrics: StringMap<TopicMetrics>,
    /// The last global position handed out by the event store.
    pub global_position: u64,
    /// When the storage was created, for uptime.
    pub start_time: i64,
    /// Retry policies set for single topics.
    pub retry_policies: StringMap<RetryPolicy>,
    /// The retry policy of topics without one of their own.
    pub default_retry_policy: RetryPolicy,
    /// Configured alerts by ID, in order of creation.
    pub alerts: StringMap<AlertStatus>,
}

impl MockStorage {
    /// The storage's invariant: every map well formed, every stream well
    /// formed, snapshots ordered by version.
    pub open spec fn wf(&self) -> bool {
        &&& self.events.wf()
        &&& self.dlq_events.wf()
        &&& self.event_streams.wf()
        &&& self.snapshots.wf()
        &&& self.subscriptions.wf()
        &&& self.topic_metrics.wf()
        &&& self.retry_policies.wf()
        &&& self.alerts.wf()
        &&& forall|k: Seq<char>| #[trigger]
            self.event_streams@.contains_key(k) ==> stream_wf(
                k,
                self.event_streams@[k]@,
                self.global_position,
            )
        &&& forall|k: Seq<char>| #[trigger]
            self.snapshots@.contains_key(k) ==> snapshots_sorted(self.snapshots@[k]@)
    }

    /// Storage that holds nothing.
    pub open spec fn is_empty_storage(&self) -> bool {
        &&& self.events@ == Map::<Seq<char>, Vec<Event<String>>>::empty()
        &&& self.events.key_seq() == Seq::<Seq<char>>::empty()
        &&& self.dlq_events@ == Map::<Seq<char>, Vec<FailedEvent>>::empty()
        &&& self.dlq_events.key_seq() == Seq::<Seq<char>>::empty()
        &&& self.event_streams@ == Map::<Seq<char>, Vec<StoredEvent>>::empty()
        &&& self.event_streams.key_seq() == Seq::<Seq<char>>::empty()
        &&& self.snapshots@ == Map::<Seq<char>, Vec<Snapshot>>::empty()
        &&& self.subscriptions@ == Map::<Seq<char>, MockSubscription>::empty()
        &&& self.topic_metrics@ == Map::<Seq<char>, TopicMetrics>::empty()
        &&& self.global_position == 0
        &&& self.retry_policies@ == Map::<Seq<char>, RetryPolicy>::empty()
        &&& is_default_policy(self.default_retry_policy)
        &&& self.alerts@ == Map::<Seq<char>, AlertStatus>::empty()
        &&& self.alerts.key_seq() == Seq::<Seq<char>>::empty()
    }

    /// A new, empty storage.
    pub fn new() -> (r: Self)
        ensures
            r.wf(),
            r.is_empty_storage(),
    {
        MockStorage {
            events: StringMap::new(),
            dlq_events: StringMap::new(),
            event_streams: StringMap::new(),
            snapshots: StringMap::new(),
            subscriptions: StringMap::new(),
            topic_metrics: StringMap::new(),
            global_position: 0,
            start_time: now_millis(),
            retry_policies: StringMap::new(),
            default_retry_policy: RetryPolicy::default(),
            alerts: StringMap::new(),
        }
    }

    /// Store an event under `topic`; returns its ID.
    pub fn store_event(&mut self, topic: &str, event: Event<String>) -> (r: EventId)
        requires
            old(self).wf(),
        ensures
            final(self).wf(),
            r == event.id,
            final(self).events@ == old(self).events@.insert(topic@, final(self).events@[topic@]),
            final(self).events.items(topic@) == old(self).events.items(topic@).push(event),
            old(self).events.key_seq().contains(topic@) ==> final(self).events.key_seq() == old(self).events.key_seq(),
            !old(self).events.key_seq().contains(topic@) ==> final(self).events.key_seq() == old(self).events.key_seq().push(topic@),
            *final(self) == (MockStorage { events: final(self).events, ..*old(self) }),
    {
        let event_id = event.id.clone();
        self.events.push_value(topic, event);
        event_id
    }

    /// The events published under `topic`, in publication order.
    pub fn get_events(&self, topic: &str) -> (r: Vec<&Event<String>>)
        requires
            self.wf(),
        ensures
            r@.map_values(|e: &Event<String>| *e) == self.events.items(topic@),
    {
        let mut r: Vec<&Event<String>> = Vec::new();
        match self.events.get(topic) {
            Some(v) => {
                let mut i: usize = 0;
                while i < v.len()
                    invariant
                        i <= v@.len(),
                        r@.map_values(|e: &Event<String>| *e) == v@.take(i as int),
                        r@.len() == i,
                    decreases v@.len() - i,
                {
                    let e = &v[i];
                    r.push(e);
                    assert(r@.map_values(|e: &Event<String>| *e) =~= v@.take(i as int + 1)) by {
                        assert(*e == v@[i as int]);
                        assert(r@[i as int] == e);
                    }
                    i = i + 1;
                }
                assert(v@.take(i as int) =~= v@);
            },
            None => {
                assert(r@.map_values(|e: &Event<String>| *e) =~= Seq::<Event<String>>::empty());
            },
        }
        r
    }

    /// The number of events published under `topic`.
    pub fn event_count(&self, topic: &str) -> (r: usize)
        requires
            self.wf(),
        ensures
            r == self.events.items(topic@).len(),
    {
        match self.events.get(topic) {
            Some(v) => v.len(),
            None => 0,
        }
    }

    /// The topics with published events, in order of first publication.
    pub fn get_topics(&self) -> (r: Vec<String>)
        ensures
            r@.map_values(|s: String| s@) == self.events.key_seq(),
    {
        self.events.keys()
    }

    /// Put a failed event into the dead letter queue of `topic`.
    pub fn store_dlq_event(&mut self, topic: &str, failed_event: FailedEvent)
        requires
            old(self).wf(),
        ensures
            final(self).wf(),
            final(self).dlq_events@ == old(self).dlq_events@.insert(
                topic@,
                final(self).dlq_events@[topic@],
            ),
            final(self).dlq_events.items(topic@) == old(self).dlq_events.items(topic@).push(
                failed_event,
            ),
            old(self).dlq_events.key_seq().contains(topic@) ==> final(self).dlq_events.key_seq()
                == old(self).dlq_events.key_seq(),
            !old(self).dlq_events.key_seq().contains(topic@) ==> final(self).dlq_events.key_seq() == old(self).dlq_events.key_seq().push(topic@),
            *final(self) == (MockStorage { dlq_events: final(self).dlq_events, ..*old(self) }),
    {
        self.dlq_events.push_value(topic, failed_event);
    }

    /// The first `limit` (all, for `None`) dead-lettered events of `topic`.
    pub fn get_dlq_events(&self, topic: &str, limit: Option<usize>) -> (r: Vec<&FailedEvent>)
        requires
            self.wf(),
        ensures
            r@.map_values(|e: &FailedEvent| *e) == take_at_most(
                self.dlq_events.items(topic@),
                limit_of(limit),
            ),
    {
        let lim: usize = match limit {
            Some(n) => n,
            None => usize::MAX,
        };
        let mut r: Vec<&FailedEvent> = Vec::new();
        match self.dlq_events.get(topic) {
            Some(v) => {
                let mut i: usize = 0;
                while i < v.len() && i < lim
                    invariant
                        i <= v@.len(),
                        i <= lim,
                        lim == limit_of(limit),
                        r@.map_values(|e: &FailedEvent| *e) == v@.take(i as int),
                        r@.len() == i,
                    decreases v@.len() - i,
                {
                    let e = &v[i];
                    r.push(e);
                    assert(r@.map_values(|e: &FailedEvent| *e) =~= v@.take(i as int + 1)) by {
                        assert(*e == v@[i as int]);
                        assert(r@[i as int] == e);
                    }
                    i = i + 1;
                }
                if i == v.len() {
                    assert(v@.take(i as int) =~= v@);
                }
            },
            None => {
                assert(r@.map_values(|e: &FailedEvent| *e) =~= Seq::<FailedEvent>::empty());
            },
        }
        r
    }

    /// Remove the first dead-lettered event of `topic` whose ID is
    /// `event_id`. Returns whether one was removed.
    pub fn remove_dlq_event(&mut self, topic: &str, event_id: &str) -> (r: bool)
        requires
            old(self).wf(),
        ensures
            final(self).wf(),
            final(self).dlq_events.key_seq() == old(self).dlq_events.key_seq(),
            r == failed_ids(old(self).dlq_events.items(topic@)).contains(event_id@),
            r ==> final(self).dlq_events@ == old(self).dlq_events@.insert(
                topic@,
                final(self).dlq_events@[topic@],
            ),
            r ==> final(self).dlq_events.items(topic@) == old(self).dlq_events.items(
                topic@,
            ).remove(failed_ids(old(self).dlq_events.items(topic@)).index_of_first(event_id@)->0),
            !r ==> final(self).dlq_events@ == old(self).dlq_events@,
            *final(self) == (MockStorage { dlq_events: final(self).dlq_events, ..*old(self) }),
    {
        proof {
            self.dlq_events.lemma_view();
        }
        match self.dlq_events.find(topic) {
            None => {
                assert(failed_ids(Seq::<FailedEvent>::empty()) =~= Seq::<Seq<char>>::empty());
                false
            },
            Some(t) => {
                let mut v = self.dlq_events.replace_at(t, Vec::new());
                let ghost items = v@;
                let wanted: String = event_id.to_owned();
                let mut i: usize = 0;
                let mut found = false;
                while i < v.len()
                    invariant_except_break
                        i <= v@.len(),
                        v@ == items,
                        !found,
                        wanted@ == event_id@,
                        forall|j: int| 0 <= j < i ==> #[trigger] items[j].original_event_id@ != event_id@,
                    ensures
                        v@ == items,
                        found ==> i < items.len() && items[i as int].original_event_id@ == event_id@
                            && forall|j: int| 0 <= j < i ==> #[trigger] items[j].original_event_id@ != event_id@,
                        !found ==> forall|j: int| 0 <= j < items.len() ==> #[trigger] items[j].original_event_id@ != event_id@,
                    decreases v@.len() - i,
                {
                    if v[i].original_event_id == wanted {
                        found = true;
                        break;
                    }
                    i = i + 1;
                }
                proof {
                    let ids = failed_ids(items);
                    ids.index_of_first_ensures(event_id@);
                    if found {
                        assert(ids[i as int] == event_id@);
                        assert(ids.contains(event_id@));
                        let f = ids.index_of_first(event_id@)->0;
                        if f < i as int {
                            assert(ids[f] == event_id@);
                            assert(items[f].original_event_id@ != event_id@);
                        }
                        assert(f == i as int);
                    } else {
                        assert forall|j: int| 0 <= j < ids.len() implies ids[j] != event_id@ by {
                            assert(items[j].original_event_id@ != event_id@);
                        }
                    }
                }
                if found {
                    v.remove(i);
                }
                self.dlq_events.replace_at(t, v);
                proof {
                    self.dlq_events.lemma_view();
                    if !found {
                        assert(self.dlq_events@ =~= old(self).dlq_events@);
                        assert(self.dlq_events.value_seq() =~= old(self).dlq_events.value_seq());
                    }
                }
                found
            },
        }
    }
}


impl MockStorage {
    /// Hand out the next global position.
    pub fn next_global_position(&mut self) -> (r: GlobalPosition)
        requires
            old(self).wf(),
            old(self).global_position < u64::MAX,
        ensures
            final(self).wf(),
            final(self).global_position == old(self).global_position + 1,
            r.0 == final(self).global_position,
            *final(self) == (MockStorage {
                global_position: final(self).global_position,
                ..*old(self)
            }),
    {
        self.global_position = self.global_position + 1;
        proof {
            assert forall|k: Seq<char>| #[trigger]
                self.event_streams@.contains_key(k) implies stream_wf(
                k,
                self.event_streams@[k]@,
                self.global_position,
            ) by {
                assert(stream_wf(k, old(self).event_streams@[k]@, old(self).global_position));
            }
        }
        GlobalPosition(self.global_position)
    }

    /// Append `events` to stream `stream_id`, creating the stream if needed
    /// (also when `events` is empty). Each event gets the stream ID, the next
    /// stream version and the next global position. Returns the new version
    /// of the stream.
    pub fn append_to_stream(&mut self, stream_id: &str, events: Vec<StoredEvent>) -> (r: u64)
        requires
            old(self).wf(),
            old(self).global_position + events@.len() <= u64::MAX,
        ensures
            final(self).wf(),
            r == old(self).event_streams.items(stream_id@).len() + events@.len(),
            final(self).global_position == old(self).global_position + events@.len(),
            final(self).event_streams@ == old(self).event_streams@.insert(
                stream_id@,
                final(self).event_streams@[stream_id@],
            ),
            final(self).event_streams.items(stream_id@).len() == r,
            forall|i: int|
                0 <= i < old(self).event_streams.items(stream_id@).len() ==> #[trigger] final(self).event_streams.items(stream_id@)[i] == old(self).event_streams.items(
                    stream_id@,
                )[i],
            forall|i: int|
                0 <= i < events@.len() ==> appended_as(
                    #[trigger] final(self).event_streams.items(stream_id@)[old(self).event_streams.items(stream_id@).len() + i],
                    events@[i],
                    stream_id@,
                    old(self).event_streams.items(stream_id@).len() + i + 1,
                    old(self).global_position + i + 1,
                ),
            old(self).event_streams.key_seq().contains(stream_id@) ==> final(self).event_streams.key_seq() == old(self).event_streams.key_seq(),
            !old(self).event_streams.key_seq().contains(stream_id@) ==> final(self).event_streams.key_seq() == old(self).event_streams.key_seq().push(stream_id@),
            *final(self) == (MockStorage {
                event_streams: final(self).event_streams,
                global_position: final(self).global_position,
                ..*old(self)
            }),
    {
        proof {
            self.event_streams.lemma_view();
        }
        let ghost old_items = old(self).event_streams.items(stream_id@);
        let ghost old_gp = old(self).global_position;
        let idx: usize = match self.event_streams.find(stream_id) {
            Some(t) => t,
            None => {
                self.event_streams.insert(stream_id.to_owned(), Vec::new());
                proof {
                    self.event_streams.lemma_view();
                }
                self.event_streams.len() - 1
            },
        };
        proof {
            self.event_streams.lemma_view();
            assert(self.event_streams.key_seq()[idx as int] == stream_id@);
            assert(self.event_streams@[stream_id@]@ == old_items);
            assert(stream_wf(stream_id@, old_items, old_gp));
            lemma_stream_len_bounded(stream_id@, old_items, old_gp);
        }
        let mut stream = self.event_streams.replace_at(idx, Vec::new());
        let ghost mid_streams = self.event_streams;
        proof {
            self.event_streams.lemma_view();
            assert forall|k: Seq<char>| #[trigger]
                self.event_streams@.contains_key(k) implies stream_wf(
                k,
                self.event_streams@[k]@,
                self.global_position,
            ) by {
                if k != stream_id@ {
                    assert(old(self).event_streams@.contains_key(k));
                }
            }
        }
        let mut new_version: u64 = stream.len() as u64;
        let mut i: usize = 0;
        while i < events.len()
            invariant
                i <= events@.len(),
                self.wf(),
                self.event_streams == mid_streams,
                mid_streams@[stream_id@]@ == Seq::<StoredEvent>::empty(),
                mid_streams.key_seq()[idx as int] == stream_id@,
                idx < mid_streams.key_seq().len(),
                self.global_position == old_gp + i,
                old_gp + events@.len() <= u64::MAX,
                old_items.len() <= old_gp,
                new_version == old_items.len() + i,
                stream@.len() == old_items.len() + i,
                stream_wf(stream_id@, stream@, self.global_position),
                forall|j: int| 0 <= j < old_items.len() ==> #[trigger] stream@[j] == old_items[j],
                forall|j: int|
                    0 <= j < i ==> appended_as(
                        #[trigger] stream@[old_items.len() + j],
                        events@[j],
                        stream_id@,
                        old_items.len() + j + 1,
                        old_gp + j + 1,
                    ),
                *self == (MockStorage {
                    event_streams: self.event_streams,
                    global_position: self.global_position,
                    ..*old(self)
                }),
            decreases events@.len() - i,
        {
            new_version = new_version + 1;
            let mut e = events[i].clone();
            e.stream_id = stream_id.to_owned();
            e.stream_version = new_version;
            let pos = self.next_global_position();
            e.global_position = pos;
            let ghost before = stream@;
            stream.push(e);
            proof {
                assert(stream@[stream@.len() - 1] == e);
                assert forall|a: int, b: int|
                    0 <= a < b < stream@.len() implies #[trigger] stream@[a].global_position.0
                    < #[trigger] stream@[b].global_position.0 by {
                    if b < stream@.len() - 1 {
                        assert(stream@[a] == before[a]);
                        assert(stream@[b] == before[b]);
                    } else {
                        assert(stream@[a] == before[a]);
                    }
                }
                assert forall|j: int|
                    0 <= j < i + 1 implies appended_as(
                    #[trigger] stream@[old_items.len() + j],
                    events@[j],
                    stream_id@,
                    old_items.len() + j + 1,
                    old_gp + j + 1,
                ) by {
                    if j < i {
                        assert(stream@[old_items.len() + j] == before[old_items.len() + j]);
                    }
                }
                assert forall|j: int| 0 <= j < stream@.len() implies #[trigger] stream@[j].stream_version == j + 1 by {
                    if j < stream@.len() - 1 {
                        assert(stream@[j] == before[j]);
                    }
                }
                assert forall|j: int| 0 <= j < stream@.len() implies #[trigger] stream@[j].stream_id@ == stream_id@ by {
                    if j < stream@.len() - 1 {
                        assert(stream@[j] == before[j]);
                    }
                }
                assert forall|j: int| 0 <= j < stream@.len() implies 1 <= #[trigger] stream@[j].global_position.0 <= self.global_position by {
                    if j < stream@.len() - 1 {
                        assert(stream@[j] == before[j]);
                    }
                }
            }
            i = i + 1;
        }
        let ghost final_stream = stream@;
        self.event_streams.replace_at(idx, stream);
        proof {
            self.event_streams.lemma_view();
            assert(self.event_streams@[stream_id@]@ == final_stream);
            assert(self.event_streams@ =~= old(self).event_streams@.insert(
                stream_id@,
                self.event_streams@[stream_id@],
            ));
            assert forall|k: Seq<char>| #[trigger]
                self.event_streams@.contains_key(k) implies stream_wf(
                k,
                self.event_streams@[k]@,
                self.global_position,
            ) by {
                if k != stream_id@ {
                    assert(mid_streams@.contains_key(k));
                }
            }
        }
        new_version
    }

    /// Read stream `stream_id` from version `from_version` on, at most
    /// `limit` events (all for `None`).
    pub fn read_stream(&self, stream_id: &str, from_version: u64, limit: Option<usize>) -> (r:
        EventStream)
        requires
            self.wf(),
        ensures
            r.stream_id@ == stream_id@,
            r.events@ == read_selection(
                self.event_streams.items(stream_id@),
                from_version,
                limit,
            ),
            r.events@.len() == 0 ==> r.current_version == 0,
            forall|j: int|
                0 <= j < r.events@.len() ==> #[trigger] r.events@[j].stream_version
                    <= r.current_version,
            r.events@.len() > 0 ==> exists|j: int|
                0 <= j < r.events@.len() && #[trigger] r.events@[j].stream_version
                    == r.current_version,
            r.start_position.0 == (if r.events@.len() == 0 {
                0
            } else {
                r.events@[0].global_position.0
            }),
            r.end_position.0 == (if r.events@.len() == 0 {
                0
            } else {
                r.events@.last().global_position.0
            }),
            r.is_complete == (limit is None),
    {
        let lim: usize = match limit {
            Some(n) => n,
            None => usize::MAX,
        };
        let ghost pred = |e: StoredEvent| version_at_least(e, from_version);
        let ghost items = self.event_streams.items(stream_id@);
        let mut out: Vec<StoredEvent> = Vec::new();
        let mut current_version: u64 = 0;
        match self.event_streams.get(stream_id) {
            Some(v) => {
                let mut i: usize = 0;
                while i < v.len()
                    invariant
                        i <= v@.len(),
                        v@ == items,
                        lim == limit_of(limit),
                        pred == (|e: StoredEvent| version_at_least(e, from_version)),
                        out@ == take_at_most(items.take(i as int).filter(pred), lim as int),
                        out@.len() == 0 ==> current_version == 0,
                        forall|j: int|
                            0 <= j < out@.len() ==> #[trigger] out@[j].stream_version
                                <= current_version,
                        out@.len() > 0 ==> exists|j: int|
                            0 <= j < out@.len() && #[trigger] out@[j].stream_version
                                == current_version,
                    decreases v@.len() - i,
                {
                    let ghost f = items.take(i as int).filter(pred);
                    proof {
                        lemma_filter_push(items.take(i as int), items[i as int], pred);
                        assert(items.take(i as int + 1) =~= items.take(i as int).push(
                            items[i as int],
                        ));
                    }
                    if v[i].stream_version >= from_version && out.len() < lim {
                        let e = v[i].clone();
                        if e.stream_version > current_version {
                            current_version = e.stream_version;
                        }
                        let ghost before = out@;
                        out.push(e);
                        proof {
                            assert(f.len() < lim);
                            assert(take_at_most(f.push(items[i as int]), lim as int) =~= take_at_most(
                                f,
                                lim as int,
                            ).push(items[i as int]));
                            assert forall|j: int|
                                0 <= j < out@.len() implies #[trigger] out@[j].stream_version
                                <= current_version by {
                                if j < before.len() {
                                    assert(out@[j] == before[j]);
                                }
                            }
                            if e.stream_version == current_version {
                                assert(out@[out@.len() - 1].stream_version == current_version);
                            } else {
                                let w = choose|j: int|
                                    0 <= j < before.len() && #[trigger] before[j].stream_version
                                        == current_version;
                                assert(out@[w] == before[w]);
                            }
                        }
                    } else {
                        proof {
                            if version_at_least(items[i as int], from_version) {
                                assert(out@.len() >= lim);
                                assert(f.len() >= lim);
                                assert(take_at_most(f.push(items[i as int]), lim as int) =~= take_at_most(
                                    f,
                                    lim as int,
                                ));
                            }
                        }
                    }
                    i = i + 1;
                }
                assert(items.take(i as int) =~= items);
            },
            None => {
                assert(items =~= Seq::<StoredEvent>::empty());
                assert(items.filter(pred) =~= Seq::<StoredEvent>::empty()) by {
                    reveal_with_fuel(Seq::filter, 1);
                }
                assert(out@ =~= take_at_most(items.filter(pred), lim as int));
            },
        }
        let start_position = if out.len() == 0 {
            GlobalPosition(0)
        } else {
            out[0].global_position
        };
        let end_position = if out.len() == 0 {
            GlobalPosition(0)
        } else {
            out[out.len() - 1].global_position
        };
        EventStream {
            stream_id: stream_id.to_owned(),
            events: out,
            current_version,
            is_complete: limit.is_none(),
            start_position,
            end_position,
            read_at: now_millis(),
        }
    }
}


impl MockStorage {
    /// Save a snapshot under its stream ID, replacing any snapshot of the
    /// same version and keeping the snapshots ordered by version.
    pub fn save_snapshot(&mut self, snapshot: Snapshot)
        requires
            old(self).wf(),
        ensures
            final(self).wf(),
            final(self).snapshots@ == old(self).snapshots@.insert(
                snapshot.stream_id@,
                final(self).snapshots@[snapshot.stream_id@],
            ),
            final(self).snapshots.items(snapshot.stream_id@) == snapshots_after_save(
                old(self).snapshots.items(snapshot.stream_id@),
                snapshot,
            ),
            *final(self) == (MockStorage { snapshots: final(self).snapshots, ..*old(self) }),
    {
        proof {
            self.snapshots.lemma_view();
        }
        let ghost key = snapshot.stream_id@;
        let ghost old_items = old(self).snapshots.items(key);
        let v = snapshot.version;
        let idx: usize = match self.snapshots.find(snapshot.stream_id.as_str()) {
            Some(t) => t,
            None => {
                self.snapshots.insert(snapshot.stream_id.clone(), Vec::new());
                proof {
                    self.snapshots.lemma_view();
                }
                self.snapshots.len() - 1
            },
        };
        proof {
            self.snapshots.lemma_view();
            assert(self.snapshots.key_seq()[idx as int] == key);
            assert(self.snapshots@[key]@ == old_items);
        }
        let old_list = self.snapshots.replace_at(idx, Vec::new());
        let ghost below = |x: Snapshot| version_below(x, v);
        let ghost above = |x: Snapshot| version_above(x, v);
        let mut lower: Vec<Snapshot> = Vec::new();
        let mut upper: Vec<Snapshot> = Vec::new();
        let mut i: usize = 0;
        while i < old_list.len()
            invariant
                i <= old_list@.len(),
                old_list@ == old_items,
                below == (|x: Snapshot| version_below(x, v)),
                above == (|x: Snapshot| version_above(x, v)),
                lower@ == old_items.take(i as int).filter(below),
                upper@ == old_items.take(i as int).filter(above),
                snapshots_sorted(old_items),
                snapshots_sorted(lower@),
                snapshots_sorted(upper@),
                forall|a: int| 0 <= a < lower@.len() ==> #[trigger] lower@[a].version < v,
                forall|a: int| 0 <= a < upper@.len() ==> #[trigger] upper@[a].version > v,
                lower@.len() > 0 ==> i > 0 && lower@.last().version <= old_items[i - 1].version,
                upper@.len() > 0 ==> i > 0 && upper@.last().version <= old_items[i - 1].version,
            decreases old_list@.len() - i,
        {
            proof {
                if i > 0 {
                    assert(old_items[i - 1].version < old_items[i as int].version);
                }
            }
            proof {
                lemma_filter_push(old_items.take(i as int), old_items[i as int], below);
                lemma_filter_push(old_items.take(i as int), old_items[i as int], above);
                assert(old_items.take(i as int + 1) =~= old_items.take(i as int).push(
                    old_items[i as int],
                ));
            }
            let ghost lo_before = lower@;
            let ghost hi_before = upper@;
            if old_list[i].version < v {
                lower.push(old_list[i].clone());
                proof {
                    assert forall|a: int, b: int| 0 <= a < b < lower@.len() implies #[trigger] lower@[a].version
                        < #[trigger] lower@[b].version by {
                        if b < lower@.len() - 1 {
                            assert(lower@[a] == lo_before[a] && lower@[b] == lo_before[b]);
                        } else {
                            assert(lower@[a] == lo_before[a]);
                            if a < lo_before.len() - 1 {
                                assert(lo_before[a].version < lo_before.last().version);
                            }
                        }
                    }
                }
            } else if old_list[i].version > v {
                upper.push(old_list[i].clone());
                proof {
                    assert forall|a: int, b: int| 0 <= a < b < upper@.len() implies #[trigger] upper@[a].version
                        < #[trigger] upper@[b].version by {
                        if b < upper@.len() - 1 {
                            assert(upper@[a] == hi_before[a] && upper@[b] == hi_before[b]);
                        } else {
                            assert(upper@[a] == hi_before[a]);
                            if a < hi_before.len() - 1 {
                                assert(hi_before[a].version < hi_before.last().version);
                            }
                        }
                    }
                }
            }
            i = i + 1;
        }
        proof {
            assert(old_items.take(i as int) =~= old_items);
        }
        let mut list = lower;
        list.push(snapshot);
        let ghost with_new = list@;
        let mut rest = upper;
        list.append(&mut rest);
        proof {
            assert(list@ == snapshots_after_save(old_items, snapshot));
            assert(snapshots_sorted(old_items));
            let n = with_new.len() - 1;
            assert forall|a: int, b: int| 0 <= a < b < list@.len() implies #[trigger] list@[a].version
                < #[trigger] list@[b].version by {
                if b < n {
                    assert(list@[a] == lower@[a] && list@[b] == lower@[b]);
                } else if b == n {
                    assert(list@[a] == lower@[a]);
                } else if a < n {
                    assert(list@[a] == lower@[a]);
                    assert(list@[b] == upper@[b - n - 1]);
                } else if a == n {
                    assert(list@[b] == upper@[b - n - 1]);
                } else {
                    assert(list@[a] == upper@[a - n - 1]);
                    assert(list@[b] == upper@[b - n - 1]);
                }
            }
        }
        self.snapshots.replace_at(idx, list);
        proof {
            self.snapshots.lemma_view();
            assert(self.snapshots@ =~= old(self).snapshots@.insert(key, self.snapshots@[key]));
            assert forall|k: Seq<char>| #[trigger]
                self.snapshots@.contains_key(k) implies snapshots_sorted(self.snapshots@[k]@) by {
                if k != key {
                    assert(old(self).snapshots@.contains_key(k));
                }
            }
        }
    }
}


/// `x` is the last snapshot of greatest version in `s`.
pub open spec fn is_latest_snapshot(s: Seq<Snapshot>, x: Snapshot) -> bool {
    exists|i: int|
        0 <= i < s.len() && s[i] == x && (forall|j: int|
            0 <= j < s.len() ==> #[trigger] s[j].version <= x.version) && (forall|j: int|
            i < j < s.len() ==> #[trigger] s[j].version < x.version)
}

/// The subscription that `add_subscription` records.
pub open spec fn new_subscription(
    s: MockSubscription,
    id: Seq<char>,
    topic: Seq<char>,
    handler_name: Seq<char>,
) -> bool {
    &&& s.id@ == id
    &&& s.topic@ == topic
    &&& s.handler_name@ == handler_name
    &&& s.events_processed == 0
    &&& s.events_failed == 0
    &&& s.is_active
}

impl MockStorage {
    /// The snapshot of `stream_id` with the greatest version (the last of
    /// them, should versions repeat), if any.
    pub fn load_latest_snapshot(&self, stream_id: &str) -> (r: Option<Snapshot>)
        requires
            self.wf(),
        ensures
            match r {
                None => self.snapshots.items(stream_id@).len() == 0,
                Some(x) => is_latest_snapshot(self.snapshots.items(stream_id@), x),
            },
    {
        match self.snapshots.get(stream_id) {
            None => None,
            Some(v) => {
                if v.len() == 0 {
                    return None;
                }
                let mut best: usize = 0;
                let mut i: usize = 1;
                while i < v.len()
                    invariant
                        1 <= i <= v@.len(),
                        best < i,
                        forall|j: int|
                            0 <= j < i ==> #[trigger] v@[j].version <= v@[best as int].version,
                        forall|j: int|
                            best < j < i ==> #[trigger] v@[j].version < v@[best as int].version,
                    decreases v@.len() - i,
                {
                    if v[i].version >= v[best].version {
                        best = i;
                    }
                    i = i + 1;
                }
                let x = v[best].clone();
                assert(v@[best as int] == x);
                Some(x)
            },
        }
    }

    /// Record a subscription of `handler_name` to `topic` under a fresh ID,
    /// created now; returns the ID.
    pub fn add_subscription(&mut self, topic: &str, handler_name: &str) -> (r: SubscriptionId)
        requires
            old(self).wf(),
        ensures
            final(self).wf(),
            r@.len() == 36,
            final(self).subscriptions@ == old(self).subscriptions@.insert(
                r@,
                final(self).subscriptions@[r@],
            ),
            new_subscription(final(self).subscriptions@[r@], r@, topic@, handler_name@),
            *final(self) == (MockStorage { subscriptions: final(self).subscriptions, ..*old(self) }),
    {
        let subscription_id = new_uuid_string();
        let subscription = MockSubscription {
            id: subscription_id.clone(),
            topic: topic.to_owned(),
            handler_name: handler_name.to_owned(),
            created_at: now_millis(),
            events_processed: 0,
            events_failed: 0,
            is_active: true,
        };
        self.subscriptions.insert(subscription_id.clone(), subscription);
        subscription_id
    }

    /// Remove a subscription; returns whether it existed.
    pub fn remove_subscription(&mut self, subscription_id: &str) -> (r: bool)
        requires
            old(self).wf(),
        ensures
            final(self).wf(),
            r == old(self).subscriptions@.contains_key(subscription_id@),
            final(self).subscriptions@ == old(self).subscriptions@.remove(subscription_id@),
            *final(self) == (MockStorage { subscriptions: final(self).subscriptions, ..*old(self) }),
    {
        self.subscriptions.remove(subscription_id).is_some()
    }

    /// Record the metrics of `topic`: its published and dead-lettered event
    /// counts, with fixed placeholder figures elsewhere, collected now.
    pub fn update_metrics(&mut self, topic: &str)
        requires
            old(self).wf(),
            old(self).events.items(topic@).len() * 1024 <= u64::MAX,
        ensures
            final(self).wf(),
            final(self).topic_metrics@ == old(self).topic_metrics@.insert(
                topic@,
                final(self).topic_metrics@[topic@],
            ),
            recorded_metrics(
                final(self).topic_metrics@[topic@],
                topic@,
                old(self).events.items(topic@).len() as int,
                old(self).dlq_events.items(topic@).len() as int,
            ),
            *final(self) == (MockStorage { topic_metrics: final(self).topic_metrics, ..*old(self) }),
    {
        let events_count: u64 = self.event_count(topic) as u64;
        let dlq_count: u64 = match self.dlq_events.get(topic) {
            Some(v) => v.len() as u64,
            None => 0,
        };
        let metrics = TopicMetrics {
            topic: topic.to_owned(),
            publishing: PublishingMetrics {
                events_published: events_count,
                events_published_last_minute: 0,
                events_published_last_hour: 0,
                bytes_published: events_count * 1024,
                failed_publishes: 0,
            },
            subscription: SubscriptionMetrics {
                events_consumed: events_count,
                events_consumed_last_minute: 0,
                events_consumed_last_hour: 0,
                active_subscriptions: 1,
                consumer_groups: 0,
                lag: 0,
                failed_consumptions: 0,
            },
            errors: ErrorMetrics {
                total_errors: dlq_count,
                errors_last_minute: 0,
                errors_last_hour: 0,
                dlq_events: dlq_count,
                retry_attempts: 0,
                successful_retries: 0,
                failed_retries: dlq_count,
                common_errors: Vec::new(),
            },
            performance: PerformanceMetrics {
                average_latency: 10,
                p95_latency: 20,
                p99_latency: 50,
                max_latency: 100,
                min_latency: 1,
                memory_usage_bytes: 1024 * 1024,
            },
            collected_at: now_millis(),
        };
        self.topic_metrics.insert(topic.to_owned(), metrics);
    }

    /// The health of the storage at time `now`: healthy, with one healthy
    /// "storage" component, uptime in whole seconds since creation.
    pub fn health_status_at(&self, now: i64) -> (r: HealthStatus)
        ensures
            storage_health(r, self.start_time, now),
    {
        let uptime_ms = elapsed_millis(now, self.start_time);
        let wide: i128 = uptime_ms as i128;
        let secs: i128 = if wide >= 0 {
            wide / 1000
        } else {
            -((-wide) / 1000)
        };
        let uptime_secs: u64 = secs as u64;
        let mut components: StringMap<ComponentHealth> = StringMap::new();
        components.insert(
            "storage".to_owned(),
            ComponentHealth {
                status: Health::Healthy,
                last_check: now,
                error_message: None,
                metrics: StringMap::new(),
            },
        );
        proof {
            components.lemma_view();
        }
        let mut messages: Vec<String> = Vec::new();
        messages.push("Mock PubSub adapter is running".to_owned());
        HealthStatus {
            status: Health::Healthy,
            components,
            checked_at: now,
            messages,
            uptime_secs,
            version: "0.1.0-mock".to_owned(),
        }
    }

    /// The health of the storage now: `health_status_at` at the clock's
    /// reading.
    pub fn get_health_status(&self) -> (r: HealthStatus)
        ensures
            storage_health(r, self.start_time, r.checked_at),
    {
        self.health_status_at(now_millis())
    }

    /// Remove all data and reset the global position to 0.
    pub fn clear(&mut self)
        ensures
            final(self).wf(),
            final(self).is_empty_storage(),
            final(self).start_time == old(self).start_time,
    {
        self.events.clear();
        self.dlq_events.clear();
        self.event_streams.clear();
        self.snapshots.clear();
        self.subscriptions.clear();
        self.topic_metrics.clear();
        self.global_position = 0;
        self.retry_policies.clear();
        self.default_retry_policy = RetryPolicy::default();
        self.alerts.clear();
    }
}

impl Default for MockStorage {
    fn default() -> (r: Self)
        ensures
            r.wf(),
            r.is_empty_storage(),
    {
        MockStorage::new()
    }
}

} // verus!
