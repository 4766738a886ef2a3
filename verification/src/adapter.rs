//! The in-memory adapter: every operation of the publish/subscribe ports
//! over `MockStorage`. Payloads arrive as the outcome of serializing them:
//! `Ok` with the JSON text, or `Err` with the serializer's message.

use vstd::prelude::*;
use crate::error::{PubSubError, PubSubResult};
use crate::event::{
    generate_event_id, is_some_text, metadata_defaults_except_names, Event, EventId,
    EventMetadata, TopicEvent, TransactionId,
};
use crate::store::{clone_opt_string, lemma_filter_push, EventStream, GlobalPosition, Snapshot, StoredEvent};
use crate::platform::{new_uuid_string, now_millis};
use crate::dlq::{same_failed_event, DlqStats, FailedEvent, FailureReason};
use crate::dlq_manager::{
    attempts_total, csv_row, csv_text, event_type_keys, failure_age, handler_keys, handler_of,
    is_dlq_stats_of, reason_keys, MockDlqManager,
};
use crate::config::{is_default_policy, policy_defaults_except, same_policy, BackoffStrategy, RetryPolicy};
use crate::monitoring::{
    same_topic_metrics, ConnectionStatus, ErrorMetrics, GlobalMetrics, HealthStatus,
    PerformanceMetrics, PoolStats, PublishingMetrics, SubscriptionMetrics, SystemMetrics,
    TopicMetrics, TraceFormat,
};
use crate::ports::{AlertId, AlertStatus, DlqRetryResult, ExportFormat, RetryResult, StreamMetadata};
use crate::storage::{
    failed_ids, is_latest_snapshot, limit_of, new_subscription, read_selection, recorded_metrics,
    snapshots_after_save, snapshots_sorted, storage_health, stream_wf, take_at_most, appended_as,
    MockStorage, MockSubscription, SubscriptionId,
};
use crate::subscription::{
    generate_subscription_id, SubscriptionHealth, SubscriptionOptions, SubscriptionState,
    SubscriptionStatus,
};
use crate::string_map::StringMap;

verus! {

/// The message of the error for a payload that could not be serialized.
pub open spec fn serialize_failure_text(detail: Seq<char>) -> Seq<char> {
    "Failed to serialize event: "@ + detail
}

/// The error for a payload that could not be serialized.
pub fn serialization_failure(detail: &str) -> (r: PubSubError)
    ensures
        r.is_serialization(serialize_failure_text(detail@)),
{
    let mut message = "Failed to serialize event: ".to_owned();
    message.append(detail);
    PubSubError::serialization(message.as_str())
}

/// The error that a simulated publish failure gives.
pub fn simulated_publish_failure() -> (r: PubSubError)
    ensures
        r.is_network("Simulated publish failure"@),
{
    PubSubError::network("Simulated publish failure")
}

/// `e` is the event that publishing `payload` on `topic` stores: a fresh ID,
/// default metadata apart from the partition key, no headers.
pub open spec fn is_published_event(
    e: Event<String>,
    topic: Seq<char>,
    payload: String,
    partition_key: Option<Seq<char>>,
) -> bool {
    &&& e.id@.len() == 36
    &&& e.topic@ == topic
    &&& e.payload == payload
    &&& metadata_defaults_except_names(EventMetadata { partition_key: None, ..e.metadata })
    &&& e.metadata.source@ == "unknown"@
    &&& e.metadata.event_type@ == "unknown"@
    &&& match partition_key {
        Some(k) => e.metadata.partition_key matches Some(p) && p@ == k,
        None => e.metadata.partition_key is None,
    }
    &&& e.headers.wf()
    &&& e.headers@ == Map::<Seq<char>, String>::empty()
}

/// The text of an optional partition key.
pub open spec fn key_text(key: Option<String>) -> Option<Seq<char>> {
    match key {
        Some(k) => Some(k@),
        None => None,
    }
}

/// How many of the first `k` entries of `batch` go to `topic`.
pub open spec fn batch_count<T>(batch: Seq<TopicEvent<T>>, k: int, topic: Seq<char>) -> nat
    decreases k,
{
    if k <= 0 {
        0
    } else {
        batch_count(batch, k - 1, topic) + (if batch[k - 1].topic@ == topic {
            1nat
        } else {
            0nat
        })
    }
}

/// A batch counts no more entries for a topic than it has, and counts
/// more the further it goes.
pub proof fn lemma_batch_count_bounds<T>(batch: Seq<TopicEvent<T>>, a: int, b: int, topic: Seq<char>)
    requires
        0 <= a <= b,
    ensures
        batch_count(batch, a, topic) <= batch_count(batch, b, topic),
        batch_count(batch, b, topic) <= b,
        batch_count(batch, b, topic) - batch_count(batch, a, topic) <= b - a,
    decreases b,
{
    if b > a {
        lemma_batch_count_bounds(batch, a, b - 1, topic);
    } else if b > 0 {
        lemma_batch_count_bounds(batch, 0, b - 1, topic);
    }
}

/// The first `k` payloads of `batch` were serialized.
pub open spec fn serialized_prefix(batch: Seq<TopicEvent<Result<String, String>>>, k: int) -> bool {
    forall|j: int| 0 <= j < k ==> (#[trigger] batch[j]).event is Ok
}

/// Entry `k` of `batch` is the first whose payload could not be serialized.
pub open spec fn first_failure_at(batch: Seq<TopicEvent<Result<String, String>>>, k: int) -> bool {
    &&& 0 <= k < batch.len()
    &&& serialized_prefix(batch, k)
    &&& batch[k].event is Err
}

/// The event that publishing entry `j` of `batch` stored in `after`,
/// starting from `before`.
pub open spec fn batch_entry<T>(
    before: MockPubSubAdapter,
    after: MockPubSubAdapter,
    batch: Seq<TopicEvent<T>>,
    j: int,
) -> Event<String> {
    let t = batch[j].topic@;
    after.published(t)[(before.published(t).len() + batch_count(batch, j, t)) as int]
}

/// `after` is `before` with the first `k` entries of `batch` published, in
/// order: each topic got its entries appended, each as a new event with the
/// entry's payload and partition key, and its metrics recorded; nothing else
/// changed.
pub open spec fn batch_published(
    before: MockPubSubAdapter,
    after: MockPubSubAdapter,
    batch: Seq<TopicEvent<Result<String, String>>>,
    k: int,
) -> bool {
    &&& forall|t: Seq<char>|
        #![trigger after.published(t)]
        after.published(t).len() == before.published(t).len() + batch_count(batch, k, t)
            && after.published(t).take(before.published(t).len() as int) == before.published(t)
    &&& forall|j: int|
        0 <= j < k ==> is_published_event(
            #[trigger] batch_entry(before, after, batch, j),
            batch[j].topic@,
            batch[j].event->Ok_0,
            key_text(batch[j].partition_key),
        )
    &&& forall|t: Seq<char>|
        #![trigger after.storage.topic_metrics@.contains_key(t)]
        batch_count(batch, k, t) > 0 ==> after.storage.topic_metrics@.contains_key(t)
            && crate::storage::recorded_metrics(
            after.storage.topic_metrics@[t],
            t,
            after.published(t).len() as int,
            before.storage.dlq_events.items(t).len() as int,
        )
    &&& forall|t: Seq<char>|
        #![trigger after.storage.topic_metrics.lookup(t)]
        batch_count(batch, k, t) == 0 ==> after.storage.topic_metrics.lookup(t)
            == before.storage.topic_metrics.lookup(t)
    &&& after.storage == (MockStorage {
        events: after.storage.events,
        topic_metrics: after.storage.topic_metrics,
        ..before.storage
    })
}

/// The in-memory adapter.
#[derive(Debug)]
pub struct MockPubSubAdapter {
    /// All stored data.
    pub storage: MockStorage,
}

impl MockPubSubAdapter {
    /// The adapter's invariant.
    pub open spec fn wf(&self) -> bool {
        self.storage.wf()
    }

    /// The events published under `topic`.
    pub open spec fn published(&self, topic: Seq<char>) -> Seq<Event<String>> {
        self.storage.events.items(topic)
    }

    /// Room to publish `n` more events under `topic` without overflowing
    /// its byte estimate.
    pub open spec fn room_for(&self, topic: Seq<char>, n: int) -> bool {
        (self.published(topic).len() + n) * 1024 <= u64::MAX
    }

    /// A new adapter with empty storage.
    pub fn new() -> (r: Self)
        ensures
            r.wf(),
            r.storage.is_empty_storage(),
    {
        MockPubSubAdapter { storage: MockStorage::new() }
    }

    /// Remove all stored data.
    pub fn clear(&mut self)
        ensures
            final(self).wf(),
            final(self).storage.is_empty_storage(),
    {
        self.storage.clear();
    }

    /// The number of events published under `topic`.
    pub fn event_count(&self, topic: &str) -> (r: usize)
        requires
            self.wf(),
        ensures
            r == self.published(topic@).len(),
    {
        self.storage.event_count(topic)
    }

    /// Whether any event was published under `topic`.
    pub fn topic_exists(&self, topic: &str) -> (r: bool)
        requires
            self.wf(),
        ensures
            r == (self.published(topic@).len() > 0),
    {
        self.storage.event_count(topic) > 0
    }

    /// The topics with published events, in order of first publication.
    pub fn get_topics(&self) -> (r: Vec<String>)
        ensures
            r@.map_values(|s: String| s@) == self.storage.events.key_seq(),
    {
        self.storage.get_topics()
    }

    /// Store one event and refresh the metrics of its topic.
    fn store_and_measure(&mut self, topic: &str, event: Event<String>) -> (r: EventId)
        requires
            old(self).wf(),
            old(self).room_for(topic@, 1),
        ensures
            final(self).wf(),
            r == event.id,
            final(self).storage.events@ == old(self).storage.events@.insert(
                topic@,
                final(self).storage.events@[topic@],
            ),
            final(self).published(topic@) == old(self).published(topic@).push(event),
            final(self).storage.events.key_seq() == (if old(self).storage.events.key_seq().contains(
                topic@,
            ) {
                old(self).storage.events.key_seq()
            } else {
                old(self).storage.events.key_seq().push(topic@)
            }),
            final(self).storage.topic_metrics@ == old(self).storage.topic_metrics@.insert(
                topic@,
                final(self).storage.topic_metrics@[topic@],
            ),
            crate::storage::recorded_metrics(
                final(self).storage.topic_metrics@[topic@],
                topic@,
                final(self).published(topic@).len() as int,
                old(self).storage.dlq_events.items(topic@).len() as int,
            ),
            final(self).storage == (MockStorage {
                events: final(self).storage.events,
                topic_metrics: final(self).storage.topic_metrics,
                ..old(self).storage
            }),
    {
        let event_id = self.storage.store_event(topic, event);
        self.storage.update_metrics(topic);
        event_id
    }

    /// Publish the JSON text `json` on `topic` as a new event with partition
    /// key `key`.
    fn publish_json(&mut self, topic: &str, json: String, key: Option<String>) -> (r: EventId)
        requires
            old(self).wf(),
            old(self).room_for(topic@, 1),
        ensures
            final(self).wf(),
            r == final(self).published(topic@).last().id,
            final(self).published(topic@) == old(self).published(topic@).push(
                final(self).published(topic@).last(),
            ),
            is_published_event(final(self).published(topic@).last(), topic@, json, key_text(key)),
            final(self).storage.events@ == old(self).storage.events@.insert(
                topic@,
                final(self).storage.events@[topic@],
            ),
            final(self).storage.topic_metrics@ == old(self).storage.topic_metrics@.insert(
                topic@,
                final(self).storage.topic_metrics@[topic@],
            ),
            crate::storage::recorded_metrics(
                final(self).storage.topic_metrics@[topic@],
                topic@,
                final(self).published(topic@).len() as int,
                old(self).storage.dlq_events.items(topic@).len() as int,
            ),
            final(self).storage == (MockStorage {
                events: final(self).storage.events,
                topic_metrics: final(self).storage.topic_metrics,
                ..old(self).storage
            }),
    {
        let mut event = Event::new(topic, json);
        event.metadata.partition_key = key;
        self.store_and_measure(topic, event)
    }

    /// Publish `payload` on `topic` as a new event; a payload that could not
    /// be serialized gives a serialization error and changes nothing.
    pub fn publish(&mut self, topic: &str, payload: Result<String, String>) -> (r: PubSubResult<
        EventId,
    >)
        requires
            old(self).wf(),
            old(self).room_for(topic@, 1),
        ensures
            final(self).wf(),
            match payload {
                Err(detail) => {
                    &&& r matches Err(e) && e.is_serialization(serialize_failure_text(detail@))
                    &&& *final(self) == *old(self)
                },
                Ok(json) => {
                    &&& r matches Ok(id) && id == final(self).published(topic@).last().id
                    &&& final(self).published(topic@).len() == old(self).published(topic@).len() + 1
                    &&& final(self).published(topic@).drop_last() == old(self).published(topic@)
                    &&& is_published_event(final(self).published(topic@).last(), topic@, json, None)
                    &&& final(self).storage.events@ == old(self).storage.events@.insert(
                        topic@,
                        final(self).storage.events@[topic@],
                    )
                    &&& crate::storage::recorded_metrics(
                        final(self).storage.topic_metrics@[topic@],
                        topic@,
                        final(self).published(topic@).len() as int,
                        old(self).storage.dlq_events.items(topic@).len() as int,
                    )
                },
            },
    {
        match payload {
            Err(detail) => Err(serialization_failure(detail.as_str())),
            Ok(json) => {
                let id = self.publish_json(topic, json, None);
                assert(self.published(topic@).drop_last() =~= old(self).published(topic@));
                Ok(id)
            },
        }
    }

    /// Publish `payload` on `topic` with partition key `key`.
    pub fn publish_with_key(&mut self, topic: &str, key: &str, payload: Result<String, String>) -> (r:
        PubSubResult<EventId>)
        requires
            old(self).wf(),
            old(self).room_for(topic@, 1),
        ensures
            final(self).wf(),
            match payload {
                Err(detail) => {
                    &&& r matches Err(e) && e.is_serialization(serialize_failure_text(detail@))
                    &&& *final(self) == *old(self)
                },
                Ok(json) => {
                    &&& r matches Ok(id) && id == final(self).published(topic@).last().id
                    &&& final(self).published(topic@).len() == old(self).published(topic@).len() + 1
                    &&& final(self).published(topic@).drop_last() == old(self).published(topic@)
                    &&& is_published_event(
                        final(self).published(topic@).last(),
                        topic@,
                        json,
                        Some(key@),
                    )
                    &&& final(self).storage.events@ == old(self).storage.events@.insert(
                        topic@,
                        final(self).storage.events@[topic@],
                    )
                },
            },
    {
        match payload {
            Err(detail) => Err(serialization_failure(detail.as_str())),
            Ok(json) => {
                let id = self.publish_json(topic, json, Some(key.to_owned()));
                assert(self.published(topic@).drop_last() =~= old(self).published(topic@));
                Ok(id)
            },
        }
    }

    /// Publish the entries of `batch` in order. At the first payload that
    /// could not be serialized publishing stops with a serialization error;
    /// the entries before it stay published.
    pub fn publish_batch(&mut self, batch: Vec<TopicEvent<Result<String, String>>>) -> (r:
        PubSubResult<Vec<EventId>>)
        requires
            old(self).wf(),
            forall|j: int|
                0 <= j < batch@.len() ==> old(self).room_for(
                    (#[trigger] batch@[j]).topic@,
                    batch@.len() as int,
                ),
        ensures
            final(self).wf(),
            match r {
                Ok(ids) => {
                    &&& serialized_prefix(batch@, batch@.len() as int)
                    &&& batch_published(*old(self), *final(self), batch@, batch@.len() as int)
                    &&& ids@.len() == batch@.len()
                    &&& forall|j: int|
                        0 <= j < ids@.len() ==> #[trigger] ids@[j] == batch_entry(
                            *old(self),
                            *final(self),
                            batch@,
                            j,
                        ).id
                },
                Err(e) => exists|k: int|
                    #[trigger] first_failure_at(batch@, k) && e.is_serialization(
                        serialize_failure_text(batch@[k].event->Err_0@),
                    ) && batch_published(*old(self), *final(self), batch@, k),
            },
    {
        let n = batch.len();
        let mut ids: Vec<EventId> = Vec::new();
        let mut i: usize = 0;
        proof {
            assert forall|t: Seq<char>| #[trigger]
                self.published(t).take(old(self).published(t).len() as int) == old(self).published(t) by {
                assert(self.published(t).take(old(self).published(t).len() as int) =~= old(self).published(t));
            }
        }
        while i < n
            invariant
                n == batch@.len(),
                i <= n,
                self.wf(),
                ids@.len() == i,
                serialized_prefix(batch@, i as int),
                batch_published(*old(self), *self, batch@, i as int),
                forall|j: int|
                    0 <= j < i ==> #[trigger] ids@[j] == batch_entry(*old(self), *self, batch@, j).id,
                forall|j: int|
                    0 <= j < batch@.len() ==> old(self).room_for(
                        (#[trigger] batch@[j]).topic@,
                        batch@.len() as int,
                    ),
            decreases n - i,
        {
            let entry = &batch[i];
            let ghost t0 = entry.topic@;
            let ghost before = *self;
            match &entry.event {
                Err(detail) => {
                    let e = serialization_failure(detail.as_str());
                    assert(first_failure_at(batch@, i as int));
                    return Err(e);
                },
                Ok(json) => {
                    proof {
                        lemma_batch_count_bounds(batch@, i as int, i as int, t0);
                        assert(old(self).room_for(batch@[i as int].topic@, n as int));
                    }
                    let key = clone_opt_string(&entry.partition_key);
                    let id = self.publish_json(entry.topic.as_str(), json.clone(), key);
                    ids.push(id);
                    proof {
                        let after = *self;
                        assert forall|t: Seq<char>|
                            #![trigger after.published(t)]
                            after.published(t).len() == old(self).published(t).len()
                                + batch_count(batch@, i + 1, t) && after.published(t).take(
                                old(self).published(t).len() as int,
                            ) == old(self).published(t) by {
                            assert(before.published(t).len() == old(self).published(t).len()
                                + batch_count(batch@, i as int, t));
                            assert(before.published(t).take(old(self).published(t).len() as int)
                                == old(self).published(t));
                            if t == t0 {
                                assert(after.published(t).take(
                                    old(self).published(t).len() as int,
                                ) =~= before.published(t).take(
                                    old(self).published(t).len() as int,
                                ));
                            } else {
                                assert(after.published(t) == before.published(t));
                            }
                        }
                        assert forall|j: int| 0 <= j < i + 1 implies is_published_event(
                            #[trigger] batch_entry(*old(self), after, batch@, j),
                            batch@[j].topic@,
                            batch@[j].event->Ok_0,
                            key_text(batch@[j].partition_key),
                        ) && ids@[j] == batch_entry(*old(self), after, batch@, j).id by {
                            let tj = batch@[j].topic@;
                            if j < i {
                                assert(is_published_event(
                                    batch_entry(*old(self), before, batch@, j),
                                    batch@[j].topic@,
                                    batch@[j].event->Ok_0,
                                    key_text(batch@[j].partition_key),
                                ));
                                lemma_batch_count_bounds(batch@, j + 1, i as int, tj);
                                assert(before.published(tj).len() == old(self).published(tj).len()
                                    + batch_count(batch@, i as int, tj));
                                if tj == t0 {
                                    let m = (old(self).published(tj).len() + batch_count(batch@, j, tj)) as int;
                                    assert(after.published(tj)[m] == before.published(tj)[m]);
                                } else {
                                    assert(after.published(tj) == before.published(tj));
                                }
                            } else {
                                assert(before.published(t0).len() == old(self).published(t0).len()
                                    + batch_count(batch@, i as int, t0));
                                assert(batch_entry(*old(self), after, batch@, j)
                                    == after.published(t0).last());
                            }
                        }
                        assert forall|t: Seq<char>|
                            #![trigger after.storage.topic_metrics@.contains_key(t)]
                            batch_count(batch@, i + 1, t) > 0 implies after.storage.topic_metrics@.contains_key(t)
                                && crate::storage::recorded_metrics(
                                after.storage.topic_metrics@[t],
                                t,
                                after.published(t).len() as int,
                                old(self).storage.dlq_events.items(t).len() as int,
                            ) by {
                            if t != t0 {
                                assert(before.storage.topic_metrics@.contains_key(t));
                                assert(after.published(t) == before.published(t));
                            }
                        }
                        assert forall|t: Seq<char>|
                            #![trigger after.storage.topic_metrics.lookup(t)]
                            batch_count(batch@, i + 1, t) == 0 implies after.storage.topic_metrics.lookup(t)
                                == old(self).storage.topic_metrics.lookup(t) by {
                            assert(before.storage.topic_metrics.lookup(t)
                                == old(self).storage.topic_metrics.lookup(t));
                        }
                    }
                },
            }
            i = i + 1;
        }
        Ok(ids)
    }

    /// Publish the entries of `batch` as one transaction; this adapter
    /// publishes them as a batch.
    pub fn publish_transactional(
        &mut self,
        batch: Vec<TopicEvent<Result<String, String>>>,
        transaction_id: TransactionId,
    ) -> (r: PubSubResult<Vec<EventId>>)
        requires
            old(self).wf(),
            forall|j: int|
                0 <= j < batch@.len() ==> old(self).room_for(
                    (#[trigger] batch@[j]).topic@,
                    batch@.len() as int,
                ),
        ensures
            final(self).wf(),
            match r {
                Ok(ids) => {
                    &&& serialized_prefix(batch@, batch@.len() as int)
                    &&& batch_published(*old(self), *final(self), batch@, batch@.len() as int)
                    &&& ids@.len() == batch@.len()
                    &&& forall|j: int|
                        0 <= j < ids@.len() ==> #[trigger] ids@[j] == batch_entry(
                            *old(self),
                            *final(self),
                            batch@,
                            j,
                        ).id
                },
                Err(e) => exists|k: int|
                    #[trigger] first_failure_at(batch@, k) && e.is_serialization(
                        serialize_failure_text(batch@[k].event->Err_0@),
                    ) && batch_published(*old(self), *final(self), batch@, k),
            },
    {
        self.publish_batch(batch)
    }

    /// Publish a complete event, keeping its ID, metadata, time and
    /// headers; the payload is replaced by its JSON text.
    pub fn publish_event(&mut self, event: Event<Result<String, String>>) -> (r: PubSubResult<
        EventId,
    >)
        requires
            old(self).wf(),
            old(self).room_for(event.topic@, 1),
        ensures
            final(self).wf(),
            match event.payload {
                Err(detail) => {
                    &&& r matches Err(e) && e.is_serialization(serialize_failure_text(detail@))
                    &&& *final(self) == *old(self)
                },
                Ok(json) => {
                    &&& r matches Ok(id) && id == event.id
                    &&& final(self).published(event.topic@) == old(self).published(
                        event.topic@,
                    ).push(
                        Event {
                            id: event.id,
                            topic: final(self).published(event.topic@).last().topic,
                            payload: json,
                            metadata: event.metadata,
                            timestamp: event.timestamp,
                            headers: event.headers,
                        },
                    )
                    &&& final(self).published(event.topic@).last().topic@ == event.topic@
                    &&& final(self).storage.events@ == old(self).storage.events@.insert(
                        event.topic@,
                        final(self).storage.events@[event.topic@],
                    )
                },
            },
    {
        let Event { id, topic, payload, metadata, timestamp, headers } = event;
        match payload {
            Err(detail) => Err(serialization_failure(detail.as_str())),
            Ok(json) => {
                let json_event = Event {
                    id,
                    topic: topic.clone(),
                    payload: json,
                    metadata,
                    timestamp,
                    headers,
                };
                let event_id = self.store_and_measure(topic.as_str(), json_event);
                Ok(event_id)
            },
        }
    }
}

/// `after` is `before` with one subscription more, recorded under `id` for
/// `handler_name` on `topic`; nothing else changed.
pub open spec fn subscribed(
    before: MockPubSubAdapter,
    after: MockPubSubAdapter,
    id: Seq<char>,
    topic: Seq<char>,
    handler_name: Seq<char>,
) -> bool {
    &&& id.len() == 36
    &&& after.storage.subscriptions@ == before.storage.subscriptions@.insert(
        id,
        after.storage.subscriptions@[id],
    )
    &&& new_subscription(after.storage.subscriptions@[id], id, topic, handler_name)
    &&& after.storage == (MockStorage {
        subscriptions: after.storage.subscriptions,
        ..before.storage
    })
}

impl MockPubSubAdapter {
    /// Subscribe the handler named `handler_name` to `topic`; returns the
    /// new subscription's ID.
    pub fn subscribe(&mut self, topic: &str, handler_name: &str) -> (r: PubSubResult<
        SubscriptionId,
    >)
        requires
            old(self).wf(),
        ensures
            final(self).wf(),
            r matches Ok(id) && subscribed(*old(self), *final(self), id@, topic@, handler_name@),
    {
        let id = self.storage.add_subscription(topic, handler_name);
        Ok(id)
    }

    /// Subscribe with options; this adapter ignores the options.
    pub fn subscribe_with_options(
        &mut self,
        topic: &str,
        options: SubscriptionOptions,
        handler_name: &str,
    ) -> (r: PubSubResult<SubscriptionId>)
        requires
            old(self).wf(),
        ensures
            final(self).wf(),
            r matches Ok(id) && subscribed(*old(self), *final(self), id@, topic@, handler_name@),
    {
        self.subscribe(topic, handler_name)
    }

    /// Subscribe as a member of a consumer group; this adapter treats it as
    /// a plain subscription.
    pub fn subscribe_consumer_group(
        &mut self,
        topic: &str,
        consumer_group: &str,
        handler_name: &str,
    ) -> (r: PubSubResult<SubscriptionId>)
        requires
            old(self).wf(),
        ensures
            final(self).wf(),
            r matches Ok(id) && subscribed(*old(self), *final(self), id@, topic@, handler_name@),
    {
        self.subscribe(topic, handler_name)
    }

    /// Subscribe the handler named `handler_name` to each of `topics`, in
    /// order; returns one subscription ID per topic.
    #[verifier::spinoff_prover]
    pub fn subscribe_multiple(&mut self, topics: Vec<String>, handler_name: &str) -> (r:
        PubSubResult<Vec<SubscriptionId>>)
        requires
            old(self).wf(),
        ensures
            final(self).wf(),
            r matches Ok(ids) && {
                &&& ids@.len() == topics@.len()
                &&& forall|j: int| 0 <= j < ids@.len() ==> (#[trigger] ids@[j])@.len() == 36
                &&& forall|k: Seq<char>|
                    #![trigger final(self).storage.subscriptions@.contains_key(k)]
                    final(self).storage.subscriptions@.contains_key(k) <==> (old(self).storage.subscriptions@.contains_key(k) || exists|j: int|
                        0 <= j < ids@.len() && (#[trigger] ids@[j])@ == k)
                &&& forall|k: Seq<char>|
                    #![trigger final(self).storage.subscriptions@[k]]
                    (forall|j: int| 0 <= j < ids@.len() ==> (#[trigger] ids@[j])@ != k)
                        ==> final(self).storage.subscriptions@[k] == old(self).storage.subscriptions@[k]
                &&& forall|j: int|
                    0 <= j < ids@.len() && (forall|m: int|
                        j < m < ids@.len() ==> (#[trigger] ids@[m])@ != ids@[j]@) ==> new_subscription(
                        final(self).storage.subscriptions@[(#[trigger] ids@[j])@],
                        ids@[j]@,
                        topics@[j]@,
                        handler_name@,
                    )
                &&& final(self).storage == (MockStorage {
                    subscriptions: final(self).storage.subscriptions,
                    ..old(self).storage
                })
            },
    {
        let mut ids: Vec<SubscriptionId> = Vec::new();
        let mut i: usize = 0;
        while i < topics.len()
            invariant
                i <= topics@.len(),
                self.wf(),
                ids@.len() == i,
                forall|j: int| 0 <= j < ids@.len() ==> (#[trigger] ids@[j])@.len() == 36,
                forall|k: Seq<char>|
                    #![trigger self.storage.subscriptions@.contains_key(k)]
                    self.storage.subscriptions@.contains_key(k) <==> (old(self).storage.subscriptions@.contains_key(k) || exists|j: int|
                        0 <= j < ids@.len() && (#[trigger] ids@[j])@ == k),
                forall|k: Seq<char>|
                    #![trigger self.storage.subscriptions@[k]]
                    (forall|j: int| 0 <= j < ids@.len() ==> (#[trigger] ids@[j])@ != k)
                        ==> self.storage.subscriptions@[k] == old(self).storage.subscriptions@[k],
                forall|j: int|
                    0 <= j < ids@.len() && (forall|m: int|
                        j < m < ids@.len() ==> (#[trigger] ids@[m])@ != ids@[j]@) ==> new_subscription(
                        self.storage.subscriptions@[(#[trigger] ids@[j])@],
                        ids@[j]@,
                        topics@[j]@,
                        handler_name@,
                    ),
                self.storage == (MockStorage {
                    subscriptions: self.storage.subscriptions,
                    ..old(self).storage
                }),
            decreases topics@.len() - i,
        {
            let ghost before = self.storage.subscriptions@;
            let ghost ids_before = ids@;
            let id = self.storage.add_subscription(topics[i].as_str(), handler_name);
            ids.push(id);
            proof {
                let after = self.storage.subscriptions@;
                assert forall|k: Seq<char>|
                    #![trigger after.contains_key(k)]
                    after.contains_key(k) <==> (old(self).storage.subscriptions@.contains_key(k)
                        || exists|j: int| 0 <= j < ids@.len() && (#[trigger] ids@[j])@ == k) by {
                    if after.contains_key(k) && k != id@ && !old(self).storage.subscriptions@.contains_key(k) {
                        assert(before.contains_key(k));
                        let j = choose|j: int| 0 <= j < ids_before.len() && (#[trigger] ids_before[j])@ == k;
                        assert(ids@[j] == ids_before[j]);
                    }
                    if k == id@ {
                        assert(ids@[i as int] == id);
                    }
                    if exists|j: int| 0 <= j < ids@.len() && (#[trigger] ids@[j])@ == k {
                        let j = choose|j: int| 0 <= j < ids@.len() && (#[trigger] ids@[j])@ == k;
                        if j < i {
                            assert(ids@[j] == ids_before[j]);
                        }
                    }
                }
                assert forall|k: Seq<char>|
                    #![trigger after[k]]
                    (forall|j: int| 0 <= j < ids@.len() ==> (#[trigger] ids@[j])@ != k)
                        implies after[k] == old(self).storage.subscriptions@[k] by {
                    assert(ids@[i as int] == id);
                    assert forall|j: int| 0 <= j < ids_before.len() implies (#[trigger] ids_before[j])@ != k by {
                        assert(ids@[j] == ids_before[j]);
                    }
                }
                assert forall|j: int|
                    0 <= j < ids@.len() && (forall|m: int|
                        j < m < ids@.len() ==> (#[trigger] ids@[m])@ != ids@[j]@) implies new_subscription(
                        after[(#[trigger] ids@[j])@],
                        ids@[j]@,
                        topics@[j]@,
                        handler_name@,
                    ) by {
                    if j < i {
                        assert(ids@[j] == ids_before[j]);
                        assert(ids@[i as int] == id);
                        assert(id@ != ids@[j]@);
                        assert forall|m: int| j < m < ids_before.len() implies (#[trigger] ids_before[m])@ != ids_before[j]@ by {
                            assert(ids@[m] == ids_before[m]);
                        }
                    }
                }
            }
            i = i + 1;
        }
        Ok(ids)
    }

    /// Remove a subscription; a subscription that does not exist gives a
    /// not-found error.
    pub fn unsubscribe(&mut self, subscription_id: &str) -> (r: PubSubResult<()>)
        requires
            old(self).wf(),
        ensures
            final(self).wf(),
            final(self).storage.subscriptions@ == old(self).storage.subscriptions@.remove(
                subscription_id@,
            ),
            final(self).storage == (MockStorage {
                subscriptions: final(self).storage.subscriptions,
                ..old(self).storage
            }),
            old(self).storage.subscriptions@.contains_key(subscription_id@) <==> r is Ok,
            r matches Err(e) ==> e.is_not_found("subscription"@, subscription_id@),
    {
        if self.storage.remove_subscription(subscription_id) {
            Ok(())
        } else {
            Err(PubSubError::not_found("subscription", subscription_id))
        }
    }

    /// Mark subscription `subscription_id` active or not; an unknown ID
    /// changes nothing.
    fn set_subscription_active(&mut self, subscription_id: &str, active: bool) -> (r: PubSubResult<
        (),
    >)
        requires
            old(self).wf(),
        ensures
            final(self).wf(),
            activity_set(*old(self), *final(self), subscription_id@, active, r),
    {
        proof {
            self.storage.subscriptions.lemma_view();
        }
        let updated = match self.storage.subscriptions.get(subscription_id) {
            Some(s) => Some(
                MockSubscription {
                    id: s.id.clone(),
                    topic: s.topic.clone(),
                    handler_name: s.handler_name.clone(),
                    created_at: s.created_at,
                    events_processed: s.events_processed,
                    events_failed: s.events_failed,
                    is_active: active,
                },
            ),
            None => None,
        };
        match updated {
            Some(u) => {
                self.storage.subscriptions.insert(subscription_id.to_owned(), u);
                Ok(())
            },
            None => Ok(()),
        }
    }

    /// Pause subscription `subscription_id`: its events wait until it is
    /// resumed. An unknown ID changes nothing.
    pub fn pause_subscription(&mut self, subscription_id: &str) -> (r: PubSubResult<()>)
        requires
            old(self).wf(),
        ensures
            final(self).wf(),
            activity_set(*old(self), *final(self), subscription_id@, false, r),
    {
        self.set_subscription_active(subscription_id, false)
    }

    /// Resume the paused subscription `subscription_id`. An unknown ID
    /// changes nothing.
    pub fn resume_subscription(&mut self, subscription_id: &str) -> (r: PubSubResult<()>)
        requires
            old(self).wf(),
        ensures
            final(self).wf(),
            activity_set(*old(self), *final(self), subscription_id@, true, r),
    {
        self.set_subscription_active(subscription_id, true)
    }

    /// The status of subscription `subscription_id` at time `now`. A
    /// recorded subscription reports its topic, creation time and event
    /// counts, active or paused, healthy, at the latest position with no lag;
    /// no activity or processing time is tracked. An ID with no record gets
    /// placeholder figures: an active, healthy subscription of "mock-topic"
    /// created and last active at `now`, with 100 events processed, 5 failed,
    /// no lag and 50 ms average processing time.
    pub fn subscription_status_at(&self, subscription_id: &str, now: i64) -> (r: PubSubResult<
        SubscriptionStatus,
    >)
        requires
            self.wf(),
        ensures
            r matches Ok(s) && match self.storage.subscriptions.lookup(subscription_id@) {
                Some(sub) => is_subscription_status(s, subscription_id@, sub),
                None => is_placeholder_status(s, subscription_id@, now),
            },
    {
        match self.storage.subscriptions.get(subscription_id) {
            Some(sub) => Ok(
                SubscriptionStatus {
                    subscription_id: subscription_id.to_owned(),
                    state: if sub.is_active {
                        SubscriptionState::Active
                    } else {
                        SubscriptionState::Paused
                    },
                    topic: sub.topic.clone(),
                    consumer_group: None,
                    created_at: sub.created_at,
                    last_activity: None,
                    current_position: Some("latest".to_owned()),
                    events_processed: sub.events_processed,
                    events_failed: sub.events_failed,
                    lag: Some(0),
                    avg_processing_time: None,
                    health: SubscriptionHealth::Healthy,
                },
            ),
            None => Ok(
                SubscriptionStatus {
                    subscription_id: subscription_id.to_owned(),
                    state: SubscriptionState::Active,
                    topic: "mock-topic".to_owned(),
                    consumer_group: None,
                    created_at: now,
                    last_activity: Some(now),
                    current_position: Some("latest".to_owned()),
                    events_processed: 100,
                    events_failed: 5,
                    lag: Some(0),
                    avg_processing_time: Some(50),
                    health: SubscriptionHealth::Healthy,
                },
            ),
        }
    }

    /// The status of subscription `subscription_id`, read now.
    pub fn subscription_status(&self, subscription_id: &str) -> (r: PubSubResult<
        SubscriptionStatus,
    >)
        requires
            self.wf(),
        ensures
            r matches Ok(s) && match self.storage.subscriptions.lookup(subscription_id@) {
                Some(sub) => is_subscription_status(s, subscription_id@, sub),
                None => is_placeholder_status(s, subscription_id@, s.created_at),
            },
    {
        self.subscription_status_at(subscription_id, now_millis())
    }
}

/// `r` is `Ok`, and `after` is `before` with subscription `id` marked
/// active (or paused) when `before` holds it; otherwise nothing changed.
pub open spec fn activity_set(
    before: MockPubSubAdapter,
    after: MockPubSubAdapter,
    id: Seq<char>,
    active: bool,
    r: PubSubResult<()>,
) -> bool {
    if before.storage.subscriptions@.contains_key(id) {
        &&& r is Ok
        &&& after.storage.subscriptions@ == before.storage.subscriptions@.insert(
            id,
            MockSubscription { is_active: active, ..before.storage.subscriptions@[id] },
        )
        &&& after.storage.subscriptions.key_seq() == before.storage.subscriptions.key_seq()
        &&& after.storage == (MockStorage {
            subscriptions: after.storage.subscriptions,
            ..before.storage
        })
    } else {
        &&& r is Ok
        &&& after == before
    }
}

/// `s` is the status reported for subscription `id` recorded as `sub`.
pub open spec fn is_subscription_status(s: SubscriptionStatus, id: Seq<char>, sub: MockSubscription) -> bool {
    &&& s.subscription_id@ == id
    &&& s.state == (if sub.is_active {
        SubscriptionState::Active
    } else {
        SubscriptionState::Paused
    })
    &&& s.topic@ == sub.topic@
    &&& s.consumer_group is None
    &&& s.created_at == sub.created_at
    &&& s.last_activity is None
    &&& is_some_text(s.current_position, "latest"@)
    &&& s.events_processed == sub.events_processed
    &&& s.events_failed == sub.events_failed
    &&& s.lag == Some(0u64)
    &&& s.avg_processing_time is None
    &&& s.health == SubscriptionHealth::Healthy
}

/// `s` is the placeholder status reported at time `now` for an ID `id`
/// with no recorded subscription.
pub open spec fn is_placeholder_status(s: SubscriptionStatus, id: Seq<char>, now: i64) -> bool {
    &&& s.subscription_id@ == id
    &&& s.state == SubscriptionState::Active
    &&& s.topic@ == "mock-topic"@
    &&& s.consumer_group is None
    &&& s.created_at == now
    &&& s.last_activity == Some(now)
    &&& is_some_text(s.current_position, "latest"@)
    &&& s.events_processed == 100
    &&& s.events_failed == 5
    &&& s.lag == Some(0u64)
    &&& s.avg_processing_time == Some(50u64)
    &&& s.health == SubscriptionHealth::Healthy
}

/// The dead letter queue as a map from topic to its failed events.
pub open spec fn dlq_model(m: StringMap<Vec<FailedEvent>>) -> Map<Seq<char>, Seq<FailedEvent>> {
    Map::new(|k: Seq<char>| m@.contains_key(k), |k: Seq<char>| m@[k]@)
}

/// The events of `q`, with the attempt count of those with ID `id` reset
/// to 0.
pub open spec fn reset_attempts(q: Seq<FailedEvent>, id: Seq<char>) -> Seq<FailedEvent> {
    q.map_values(
        |e: FailedEvent|
            if e.original_event_id@ == id {
                FailedEvent { attempt_count: 0, ..e }
            } else {
                e
            },
    )
}

/// The dead letter queue with the attempt count of every event with ID
/// `id` reset to 0.
pub open spec fn reset_in_all(model: Map<Seq<char>, Seq<FailedEvent>>, id: Seq<char>) -> Map<
    Seq<char>,
    Seq<FailedEvent>,
> {
    Map::new(|k: Seq<char>| model.contains_key(k), |k: Seq<char>| reset_attempts(model[k], id))
}

/// The failed events queued under `topic`; none for an absent topic.
pub open spec fn queued(model: Map<Seq<char>, Seq<FailedEvent>>, topic: Seq<char>) -> Seq<
    FailedEvent,
> {
    if model.contains_key(topic) {
        model[topic]
    } else {
        Seq::<FailedEvent>::empty()
    }
}

/// The position, from `i` on, of the first of `topics` whose queue holds an
/// event with ID `id`; the length of `topics` if none does.
pub open spec fn holder_from(
    topics: Seq<Seq<char>>,
    model: Map<Seq<char>, Seq<FailedEvent>>,
    id: Seq<char>,
    i: int,
) -> int
    decreases topics.len() - i,
{
    if i < 0 || i >= topics.len() {
        topics.len() as int
    } else if failed_ids(queued(model, topics[i])).contains(id) {
        i
    } else {
        holder_from(topics, model, id, i + 1)
    }
}

/// Taking the event with ID `id` out of the dead letter queue, searching the
/// topics in the order of `topics`: whether one was found, and the queue
/// after removing the first such event of the first topic that holds one.
pub open spec fn retry_step(
    topics: Seq<Seq<char>>,
    model: Map<Seq<char>, Seq<FailedEvent>>,
    id: Seq<char>,
) -> (bool, Map<Seq<char>, Seq<FailedEvent>>) {
    let h = holder_from(topics, model, id, 0);
    if h < topics.len() {
        let t = topics[h];
        let q = queued(model, t);
        (true, model.insert(t, q.remove(failed_ids(q).index_of_first(id)->0)))
    } else {
        (false, model)
    }
}

/// Taking the events with IDs `ids` out of the queue one after another:
/// whether each was found, and the queue afterwards.
pub open spec fn retry_all(
    topics: Seq<Seq<char>>,
    model: Map<Seq<char>, Seq<FailedEvent>>,
    ids: Seq<Seq<char>>,
) -> (Seq<bool>, Map<Seq<char>, Seq<FailedEvent>>)
    decreases ids.len(),
{
    if ids.len() == 0 {
        (Seq::<bool>::empty(), model)
    } else {
        let prev = retry_all(topics, model, ids.drop_last());
        let step = retry_step(topics, prev.1, ids.last());
        (prev.0.push(step.0), step.1)
    }
}

/// The search stops at the first topic from `start` that holds `id`.
proof fn lemma_holder_at(
    topics: Seq<Seq<char>>,
    model: Map<Seq<char>, Seq<FailedEvent>>,
    id: Seq<char>,
    start: int,
    i: int,
)
    requires
        0 <= start <= i <= topics.len(),
        forall|j: int| start <= j < i ==> !failed_ids(queued(model, #[trigger] topics[j])).contains(id),
        i == topics.len() || failed_ids(queued(model, topics[i])).contains(id),
    ensures
        holder_from(topics, model, id, start) == i,
    decreases i - start,
{
    if start < i {
        lemma_holder_at(topics, model, id, start + 1, i);
    }
}

/// Failed events that are copies of each other give the same statistics
/// inputs.
proof fn lemma_copies_same_inputs(a: Seq<FailedEvent>, b: Seq<FailedEvent>)
    requires
        a.len() == b.len(),
        forall|j: int| 0 <= j < a.len() ==> same_failed_event(#[trigger] a[j], b[j]),
    ensures
        attempts_total(a) == attempts_total(b),
        reason_keys(a) == reason_keys(b),
        event_type_keys(a) == event_type_keys(b),
        handler_keys(a) == handler_keys(b),
    decreases a.len(),
{
    assert(reason_keys(a) =~= reason_keys(b));
    assert(event_type_keys(a) =~= event_type_keys(b));
    if a.len() > 0 {
        let a1 = a.drop_last();
        let b1 = b.drop_last();
        assert forall|j: int| 0 <= j < a1.len() implies same_failed_event(#[trigger] a1[j], b1[j]) by {
            assert(same_failed_event(a[j], b[j]));
        }
        lemma_copies_same_inputs(a1, b1);
        assert(same_failed_event(a[a.len() - 1], b[b.len() - 1]));
        assert(handler_of(a.last()) == handler_of(b.last()));
    }
}

/// The events that failed before time `before`.
pub open spec fn failed_before(e: FailedEvent, before: i64) -> bool {
    e.first_failure_time < before
}

/// The events of `q` that first failed before `before`, in order.
pub open spec fn failed_earlier(q: Seq<FailedEvent>, before: i64) -> Seq<FailedEvent> {
    q.filter(|e: FailedEvent| failed_before(e, before))
}

/// The events of `q` that did not first fail before `before`, in order.
pub open spec fn failed_since(q: Seq<FailedEvent>, before: i64) -> Seq<FailedEvent> {
    q.filter(|e: FailedEvent| !failed_before(e, before))
}

impl MockPubSubAdapter {
    /// Copies of the first `limit` (all, for `None`) dead-lettered events of
    /// `topic`.
    fn dlq_copies(&self, topic: &str, limit: Option<usize>) -> (r: Vec<FailedEvent>)
        requires
            self.wf(),
        ensures
            r@.len() == take_at_most(self.storage.dlq_events.items(topic@), limit_of(limit)).len(),
            forall|j: int|
                0 <= j < r@.len() ==> same_failed_event(
                    #[trigger] r@[j],
                    take_at_most(self.storage.dlq_events.items(topic@), limit_of(limit))[j],
                ),
    {
        let refs = self.storage.get_dlq_events(topic, limit);
        let ghost want = take_at_most(self.storage.dlq_events.items(topic@), limit_of(limit));
        assert(refs@.len() == want.len()) by {
            assert(refs@.map_values(|e: &FailedEvent| *e).len() == refs@.len());
        }
        let mut r: Vec<FailedEvent> = Vec::new();
        let mut i: usize = 0;
        while i < refs.len()
            invariant
                i <= refs@.len(),
                refs@.len() == want.len(),
                refs@.map_values(|e: &FailedEvent| *e) == want,
                r@.len() == i,
                forall|j: int| 0 <= j < i ==> same_failed_event(#[trigger] r@[j], want[j]),
            decreases refs@.len() - i,
        {
            let c = refs[i].copy();
            r.push(c);
            proof {
                assert(*refs@[i as int] == want[i as int]);
            }
            i = i + 1;
        }
        r
    }

    /// Take the event with ID `event_id` out of the dead letter queue,
    /// searching the topics in their order; returns whether it was found.
    fn take_from_dlq(&mut self, event_id: &str) -> (r: bool)
        requires
            old(self).wf(),
        ensures
            final(self).wf(),
            (r, dlq_model(final(self).storage.dlq_events)) == retry_step(
                old(self).storage.dlq_events.key_seq(),
                dlq_model(old(self).storage.dlq_events),
                event_id@,
            ),
            final(self).storage.dlq_events.key_seq() == old(self).storage.dlq_events.key_seq(),
            final(self).storage == (MockStorage {
                dlq_events: final(self).storage.dlq_events,
                ..old(self).storage
            }),
    {
        let ghost keys = old(self).storage.dlq_events.key_seq();
        let ghost model0 = dlq_model(old(self).storage.dlq_events);
        proof {
            self.storage.dlq_events.lemma_view();
        }
        let n = self.storage.dlq_events.len();
        let mut i: usize = 0;
        let mut found = false;
        while i < n && !found
            invariant
                self.wf(),
                n == keys.len(),
                i <= n,
                self.storage.dlq_events.key_seq() == keys,
                forall|j: int| 0 <= j < i && !(found && j == i - 1) ==> !failed_ids(queued(model0, #[trigger] keys[j])).contains(event_id@),
                !found ==> dlq_model(self.storage.dlq_events) == model0,
                found ==> 0 < i && retry_step(keys, model0, event_id@) == (true, dlq_model(self.storage.dlq_events)),
                self.storage == (MockStorage { dlq_events: self.storage.dlq_events, ..old(self).storage }),
            decreases n - i,
        {
            let topic = self.storage.dlq_events.key_at(i).clone();
            let ghost before = self.storage.dlq_events;
            proof {
                before.lemma_view();
                assert(before.items(topic@) == queued(model0, keys[i as int]));
            }
            let removed = self.storage.remove_dlq_event(topic.as_str(), event_id);
            if removed {
                proof {
                    assert(topic@ == keys[i as int]);
                    lemma_holder_at(keys, model0, event_id@, 0, i as int);
                    let q = queued(model0, topic@);
                    failed_ids(q).index_of_first_ensures(event_id@);
                    assert(dlq_model(self.storage.dlq_events) =~= model0.insert(
                        topic@,
                        q.remove(failed_ids(q).index_of_first(event_id@)->0),
                    ));
                }
                found = true;
            } else {
                proof {
                    assert(dlq_model(self.storage.dlq_events) =~= model0);
                }
            }
            i = i + 1;
        }
        if !found {
            proof {
                lemma_holder_at(keys, model0, event_id@, 0, n as int);
            }
        }
        found
    }

    /// Send a failed event to the dead letter queue of its topic; the
    /// reason given here is not recorded (the event carries its own).
    pub fn send_to_dlq(&mut self, failed_event: FailedEvent, reason: FailureReason) -> (r:
        PubSubResult<()>)
        requires
            old(self).wf(),
        ensures
            final(self).wf(),
            r is Ok,
            final(self).storage.dlq_events@ == old(self).storage.dlq_events@.insert(
                failed_event.topic@,
                final(self).storage.dlq_events@[failed_event.topic@],
            ),
            final(self).storage.dlq_events.items(failed_event.topic@) == old(self).storage.dlq_events.items(failed_event.topic@).push(failed_event),
            final(self).storage == (MockStorage {
                dlq_events: final(self).storage.dlq_events,
                ..old(self).storage
            }),
    {
        let topic = failed_event.topic.clone();
        self.storage.store_dlq_event(topic.as_str(), failed_event);
        Ok(())
    }

    /// Copies of the first `limit` (all, for `None`) dead-lettered events of
    /// `topic`.
    pub fn get_dlq_events(&self, topic: &str, limit: Option<usize>) -> (r: PubSubResult<
        Vec<FailedEvent>,
    >)
        requires
            self.wf(),
        ensures
            r matches Ok(v) && v@.len() == take_at_most(
                self.storage.dlq_events.items(topic@),
                limit_of(limit),
            ).len() && forall|j: int|
                0 <= j < v@.len() ==> same_failed_event(
                    #[trigger] v@[j],
                    take_at_most(self.storage.dlq_events.items(topic@), limit_of(limit))[j],
                ),
    {
        Ok(self.dlq_copies(topic, limit))
    }

    /// Take the event with ID `event_id` out of the dead letter queue to
    /// retry it; an ID that no queued event has gives a not-found error.
    pub fn retry_from_dlq(&mut self, event_id: &str) -> (r: PubSubResult<()>)
        requires
            old(self).wf(),
        ensures
            final(self).wf(),
            (r is Ok, dlq_model(final(self).storage.dlq_events)) == retry_step(
                old(self).storage.dlq_events.key_seq(),
                dlq_model(old(self).storage.dlq_events),
                event_id@,
            ),
            r matches Err(e) ==> e.is_not_found("dlq_event"@, event_id@),
            final(self).storage.dlq_events.key_seq() == old(self).storage.dlq_events.key_seq(),
            final(self).storage == (MockStorage {
                dlq_events: final(self).storage.dlq_events,
                ..old(self).storage
            }),
    {
        if self.take_from_dlq(event_id) {
            Ok(())
        } else {
            Err(PubSubError::not_found("dlq_event", event_id))
        }
    }

    /// Retry each of `event_ids` in order, as `retry_from_dlq` does; one
    /// result per ID, a missing one with the message "Event not found in DLQ".
    pub fn retry_dlq_batch(&mut self, event_ids: Vec<EventId>) -> (r: PubSubResult<
        Vec<DlqRetryResult>,
    >)
        requires
            old(self).wf(),
        ensures
            final(self).wf(),
            r matches Ok(results) && {
                let outcome = retry_all(
                    old(self).storage.dlq_events.key_seq(),
                    dlq_model(old(self).storage.dlq_events),
                    event_ids@.map_values(|s: String| s@),
                );
                &&& results@.len() == event_ids@.len()
                &&& forall|j: int|
                    0 <= j < results@.len() ==> {
                        &&& (#[trigger] results@[j]).event_id == event_ids@[j]
                        &&& results@[j].success == outcome.0[j]
                        &&& results@[j].success ==> results@[j].error_message is None
                        &&& !results@[j].success ==> is_some_text(
                            results@[j].error_message,
                            "Event not found in DLQ"@,
                        )
                    }
                &&& dlq_model(final(self).storage.dlq_events) == outcome.1
            },
            final(self).storage.dlq_events.key_seq() == old(self).storage.dlq_events.key_seq(),
            final(self).storage == (MockStorage {
                dlq_events: final(self).storage.dlq_events,
                ..old(self).storage
            }),
    {
        let ghost keys = old(self).storage.dlq_events.key_seq();
        let ghost model0 = dlq_model(old(self).storage.dlq_events);
        let ghost ids = event_ids@.map_values(|s: String| s@);
        let mut results: Vec<DlqRetryResult> = Vec::new();
        let mut i: usize = 0;
        proof {
            assert(ids.take(0) =~= Seq::<Seq<char>>::empty());
        }
        while i < event_ids.len()
            invariant
                i <= event_ids@.len(),
                self.wf(),
                ids == event_ids@.map_values(|s: String| s@),
                self.storage.dlq_events.key_seq() == keys,
                results@.len() == i,
                retry_all(keys, model0, ids.take(i as int)).0.len() == i,
                forall|j: int|
                    0 <= j < i ==> {
                        &&& (#[trigger] results@[j]).event_id == event_ids@[j]
                        &&& results@[j].success == retry_all(keys, model0, ids.take(i as int)).0[j]
                        &&& results@[j].success ==> results@[j].error_message is None
                        &&& !results@[j].success ==> is_some_text(
                            results@[j].error_message,
                            "Event not found in DLQ"@,
                        )
                    },
                dlq_model(self.storage.dlq_events) == retry_all(keys, model0, ids.take(i as int)).1,
                self.storage == (MockStorage { dlq_events: self.storage.dlq_events, ..old(self).storage }),
            decreases event_ids@.len() - i,
        {
            let ghost prev = retry_all(keys, model0, ids.take(i as int));
            let id = event_ids[i].clone();
            let success = self.take_from_dlq(id.as_str());
            let error_message = if success {
                None
            } else {
                Some("Event not found in DLQ".to_owned())
            };
            results.push(DlqRetryResult { event_id: id, success, error_message });
            proof {
                let next = ids.take(i + 1);
                assert(next.drop_last() =~= ids.take(i as int));
                assert(next.last() == event_ids@[i as int]@);
                assert(retry_all(keys, model0, next) == (prev.0.push(success), dlq_model(self.storage.dlq_events)));
            }
            i = i + 1;
        }
        proof {
            assert(ids.take(i as int) =~= ids);
        }
        Ok(results)
    }

    /// Purge dead-lettered events of `topic` and return how many went: with
    /// `before`, those that first failed before that time, the others staying
    /// queued in their order; without it, all of them, and the topic's queue
    /// is removed.
    pub fn purge_dlq(&mut self, topic: &str, before: Option<i64>) -> (r: PubSubResult<usize>)
        requires
            old(self).wf(),
        ensures
            final(self).wf(),
            r matches Ok(n) && match before {
                Some(b) => {
                    let model0 = dlq_model(old(self).storage.dlq_events);
                    &&& n == failed_earlier(queued(model0, topic@), b).len()
                    &&& dlq_model(final(self).storage.dlq_events) == (if model0.contains_key(topic@) {
                        model0.insert(topic@, failed_since(model0[topic@], b))
                    } else {
                        model0
                    })
                    &&& final(self).storage.dlq_events.key_seq()
                        == old(self).storage.dlq_events.key_seq()
                },
                None => {
                    &&& n == old(self).storage.dlq_events.items(topic@).len()
                    &&& final(self).storage.dlq_events@ == old(self).storage.dlq_events@.remove(
                        topic@,
                    )
                },
            },
            final(self).storage == (MockStorage {
                dlq_events: final(self).storage.dlq_events,
                ..old(self).storage
            }),
    {
        match before {
            Some(b) => {
                let ghost model0 = dlq_model(old(self).storage.dlq_events);
                let ghost items = queued(model0, topic@);
                let ghost gone = |e: FailedEvent| failed_before(e, b);
                let ghost stay = |e: FailedEvent| !failed_before(e, b);
                proof {
                    self.storage.dlq_events.lemma_view();
                }
                match self.storage.dlq_events.find(topic) {
                    Some(idx) => {
                        let mut rest = self.storage.dlq_events.replace_at(idx, Vec::new());
                        let mut kept: Vec<FailedEvent> = Vec::new();
                        let mut count: usize = 0;
                        let mut i: usize = 0;
                        proof {
                            assert(items.take(0) =~= Seq::<FailedEvent>::empty());
                            assert(items.skip(0) =~= items);
                            assert(rest@.len() == rest.len());
                        }
                        while rest.len() > 0
                            invariant
                                i <= items.len(),
                                items.len() <= usize::MAX,
                                rest@ == items.skip(i as int),
                                gone == (|e: FailedEvent| failed_before(e, b)),
                                stay == (|e: FailedEvent| !failed_before(e, b)),
                                kept@ == items.take(i as int).filter(stay),
                                count == items.take(i as int).filter(gone).len(),
                                count <= i,
                            decreases rest@.len(),
                        {
                            let e = rest.remove(0);
                            proof {
                                lemma_filter_push(items.take(i as int), items[i as int], gone);
                                lemma_filter_push(items.take(i as int), items[i as int], stay);
                                assert(items.take(i as int + 1) =~= items.take(i as int).push(
                                    items[i as int],
                                ));
                                assert(rest@ =~= items.skip(i as int + 1));
                                items.take(i as int).filter_lemma(gone);
                            }
                            if e.first_failure_time < b {
                                count = count + 1;
                            } else {
                                kept.push(e);
                            }
                            i = i + 1;
                        }
                        proof {
                            assert(items.take(i as int) =~= items);
                        }
                        self.storage.dlq_events.replace_at(idx, kept);
                        proof {
                            assert(dlq_model(self.storage.dlq_events) =~= model0.insert(
                                topic@,
                                model0[topic@].filter(stay),
                            ));
                        }
                        Ok(count)
                    },
                    None => {
                        assert(items.filter(gone) =~= Seq::<FailedEvent>::empty());
                        assert(dlq_model(self.storage.dlq_events) =~= model0);
                        Ok(0)
                    },
                }
            },
            None => {
                let n: usize = match self.storage.dlq_events.get(topic) {
                    Some(v) => v.len(),
                    None => 0,
                };
                self.storage.dlq_events.remove(topic);
                Ok(n)
            },
        }
    }

    /// Statistics of the dead-lettered events of `topic`, computed now.
    pub fn dlq_stats(&self, topic: &str) -> (r: PubSubResult<DlqStats>)
        requires
            self.wf(),
        ensures
            r matches Ok(stats) && is_dlq_stats_of(
                stats,
                topic@,
                self.storage.dlq_events.items(topic@),
                stats.generated_at,
            ),
    {
        let copies = self.dlq_copies(topic, None);
        let ghost items = self.storage.dlq_events.items(topic@);
        proof {
            if self.storage.dlq_events@.contains_key(topic@) {
                let v = self.storage.dlq_events@[topic@];
                assert(v@.len() == v.len());
            }
            assert(take_at_most(items, limit_of(None)) == items);
            lemma_copies_same_inputs(copies@, items);
        }
        let stats = MockDlqManager::generate_dlq_stats(topic, copies.as_slice());
        proof {
            let now = stats.generated_at;
            assert forall|j: int| 0 <= j < items.len() implies failure_age(#[trigger] items[j], now)
                == failure_age(copies@[j], now) by {
                assert(same_failed_event(copies@[j], items[j]));
            }
        }
        Ok(stats)
    }

    /// The topics that have a dead letter queue, in order of creation.
    pub fn list_dlq_topics(&self) -> (r: PubSubResult<Vec<String>>)
        ensures
            r matches Ok(v) && v@.map_values(|s: String| s@) == self.storage.dlq_events.key_seq(),
    {
        Ok(self.storage.dlq_events.keys())
    }

    /// Discard the event with ID `event_id` from the dead letter queue;
    /// this adapter takes it out as `retry_from_dlq` does.
    pub fn discard_dlq_event(&mut self, event_id: &str) -> (r: PubSubResult<()>)
        requires
            old(self).wf(),
        ensures
            final(self).wf(),
            (r is Ok, dlq_model(final(self).storage.dlq_events)) == retry_step(
                old(self).storage.dlq_events.key_seq(),
                dlq_model(old(self).storage.dlq_events),
                event_id@,
            ),
            r matches Err(e) ==> e.is_not_found("dlq_event"@, event_id@),
            final(self).storage.dlq_events.key_seq() == old(self).storage.dlq_events.key_seq(),
            final(self).storage == (MockStorage {
                dlq_events: final(self).storage.dlq_events,
                ..old(self).storage
            }),
    {
        self.retry_from_dlq(event_id)
    }
}

/// Is the global position of `e` at least `from`?
pub open spec fn position_at_least(e: StoredEvent, from: u64) -> bool {
    e.global_position.0 >= from
}

/// The events at or after global position `from` of the streams named in
/// `keys`, stream by stream in that order, each stream's in its own order.
pub open spec fn events_from_streams(
    streams: StringMap<Vec<StoredEvent>>,
    keys: Seq<Seq<char>>,
    from: u64,
) -> Seq<StoredEvent>
    decreases keys.len(),
{
    if keys.len() == 0 {
        Seq::<StoredEvent>::empty()
    } else {
        events_from_streams(streams, keys.drop_last(), from) + streams.items(keys.last()).filter(
            |e: StoredEvent| position_at_least(e, from),
        )
    }
}

/// `s` is ordered by global position.
pub open spec fn ordered_by_position(s: Seq<StoredEvent>) -> bool {
    forall|i: int, j: int|
        0 <= i < j < s.len() ==> #[trigger] s[i].global_position.0 <= #[trigger] s[j].global_position.0
}

/// What reading all streams gives: the stored events at or after global
/// position `from`, ordered by global position, at most `limit` of them,
/// with their extent; the read is complete when there is no limit.
pub open spec fn is_all_read(
    r: EventStream,
    streams: StringMap<Vec<StoredEvent>>,
    from: u64,
    limit: Option<usize>,
) -> bool {
    &&& r.stream_id@ == "all"@
    &&& exists|s: Seq<StoredEvent>|
        #[trigger] ordered_by_position(s) && s.to_multiset() == events_from_streams(
            streams,
            streams.key_seq(),
            from,
        ).to_multiset() && r.events@ == take_at_most(s, limit_of(limit))
    &&& has_stream_extent(r)
    &&& r.is_complete == (limit is None)
}

/// The events of `all` ordered by global position; events at the same
/// position keep their order.
fn order_by_position(all: &Vec<StoredEvent>) -> (r: Vec<StoredEvent>)
    ensures
        ordered_by_position(r@),
        r@.to_multiset() == all@.to_multiset(),
{
    let mut sorted: Vec<StoredEvent> = Vec::new();
    let mut k: usize = 0;
    proof {
        assert(all@.take(0) =~= Seq::<StoredEvent>::empty());
    }
    while k < all.len()
        invariant
            k <= all@.len(),
            ordered_by_position(sorted@),
            sorted@.to_multiset() == all@.take(k as int).to_multiset(),
        decreases all@.len() - k,
    {
        let e = all[k].clone();
        let pos = e.global_position.0;
        let mut p: usize = 0;
        while p < sorted.len() && sorted[p].global_position.0 <= pos
            invariant
                p <= sorted@.len(),
                forall|q: int| 0 <= q < p ==> #[trigger] sorted@[q].global_position.0 <= pos,
            decreases sorted@.len() - p,
        {
            p = p + 1;
        }
        let ghost old_sorted = sorted@;
        sorted.insert(p, e);
        proof {
            old_sorted.insert_ensures(p as int, e);
            let n = sorted@;
            assert forall|i: int, j: int|
                0 <= i < j < n.len() implies #[trigger] n[i].global_position.0
                <= #[trigger] n[j].global_position.0 by {
                if j < p {
                    assert(n[i] == old_sorted[i] && n[j] == old_sorted[j]);
                } else if j == p {
                    assert(n[i] == old_sorted[i]);
                } else if i < p {
                    assert(n[i] == old_sorted[i] && n[j] == old_sorted[j - 1]);
                } else if i == p {
                    assert(n[j] == old_sorted[j - 1]);
                    assert(old_sorted[p as int].global_position.0 > pos);
                    assert(old_sorted[p as int].global_position.0 <= old_sorted[j - 1].global_position.0);
                } else {
                    assert(n[i] == old_sorted[i - 1] && n[j] == old_sorted[j - 1]);
                }
            }
            assert(n.remove(p as int) =~= old_sorted);
            assert(n[p as int] == e);
            assert(n.contains(e));
            n.to_multiset_ensures();
            all@.take(k as int).to_multiset_ensures();
            assert(n.to_multiset().count(e) > 0);
            assert(n.remove(p as int).to_multiset() == n.to_multiset().remove(e));
            assert(n.to_multiset() =~= old_sorted.to_multiset().insert(e));
            assert(all@.take(k as int + 1) =~= all@.take(k as int).push(all@[k as int]));
        }
        k = k + 1;
    }
    proof {
        assert(all@.take(k as int) =~= all@);
    }
    sorted
}

/// Is the stream version of `e` within `from..=to` (unbounded above for
/// `None`)?
pub open spec fn version_in_range(e: StoredEvent, from: u64, to: Option<u64>) -> bool {
    &&& e.stream_version >= from
    &&& match to {
        Some(t) => e.stream_version <= t,
        None => true,
    }
}

/// The events of `s` whose versions lie in `from..=to`, in stream order.
pub open spec fn range_selection(s: Seq<StoredEvent>, from: u64, to: Option<u64>) -> Seq<StoredEvent> {
    s.filter(|e: StoredEvent| version_in_range(e, from, to))
}

/// What reading a version range of a stream gives: exactly the stream's
/// events with versions in `from..=to`, with their extent; the read is
/// complete when the range is unbounded above.
pub open spec fn is_range_read(
    r: EventStream,
    stream_id: Seq<char>,
    events: Seq<StoredEvent>,
    from: u64,
    to: Option<u64>,
) -> bool {
    &&& r.stream_id@ == stream_id
    &&& r.events@ == range_selection(events, from, to)
    &&& has_stream_extent(r)
    &&& r.is_complete == (to is None)
}

/// The current version of `r` is the greatest version among its events (0
/// for none), and its positions are those of its first and last events.
pub open spec fn has_stream_extent(r: EventStream) -> bool {
    &&& r.events@.len() == 0 ==> r.current_version == 0
    &&& forall|j: int|
        0 <= j < r.events@.len() ==> #[trigger] r.events@[j].stream_version <= r.current_version
    &&& r.events@.len() > 0 ==> exists|j: int|
        0 <= j < r.events@.len() && #[trigger] r.events@[j].stream_version == r.current_version
    &&& r.start_position.0 == (if r.events@.len() == 0 {
        0
    } else {
        r.events@[0].global_position.0
    })
    &&& r.end_position.0 == (if r.events@.len() == 0 {
        0
    } else {
        r.events@.last().global_position.0
    })
}

/// `x` is the snapshot of `s` with the greatest version at or below
/// `max_version` (the last such, should versions repeat).
pub open spec fn is_latest_snapshot_upto(s: Seq<Snapshot>, max_version: u64, x: Snapshot) -> bool {
    exists|i: int|
        0 <= i < s.len() && s[i] == x && x.version <= max_version && (forall|j: int|
            0 <= j < s.len() && #[trigger] s[j].version <= max_version ==> s[j].version
                <= x.version) && (forall|j: int|
            i < j < s.len() && #[trigger] s[j].version <= max_version ==> s[j].version
                < x.version)
}

/// Does `k` start with `prefix` (every key does, for `None`)?
pub open spec fn matches_prefix(k: Seq<char>, prefix: Option<Seq<char>>) -> bool {
    match prefix {
        Some(p) => p.is_prefix_of(k),
        None => true,
    }
}

/// The text of an optional string slice.
pub open spec fn str_text(s: Option<&str>) -> Option<Seq<char>> {
    match s {
        Some(t) => Some(t@),
        None => None,
    }
}

/// Whether `s` starts with `prefix`.
fn starts_with(s: &str, prefix: &str) -> (r: bool)
    ensures
        r == prefix@.is_prefix_of(s@),
{
    let n = prefix.unicode_len();
    if n > s.unicode_len() {
        return false;
    }
    let mut i: usize = 0;
    while i < n
        invariant
            n == prefix@.len(),
            n <= s@.len(),
            i <= n,
            forall|j: int| 0 <= j < i ==> prefix@[j] == s@[j],
        decreases n - i,
    {
        if prefix.get_char(i) != s.get_char(i) {
            assert(prefix@[i as int] != s@.subrange(0, n as int)[i as int]);
            return false;
        }
        i = i + 1;
    }
    assert(prefix@ =~= s@.subrange(0, n as int));
    true
}

/// What reading a stream gives: the stream's events from `from_version` on,
/// at most `limit` of them, with their extent.
pub open spec fn is_stream_read(
    r: EventStream,
    stream_id: Seq<char>,
    events: Seq<StoredEvent>,
    from_version: u64,
    limit: Option<usize>,
) -> bool {
    &&& r.stream_id@ == stream_id
    &&& r.events@ == read_selection(events, from_version, limit)
    &&& has_stream_extent(r)
    &&& r.is_complete == (limit is None)
}

/// The metadata of stream `stream_id` holding `events`: none for an empty
/// stream.
pub open spec fn is_stream_metadata(
    r: Option<StreamMetadata>,
    stream_id: Seq<char>,
    events: Seq<StoredEvent>,
) -> bool {
    match r {
        None => events.len() == 0,
        Some(m) => {
            &&& events.len() > 0
            &&& m.stream_id@ == stream_id
            &&& m.current_version == events.len()
            &&& m.event_count == events.len()
            &&& m.created_at == events[0].created_at
            &&& m.updated_at == events.last().created_at
            &&& m.last_snapshot_version is None
        },
    }
}

impl MockPubSubAdapter {
    /// Append `events` to stream `stream_id`; returns the stream's new
    /// version.
    pub fn append_events(&mut self, stream_id: &str, events: Vec<StoredEvent>) -> (r: PubSubResult<
        u64,
    >)
        requires
            old(self).wf(),
            old(self).storage.global_position + events@.len() <= u64::MAX,
        ensures
            final(self).wf(),
            r matches Ok(v) && v == old(self).storage.event_streams.items(stream_id@).len()
                + events@.len(),
            final(self).storage.global_position == old(self).storage.global_position
                + events@.len(),
            final(self).storage.event_streams@ == old(self).storage.event_streams@.insert(
                stream_id@,
                final(self).storage.event_streams@[stream_id@],
            ),
            final(self).storage.event_streams.items(stream_id@).len() == old(self).storage.event_streams.items(stream_id@).len() + events@.len(),
            forall|i: int|
                0 <= i < old(self).storage.event_streams.items(stream_id@).len() ==> #[trigger] final(self).storage.event_streams.items(stream_id@)[i] == old(self).storage.event_streams.items(stream_id@)[i],
            forall|i: int|
                0 <= i < events@.len() ==> appended_as(
                    #[trigger] final(self).storage.event_streams.items(stream_id@)[old(self).storage.event_streams.items(stream_id@).len() + i],
                    events@[i],
                    stream_id@,
                    old(self).storage.event_streams.items(stream_id@).len() + i + 1,
                    old(self).storage.global_position + i + 1,
                ),
            final(self).storage == (MockStorage {
                event_streams: final(self).storage.event_streams,
                global_position: final(self).storage.global_position,
                ..old(self).storage
            }),
    {
        Ok(self.storage.append_to_stream(stream_id, events))
    }

    /// Read stream `stream_id` from version `from_version` on, at most
    /// `limit` events (all for `None`).
    pub fn read_events(&self, stream_id: &str, from_version: u64, limit: Option<usize>) -> (r:
        PubSubResult<EventStream>)
        requires
            self.wf(),
        ensures
            r matches Ok(st) && is_stream_read(
                st,
                stream_id@,
                self.storage.event_streams.items(stream_id@),
                from_version,
                limit,
            ),
    {
        Ok(self.storage.read_stream(stream_id, from_version, limit))
    }

    /// The stored events of all streams at or after global position
    /// `from`, stream by stream in order of creation.
    fn events_from_position(&self, from: u64) -> (r: Vec<StoredEvent>)
        requires
            self.wf(),
        ensures
            r@ == events_from_streams(
                self.storage.event_streams,
                self.storage.event_streams.key_seq(),
                from,
            ),
    {
        let streams = &self.storage.event_streams;
        let keys = streams.keys();
        let ghost ks = streams.key_seq();
        let ghost pred = |e: StoredEvent| position_at_least(e, from);
        let mut all: Vec<StoredEvent> = Vec::new();
        let mut i: usize = 0;
        proof {
            assert(keys@.map_values(|s: String| s@).len() == keys@.len());
            assert(ks.take(0) =~= Seq::<Seq<char>>::empty());
        }
        while i < keys.len()
            invariant
                i <= keys@.len(),
                keys@.map_values(|s: String| s@) == ks,
                streams.wf(),
                pred == (|e: StoredEvent| position_at_least(e, from)),
                all@ == events_from_streams(*streams, ks.take(i as int), from),
            decreases keys@.len() - i,
        {
            proof {
                assert(ks[i as int] == keys@[i as int]@);
                assert(ks.take(i as int + 1).drop_last() =~= ks.take(i as int));
                assert(ks.take(i as int + 1).last() == ks[i as int]);
            }
            let ghost base = all@;
            let ghost items = streams.items(ks[i as int]);
            match streams.get(keys[i].as_str()) {
                Some(v) => {
                    let mut j: usize = 0;
                    proof {
                        assert(v@.take(0).filter(pred) =~= Seq::<StoredEvent>::empty()) by {
                            reveal_with_fuel(Seq::filter, 1);
                        }
                        assert(base + v@.take(0).filter(pred) =~= base);
                    }
                    while j < v.len()
                        invariant
                            j <= v@.len(),
                            v@ == items,
                            pred == (|e: StoredEvent| position_at_least(e, from)),
                            all@ == base + v@.take(j as int).filter(pred),
                        decreases v@.len() - j,
                    {
                        proof {
                            lemma_filter_push(v@.take(j as int), v@[j as int], pred);
                            assert(v@.take(j as int + 1) =~= v@.take(j as int).push(v@[j as int]));
                        }
                        if v[j].global_position.0 >= from {
                            let ghost before = all@;
                            all.push(v[j].clone());
                            proof {
                                assert(all@ =~= base + v@.take(j as int + 1).filter(pred));
                            }
                        }
                        j = j + 1;
                    }
                    proof {
                        assert(v@.take(j as int) =~= v@);
                    }
                },
                None => {
                    proof {
                        assert(items.filter(pred) =~= Seq::<StoredEvent>::empty()) by {
                            reveal_with_fuel(Seq::filter, 1);
                        }
                        assert(base + items.filter(pred) =~= base);
                    }
                },
            }
            i = i + 1;
        }
        proof {
            assert(ks.take(i as int) =~= ks);
        }
        all
    }

    /// Read the stored events of all streams at or after global position
    /// `from_position`, in order of global position, at most `limit` of
    /// them.
    pub fn read_all_events(&self, from_position: GlobalPosition, limit: Option<usize>) -> (r:
        PubSubResult<EventStream>)
        requires
            self.wf(),
        ensures
            r matches Ok(st) && is_all_read(st, self.storage.event_streams, from_position.0, limit),
    {
        let all = self.events_from_position(from_position.0);
        let sorted = order_by_position(&all);
        let lim: usize = match limit {
            Some(n) => n,
            None => usize::MAX,
        };
        let mut out: Vec<StoredEvent> = Vec::new();
        let mut current_version: u64 = 0;
        let mut k: usize = 0;
        while k < sorted.len() && k < lim
            invariant
                k <= sorted@.len(),
                k <= lim,
                out@ == sorted@.take(k as int),
                out@.len() == 0 ==> current_version == 0,
                forall|j: int|
                    0 <= j < out@.len() ==> #[trigger] out@[j].stream_version <= current_version,
                out@.len() > 0 ==> exists|j: int|
                    0 <= j < out@.len() && #[trigger] out@[j].stream_version == current_version,
            decreases sorted@.len() - k,
        {
            let e = sorted[k].clone();
            if e.stream_version > current_version {
                current_version = e.stream_version;
            }
            let ghost before = out@;
            out.push(e);
            proof {
                assert(out@ =~= sorted@.take(k as int + 1));
                assert forall|j: int|
                    0 <= j < out@.len() implies #[trigger] out@[j].stream_version
                    <= current_version by {
                    if j < before.len() {
                        assert(out@[j] == before[j]);
                    }
                }
                if e.stream_version == current_version {
                    assert(out@[out@.len() - 1].stream_version == current_version);
                } else {
                    let w = choose|j: int|
                        0 <= j < before.len() && #[trigger] before[j].stream_version
                            == current_version;
                    assert(out@[w] == before[w]);
                }
            }
            k = k + 1;
        }
        proof {
            assert(out@ == take_at_most(sorted@, limit_of(limit)));
            assert(ordered_by_position(sorted@));
        }
        let start_position = if out.len() == 0 {
            GlobalPosition(0)
        } else {
            out[0].global_position
        };
        let end_position = if out.len() == 0 {
            GlobalPosition(0)
        } else {
            out[out.len() - 1].global_position
        };
        Ok(
            EventStream {
                stream_id: "all".to_owned(),
                events: out,
                current_version,
                is_complete: limit.is_none(),
                start_position,
                end_position,
                read_at: now_millis(),
            },
        )
    }

    /// Read the events of stream `stream_id` with versions from
    /// `from_version` up to `to_version`, both included (to the end for
    /// `None`).
    pub fn read_events_range(&self, stream_id: &str, from_version: u64, to_version: Option<u64>) -> (r:
        PubSubResult<EventStream>)
        requires
            self.wf(),
        ensures
            r matches Ok(st) && is_range_read(
                st,
                stream_id@,
                self.storage.event_streams.items(stream_id@),
                from_version,
                to_version,
            ),
    {
        let ghost pred = |e: StoredEvent| version_in_range(e, from_version, to_version);
        let ghost items = self.storage.event_streams.items(stream_id@);
        let mut out: Vec<StoredEvent> = Vec::new();
        let mut current_version: u64 = 0;
        match self.storage.event_streams.get(stream_id) {
            Some(v) => {
                let mut i: usize = 0;
                while i < v.len()
                    invariant
                        i <= v@.len(),
                        v@ == items,
                        pred == (|e: StoredEvent| version_in_range(e, from_version, to_version)),
                        out@ == items.take(i as int).filter(pred),
                        out@.len() == 0 ==> current_version == 0,
                        forall|j: int|
                            0 <= j < out@.len() ==> #[trigger] out@[j].stream_version
                                <= current_version,
                        out@.len() > 0 ==> exists|j: int|
                            0 <= j < out@.len() && #[trigger] out@[j].stream_version
                                == current_version,
                    decreases v@.len() - i,
                {
                    proof {
                        lemma_filter_push(items.take(i as int), items[i as int], pred);
                        assert(items.take(i as int + 1) =~= items.take(i as int).push(
                            items[i as int],
                        ));
                    }
                    let version = v[i].stream_version;
                    let in_range = version >= from_version && match to_version {
                        Some(t) => version <= t,
                        None => true,
                    };
                    if in_range {
                        let e = v[i].clone();
                        if e.stream_version > current_version {
                            current_version = e.stream_version;
                        }
                        let ghost before = out@;
                        out.push(e);
                        proof {
                            assert forall|j: int|
                                0 <= j < out@.len() implies #[trigger] out@[j].stream_version
                                <= current_version by {
                                if j < before.len() {
                                    assert(out@[j] == before[j]);
                                }
                            }
                            if e.stream_version == current_version {
                                assert(out@[out@.len() - 1].stream_version == current_version);
                            } else {
                                let w = choose|j: int|
                                    0 <= j < before.len() && #[trigger] before[j].stream_version
                                        == current_version;
                                assert(out@[w] == before[w]);
                            }
                        }
                    }
                    i = i + 1;
                }
                assert(items.take(i as int) =~= items);
            },
            None => {
                assert(items.filter(pred) =~= Seq::<StoredEvent>::empty()) by {
                    reveal_with_fuel(Seq::filter, 1);
                }
            },
        }
        let start_position = if out.len() == 0 {
            GlobalPosition(0)
        } else {
            out[0].global_position
        };
        let end_position = if out.len() == 0 {
            GlobalPosition(0)
        } else {
            out[out.len() - 1].global_position
        };
        Ok(
            EventStream {
                stream_id: stream_id.to_owned(),
                events: out,
                current_version,
                is_complete: to_version.is_none(),
                start_position,
                end_position,
                read_at: now_millis(),
            },
        )
    }

    /// Save a snapshot under its own stream ID; the stream ID and version
    /// given here are not consulted.
    pub fn save_snapshot(&mut self, stream_id: &str, version: u64, snapshot: Snapshot) -> (r:
        PubSubResult<()>)
        requires
            old(self).wf(),
        ensures
            final(self).wf(),
            r is Ok,
            final(self).storage.snapshots@ == old(self).storage.snapshots@.insert(
                snapshot.stream_id@,
                final(self).storage.snapshots@[snapshot.stream_id@],
            ),
            final(self).storage.snapshots.items(snapshot.stream_id@) == snapshots_after_save(
                old(self).storage.snapshots.items(snapshot.stream_id@),
                snapshot,
            ),
            final(self).storage == (MockStorage {
                snapshots: final(self).storage.snapshots,
                ..old(self).storage
            }),
    {
        self.storage.save_snapshot(snapshot);
        Ok(())
    }

    /// The snapshot of `stream_id` with the greatest version, if any.
    pub fn load_snapshot(&self, stream_id: &str) -> (r: PubSubResult<Option<Snapshot>>)
        requires
            self.wf(),
        ensures
            r matches Ok(found) && match found {
                None => self.storage.snapshots.items(stream_id@).len() == 0,
                Some(x) => is_latest_snapshot(self.storage.snapshots.items(stream_id@), x),
            },
    {
        Ok(self.storage.load_latest_snapshot(stream_id))
    }

    /// The latest snapshot of `stream_id` at or before `max_version`, if
    /// any.
    pub fn load_snapshot_at_version(&self, stream_id: &str, max_version: u64) -> (r: PubSubResult<
        Option<Snapshot>,
    >)
        requires
            self.wf(),
        ensures
            r matches Ok(found) && match found {
                None => forall|j: int|
                    0 <= j < self.storage.snapshots.items(stream_id@).len()
                        ==> #[trigger] self.storage.snapshots.items(stream_id@)[j].version
                        > max_version,
                Some(x) => is_latest_snapshot_upto(
                    self.storage.snapshots.items(stream_id@),
                    max_version,
                    x,
                ),
            },
    {
        let ghost s = self.storage.snapshots.items(stream_id@);
        match self.storage.snapshots.get(stream_id) {
            None => Ok(None),
            Some(v) => {
                let mut best: Option<usize> = None;
                let mut i: usize = 0;
                while i < v.len()
                    invariant
                        i <= v@.len(),
                        v@ == s,
                        match best {
                            None => forall|j: int|
                                0 <= j < i ==> #[trigger] v@[j].version > max_version,
                            Some(b) => {
                                &&& b < i
                                &&& v@[b as int].version <= max_version
                                &&& forall|j: int|
                                    0 <= j < i && #[trigger] v@[j].version <= max_version
                                        ==> v@[j].version <= v@[b as int].version
                                &&& forall|j: int|
                                    b < j < i && #[trigger] v@[j].version <= max_version
                                        ==> v@[j].version < v@[b as int].version
                            },
                        },
                    decreases v@.len() - i,
                {
                    if v[i].version <= max_version {
                        let better = match best {
                            None => true,
                            Some(b) => v[i].version >= v[b].version,
                        };
                        if better {
                            best = Some(i);
                        }
                    }
                    i = i + 1;
                }
                match best {
                    None => Ok(None),
                    Some(b) => {
                        let x = v[b].clone();
                        assert(s[b as int] == x);
                        Ok(Some(x))
                    },
                }
            },
        }
    }

    /// Replay the events of stream `stream_id` with versions from
    /// `from_version` up to `to_version`, both included: a range read.
    pub fn replay_events(&self, stream_id: &str, from_version: u64, to_version: Option<u64>) -> (r:
        PubSubResult<EventStream>)
        requires
            self.wf(),
        ensures
            r matches Ok(st) && is_range_read(
                st,
                stream_id@,
                self.storage.event_streams.items(stream_id@),
                from_version,
                to_version,
            ),
    {
        self.read_events_range(stream_id, from_version, to_version)
    }

    /// The metadata of stream `stream_id`; none if it holds no events.
    pub fn get_stream_metadata(&self, stream_id: &str) -> (r: PubSubResult<Option<StreamMetadata>>)
        requires
            self.wf(),
        ensures
            r matches Ok(m) && is_stream_metadata(
                m,
                stream_id@,
                self.storage.event_streams.items(stream_id@),
            ),
    {
        proof {
            self.storage.event_streams.lemma_view();
        }
        match self.storage.event_streams.get(stream_id) {
            None => Ok(None),
            Some(v) => {
                if v.len() == 0 {
                    return Ok(None);
                }
                proof {
                    assert(stream_wf(stream_id@, v@, self.storage.global_position));
                    assert(v@[v@.len() - 1].stream_version == v@.len());
                }
                let last = v.len() - 1;
                Ok(
                    Some(
                        StreamMetadata {
                            stream_id: stream_id.to_owned(),
                            current_version: v[last].stream_version,
                            event_count: v.len() as u64,
                            created_at: v[0].created_at,
                            updated_at: v[last].created_at,
                            last_snapshot_version: None,
                        },
                    ),
                )
            },
        }
    }

    /// The IDs of the streams that start with `prefix` (all, for `None`),
    /// in order of creation, at most `limit` of them.
    pub fn list_streams(&self, prefix: Option<&str>, limit: Option<usize>) -> (r: PubSubResult<
        Vec<String>,
    >)
        requires
            self.wf(),
        ensures
            r matches Ok(v) && v@.map_values(|s: String| s@) == take_at_most(
                self.storage.event_streams.key_seq().filter(
                    |k: Seq<char>| matches_prefix(k, str_text(prefix)),
                ),
                limit_of(limit),
            ),
    {
        let keys = self.storage.event_streams.keys();
        let ghost ks = self.storage.event_streams.key_seq();
        let ghost pred = |k: Seq<char>| matches_prefix(k, str_text(prefix));
        let lim: usize = match limit {
            Some(n) => n,
            None => usize::MAX,
        };
        let mut out: Vec<String> = Vec::new();
        let mut i: usize = 0;
        proof {
            assert(keys@.map_values(|s: String| s@).len() == keys@.len());
            assert(ks.take(0).filter(pred) =~= Seq::<Seq<char>>::empty()) by {
                reveal_with_fuel(Seq::filter, 1);
            }
            assert(out@.map_values(|s: String| s@) =~= Seq::<Seq<char>>::empty());
        }
        while i < keys.len()
            invariant
                i <= keys@.len(),
                keys@.map_values(|s: String| s@) == ks,
                lim == limit_of(limit),
                pred == (|k: Seq<char>| matches_prefix(k, str_text(prefix))),
                out@.map_values(|s: String| s@) == take_at_most(ks.take(i as int).filter(pred), lim as int),
            decreases keys@.len() - i,
        {
            let ghost f = ks.take(i as int).filter(pred);
            proof {
                assert(ks[i as int] == keys@[i as int]@);
                lemma_filter_push(ks.take(i as int), ks[i as int], pred);
                assert(ks.take(i as int + 1) =~= ks.take(i as int).push(ks[i as int]));
            }
            let wanted = match prefix {
                Some(p) => starts_with(keys[i].as_str(), p),
                None => true,
            };
            if wanted && out.len() < lim {
                let ghost before = out@;
                out.push(keys[i].clone());
                proof {
                    assert(out@.map_values(|s: String| s@) =~= before.map_values(|s: String| s@).push(
                        ks[i as int],
                    ));
                    assert(take_at_most(f.push(ks[i as int]), lim as int) =~= take_at_most(
                        f,
                        lim as int,
                    ).push(ks[i as int]));
                }
            } else {
                proof {
                    if pred(ks[i as int]) {
                        assert(take_at_most(f.push(ks[i as int]), lim as int) =~= take_at_most(
                            f,
                            lim as int,
                        ));
                    }
                }
            }
            i = i + 1;
        }
        proof {
            assert(ks.take(i as int) =~= ks);
        }
        Ok(out)
    }

    /// Delete stream `stream_id` and its snapshots.
    pub fn delete_stream(&mut self, stream_id: &str) -> (r: PubSubResult<()>)
        requires
            old(self).wf(),
        ensures
            final(self).wf(),
            r is Ok,
            final(self).storage.event_streams@ == old(self).storage.event_streams@.remove(
                stream_id@,
            ),
            final(self).storage.snapshots@ == old(self).storage.snapshots@.remove(stream_id@),
            final(self).storage == (MockStorage {
                event_streams: final(self).storage.event_streams,
                snapshots: final(self).storage.snapshots,
                ..old(self).storage
            }),
    {
        self.storage.event_streams.remove(stream_id);
        self.storage.snapshots.remove(stream_id);
        proof {
            assert forall|k: Seq<char>| #[trigger]
                self.storage.event_streams@.contains_key(k) implies stream_wf(
                k,
                self.storage.event_streams@[k]@,
                self.storage.global_position,
            ) by {
                assert(old(self).storage.event_streams@.contains_key(k));
            }
            assert forall|k: Seq<char>| #[trigger]
                self.storage.snapshots@.contains_key(k) implies snapshots_sorted(
                self.storage.snapshots@[k]@,
            ) by {
                assert(old(self).storage.snapshots@.contains_key(k));
            }
        }
        Ok(())
    }

    /// Subscribe to all streams from a global position; this adapter only
    /// hands out a new subscription ID.
    pub fn subscribe_to_all(&self, from_position: GlobalPosition) -> (r: PubSubResult<
        SubscriptionId,
    >)
        ensures
            r matches Ok(id) && id@.len() == 36,
    {
        Ok(generate_subscription_id())
    }

    /// Subscribe to one stream from a version; this adapter only hands out
    /// a new subscription ID.
    pub fn subscribe_to_stream(&self, stream_id: &str, from_version: u64) -> (r: PubSubResult<
        SubscriptionId,
    >)
        ensures
            r matches Ok(id) && id@.len() == 36,
    {
        Ok(generate_subscription_id())
    }
}

impl MockPubSubAdapter {
    /// The health of the adapter, checked now.
    pub fn health_check(&self) -> (r: PubSubResult<HealthStatus>)
        ensures
            r matches Ok(h) && storage_health(h, self.storage.start_time, h.checked_at),
    {
        Ok(self.storage.get_health_status())
    }

    /// The connection status that this adapter reports at time `now`: one
    /// active connection of a pool of at most 10, no error.
    pub fn connection_status_at(&self, now: i64) -> (r: PubSubResult<ConnectionStatus>)
        ensures
            r matches Ok(c) && {
                &&& c.connected
                &&& c.connections@.len() == 0
                &&& c.active_connections == 1
                &&& c.pool_stats == (PoolStats {
                    total_connections: 1,
                    active_connections: 1,
                    idle_connections: 0,
                    pending_requests: 0,
                    max_connections: 10,
                    min_connections: 1,
                })
                &&& c.last_connection_attempt == Some(now)
                &&& c.error is None
            },
    {
        Ok(
            ConnectionStatus {
                connected: true,
                connections: Vec::new(),
                active_connections: 1,
                pool_stats: PoolStats {
                    total_connections: 1,
                    active_connections: 1,
                    idle_connections: 0,
                    pending_requests: 0,
                    max_connections: 10,
                    min_connections: 1,
                },
                last_connection_attempt: Some(now),
                error: None,
            },
        )
    }

    /// The connection status that this adapter reports now.
    pub fn connection_status(&self) -> (r: PubSubResult<ConnectionStatus>)
        ensures
            r matches Ok(c) && {
                &&& c.connected
                &&& c.connections@.len() == 0
                &&& c.active_connections == 1
                &&& c.pool_stats == (PoolStats {
                    total_connections: 1,
                    active_connections: 1,
                    idle_connections: 0,
                    pending_requests: 0,
                    max_connections: 10,
                    min_connections: 1,
                })
                &&& c.last_connection_attempt is Some
                &&& c.error is None
            },
    {
        self.connection_status_at(now_millis())
    }

    /// Refresh and return the metrics of `topic`.
    pub fn get_metrics(&mut self, topic: &str) -> (r: PubSubResult<TopicMetrics>)
        requires
            old(self).wf(),
            old(self).room_for(topic@, 0),
        ensures
            final(self).wf(),
            final(self).storage.topic_metrics@ == old(self).storage.topic_metrics@.insert(
                topic@,
                final(self).storage.topic_metrics@[topic@],
            ),
            r matches Ok(m) && same_topic_metrics(m, final(self).storage.topic_metrics@[topic@])
                && recorded_metrics(
                m,
                topic@,
                old(self).published(topic@).len() as int,
                old(self).storage.dlq_events.items(topic@).len() as int,
            ),
            final(self).storage == (MockStorage {
                topic_metrics: final(self).storage.topic_metrics,
                ..old(self).storage
            }),
    {
        self.storage.update_metrics(topic);
        proof {
            self.storage.topic_metrics.lemma_view();
        }
        match self.storage.topic_metrics.get(topic) {
            Some(m) => Ok(m.copy()),
            None => Err(PubSubError::not_found("topic_metrics", topic)),
        }
    }

    /// Refresh and collect the metrics of each of `topics`.
    pub fn get_bulk_metrics(&mut self, topics: Vec<String>) -> (r: PubSubResult<
        StringMap<TopicMetrics>,
    >)
        requires
            old(self).wf(),
            forall|j: int| 0 <= j < topics@.len() ==> old(self).room_for((#[trigger] topics@[j])@, 0),
        ensures
            final(self).wf(),
            r matches Ok(all) && {
                &&& all.wf()
                &&& forall|k: Seq<char>| #[trigger]
                    all@.contains_key(k) <==> exists|j: int|
                        0 <= j < topics@.len() && (#[trigger] topics@[j])@ == k
                &&& forall|k: Seq<char>| #[trigger]
                    all@.contains_key(k) ==> recorded_metrics(
                        all@[k],
                        k,
                        old(self).published(k).len() as int,
                        old(self).storage.dlq_events.items(k).len() as int,
                    )
            },
            final(self).storage == (MockStorage {
                topic_metrics: final(self).storage.topic_metrics,
                ..old(self).storage
            }),
    {
        let mut all: StringMap<TopicMetrics> = StringMap::new();
        let mut i: usize = 0;
        while i < topics.len()
            invariant
                i <= topics@.len(),
                self.wf(),
                all.wf(),
                forall|j: int| 0 <= j < topics@.len() ==> old(self).room_for((#[trigger] topics@[j])@, 0),
                forall|k: Seq<char>| #[trigger]
                    all@.contains_key(k) <==> exists|j: int|
                        0 <= j < i && (#[trigger] topics@[j])@ == k,
                forall|k: Seq<char>| #[trigger]
                    all@.contains_key(k) ==> recorded_metrics(
                        all@[k],
                        k,
                        old(self).published(k).len() as int,
                        old(self).storage.dlq_events.items(k).len() as int,
                    ),
                self.storage == (MockStorage {
                    topic_metrics: self.storage.topic_metrics,
                    ..old(self).storage
                }),
            decreases topics@.len() - i,
        {
            let topic = topics[i].clone();
            assert(old(self).room_for(topics@[i as int]@, 0));
            let got = self.get_metrics(topic.as_str());
            match got {
                Ok(m) => {
                    let ghost before = all@;
                    all.insert(topic, m);
                    proof {
                        assert forall|k: Seq<char>| #[trigger]
                            all@.contains_key(k) <==> exists|j: int|
                                0 <= j < i + 1 && (#[trigger] topics@[j])@ == k by {
                            if k == topics@[i as int]@ {
                                assert(topics@[i as int]@ == k);
                            }
                            if exists|j: int| 0 <= j < i + 1 && (#[trigger] topics@[j])@ == k {
                                let j = choose|j: int| 0 <= j < i + 1 && (#[trigger] topics@[j])@ == k;
                                if j < i {
                                    assert(before.contains_key(k));
                                }
                            }
                        }
                    }
                },
                Err(_) => {
                    assert(false);
                },
            }
            i = i + 1;
        }
        Ok(all)
    }

    /// Start collecting traces; this adapter only acknowledges the request.
    pub fn start_tracing(&self) -> (r: PubSubResult<()>)
        ensures
            r is Ok,
    {
        Ok(())
    }

    /// Stop collecting traces; this adapter only acknowledges the request.
    pub fn stop_tracing(&self) -> (r: PubSubResult<()>)
        ensures
            r is Ok,
    {
        Ok(())
    }

    /// Export the collected traces: this adapter gives the bytes of
    /// "Mock trace data" for every format.
    pub fn export_traces(&self, format: &TraceFormat) -> (r: PubSubResult<Vec<u8>>)
        ensures
            r matches Ok(bytes) && bytes@ == vstd::utf8::encode_utf8("Mock trace data"@),
    {
        Ok("Mock trace data".as_bytes_vec())
    }

    /// Configure an alert named `name`: it is recorded, active and never
    /// triggered, under a fresh ID, which is returned.
    pub fn create_alert(&mut self, name: &str) -> (r: PubSubResult<AlertId>)
        requires
            old(self).wf(),
        ensures
            final(self).wf(),
            r matches Ok(id) && {
                &&& id@.len() == 36
                &&& final(self).storage.alerts@ == old(self).storage.alerts@.insert(
                    id@,
                    final(self).storage.alerts@[id@],
                )
                &&& final(self).storage.alerts@[id@].alert_id@ == id@
                &&& final(self).storage.alerts@[id@].name@ == name@
                &&& final(self).storage.alerts@[id@].active
                &&& final(self).storage.alerts@[id@].last_triggered is None
                &&& final(self).storage.alerts@[id@].trigger_count == 0
            },
            final(self).storage == (MockStorage { alerts: final(self).storage.alerts, ..old(self).storage }),
    {
        let id = generate_event_id();
        let status = AlertStatus {
            alert_id: id.clone(),
            name: name.to_owned(),
            active: true,
            last_triggered: None,
            trigger_count: 0,
        };
        self.storage.alerts.insert(id.clone(), status);
        Ok(id)
    }

    /// Remove alert `alert_id`; an unknown ID changes nothing.
    pub fn remove_alert(&mut self, alert_id: &str) -> (r: PubSubResult<()>)
        requires
            old(self).wf(),
        ensures
            final(self).wf(),
            r is Ok,
            final(self).storage.alerts@ == old(self).storage.alerts@.remove(alert_id@),
            final(self).storage == (MockStorage { alerts: final(self).storage.alerts, ..old(self).storage }),
    {
        self.storage.alerts.remove(alert_id);
        Ok(())
    }

    /// The status of every configured alert, in order of creation.
    pub fn get_alert_status(&self) -> (r: PubSubResult<Vec<AlertStatus>>)
        requires
            self.wf(),
        ensures
            r matches Ok(v) && v@.len() == self.storage.alerts.key_seq().len() && forall|j: int|
                0 <= j < v@.len() ==> #[trigger] v@[j] == self.storage.alerts@[self.storage.alerts.key_seq()[j]],
    {
        let alerts = &self.storage.alerts;
        proof {
            alerts.lemma_view();
        }
        let n = alerts.len();
        let mut out: Vec<AlertStatus> = Vec::new();
        let mut i: usize = 0;
        while i < n
            invariant
                alerts.wf(),
                n == alerts.key_seq().len(),
                i <= n,
                out@.len() == i,
                forall|j: int|
                    #![trigger alerts.key_seq()[j]]
                    0 <= j < alerts.key_seq().len() ==> alerts@.contains_key(alerts.key_seq()[j])
                        && alerts@[alerts.key_seq()[j]] == alerts.value_seq()[j],
                forall|j: int| 0 <= j < i ==> #[trigger] out@[j] == alerts.value_seq()[j],
            decreases n - i,
        {
            out.push(alerts.value_at(i).copy());
            i = i + 1;
        }
        proof {
            assert forall|j: int| 0 <= j < out@.len() implies #[trigger] out@[j]
                == alerts@[alerts.key_seq()[j]] by {
                assert(alerts@[alerts.key_seq()[j]] == alerts.value_seq()[j]);
            }
        }
        Ok(out)
    }
}

impl MockPubSubAdapter {
    /// Set the retry policy of `topic`, replacing any it had.
    pub fn set_retry_policy(&mut self, topic: &str, policy: RetryPolicy) -> (r: PubSubResult<()>)
        requires
            old(self).wf(),
        ensures
            final(self).wf(),
            r is Ok,
            final(self).storage.retry_policies@ == old(self).storage.retry_policies@.insert(
                topic@,
                policy,
            ),
            final(self).storage == (MockStorage {
                retry_policies: final(self).storage.retry_policies,
                ..old(self).storage
            }),
    {
        self.storage.retry_policies.insert(topic.to_owned(), policy);
        Ok(())
    }

    /// The retry policy set for `topic`; none if the topic uses the default
    /// policy.
    pub fn get_retry_policy(&self, topic: &str) -> (r: PubSubResult<Option<RetryPolicy>>)
        requires
            self.wf(),
        ensures
            r matches Ok(found) && match self.storage.retry_policies.lookup(topic@) {
                Some(p) => found matches Some(q) && same_policy(q, p),
                None => found is None,
            },
    {
        match self.storage.retry_policies.get(topic) {
            Some(p) => Ok(Some(p.copy())),
            None => Ok(None),
        }
    }

    /// Remove the retry policy of `topic`, which then uses the default
    /// policy.
    pub fn remove_retry_policy(&mut self, topic: &str) -> (r: PubSubResult<()>)
        requires
            old(self).wf(),
        ensures
            final(self).wf(),
            r is Ok,
            final(self).storage.retry_policies@ == old(self).storage.retry_policies@.remove(
                topic@,
            ),
            final(self).storage == (MockStorage {
                retry_policies: final(self).storage.retry_policies,
                ..old(self).storage
            }),
    {
        self.storage.retry_policies.remove(topic);
        Ok(())
    }

    /// The result of retrying event `event_id` once more at time `now`,
    /// given whether the attempt succeeded: it counts as the second
    /// attempt; a failed one is due again five minutes later.
    pub fn retry_failed_event(&self, event_id: &str, success: bool, now: i64) -> (r: PubSubResult<
        RetryResult,
    >)
        requires
            now <= i64::MAX - 300_000,
        ensures
            r matches Ok(res) && {
                &&& res.event_id@ == event_id@
                &&& res.success == success
                &&& res.attempt_number == 2
                &&& success ==> res.error_message is None && res.next_retry_at is None
                &&& !success ==> is_some_text(res.error_message, "Retry failed"@)
                    && res.next_retry_at == Some((now + 300_000) as i64)
            },
    {
        Ok(
            RetryResult {
                event_id: event_id.to_owned(),
                success,
                attempt_number: 2,
                error_message: if success {
                    None
                } else {
                    Some("Retry failed".to_owned())
                },
                next_retry_at: if success {
                    None
                } else {
                    Some(now + 300_000)
                },
            },
        )
    }

    /// The events of `topic` that are currently failing: its dead-lettered
    /// events, at most `limit` of them.
    pub fn get_failing_events(&self, topic: &str, limit: Option<usize>) -> (r: PubSubResult<
        Vec<FailedEvent>,
    >)
        requires
            self.wf(),
        ensures
            r matches Ok(v) && v@.len() == take_at_most(
                self.storage.dlq_events.items(topic@),
                limit_of(limit),
            ).len() && forall|j: int|
                0 <= j < v@.len() ==> same_failed_event(
                    #[trigger] v@[j],
                    take_at_most(self.storage.dlq_events.items(topic@), limit_of(limit))[j],
                ),
    {
        self.get_dlq_events(topic, limit)
    }

    /// Give event `event_id` fresh retry attempts: every dead-lettered
    /// event with that ID, in any topic, has its attempt count reset to 0.
    /// An ID that is not queued changes nothing.
    pub fn reset_retry_count(&mut self, event_id: &str) -> (r: PubSubResult<()>)
        requires
            old(self).wf(),
        ensures
            final(self).wf(),
            r is Ok,
            dlq_model(final(self).storage.dlq_events) == reset_in_all(
                dlq_model(old(self).storage.dlq_events),
                event_id@,
            ),
            final(self).storage.dlq_events.key_seq() == old(self).storage.dlq_events.key_seq(),
            final(self).storage == (MockStorage {
                dlq_events: final(self).storage.dlq_events,
                ..old(self).storage
            }),
    {
        let ghost keys = old(self).storage.dlq_events.key_seq();
        let ghost model0 = dlq_model(old(self).storage.dlq_events);
        let wanted: String = event_id.to_owned();
        proof {
            self.storage.dlq_events.lemma_view();
        }
        let n = self.storage.dlq_events.len();
        let mut i: usize = 0;
        while i < n
            invariant
                self.wf(),
                n == keys.len(),
                i <= n,
                wanted@ == event_id@,
                self.storage.dlq_events.key_seq() == keys,
                forall|k: Seq<char>|
                    #[trigger] dlq_model(self.storage.dlq_events).contains_key(k)
                        == model0.contains_key(k),
                forall|j: int|
                    #![trigger keys[j]]
                    0 <= j < n ==> dlq_model(self.storage.dlq_events)[keys[j]] == (if j < i {
                        reset_attempts(model0[keys[j]], event_id@)
                    } else {
                        model0[keys[j]]
                    }),
                self.storage == (MockStorage {
                    dlq_events: self.storage.dlq_events,
                    ..old(self).storage
                }),
            decreases n - i,
        {
            let ghost before = self.storage.dlq_events;
            proof {
                before.lemma_view();
            }
            let mut rest = self.storage.dlq_events.replace_at(i, Vec::new());
            let ghost items = rest@;
            proof {
                assert(items == model0[keys[i as int]]);
                assert(items.skip(0) =~= items);
                assert(rest@.len() == rest.len());
            }
            let mut done: Vec<FailedEvent> = Vec::new();
            let mut c: usize = 0;
            while rest.len() > 0
                invariant
                    c <= items.len(),
                    items.len() <= usize::MAX,
                    rest@ == items.skip(c as int),
                    wanted@ == event_id@,
                    done@ == reset_attempts(items.take(c as int), event_id@),
                decreases rest@.len(),
            {
                let mut e = rest.remove(0);
                proof {
                    assert(items.take(c as int + 1) =~= items.take(c as int).push(items[c as int]));
                    assert(rest@ =~= items.skip(c as int + 1));
                }
                if e.original_event_id == wanted {
                    e.attempt_count = 0;
                }
                done.push(e);
                proof {
                    assert(done@ =~= reset_attempts(items.take(c as int + 1), event_id@));
                }
                c = c + 1;
            }
            proof {
                assert(items.take(c as int) =~= items);
            }
            self.storage.dlq_events.replace_at(i, done);
            proof {
                let after = self.storage.dlq_events;
                after.lemma_view();
                assert forall|k: Seq<char>|
                    #[trigger] dlq_model(after).contains_key(k) == model0.contains_key(k) by {
                    assert(dlq_model(after).contains_key(k) == after@.contains_key(k));
                    assert(dlq_model(before).contains_key(k) == before@.contains_key(k));
                }
                assert forall|j: int|
                    #![trigger keys[j]]
                    0 <= j < n implies dlq_model(after)[keys[j]] == (if j < i + 1 {
                        reset_attempts(model0[keys[j]], event_id@)
                    } else {
                        model0[keys[j]]
                    }) by {
                    if j != i as int {
                        assert(keys[j] != keys[i as int]);
                    }
                }
            }
            i = i + 1;
        }
        proof {
            let m = dlq_model(self.storage.dlq_events);
            self.storage.dlq_events.lemma_view();
            old(self).storage.dlq_events.lemma_view();
            assert forall|k: Seq<char>| #[trigger] m.contains_key(k) implies m[k] == reset_in_all(
                model0,
                event_id@,
            )[k] by {
                let j = keys.index_of(k);
                assert(keys[j] == k);
            }
            assert(m =~= reset_in_all(model0, event_id@));
        }
        Ok(())
    }

    /// Set the retry policy of topics without one of their own.
    pub fn set_default_retry_policy(&mut self, policy: RetryPolicy) -> (r: PubSubResult<()>)
        ensures
            r is Ok,
            final(self).storage == (MockStorage { default_retry_policy: policy, ..old(self).storage }),
    {
        self.storage.default_retry_policy = policy;
        Ok(())
    }

    /// The retry policy of topics without one of their own.
    pub fn get_default_retry_policy(&self) -> (r: PubSubResult<RetryPolicy>)
        ensures
            r matches Ok(p) && same_policy(p, self.storage.default_retry_policy),
    {
        Ok(self.storage.default_retry_policy.copy())
    }

    /// Pause retry processing for a topic; this adapter only acknowledges
    /// the request.
    pub fn pause_retry_processing(&self, topic: &str) -> (r: PubSubResult<()>)
        ensures
            r is Ok,
    {
        Ok(())
    }

    /// Resume retry processing for a topic; this adapter only acknowledges
    /// the request.
    pub fn resume_retry_processing(&self, topic: &str) -> (r: PubSubResult<()>)
        ensures
            r is Ok,
    {
        Ok(())
    }
}

/// Copies of failed events give the same CSV text.
proof fn lemma_copies_same_csv(a: Seq<FailedEvent>, b: Seq<FailedEvent>)
    requires
        a.len() == b.len(),
        forall|j: int| 0 <= j < a.len() ==> same_failed_event(#[trigger] a[j], b[j]),
    ensures
        csv_text(a) == csv_text(b),
    decreases a.len(),
{
    if a.len() > 0 {
        let a1 = a.drop_last();
        let b1 = b.drop_last();
        assert forall|j: int| 0 <= j < a1.len() implies same_failed_event(#[trigger] a1[j], b1[j]) by {
            assert(same_failed_event(a[j], b[j]));
        }
        lemma_copies_same_csv(a1, b1);
        assert(same_failed_event(a[a.len() - 1], b[b.len() - 1]));
        assert(csv_row(a.last()) == csv_row(b.last()));
    }
}

/// The message of the error for a JSON export that failed.
pub open spec fn json_export_failure_text(detail: Seq<char>) -> Seq<char> {
    "JSON export failed: "@ + detail
}

/// The error for a JSON export that failed.
pub fn json_export_failure(detail: &str) -> (r: PubSubError)
    ensures
        r.is_serialization(json_export_failure_text(detail@)),
{
    let mut message = "JSON export failed: ".to_owned();
    message.append(detail);
    PubSubError::serialization(message.as_str())
}

impl MockPubSubAdapter {
    /// A new adapter that simulates no failures, with empty storage.
    pub fn reliable() -> (r: Self)
        ensures
            r.wf(),
            r.storage.is_empty_storage(),
    {
        MockPubSubAdapter::new()
    }

    /// Export the dead-lettered events of `topic`. CSV is written here;
    /// `json_document` is the pretty-printed JSON array of those events (or
    /// the serializer's message), which the JSON format returns; other
    /// formats are not supported.
    pub fn export_dlq_events(
        &self,
        topic: &str,
        format: &ExportFormat,
        json_document: Result<Vec<u8>, String>,
    ) -> (r: PubSubResult<Vec<u8>>)
        requires
            self.wf(),
        ensures
            match format {
                ExportFormat::Json => match json_document {
                    Ok(doc) => r matches Ok(bytes) && bytes@ == doc@,
                    Err(detail) => r matches Err(e) && e.is_serialization(
                        json_export_failure_text(detail@),
                    ),
                },
                ExportFormat::Csv => r matches Ok(bytes) && bytes@ == vstd::utf8::encode_utf8(
                    csv_text(self.storage.dlq_events.items(topic@)),
                ),
                _ => r matches Err(e) && e.is_configuration(
                    "Unsupported export format for mock implementation"@,
                ),
            },
    {
        match format {
            ExportFormat::Json => match json_document {
                Ok(doc) => Ok(doc),
                Err(detail) => Err(json_export_failure(detail.as_str())),
            },
            ExportFormat::Csv => {
                let copies = self.dlq_copies(topic, None);
                let ghost items = self.storage.dlq_events.items(topic@);
                proof {
                    if self.storage.dlq_events@.contains_key(topic@) {
                        let v = self.storage.dlq_events@[topic@];
                        assert(v@.len() == v.len());
                    }
                    assert(take_at_most(items, limit_of(None)) == items);
                    lemma_copies_same_csv(copies@, items);
                }
                Ok(MockDlqManager::export_dlq_events_csv(copies.as_slice()))
            },
            _ => Err(PubSubError::configuration("Unsupported export format for mock implementation")),
        }
    }
}

impl Default for MockPubSubAdapter {
    fn default() -> (r: Self)
        ensures
            r.wf(),
            r.storage.is_empty_storage(),
    {
        MockPubSubAdapter::new()
    }
}

/// The figures reported for all topics at time `now` when `topic_count`
/// topics hold published events: the topic count, with fixed placeholder
/// figures elsewhere.
pub open spec fn is_global_metrics(g: GlobalMetrics, topic_count: nat, now: i64) -> bool {
    &&& g.total_topics == topic_count as u32
    &&& g.total_events == 1000
    &&& g.publishing == (PublishingMetrics {
        events_published: 1000,
        events_published_last_minute: 10,
        events_published_last_hour: 600,
        bytes_published: 1024000,
        failed_publishes: 5,
    })
    &&& g.subscription == (SubscriptionMetrics {
        events_consumed: 995,
        events_consumed_last_minute: 10,
        events_consumed_last_hour: 595,
        active_subscriptions: 5,
        consumer_groups: 2,
        lag: 5,
        failed_consumptions: 10,
    })
    &&& g.errors.total_errors == 15
    &&& g.errors.errors_last_minute == 0
    &&& g.errors.errors_last_hour == 2
    &&& g.errors.dlq_events == 5
    &&& g.errors.retry_attempts == 30
    &&& g.errors.successful_retries == 25
    &&& g.errors.failed_retries == 5
    &&& g.errors.common_errors@.len() == 0
    &&& g.performance == (PerformanceMetrics {
        average_latency: 15,
        p95_latency: 30,
        p99_latency: 60,
        max_latency: 200,
        min_latency: 1,
        memory_usage_bytes: 10485760,
    })
    &&& g.system == (SystemMetrics {
        memory_usage_bytes: 104857600,
        disk_usage_bytes: 1073741824,
        network_bytes_in: 52428800,
        network_bytes_out: 47185920,
        file_descriptors: 100,
    })
    &&& g.collected_at == now
}

impl MockPubSubAdapter {
    /// A copy of the dead-lettered event with ID `event_id`: the first such
    /// event of the first topic, in topic order, that holds one; none if no
    /// topic does.
    pub fn get_dlq_event_details(&self, event_id: &str) -> (r: PubSubResult<Option<FailedEvent>>)
        requires
            self.wf(),
        ensures
            r matches Ok(found) && {
                let keys = self.storage.dlq_events.key_seq();
                let model = dlq_model(self.storage.dlq_events);
                let h = holder_from(keys, model, event_id@, 0);
                match found {
                    None => h == keys.len(),
                    Some(x) => h < keys.len() && same_failed_event(
                        x,
                        queued(model, keys[h])[failed_ids(queued(model, keys[h])).index_of_first(
                            event_id@,
                        )->0],
                    ),
                }
            },
    {
        let ghost keys = self.storage.dlq_events.key_seq();
        let ghost model = dlq_model(self.storage.dlq_events);
        proof {
            self.storage.dlq_events.lemma_view();
        }
        let n = self.storage.dlq_events.len();
        let wanted = event_id.to_owned();
        let mut i: usize = 0;
        while i < n
            invariant
                self.wf(),
                n == keys.len(),
                i <= n,
                wanted@ == event_id@,
                keys == self.storage.dlq_events.key_seq(),
                model == dlq_model(self.storage.dlq_events),
                forall|j: int| 0 <= j < i ==> !failed_ids(queued(model, #[trigger] keys[j])).contains(event_id@),
            decreases n - i,
        {
            proof {
                self.storage.dlq_events.lemma_view();
            }
            let list = self.storage.dlq_events.value_at(i);
            let ghost q = queued(model, keys[i as int]);
            assert(list@ == q);
            let mut k: usize = 0;
            while k < list.len()
                invariant
                    k <= list@.len(),
                    list@ == q,
                    wanted@ == event_id@,
                    i < n,
                    n == keys.len(),
                    keys == self.storage.dlq_events.key_seq(),
                    model == dlq_model(self.storage.dlq_events),
                    q == queued(model, keys[i as int]),
                    forall|j: int| 0 <= j < i ==> !failed_ids(queued(model, #[trigger] keys[j])).contains(event_id@),
                    forall|m: int| 0 <= m < k ==> (#[trigger] q[m]).original_event_id@ != event_id@,
                decreases list@.len() - k,
            {
                if list[k].original_event_id == wanted {
                    proof {
                        let ids = failed_ids(q);
                        assert(ids[k as int] == event_id@);
                        ids.index_of_first_ensures(event_id@);
                        let f = ids.index_of_first(event_id@)->0;
                        if f < k as int {
                            assert(ids[f] == q[f].original_event_id@);
                        }
                        assert(f == k as int);
                        assert(ids.contains(event_id@));
                        lemma_holder_at(keys, model, event_id@, 0, i as int);
                        assert(holder_from(keys, model, event_id@, 0) == i as int);
                    }
                    let found = list[k].copy();
                    assert(same_failed_event(found, q[k as int]));
                    return Ok(Some(found));
                }
                k = k + 1;
            }
            proof {
                let ids = failed_ids(q);
                assert forall|m: int| 0 <= m < ids.len() implies ids[m] != event_id@ by {
                    assert(ids[m] == q[m].original_event_id@);
                }
            }
            i = i + 1;
        }
        proof {
            lemma_holder_at(keys, model, event_id@, 0, n as int);
        }
        Ok(None)
    }

    /// Figures for all topics at time `now`: the number of topics, with
    /// fixed placeholder figures elsewhere.
    pub fn get_global_metrics_at(&self, now: i64) -> (r: PubSubResult<GlobalMetrics>)
        ensures
            r matches Ok(g) && is_global_metrics(g, self.storage.events.key_seq().len(), now),
    {
        let topics = self.storage.get_topics();
        proof {
            assert(topics@.map_values(|s: String| s@).len() == topics@.len());
        }
        Ok(
            GlobalMetrics {
                total_topics: topics.len() as u32,
                total_events: 1000,
                publishing: PublishingMetrics {
                    events_published: 1000,
                    events_published_last_minute: 10,
                    events_published_last_hour: 600,
                    bytes_published: 1024 * 1000,
                    failed_publishes: 5,
                },
                subscription: SubscriptionMetrics {
                    events_consumed: 995,
                    events_consumed_last_minute: 10,
                    events_consumed_last_hour: 595,
                    active_subscriptions: 5,
                    consumer_groups: 2,
                    lag: 5,
                    failed_consumptions: 10,
                },
                errors: ErrorMetrics {
                    total_errors: 15,
                    errors_last_minute: 0,
                    errors_last_hour: 2,
                    dlq_events: 5,
                    retry_attempts: 30,
                    successful_retries: 25,
                    failed_retries: 5,
                    common_errors: Vec::new(),
                },
                performance: PerformanceMetrics {
                    average_latency: 15,
                    p95_latency: 30,
                    p99_latency: 60,
                    max_latency: 200,
                    min_latency: 1,
                    memory_usage_bytes: 1024 * 1024 * 10,
                },
                system: SystemMetrics {
                    memory_usage_bytes: 1024 * 1024 * 100,
                    disk_usage_bytes: 1024 * 1024 * 1024,
                    network_bytes_in: 1024 * 1024 * 50,
                    network_bytes_out: 1024 * 1024 * 45,
                    file_descriptors: 100,
                },
                collected_at: now,
            },
        )
    }

    /// Figures for all topics, collected now.
    pub fn get_global_metrics(&self) -> (r: PubSubResult<GlobalMetrics>)
        ensures
            r matches Ok(g) && is_global_metrics(g, self.storage.events.key_seq().len(), g.collected_at),
    {
        self.get_global_metrics_at(now_millis())
    }
}

} // verus!
