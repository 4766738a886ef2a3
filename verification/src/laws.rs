//! Properties that hold across the operations of the port, stated over the
//! same models that the operations' contracts use.

use vstd::prelude::*;
use crate::adapter::{
    activity_set, failed_before, failed_earlier, failed_since, holder_from, is_latest_snapshot_upto, queued, range_selection,
    retry_all, retry_step, version_in_range, MockPubSubAdapter,
};
use crate::config::RetryPolicy;
use crate::error::PubSubResult;
use crate::string_map::StringMap;
use crate::config::{base_delay, capped_delay, BackoffStrategy};
use crate::dlq_manager::{csv_row, csv_text};
use crate::monitoring::TopicMetrics;
use crate::platform::json_schema_outcome;
use crate::dlq::FailedEvent;
use crate::error::PubSubError;
use crate::storage::{
    appended_as, failed_ids, is_latest_snapshot, recorded_metrics, read_selection, snapshots_after_save,
    snapshots_sorted, stream_wf, take_at_most, version_above, version_at_least, version_below,
    MockSubscription,
};
use crate::store::{lemma_filter_push, GlobalPosition, Snapshot, StoredEvent};
use crate::validation::{compatibility_is, joined, with_consumer, ContractValidator, ValidationError};

verus! {

/// One position comes before another exactly when the other comes after
/// it, and the next position comes after the current one.
pub proof fn law_position_order(a: GlobalPosition, b: GlobalPosition)
    ensures
        (a.0 < b.0) == (b.0 > a.0),
        !(a.0 < b.0 && b.0 < a.0),
        a.0 < u64::MAX ==> a.0 + 1 > a.0,
{
}

/// In a stream whose versions count up from 1, the events from version
/// `from` on are the stream from position `from - 1` on.
proof fn lemma_versions_from(s: Seq<StoredEvent>, from: int, k: int)
    requires
        0 <= k <= s.len(),
        1 <= from,
        forall|i: int| 0 <= i < s.len() ==> #[trigger] s[i].stream_version == i + 1,
        from <= u64::MAX,
    ensures
        s.take(k).filter(|e: StoredEvent| version_at_least(e, from as u64)) == (if from - 1 < k {
            s.subrange(from - 1, k)
        } else {
            Seq::<StoredEvent>::empty()
        }),
    decreases k,
{
    let pred = |e: StoredEvent| version_at_least(e, from as u64);
    if k == 0 {
        assert(s.take(0) =~= Seq::<StoredEvent>::empty());
        assert(Seq::<StoredEvent>::empty().filter(pred) =~= Seq::<StoredEvent>::empty());
    } else {
        lemma_versions_from(s, from, k - 1);
        assert(s.take(k) =~= s.take(k - 1).push(s[k - 1]));
        lemma_filter_push(s.take(k - 1), s[k - 1], pred);
        if from - 1 < k - 1 {
            assert(s.subrange(from - 1, k) =~= s.subrange(from - 1, k - 1).push(s[k - 1]));
        } else if from - 1 == k - 1 {
            assert(s.subrange(from - 1, k) =~= seq![s[k - 1]]);
            assert(Seq::<StoredEvent>::empty().push(s[k - 1]) =~= seq![s[k - 1]]);
        }
    }
}

/// Reading a stream from the first version that an append added gives
/// back exactly the appended events, in order, each carrying the stream's
/// ID, its consecutive version and a fresh global position.
pub proof fn law_read_after_append(
    id: Seq<char>,
    before: Seq<StoredEvent>,
    after: Seq<StoredEvent>,
    events: Seq<StoredEvent>,
    old_position: u64,
    new_position: u64,
)
    requires
        stream_wf(id, after, new_position),
        after.len() <= usize::MAX,
        before.len() < u64::MAX,
        after.len() == before.len() + events.len(),
        forall|i: int| 0 <= i < before.len() ==> #[trigger] after[i] == before[i],
        forall|i: int|
            0 <= i < events.len() ==> appended_as(
                #[trigger] after[before.len() + i],
                events[i],
                id,
                before.len() + i + 1,
                old_position + i + 1,
            ),
    ensures
        read_selection(after, (before.len() + 1) as u64, None).len() == events.len(),
        forall|i: int|
            0 <= i < events.len() ==> appended_as(
                #[trigger] read_selection(after, (before.len() + 1) as u64, None)[i],
                events[i],
                id,
                before.len() + i + 1,
                old_position + i + 1,
            ),
{
    let from = before.len() + 1;
    crate::storage::lemma_stream_len_bounded(id, after, new_position);
    lemma_versions_from(after, from as int, after.len() as int);
    assert(after.take(after.len() as int) =~= after);
    let sel = after.filter(|e: StoredEvent| version_at_least(e, from as u64));
    if from - 1 < after.len() {
        assert(sel == after.subrange(from - 1, after.len() as int));
    } else {
        assert(sel == Seq::<StoredEvent>::empty());
    }
    assert(take_at_most(sel, usize::MAX as int) == sel);
    assert forall|i: int| 0 <= i < events.len() implies appended_as(
        #[trigger] read_selection(after, (before.len() + 1) as u64, None)[i],
        events[i],
        id,
        before.len() + i + 1,
        old_position + i + 1,
    ) by {
        assert(read_selection(after, (before.len() + 1) as u64, None)[i] == after[before.len()
            + i]);
    }
}

/// An appended event's global position is above every position already
/// held by a stream of the store.
pub proof fn law_appended_positions_are_fresh(
    id: Seq<char>,
    existing: Seq<StoredEvent>,
    last_position: u64,
    appended: StoredEvent,
    source: StoredEvent,
    stream_id: Seq<char>,
    version: int,
    i: int,
)
    requires
        stream_wf(id, existing, last_position),
        0 <= i,
        last_position + i + 1 <= u64::MAX,
        appended_as(appended, source, stream_id, version, last_position + i + 1),
    ensures
        forall|j: int|
            0 <= j < existing.len() ==> #[trigger] existing[j].global_position.0
                < appended.global_position.0,
{
}

/// Saving a snapshot whose version is at least that of every saved
/// snapshot of its stream makes it the snapshot that is loaded.
pub proof fn law_newest_saved_snapshot_is_loaded(saved: Seq<Snapshot>, snapshot: Snapshot)
    requires
        snapshots_sorted(saved),
        forall|j: int| 0 <= j < saved.len() ==> (#[trigger] saved[j]).version <= snapshot.version,
    ensures
        is_latest_snapshot(snapshots_after_save(saved, snapshot), snapshot),
{
    let below = saved.filter(|x: Snapshot| version_below(x, snapshot.version));
    let above = saved.filter(|x: Snapshot| version_above(x, snapshot.version));
    let above_pred = |x: Snapshot| version_above(x, snapshot.version);
    let below_pred = |x: Snapshot| version_below(x, snapshot.version);
    assert(above =~= Seq::<Snapshot>::empty()) by {
        if above.len() > 0 {
            let x = above[0];
            saved.lemma_filter_pred(above_pred, 0);
            assert(above.contains(x));
            saved.lemma_filter_contains_rev(above_pred, x);
            let j = choose|j: int| 0 <= j < saved.len() && saved[j] == x;
            assert(saved[j].version <= snapshot.version);
        }
    }
    let list = snapshots_after_save(saved, snapshot);
    assert(list =~= below.push(snapshot));
    let i = below.len() as int;
    assert(list[i] == snapshot);
    assert forall|j: int| 0 <= j < list.len() implies #[trigger] list[j].version
        <= snapshot.version by {
        if j < i {
            assert(list[j] == below[j]);
            saved.lemma_filter_pred(below_pred, j);
        }
    }
}

/// Whatever was saved before, the snapshot loaded after a save is at
/// least as new as the one saved.
pub proof fn law_loaded_snapshot_not_older(saved: Seq<Snapshot>, snapshot: Snapshot, loaded: Snapshot)
    requires
        is_latest_snapshot(snapshots_after_save(saved, snapshot), loaded),
    ensures
        loaded.version >= snapshot.version,
{
    let list = snapshots_after_save(saved, snapshot);
    let below = saved.filter(|x: Snapshot| version_below(x, snapshot.version));
    assert(list[below.len() as int] == snapshot);
}

/// The search for a topic holding an event finds one when some topic
/// from `start` on holds it.
proof fn lemma_holder_found(
    topics: Seq<Seq<char>>,
    model: Map<Seq<char>, Seq<FailedEvent>>,
    id: Seq<char>,
    start: int,
    t: int,
)
    requires
        0 <= start <= t < topics.len(),
        failed_ids(queued(model, topics[t])).contains(id),
    ensures
        start <= holder_from(topics, model, id, start) <= t,
    decreases t - start,
{
    if !failed_ids(queued(model, topics[start])).contains(id) {
        lemma_holder_found(topics, model, id, start + 1, t);
    }
}

/// An event sent to the dead letter queue of one of the queue's topics can
/// be taken out again by its ID.
pub proof fn law_dead_lettered_event_can_be_retried(
    topics: Seq<Seq<char>>,
    model: Map<Seq<char>, Seq<FailedEvent>>,
    topic: Seq<char>,
    event: FailedEvent,
)
    requires
        topics.contains(topic),
    ensures
        retry_step(
            topics,
            model.insert(topic, queued(model, topic).push(event)),
            event.original_event_id@,
        ).0,
{
    let m2 = model.insert(topic, queued(model, topic).push(event));
    let t = choose|t: int| 0 <= t < topics.len() && topics[t] == topic;
    let q = queued(m2, topic);
    assert(q == queued(model, topic).push(event));
    assert(failed_ids(q)[q.len() - 1] == event.original_event_id@);
    assert(failed_ids(q).contains(event.original_event_id@));
    lemma_holder_found(topics, m2, event.original_event_id@, 0, t);
}

/// Retrying a batch of IDs is retrying them one after another: the batch
/// extended by one ID gives the outcomes of the batch, then the outcome of
/// retrying that ID in the queue the batch left.
pub proof fn law_batch_retry_is_sequential(
    topics: Seq<Seq<char>>,
    model: Map<Seq<char>, Seq<FailedEvent>>,
    ids: Seq<Seq<char>>,
    id: Seq<char>,
)
    ensures
        retry_all(topics, model, ids.push(id)) == ({
            let prev = retry_all(topics, model, ids);
            let step = retry_step(topics, prev.1, id);
            (prev.0.push(step.0), step.1)
        }),
{
    assert(ids.push(id).drop_last() =~= ids);
}

/// A subscription can be removed once after it is made: right after
/// subscribing, the ID is known (so unsubscribing succeeds), and after
/// removing it, it is not (so a second attempt reports it not found).
pub proof fn law_unsubscribe_after_subscribe(
    subscriptions: Map<Seq<char>, MockSubscription>,
    id: Seq<char>,
    subscription: MockSubscription,
)
    ensures
        subscriptions.insert(id, subscription).contains_key(id),
        !subscriptions.insert(id, subscription).remove(id).contains_key(id),
        subscriptions.insert(id, subscription).remove(id) == subscriptions.remove(id),
{
    assert(subscriptions.insert(id, subscription).remove(id) =~= subscriptions.remove(id));
}

/// A failed event can be retried exactly when it has not reached the
/// maximum number of retries.
pub proof fn law_retry_eligibility(event: FailedEvent, max_retries: u32)
    ensures
        (event.attempt_count < max_retries) == !(event.attempt_count >= max_retries),
{
}

/// A retry delay never exceeds the policy's maximum delay.
pub proof fn law_delay_capped(base: int, jitter: int, max: int)
    requires
        0 <= max,
    ensures
        capped_delay(base, jitter, max) <= max,
{
}

/// Registering the same consumer again changes nothing: the consumer is
/// listed once.
pub proof fn law_consumer_registration_idempotent(consumers: Seq<Seq<char>>, consumer: Seq<char>)
    ensures
        with_consumer(consumers, consumer).contains(consumer),
        with_consumer(with_consumer(consumers, consumer), consumer) == with_consumer(
            consumers,
            consumer,
        ),
        consumers.no_duplicates() ==> with_consumer(consumers, consumer).no_duplicates(),
{
    let c = with_consumer(consumers, consumer);
    if !consumers.contains(consumer) {
        assert(c[c.len() - 1] == consumer);
        if consumers.no_duplicates() {
            assert forall|a: int, b: int| 0 <= a < b < c.len() implies c[a] != c[b] by {
                if b == c.len() - 1 {
                    assert(c[a] == consumers[a]);
                    assert(consumers.contains(consumers[a]));
                }
            }
        }
    }
}

/// A contract error turned into a port error keeps its text: the port
/// error's message ends with the contract error's message (with the bare
/// detail, for a serialization failure).
pub proof fn law_converted_error_keeps_text(v: ValidationError, e: PubSubError)
    requires
        v.converts_to(e),
    ensures
        !(v is SerializationFailed) ==> e.spec_message().len() >= v.spec_message().len()
            && e.spec_message().subrange(
            e.spec_message().len() - v.spec_message().len(),
            e.spec_message().len() as int,
        ) == v.spec_message(),
        v matches ValidationError::SerializationFailed(m) ==> e.spec_message().len() >= m@.len()
            && e.spec_message().subrange(
            e.spec_message().len() - m@.len(),
            e.spec_message().len() as int,
        ) == m@,
{
    let text = e.spec_message();
    match e {
        PubSubError::Validation { field, message } => {
            let prefix = "Validation error in field '"@ + field@ + "': "@;
            assert(text == prefix + message@);
            assert(text.subrange(prefix.len() as int, text.len() as int) =~= message@);
        },
        PubSubError::Serialization { message } => {
            let prefix = "Serialization error: "@;
            assert(text.subrange(prefix.len() as int, text.len() as int) =~= message@);
        },
        PubSubError::Network { message } => {
            let prefix = "Network error: "@;
            assert(text.subrange(prefix.len() as int, text.len() as int) =~= message@);
        },
        _ => {},
    }
}

/// Reading a version range with no upper end gives the same events as
/// reading the stream from the range's first version without a limit.
pub proof fn law_open_range_reads_from(s: Seq<StoredEvent>, from: u64)
    requires
        s.len() <= usize::MAX,
    ensures
        range_selection(s, from, None) == read_selection(s, from, None),
{
    let a = |e: StoredEvent| version_in_range(e, from, None);
    let b = |e: StoredEvent| version_at_least(e, from);
    assert(a =~= b);
    s.filter_lemma(b);
}

/// Right after a snapshot is saved, loading the latest snapshot at or
/// before its version gives that snapshot back, whatever was saved before.
pub proof fn law_snapshot_at_its_own_version(saved: Seq<Snapshot>, snapshot: Snapshot, loaded: Snapshot)
    requires
        is_latest_snapshot_upto(snapshots_after_save(saved, snapshot), snapshot.version, loaded),
    ensures
        loaded == snapshot,
{
    let below_pred = |x: Snapshot| version_below(x, snapshot.version);
    let above_pred = |x: Snapshot| version_above(x, snapshot.version);
    let below = saved.filter(below_pred);
    let above = saved.filter(above_pred);
    let list = snapshots_after_save(saved, snapshot);
    let k = below.len() as int;
    assert(list[k] == snapshot);
    let i = choose|i: int|
        0 <= i < list.len() && list[i] == loaded && loaded.version <= snapshot.version && (forall|
            j: int,
        |
            0 <= j < list.len() && #[trigger] list[j].version <= snapshot.version ==> list[j].version
                <= loaded.version) && (forall|j: int|
            i < j < list.len() && #[trigger] list[j].version <= snapshot.version ==> list[j].version
                < loaded.version);
    assert(list[k].version <= snapshot.version);
    if i < k {
        assert(list[i] == below[i]);
        saved.lemma_filter_pred(below_pred, i);
    } else if i > k {
        assert(list[i] == above[i - k - 1]);
        saved.lemma_filter_pred(above_pred, i - k - 1);
    }
}

/// Purging the events that failed before a time splits a queue: the
/// purged and the remaining events add up to what was queued, and none of
/// the remaining ones failed before that time.
pub proof fn law_purge_splits_queue(q: Seq<FailedEvent>, before: i64)
    ensures
        failed_earlier(q, before).len() + failed_since(q, before).len() == q.len(),
        forall|j: int|
            0 <= j < failed_since(q, before).len() ==> !failed_before(
                #[trigger] failed_since(q, before)[j],
                before,
            ),
    decreases q.len(),
{
    let gone = |e: FailedEvent| failed_before(e, before);
    let stay = |e: FailedEvent| !failed_before(e, before);
    if q.len() == 0 {
        assert(q.filter(gone) =~= Seq::<FailedEvent>::empty()) by {
            reveal_with_fuel(Seq::filter, 1);
        }
        assert(q.filter(stay) =~= Seq::<FailedEvent>::empty()) by {
            reveal_with_fuel(Seq::filter, 1);
        }
    } else {
        let p = q.drop_last();
        law_purge_splits_queue(p, before);
        assert(q =~= p.push(q.last()));
        lemma_filter_push(p, q.last(), gone);
        lemma_filter_push(p, q.last(), stay);
    }
    q.filter_lemma(stay);
}

/// A retry policy set for a topic is the one read back for it, a removed
/// one leaves the topic on the default policy, and neither touches the
/// policies of other topics.
pub proof fn law_policy_read_after_write(
    before: StringMap<RetryPolicy>,
    after: StringMap<RetryPolicy>,
    topic: Seq<char>,
    policy: RetryPolicy,
    other: Seq<char>,
)
    requires
        other != topic,
    ensures
        after@ == before@.insert(topic, policy) ==> after.lookup(topic) == Some(policy)
            && after.lookup(other) == before.lookup(other),
        after@ == before@.remove(topic) ==> after.lookup(topic) is None && after.lookup(other)
            == before.lookup(other),
{
}

/// Pausing an active subscription and resuming it again leaves the
/// subscriptions as they were; while paused, it is recorded as inactive.
pub proof fn law_pause_then_resume(
    a: MockPubSubAdapter,
    b: MockPubSubAdapter,
    c: MockPubSubAdapter,
    id: Seq<char>,
    paused: PubSubResult<()>,
    resumed: PubSubResult<()>,
)
    requires
        a.storage.subscriptions@.contains_key(id),
        a.storage.subscriptions@[id].is_active,
        activity_set(a, b, id, false, paused),
        activity_set(b, c, id, true, resumed),
    ensures
        paused is Ok,
        resumed is Ok,
        !b.storage.subscriptions@[id].is_active,
        c.storage.subscriptions@ == a.storage.subscriptions@,
        c.storage.subscriptions.key_seq() == a.storage.subscriptions.key_seq(),
{
    let s = a.storage.subscriptions@[id];
    assert(MockSubscription { is_active: true, ..MockSubscription { is_active: false, ..s } } == s);
    assert(c.storage.subscriptions@ =~= a.storage.subscriptions@);
}

/// An event is accepted for its consumers only if it serialized and meets
/// its JSON Schema; an event that the schema check finds errors in is
/// refused with those errors, whatever the producer registered.
pub proof fn law_compatible_events_meet_their_schema(
    r: PubSubResult<()>,
    v: ContractValidator,
    event_type: Seq<char>,
    schema_json: Seq<char>,
    instance: Result<String, String>,
)
    requires
        compatibility_is(r, v, event_type, schema_json, instance),
    ensures
        r is Ok ==> (instance matches Ok(json) && (json_schema_outcome(schema_json, json@) matches Ok(
            errors,
        ) && errors.len() == 0)),
        match instance {
            Err(detail) => r matches Err(e) && e.is_serialization(detail@),
            Ok(json) => match json_schema_outcome(schema_json, json@) {
                Ok(errors) => errors.len() > 0 ==> (r matches Err(e) && e.is_validation(
                    "schema"@,
                    "Schema validation failed: "@ + joined(errors, ", "@),
                )),
                Err(detail) => r matches Err(e) && e.is_validation(
                    "schema"@,
                    "Schema compilation failed: "@ + detail,
                ),
            },
        },
{
}

/// The search for the topic holding an event: it lies from `start` on, the
/// topic it finds holds the event, and no topic before it does.
proof fn lemma_holder_facts(
    topics: Seq<Seq<char>>,
    model: Map<Seq<char>, Seq<FailedEvent>>,
    id: Seq<char>,
    start: int,
)
    requires
        0 <= start <= topics.len(),
    ensures
        start <= holder_from(topics, model, id, start) <= topics.len(),
        holder_from(topics, model, id, start) < topics.len() ==> failed_ids(
            queued(model, topics[holder_from(topics, model, id, start)]),
        ).contains(id),
        forall|j: int|
            start <= j < holder_from(topics, model, id, start) ==> !failed_ids(
                queued(model, #[trigger] topics[j]),
            ).contains(id),
    decreases topics.len() - start,
{
    if start < topics.len() && !failed_ids(queued(model, topics[start])).contains(id) {
        lemma_holder_facts(topics, model, id, start + 1);
    }
}

/// Retrying an event from the dead letter queue takes out exactly one
/// event: it succeeds exactly when some topic holds the ID; then the first
/// such topic loses its first event with that ID, every other event of that
/// topic stays in order, and the other topics keep their queues. The result
/// gives that topic's position and the event's position in its queue.
pub proof fn law_retry_takes_out_one_event(
    topics: Seq<Seq<char>>,
    model: Map<Seq<char>, Seq<FailedEvent>>,
    id: Seq<char>,
) -> (at: (int, int))
    ensures
        retry_step(topics, model, id).0 == exists|i: int|
            0 <= i < topics.len() && failed_ids(queued(model, #[trigger] topics[i])).contains(id),
        !retry_step(topics, model, id).0 ==> retry_step(topics, model, id).1 == model,
        retry_step(topics, model, id).0 ==> {
            let t = topics[at.0];
            let q = queued(model, t);
            let after = retry_step(topics, model, id).1;
            &&& 0 <= at.0 < topics.len()
            &&& 0 <= at.1 < q.len()
            &&& q[at.1].original_event_id@ == id
            &&& forall|j: int| 0 <= j < at.1 ==> (#[trigger] q[j]).original_event_id@ != id
            &&& forall|j: int|
                0 <= j < at.0 ==> !failed_ids(queued(model, #[trigger] topics[j])).contains(id)
            &&& queued(after, t).len() == q.len() - 1
            &&& queued(after, t) == q.take(at.1) + q.skip(at.1 + 1)
            &&& forall|u: Seq<char>| u != t ==> #[trigger] queued(after, u) == queued(model, u)
        },
{
    lemma_holder_facts(topics, model, id, 0);
    let h = holder_from(topics, model, id, 0);
    if h < topics.len() {
        let t = topics[h];
        let q = queued(model, t);
        let ids = failed_ids(q);
        ids.index_of_first_ensures(id);
        let k = ids.index_of_first(id)->0;
        let after = retry_step(topics, model, id).1;
        assert(q.remove(k) =~= q.take(k) + q.skip(k + 1));
        assert(queued(after, t) == q.remove(k));
        assert forall|j: int| 0 <= j < k implies (#[trigger] q[j]).original_event_id@ != id by {
            assert(ids[j] == q[j].original_event_id@);
        }
        assert(ids[k] == q[k].original_event_id@);
        (h, k)
    } else {
        assert forall|i: int| 0 <= i < topics.len() implies !failed_ids(
            queued(model, #[trigger] topics[i]),
        ).contains(id) by {}
        (0, 0)
    }
}

/// Without jitter, the delay before a retry is the strategy's base delay
/// capped at the maximum: the initial delay for a fixed delay, the initial
/// delay times the attempt for linear backoff, and the exponentially grown
/// base handed in for exponential backoff. With jitter of at most
/// `max_jitter`, it lies between that and the base plus `max_jitter`, both
/// capped.
pub proof fn law_delay_follows_strategy(
    p: RetryPolicy,
    attempt: u32,
    exponential_base: u64,
    max_jitter: u64,
    r: u64,
)
    requires
        exists|jitter: int|
            0 <= jitter <= max_jitter && r == capped_delay(
                #[trigger] base_delay(p, attempt, exponential_base),
                jitter,
                p.max_delay_ms as int,
            ),
    ensures
        ({
            let base: int = match p.backoff_strategy {
                BackoffStrategy::Fixed => p.retry_delay_ms as int,
                BackoffStrategy::Linear => p.retry_delay_ms * attempt,
                BackoffStrategy::Exponential => exponential_base as int,
            };
            let max = p.max_delay_ms as int;
            &&& (if base <= max { base } else { max }) <= r
            &&& r <= (if base + max_jitter <= max { base + max_jitter } else { max })
            &&& max_jitter == 0 ==> r == (if base <= max { base } else { max })
        }),
{
}

/// Sending an event to a topic's dead letter queue makes the topic's
/// metrics report one more dead-lettered event, one more error and one more
/// failed retry than they did before.
pub proof fn law_dead_lettering_shows_in_metrics(
    before_queue: Seq<FailedEvent>,
    after_queue: Seq<FailedEvent>,
    event: FailedEvent,
    topic: Seq<char>,
    published: int,
    before: TopicMetrics,
    after: TopicMetrics,
)
    requires
        after_queue == before_queue.push(event),
        recorded_metrics(before, topic, published, before_queue.len() as int),
        recorded_metrics(after, topic, published, after_queue.len() as int),
    ensures
        after.errors.dlq_events == before.errors.dlq_events + 1,
        after.errors.total_errors == before.errors.total_errors + 1,
        after.errors.failed_retries == before.errors.failed_retries + 1,
        after.publishing == before.publishing,
{
}

/// A topic whose dead letter queue is empty reports no dead-lettered
/// events, and the count reported never exceeds what is queued.
pub proof fn law_metrics_count_queued_events(
    queue: Seq<FailedEvent>,
    topic: Seq<char>,
    published: int,
    m: TopicMetrics,
)
    requires
        recorded_metrics(m, topic, published, queue.len() as int),
    ensures
        m.errors.dlq_events as int == queue.len(),
        queue.len() == 0 ==> m.errors.dlq_events == 0,
{
}

/// The exported CSV line of a failed event ends with the name of the
/// handler that failed on it, or "unknown" when none is recorded; and the
/// export of a queue ends with the line of its last event.
pub proof fn law_csv_names_failed_handler(queue: Seq<FailedEvent>, e: FailedEvent)
    ensures
        ({
            let row = csv_row(e);
            let handler = match e.failed_handler {
                Some(h) => h@,
                None => "unknown"@,
            };
            let tail = ","@ + handler + "\n"@;
            &&& row.len() >= tail.len()
            &&& row.subrange(row.len() - tail.len(), row.len() as int) == tail
        }),
        ({
            let text = csv_text(queue.push(e));
            let row = csv_row(e);
            &&& text.len() >= row.len()
            &&& text.subrange(text.len() - row.len(), text.len() as int) == row
        }),
{
    let handler = match e.failed_handler {
        Some(h) => h@,
        None => "unknown"@,
    };
    let tail = ","@ + handler + "\n"@;
    let row = csv_row(e);
    let front = e.original_event_id@ + ","@ + e.topic@ + ","@ + e.metadata.event_type@ + ","@
        + crate::dlq_manager::reason_key(e.failure_reason) + ","@ + crate::dlq_manager::decimal_text(
        e.attempt_count as nat,
    ) + ","@ + crate::dlq_manager::csv_time(e.first_failure_time) + ","@
        + crate::dlq_manager::csv_time(e.last_failure_time);
    assert(row =~= front + tail);
    assert(row.subrange(row.len() - tail.len(), row.len() as int) =~= tail);
    let text = csv_text(queue.push(e));
    assert(queue.push(e).drop_last() =~= queue);
    let head = csv_text(queue);
    assert(text == head + row);
    assert(text.subrange(text.len() - row.len(), text.len() as int) =~= row);
}

} // verus!
