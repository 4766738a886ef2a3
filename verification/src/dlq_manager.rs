//! Dead letter queue helpers of the mock adapter: failure reason keys,
//! statistics, CSV export, retry checks.

use vstd::prelude::*;
use crate::dlq::{DlqStats, FailedEvent, FailureReason, FailureReasonStats};
use crate::event::Event;
use crate::platform::{format_utc_millis, chrono_utc_text, now_millis, random_index_below};
use crate::store::{clamp_i64, elapsed_millis, lemma_filter_push};
use crate::string_map::StringMap;

verus! {

/// The grouping key of a failure reason: its variant name, or
/// `Custom(<reason>)` for a custom reason.
pub open spec fn reason_key(r: FailureReason) -> Seq<char> {
    match r {
        FailureReason::HandlerError { .. } => "HandlerError"@,
        FailureReason::SerializationError { .. } => "SerializationError"@,
        FailureReason::TimeoutError => "TimeoutError"@,
        FailureReason::NetworkError { .. } => "NetworkError"@,
        FailureReason::MaxRetriesExceeded => "MaxRetriesExceeded"@,
        FailureReason::InvalidEventFormat { .. } => "InvalidEventFormat"@,
        FailureReason::DependencyUnavailable { .. } => "DependencyUnavailable"@,
        FailureReason::ResourceExhausted { .. } => "ResourceExhausted"@,
        FailureReason::AuthenticationError { .. } => "AuthenticationError"@,
        FailureReason::ValidationError { .. } => "ValidationError"@,
        FailureReason::Custom { reason } => "Custom("@ + reason@ + ")"@,
    }
}

/// How often `k` occurs in `ks`.
pub open spec fn occurrences(ks: Seq<Seq<char>>, k: Seq<char>) -> nat {
    ks.filter(|x: Seq<char>| x == k).len()
}

/// The number of distinct strings in `ks`.
pub open spec fn distinct_count(ks: Seq<Seq<char>>) -> nat {
    Set::new(|k: Seq<char>| occurrences(ks, k) > 0).len()
}

/// `m` counts the strings of `ks`: it holds exactly those that occur, each
/// with its number of occurrences.
pub open spec fn is_tally_of(m: StringMap<u64>, ks: Seq<Seq<char>>) -> bool {
    &&& m.wf()
    &&& forall|k: Seq<char>| #[trigger] m@.contains_key(k) <==> occurrences(ks, k) > 0
    &&& forall|k: Seq<char>| #[trigger] m@.contains_key(k) ==> m@[k] == occurrences(ks, k)
}

/// The reason keys of a sequence of failed events.
pub open spec fn reason_keys(s: Seq<FailedEvent>) -> Seq<Seq<char>> {
    s.map_values(|e: FailedEvent| reason_key(e.failure_reason))
}

/// The event types of a sequence of failed events.
pub open spec fn event_type_keys(s: Seq<FailedEvent>) -> Seq<Seq<char>> {
    s.map_values(|e: FailedEvent| e.metadata.event_type@)
}

/// The failed handler of `e`, if one is recorded.
pub open spec fn handler_of(e: FailedEvent) -> Option<Seq<char>> {
    match e.failed_handler {
        Some(h) => Some(h@),
        None => None,
    }
}

/// The recorded failed handlers of a sequence of failed events.
pub open spec fn handler_keys(s: Seq<FailedEvent>) -> Seq<Seq<char>> {
    s.filter_map(|e: FailedEvent| handler_of(e))
}

/// The sum of the attempt counts of `s`.
pub open spec fn attempts_total(s: Seq<FailedEvent>) -> int
    decreases s.len(),
{
    if s.len() == 0 {
        0
    } else {
        attempts_total(s.drop_last()) + s.last().attempt_count
    }
}

/// The age of `e` at time `now`, in milliseconds.
pub open spec fn failure_age(e: FailedEvent, now: i64) -> int {
    clamp_i64(now - e.first_failure_time)
}

/// Count how often each string occurs in `keys`.
pub fn tally(keys: &Vec<String>) -> (r: StringMap<u64>)
    ensures
        is_tally_of(r, keys@.map_values(|s: String| s@)),
{
    let ghost ks = keys@.map_values(|s: String| s@);
    let mut m: StringMap<u64> = StringMap::new();
    let mut i: usize = 0;
    proof {
        assert forall|k: Seq<char>| occurrences(ks.take(0), k) == 0 by {
            assert(ks.take(0).filter(|x: Seq<char>| x == k) =~= Seq::<Seq<char>>::empty()) by {
                reveal_with_fuel(Seq::filter, 1);
            }
        }
    }
    while i < keys.len()
        invariant
            i <= keys@.len(),
            ks == keys@.map_values(|s: String| s@),
            is_tally_of(m, ks.take(i as int)),
            forall|k: Seq<char>| #[trigger] m@.contains_key(k) ==> m@[k] <= i,
        decreases keys@.len() - i,
    {
        let x = &keys[i];
        let ghost prev = m@;
        proof {
            assert(ks.take(i as int + 1) =~= ks.take(i as int).push(x@));
            assert forall|k: Seq<char>|
                occurrences(ks.take(i as int + 1), k) == occurrences(ks.take(i as int), k) + (if x@
                    == k {
                    1int
                } else {
                    0int
                }) by {
                lemma_filter_push(ks.take(i as int), x@, |y: Seq<char>| y == k);
            }
            m.lemma_view();
        }
        match m.find(x.as_str()) {
            Some(j) => {
                let c = *m.value_at(j);
                assert(c == m@[x@]);
                m.replace_at(j, c + 1);
                assert(m@ == prev.insert(x@, (c + 1) as u64));
            },
            None => {
                assert(!m.key_seq().contains(x@));
                assert(!m@.contains_key(x@));
                assert(occurrences(ks.take(i as int), x@) == 0);
                m.insert(x.clone(), 1);
                assert(m@ == prev.insert(x@, 1u64));
            },
        }
        proof {
            assert forall|k: Seq<char>| #[trigger] m@.contains_key(k) <==> occurrences(
                ks.take(i as int + 1),
                k,
            ) > 0 by {
                if k != x@ {
                    assert(m@.contains_key(k) == prev.contains_key(k));
                }
            }
            assert forall|k: Seq<char>| #[trigger] m@.contains_key(k) implies m@[k] == occurrences(
                ks.take(i as int + 1),
                k,
            ) && m@[k] <= i + 1 by {
                if k != x@ {
                    assert(m@[k] == prev[k]);
                }
            }
        }
        i = i + 1;
    }
    assert(ks.take(i as int) =~= ks);
    m
}

/// `r` is non-increasing in count.
pub open spec fn ranked(r: Seq<FailureReasonStats>) -> bool {
    forall|a: int, b: int| 0 <= a < b < r.len() ==> #[trigger] r[a].count >= #[trigger] r[b].count
}

/// The reasons named by a ranking.
pub open spec fn ranked_reasons(r: Seq<FailureReasonStats>) -> Seq<Seq<char>> {
    r.map_values(|x: FailureReasonStats| x.reason@)
}

/// `r` lists every entry of `counts` once, with its count, most frequent
/// first.
pub open spec fn is_ranking_of(r: Seq<FailureReasonStats>, counts: StringMap<u64>) -> bool {
    &&& ranked(r)
    &&& ranked_reasons(r).no_duplicates()
    &&& forall|k: Seq<char>| #[trigger] ranked_reasons(r).contains(k) <==> counts@.contains_key(k)
    &&& forall|i: int| 0 <= i < r.len() ==> #[trigger] r[i].count == counts@[r[i].reason@]
}

/// The entries of `counts`, most frequent first; entries of equal count
/// keep the order of `counts`.
pub fn rank_reasons(counts: &StringMap<u64>) -> (r: Vec<FailureReasonStats>)
    requires
        counts.wf(),
    ensures
        is_ranking_of(r@, *counts),
{
    proof {
        counts.lemma_view();
    }
    let ghost keys = counts.key_seq();
    let mut r: Vec<FailureReasonStats> = Vec::new();
    let mut i: usize = 0;
    while i < counts.len()
        invariant
            i <= keys.len(),
            keys == counts.key_seq(),
            counts.wf(),
            ranked(r@),
            ranked_reasons(r@).no_duplicates(),
            forall|k: Seq<char>| #[trigger] ranked_reasons(r@).contains(k) <==> keys.take(i as int).contains(k),
            forall|a: int| 0 <= a < r@.len() ==> #[trigger] r@[a].count == counts@[r@[a].reason@],
        decreases keys.len() - i,
    {
        proof {
            counts.lemma_view();
        }
        let name = counts.key_at(i).clone();
        let c = *counts.value_at(i);
        assert(c == counts@[name@]);
        let mut p: usize = 0;
        while p < r.len() && r[p].count >= c
            invariant
                p <= r@.len(),
                forall|a: int| 0 <= a < p ==> #[trigger] r@[a].count >= c,
            decreases r@.len() - p,
        {
            p = p + 1;
        }
        let ghost before = r@;
        proof {
            assert(!keys.take(i as int).contains(name@)) by {
                if keys.take(i as int).contains(name@) {
                    let j = choose|j: int| 0 <= j < i && keys.take(i as int)[j] == name@;
                    assert(keys[j] == keys[i as int]);
                }
            }
            assert(!ranked_reasons(before).contains(name@));
        }
        r.insert(p, FailureReasonStats { reason: name, count: c });
        proof {
            assert forall|a: int| 0 <= a < r@.len() implies #[trigger] r@[a] == (if a < p {
                before[a]
            } else if a == p {
                r@[p as int]
            } else {
                before[a - 1]
            }) by {}
            assert forall|a: int, b: int| 0 <= a < b < r@.len() implies #[trigger] r@[a].count
                >= #[trigger] r@[b].count by {
                if p < before.len() && b > p {
                    assert(before[p as int].count < c);
                    if b - 1 > p {
                        assert(before[p as int].count >= before[b - 1].count);
                    }
                }
            }
            let rr = ranked_reasons(r@);
            let rb = ranked_reasons(before);
            assert forall|a: int| 0 <= a < rr.len() implies #[trigger] rr[a] == (if a < p {
                rb[a]
            } else if a == p {
                name@
            } else {
                rb[a - 1]
            }) by {}
            assert forall|a: int, b: int| 0 <= a < rr.len() && 0 <= b < rr.len() && a != b implies rr[a] != rr[b] by {
                if a != p && b != p {
                    let a2 = if a < p { a } else { a - 1 };
                    let b2 = if b < p { b } else { b - 1 };
                    assert(rb[a2] != rb[b2]);
                } else if a == p {
                    let b2 = if b < p { b } else { b - 1 };
                    assert(rb.contains(rb[b2]));
                } else {
                    let a2 = if a < p { a } else { a - 1 };
                    assert(rb.contains(rb[a2]));
                }
            }
            assert(keys.take(i as int + 1) =~= keys.take(i as int).push(name@));
            assert forall|k: Seq<char>| #[trigger] rr.contains(k) <==> keys.take(i as int + 1).contains(k) by {
                if rr.contains(k) {
                    let a = choose|a: int| 0 <= a < rr.len() && rr[a] == k;
                    if a < p {
                        assert(rb[a] == k);
                        assert(rb.contains(k));
                    } else if a > p {
                        assert(rb[a - 1] == k);
                        assert(rb.contains(k));
                    }
                    assert(keys.take(i as int).contains(k) || k == name@);
                    if k == name@ {
                        assert(keys.take(i as int + 1)[i as int] == k);
                    } else {
                        let j = choose|j: int| 0 <= j < i && keys.take(i as int)[j] == k;
                        assert(keys.take(i as int + 1)[j] == k);
                    }
                }
                if keys.take(i as int + 1).contains(k) {
                    let t1 = keys.take(i as int + 1);
                    let j = choose|j: int| 0 <= j < t1.len() && t1[j] == k;
                    if j < i {
                        assert(keys.take(i as int)[j] == k);
                        assert(rb.contains(k));
                        let a = choose|a: int| 0 <= a < rb.len() && rb[a] == k;
                        if a < p {
                            assert(rr[a] == k);
                        } else {
                            assert(rr[a + 1] == k);
                        }
                    } else {
                        assert(rr[p as int] == k);
                    }
                }
            }
        }
        i = i + 1;
    }
    assert(keys.take(i as int) =~= keys);
    r
}


/// Applying `filter_map` to a sequence extended by one element.
pub proof fn lemma_filter_map_push<A, B>(s: Seq<A>, x: A, f: spec_fn(A) -> Option<B>)
    ensures
        s.push(x).filter_map(f) == (match f(x) {
            Some(y) => s.filter_map(f).push(y),
            None => s.filter_map(f),
        }),
{
    reveal_with_fuel(Seq::filter_map, 1);
    assert(s.push(x).drop_last() =~= s);
    match f(x) {
        Some(y) => {
            assert(s.filter_map(f) + seq![y] =~= s.filter_map(f).push(y));
        },
        None => {},
    }
}

/// The reason keys of `events`, in order.
fn reason_key_list(events: &[FailedEvent]) -> (r: Vec<String>)
    ensures
        r@.map_values(|s: String| s@) == reason_keys(events@),
{
    let mut r: Vec<String> = Vec::new();
    let mut i: usize = 0;
    while i < events.len()
        invariant
            i <= events@.len(),
            r@.map_values(|s: String| s@) == reason_keys(events@.take(i as int)),
            r@.len() == i,
        decreases events@.len() - i,
    {
        let k = MockDlqManager::failure_reason_key(&events[i].failure_reason);
        let ghost before = r@;
        r.push(k);
        proof {
            assert forall|j: int| 0 <= j < i + 1 implies #[trigger] r@[j]@
                == reason_key(events@[j].failure_reason) by {
                if j < i {
                    assert(before.map_values(|s: String| s@)[j] == reason_keys(events@.take(i as int))[j]);
                    assert(r@[j] == before[j]);
                }
            }
        }
        assert(r@.map_values(|s: String| s@) =~= reason_keys(events@.take(i as int + 1)));
        i = i + 1;
    }
    assert(events@.take(i as int) =~= events@);
    r
}

/// The event types of `events`, in order.
fn event_type_list(events: &[FailedEvent]) -> (r: Vec<String>)
    ensures
        r@.map_values(|s: String| s@) == event_type_keys(events@),
{
    let mut r: Vec<String> = Vec::new();
    let mut i: usize = 0;
    while i < events.len()
        invariant
            i <= events@.len(),
            r@.map_values(|s: String| s@) == event_type_keys(events@.take(i as int)),
            r@.len() == i,
        decreases events@.len() - i,
    {
        let k = events[i].metadata.event_type.clone();
        let ghost before = r@;
        r.push(k);
        proof {
            assert forall|j: int| 0 <= j < i + 1 implies #[trigger] r@[j]@
                == events@[j].metadata.event_type@ by {
                if j < i {
                    assert(before.map_values(|s: String| s@)[j] == event_type_keys(events@.take(i as int))[j]);
                    assert(r@[j] == before[j]);
                }
            }
        }
        assert(r@.map_values(|s: String| s@) =~= event_type_keys(events@.take(i as int + 1)));
        i = i + 1;
    }
    assert(events@.take(i as int) =~= events@);
    r
}

/// The recorded failed handlers of `events`, in order.
fn handler_list(events: &[FailedEvent]) -> (r: Vec<String>)
    ensures
        r@.map_values(|s: String| s@) == handler_keys(events@),
{
    let mut r: Vec<String> = Vec::new();
    let mut i: usize = 0;
    proof {
        assert(handler_keys(events@.take(0)) =~= Seq::<Seq<char>>::empty()) by {
            reveal_with_fuel(Seq::filter_map, 1);
        }
    }
    while i < events.len()
        invariant
            i <= events@.len(),
            r@.map_values(|s: String| s@) == handler_keys(events@.take(i as int)),
        decreases events@.len() - i,
    {
        proof {
            lemma_filter_map_push(
                events@.take(i as int),
                events@[i as int],
                |e: FailedEvent| handler_of(e),
            );
            assert(events@.take(i as int + 1) =~= events@.take(i as int).push(events@[i as int]));
        }
        match &events[i].failed_handler {
            Some(h) => {
                r.push(h.clone());
            },
            None => {},
        }
        assert(r@.map_values(|s: String| s@) =~= handler_keys(events@.take(i as int + 1)));
        i = i + 1;
    }
    assert(events@.take(i as int) =~= events@);
    r
}

/// The sum of the attempt counts of `events`.
fn sum_attempts(events: &[FailedEvent]) -> (r: u128)
    ensures
        r == attempts_total(events@),
{
    let mut total: u128 = 0;
    let mut i: usize = 0;
    while i < events.len()
        invariant
            i <= events@.len(),
            total == attempts_total(events@.take(i as int)),
            total <= i * 4294967295,
        decreases events@.len() - i,
    {
        proof {
            assert(events@.take(i as int + 1).drop_last() =~= events@.take(i as int));
        }
        total = total + events[i].attempt_count as u128;
        i = i + 1;
    }
    assert(events@.take(i as int) =~= events@);
    total
}

/// The greatest and the least age of `events` at `now`, if any.
fn age_extremes(events: &[FailedEvent], now: i64) -> (r: Option<(i64, i64)>)
    ensures
        match r {
            None => events@.len() == 0,
            Some((oldest, newest)) => {
                &&& forall|j: int|
                    0 <= j < events@.len() ==> newest <= failure_age(#[trigger] events@[j], now)
                        <= oldest
                &&& exists|j: int| 0 <= j < events@.len() && failure_age(#[trigger] events@[j], now) == oldest
                &&& exists|j: int| 0 <= j < events@.len() && failure_age(#[trigger] events@[j], now) == newest
            },
        },
{
    if events.len() == 0 {
        return None;
    }
    let first = elapsed_millis(now, events[0].first_failure_time);
    let mut oldest = first;
    let mut newest = first;
    let mut i: usize = 1;
    assert(failure_age(events@[0], now) == first);
    while i < events.len()
        invariant
            1 <= i <= events@.len(),
            forall|j: int| 0 <= j < i ==> newest <= failure_age(#[trigger] events@[j], now) <= oldest,
            exists|j: int| 0 <= j < i && failure_age(#[trigger] events@[j], now) == oldest,
            exists|j: int| 0 <= j < i && failure_age(#[trigger] events@[j], now) == newest,
        decreases events@.len() - i,
    {
        let age = elapsed_millis(now, events[i].first_failure_time);
        assert(failure_age(events@[i as int], now) == age);
        if age > oldest {
            oldest = age;
        }
        if age < newest {
            newest = age;
        }
        i = i + 1;
    }
    Some((oldest, newest))
}

/// The statistics that `generate_dlq_stats` gives for `failed_events` of
/// `topic` when the clock reads `now`.
pub open spec fn is_dlq_stats_of(
    r: DlqStats,
    topic: Seq<char>,
    failed_events: Seq<FailedEvent>,
    now: i64,
) -> bool {
    &&& r.topic@ == topic
    &&& r.total_events == failed_events.len()
    &&& r.unique_event_types == distinct_count(event_type_keys(failed_events))
    &&& (failed_events.len() == 0 <==> r.oldest_event_age is None)
    &&& (failed_events.len() == 0 <==> r.newest_event_age is None)
    &&& (r.oldest_event_age matches Some(oldest) ==> (forall|j: int|
        0 <= j < failed_events.len() ==> failure_age(#[trigger] failed_events[j], now) <= oldest)
        && exists|j: int|
        0 <= j < failed_events.len() && failure_age(#[trigger] failed_events[j], now) == oldest)
    &&& (r.newest_event_age matches Some(newest) ==> (forall|j: int|
        0 <= j < failed_events.len() ==> newest <= failure_age(#[trigger] failed_events[j], now))
        && exists|j: int|
        0 <= j < failed_events.len() && failure_age(#[trigger] failed_events[j], now) == newest)
    &&& r.total_retry_attempts == attempts_total(failed_events)
    &&& is_tally_of(r.events_by_reason, reason_keys(failed_events))
    &&& is_tally_of(r.events_by_handler, handler_keys(failed_events))
    &&& is_ranking_of(r.common_failure_reasons@, r.events_by_reason)
    &&& r.generated_at == now
}


/// The text of a decimal digit.
pub open spec fn digit_text(d: int) -> Seq<char> {
    if d == 0 {
        "0"@
    } else if d == 1 {
        "1"@
    } else if d == 2 {
        "2"@
    } else if d == 3 {
        "3"@
    } else if d == 4 {
        "4"@
    } else if d == 5 {
        "5"@
    } else if d == 6 {
        "6"@
    } else if d == 7 {
        "7"@
    } else if d == 8 {
        "8"@
    } else {
        "9"@
    }
}

/// The decimal text of `n`, without leading zeros.
pub open spec fn decimal_text(n: nat) -> Seq<char>
    decreases n,
{
    if n < 10 {
        digit_text(n as int)
    } else {
        decimal_text(n / 10) + digit_text((n % 10) as int)
    }
}

/// The text of a decimal digit.
fn digit_str(d: u64) -> (r: &'static str)
    requires
        d < 10,
    ensures
        r@ == digit_text(d as int),
{
    if d == 0 {
        "0"
    } else if d == 1 {
        "1"
    } else if d == 2 {
        "2"
    } else if d == 3 {
        "3"
    } else if d == 4 {
        "4"
    } else if d == 5 {
        "5"
    } else if d == 6 {
        "6"
    } else if d == 7 {
        "7"
    } else if d == 8 {
        "8"
    } else {
        "9"
    }
}

/// The decimal text of `n`.
pub fn decimal_string(n: u64) -> (r: String)
    ensures
        r@ == decimal_text(n as nat),
    decreases n,
{
    if n < 10 {
        digit_str(n).to_owned()
    } else {
        let mut s = decimal_string(n / 10);
        s.append(digit_str(n % 10));
        s
    }
}

/// The chrono format of the times in the CSV export.
pub open spec fn csv_time_pattern() -> Seq<char> {
    "%Y-%m-%d %H:%M:%S UTC"@
}

/// A time as written in the CSV export; empty where chrono has no date.
pub open spec fn csv_time(ms: i64) -> Seq<char> {
    match chrono_utc_text(ms, csv_time_pattern()) {
        Some(t) => t,
        None => Seq::<char>::empty(),
    }
}

/// The header line of the CSV export.
pub open spec fn csv_header() -> Seq<char> {
    "event_id,topic,event_type,failure_reason,attempt_count,first_failure_time,last_failure_time,handler\n"@
}

/// The CSV line of a failed event.
pub open spec fn csv_row(e: FailedEvent) -> Seq<char> {
    e.original_event_id@ + ","@ + e.topic@ + ","@ + e.metadata.event_type@ + ","@ + reason_key(
        e.failure_reason,
    ) + ","@ + decimal_text(e.attempt_count as nat) + ","@ + csv_time(e.first_failure_time) + ","@
        + csv_time(e.last_failure_time) + ","@ + (match e.failed_handler {
        Some(h) => h@,
        None => "unknown"@,
    }) + "\n"@
}

/// The CSV text of a sequence of failed events: the header, then a line
/// per event.
pub open spec fn csv_text(s: Seq<FailedEvent>) -> Seq<char>
    decreases s.len(),
{
    if s.len() == 0 {
        csv_header()
    } else {
        csv_text(s.drop_last()) + csv_row(s.last())
    }
}

/// Append a time as written in the CSV export.
fn append_csv_time(out: &mut String, ms: i64)
    ensures
        final(out)@ == old(out)@ + csv_time(ms),
{
    match format_utc_millis(ms, "%Y-%m-%d %H:%M:%S UTC") {
        Some(t) => out.append(t.as_str()),
        None => {
            assert(old(out)@ + Seq::<char>::empty() =~= old(out)@);
        },
    }
}

/// The CSV line of a failed event.
fn csv_line(e: &FailedEvent) -> (r: String)
    ensures
        r@ == csv_row(*e),
{
    let mut s = e.original_event_id.clone();
    s.append(",");
    s.append(e.topic.as_str());
    s.append(",");
    s.append(e.metadata.event_type.as_str());
    s.append(",");
    s.append(MockDlqManager::failure_reason_key(&e.failure_reason).as_str());
    s.append(",");
    s.append(decimal_string(e.attempt_count as u64).as_str());
    s.append(",");
    append_csv_time(&mut s, e.first_failure_time);
    s.append(",");
    append_csv_time(&mut s, e.last_failure_time);
    s.append(",");
    match &e.failed_handler {
        Some(h) => s.append(h.as_str()),
        None => s.append("unknown"),
    }
    s.append("\n");
    s
}


/// The JSON text that stands in for a payload that could not be serialized.
pub open spec fn unserializable_payload() -> Seq<char> {
    "\"Serialization failed\""@
}

/// The operations of the dead letter queue that do not depend on where
/// events are stored.
pub struct MockDlqManager;

impl MockDlqManager {
    /// The grouping key of a failure reason.
    pub fn failure_reason_key(reason: &FailureReason) -> (r: String)
        ensures
            r@ == reason_key(*reason),
    {
        match reason {
            FailureReason::HandlerError { .. } => "HandlerError".to_owned(),
            FailureReason::SerializationError { .. } => "SerializationError".to_owned(),
            FailureReason::TimeoutError => "TimeoutError".to_owned(),
            FailureReason::NetworkError { .. } => "NetworkError".to_owned(),
            FailureReason::MaxRetriesExceeded => "MaxRetriesExceeded".to_owned(),
            FailureReason::InvalidEventFormat { .. } => "InvalidEventFormat".to_owned(),
            FailureReason::DependencyUnavailable { .. } => "DependencyUnavailable".to_owned(),
            FailureReason::ResourceExhausted { .. } => "ResourceExhausted".to_owned(),
            FailureReason::AuthenticationError { .. } => "AuthenticationError".to_owned(),
            FailureReason::ValidationError { .. } => "ValidationError".to_owned(),
            FailureReason::Custom { reason } => {
                let mut s = "Custom(".to_owned();
                s.append(reason.as_str());
                s.append(")");
                s
            },
        }
    }

    /// Dead letter queue statistics for `failed_events` of `topic`, computed at
    /// time `now`.
    pub fn dlq_stats_at(topic: &str, failed_events: &[FailedEvent], now: i64) -> (r: DlqStats)
        ensures
            is_dlq_stats_of(r, topic@, failed_events@, now),
    {
        let types = tally(&event_type_list(failed_events));
        proof {
            types.lemma_view();
            let ks = event_type_keys(failed_events@);
            assert(types@.dom() =~= Set::new(|k: Seq<char>| occurrences(ks, k) > 0));
        }
        let unique_event_types = types.len() as u64;
        let ages = age_extremes(failed_events, now);
        let (oldest_event_age, newest_event_age) = match ages {
            Some((o, n)) => (Some(o), Some(n)),
            None => (None, None),
        };
        let events_by_reason = tally(&reason_key_list(failed_events));
        let events_by_handler = tally(&handler_list(failed_events));
        let common_failure_reasons = rank_reasons(&events_by_reason);
        DlqStats {
            topic: topic.to_owned(),
            total_events: failed_events.len() as u64,
            unique_event_types,
            oldest_event_age,
            newest_event_age,
            total_retry_attempts: sum_attempts(failed_events),
            common_failure_reasons,
            events_by_reason,
            events_by_handler,
            generated_at: now,
        }
    }

    /// Dead letter queue statistics for `failed_events` of `topic`, computed
    /// now: `dlq_stats_at` at the clock's reading.
    pub fn generate_dlq_stats(topic: &str, failed_events: &[FailedEvent]) -> (r: DlqStats)
        ensures
            is_dlq_stats_of(r, topic@, failed_events@, r.generated_at),
    {
        MockDlqManager::dlq_stats_at(topic, failed_events, now_millis())
    }

    /// Export failed events as CSV (UTF-8 bytes): a header line, then one line
    /// per event with its ID, topic, event type, reason key, attempt count,
    /// first and last failure times and handler ("unknown" if none).
    pub fn export_dlq_events_csv(events: &[FailedEvent]) -> (r: Vec<u8>)
        ensures
            r@ == vstd::utf8::encode_utf8(csv_text(events@)),
    {
        let mut csv = "event_id,topic,event_type,failure_reason,attempt_count,first_failure_time,last_failure_time,handler\n".to_owned();
        let mut i: usize = 0;
        proof {
            assert(events@.take(0).len() == 0);
        }
        while i < events.len()
            invariant
                i <= events@.len(),
                csv@ == csv_text(events@.take(i as int)),
            decreases events@.len() - i,
        {
            let line = csv_line(&events[i]);
            csv.append(line.as_str());
            proof {
                assert(events@.take(i as int + 1).drop_last() =~= events@.take(i as int));
            }
            i = i + 1;
        }
        assert(events@.take(i as int) =~= events@);
        csv.as_str().as_bytes_vec()
    }

    /// Whether a failed event has attempts left under `max_retries`.
    pub fn can_retry_event(event: &FailedEvent, max_retries: u32) -> (r: bool)
        ensures
            r == (event.attempt_count < max_retries),
    {
        event.attempt_count < max_retries
    }

    /// One of five fixed failure reasons, picked at random.
    pub fn random_failure_reason() -> (r: FailureReason)
        ensures
            (r matches FailureReason::HandlerError { error } && error@ == "Random handler error"@)
                || (r matches FailureReason::TimeoutError)
                || (r matches FailureReason::NetworkError { error } && error@ == "Connection lost"@)
                || (r matches FailureReason::ValidationError { field, message } && field@
                == "test_field"@ && message@ == "Invalid value"@)
                || (r matches FailureReason::DependencyUnavailable { service } && service@
                == "test-service"@),
    {
        let index = random_index_below(5);
        if index == 0 {
            FailureReason::HandlerError { error: "Random handler error".to_owned() }
        } else if index == 1 {
            FailureReason::TimeoutError
        } else if index == 2 {
            FailureReason::NetworkError { error: "Connection lost".to_owned() }
        } else if index == 3 {
            FailureReason::ValidationError {
                field: "test_field".to_owned(),
                message: "Invalid value".to_owned(),
            }
        } else {
            FailureReason::DependencyUnavailable { service: "test-service".to_owned() }
        }
    }

    /// The retry delay before jitter, in milliseconds: `base_delay_ms` doubled
    /// for each attempt after the first, capped at `max_delay_ms`.
    pub fn capped_backoff_ms(attempt_count: u32, base_delay_ms: u64, max_delay_ms: u64) -> (r: u64)
        requires
            attempt_count <= 32,
        ensures
            r == (if attempt_count == 0 {
                if base_delay_ms < max_delay_ms {
                    base_delay_ms as int
                } else {
                    max_delay_ms as int
                }
            } else {
                let d = base_delay_ms * vstd::arithmetic::power2::pow2((attempt_count - 1) as nat);
                if d < max_delay_ms {
                    d
                } else {
                    max_delay_ms as int
                }
            }),
    {
        let shift: u32 = if attempt_count == 0 {
            0
        } else {
            attempt_count - 1
        };
        let mut d: u128 = base_delay_ms as u128;
        let mut k: u32 = 0;
        proof {
            vstd::arithmetic::power2::lemma2_to64();
        }
        while k < shift
            invariant
                k <= shift,
                shift < 32,
                attempt_count == 0 || shift == attempt_count - 1,
                attempt_count == 0 ==> shift == 0,
                d == base_delay_ms * vstd::arithmetic::power2::pow2(k as nat),
                vstd::arithmetic::power2::pow2(k as nat) <= 0x8000_0000,
            decreases shift - k,
        {
            proof {
                vstd::arithmetic::power2::lemma2_to64();
                vstd::arithmetic::power2::lemma_pow2_unfold((k + 1) as nat);
                if k + 1 < 31 {
                    vstd::arithmetic::power2::lemma_pow2_strictly_increases((k + 1) as nat, 31);
                }
                assert(vstd::arithmetic::power2::pow2((k + 1) as nat) <= 0x8000_0000);
                assert(base_delay_ms * vstd::arithmetic::power2::pow2((k + 1) as nat) == 2 * (
                base_delay_ms * vstd::arithmetic::power2::pow2(k as nat))) by (nonlinear_arith)
                    requires
                        vstd::arithmetic::power2::pow2((k + 1) as nat) == 2
                            * vstd::arithmetic::power2::pow2(k as nat),
                ;
                assert(base_delay_ms * vstd::arithmetic::power2::pow2(k as nat) <= 0xFFFF_FFFF_FFFF_FFFF
                    * 0x8000_0000) by (nonlinear_arith)
                    requires
                        vstd::arithmetic::power2::pow2(k as nat) <= 0x8000_0000,
                        base_delay_ms <= 0xFFFF_FFFF_FFFF_FFFF,
                ;
            }
            d = d * 2;
            k = k + 1;
        }
        if d < max_delay_ms as u128 {
            d as u64
        } else {
            max_delay_ms
        }
    }

    /// A failed event built from `event`: its ID, topic and metadata, the
    /// payload's JSON text (`payload_json`, or a JSON string saying that
    /// serialization failed when it is `None`), `reason`, and the handler if
    /// given.
    pub fn create_failed_event<T>(
        event: &Event<T>,
        payload_json: Option<String>,
        reason: FailureReason,
        handler_name: Option<&str>,
    ) -> (r: FailedEvent)
        ensures
            r.original_event_id@ == event.id@,
            r.topic@ == event.topic@,
            r.payload@ == (match payload_json {
                Some(j) => j@,
                None => unserializable_payload(),
            }),
            r.failure_reason == reason,
            r.attempt_count == 1,
            r.first_failure_time == r.last_failure_time,
            crate::event::same_metadata(r.metadata, event.metadata),
            r.error_details is None,
            match handler_name {
                Some(h) => r.failed_handler matches Some(x) && x@ == h@,
                None => r.failed_handler is None,
            },
            r.failure_context.wf(),
            r.failure_context@ == Map::<Seq<char>, String>::empty(),
    {
        let payload = match payload_json {
            Some(j) => j,
            None => "\"Serialization failed\"".to_owned(),
        };
        let failed_event = FailedEvent::new(
            event.id.clone(),
            event.topic.as_str(),
            payload,
            reason,
            event.metadata.copy(),
        );
        match handler_name {
            Some(handler) => failed_event.with_failed_handler(handler),
            None => failed_event,
        }
    }
}

} // verus!
