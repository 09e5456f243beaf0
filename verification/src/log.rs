//! The event table of one service as a mathematical object: the sequence of
//! its rows in the order in which they were appended.
//!
//! Everything a store promises is stated over these functions.

use vstd::prelude::*;
use crate::error::StoreError;
use crate::event::Event;
use crate::event::EventKey;
use crate::event::SaveEventsResult;

verus! {

/// No two rows share an `(aggregate_id, event_id)`.
pub open spec fn keys_unique<D, M>(rows: Seq<Event<D, M>>) -> bool {
    forall|i: int, j: int| 0 <= i < j < rows.len() ==> rows[i].key() != rows[j].key()
}

/// Some row carries `key`.
pub open spec fn holds_key<D, M>(rows: Seq<Event<D, M>>, key: EventKey) -> bool {
    exists|i: int| 0 <= i < rows.len() && #[trigger] rows[i].key() == key
}

/// The key of the event at `position` of `batch` is taken: by a row of the
/// table, or by an event that stands earlier in the batch.
pub open spec fn conflicts_at<D, M>(
    rows: Seq<Event<D, M>>,
    batch: Seq<Event<D, M>>,
    position: int,
) -> bool
    recommends
        0 <= position < batch.len(),
{
    holds_key(rows + batch.take(position), batch[position].key())
}

/// No event of `batch` carries a taken key, so the table takes the batch.
pub open spec fn accepts<D, M>(rows: Seq<Event<D, M>>, batch: Seq<Event<D, M>>) -> bool {
    forall|position: int| 0 <= position < batch.len() ==> !conflicts_at(rows, batch, position)
}

/// `position` is the first of `batch` whose key is taken.
pub open spec fn is_first_conflict<D, M>(
    rows: Seq<Event<D, M>>,
    batch: Seq<Event<D, M>>,
    position: int,
) -> bool {
    &&& 0 <= position < batch.len()
    &&& conflicts_at(rows, batch, position)
    &&& forall|earlier: int| 0 <= earlier < position ==> !conflicts_at(rows, batch, earlier)
}

/// `saved` and `after` are what an append of `batch` to the table `before`
/// reports and leaves behind.
///
/// An empty batch is no write: `AlreadyExists`, and the table as it was. A
/// batch that the table takes is written whole, behind the rows that were
/// there, in the caller's order. A batch with a taken key is not written at
/// all, and the error names the first event that carries one and holds the
/// report of a unique violation.
pub open spec fn is_append_result<D, M>(
    before: Seq<Event<D, M>>,
    batch: Seq<Event<D, M>>,
    saved: Result<SaveEventsResult, StoreError>,
    after: Seq<Event<D, M>>,
) -> bool {
    match saved {
        Ok(SaveEventsResult::AlreadyExists) => batch.len() == 0 && after == before,
        Ok(SaveEventsResult::Success) => batch.len() > 0 && accepts(before, batch) && after
            == before + batch,
        Err(StoreError::ConstraintViolation { position, failure }) => batch.len() > 0 && after
            == before && is_first_conflict(before, batch, position as int)
            && failure.is_duplicate_key_report(),
        Err(_) => false,
    }
}

/// The test that an event belongs to `aggregate_id`.
pub open spec fn owned_by<D, M>(aggregate_id: u128) -> spec_fn(Event<D, M>) -> bool {
    |event: Event<D, M>| event.aggregate_id == aggregate_id
}

/// The aggregate that an event belongs to.
pub open spec fn owner<D, M>() -> spec_fn(Event<D, M>) -> u128 {
    |event: Event<D, M>| event.aggregate_id
}

/// The rows of one aggregate, in the order in which they were appended.
pub open spec fn of_aggregate<D, M>(rows: Seq<Event<D, M>>, aggregate_id: u128) -> Seq<
    Event<D, M>,
> {
    rows.filter(owned_by(aggregate_id))
}

/// The aggregates that have at least one row.
pub open spec fn aggregates<D, M>(rows: Seq<Event<D, M>>) -> Set<u128> {
    rows.map_values(owner()).to_set()
}

/// Each event has a higher `event_id` than the one before it.
pub open spec fn ascending<D, M>(events: Seq<Event<D, M>>) -> bool {
    forall|i: int, j: int| 0 <= i < j < events.len() ==> events[i].event_id < events[j].event_id
}

/// `history` is what a read of `aggregate_id` yields: the rows of that
/// aggregate, all of them, none else, lowest `event_id` first.
pub open spec fn is_history<D, M>(
    rows: Seq<Event<D, M>>,
    aggregate_id: u128,
    history: Seq<Event<D, M>>,
) -> bool {
    &&& ascending(history)
    &&& forall|i: int|
        0 <= i < history.len() ==> (#[trigger] history[i]).aggregate_id == aggregate_id
            && rows.contains(history[i])
    &&& forall|k: int|
        0 <= k < rows.len() && (#[trigger] rows[k]).aggregate_id == aggregate_id
            ==> history.contains(rows[k])
}

/// `event_id` comes after the point up to which a reader has read.
pub open spec fn comes_after(after: Option<u32>, event_id: u32) -> bool {
    after matches Some(last) ==> last < event_id
}

/// `next` is what a reader of `aggregate_id` that has read up to `after`
/// gets next: the row with the lowest `event_id` beyond that point, or
/// nothing where no row lies beyond it.
pub open spec fn is_next_event<D, M>(
    rows: Seq<Event<D, M>>,
    aggregate_id: u128,
    after: Option<u32>,
    next: Option<Event<D, M>>,
) -> bool {
    match next {
        Some(event) => {
            &&& rows.contains(event)
            &&& event.aggregate_id == aggregate_id
            &&& comes_after(after, event.event_id)
            &&& forall|k: int|
                0 <= k < rows.len() && (#[trigger] rows[k]).aggregate_id == aggregate_id
                    && comes_after(after, rows[k].event_id) ==> event.event_id
                    <= rows[k].event_id
        },
        None => forall|k: int|
            0 <= k < rows.len() && (#[trigger] rows[k]).aggregate_id == aggregate_id
                ==> !comes_after(after, rows[k].event_id),
    }
}

/// The number of rows.
pub open spec fn total_events<D, M>(rows: Seq<Event<D, M>>) -> nat {
    rows.len()
}

/// The number of rows of one aggregate.
pub open spec fn total_events_for_aggregate<D, M>(
    rows: Seq<Event<D, M>>,
    aggregate_id: u128,
) -> nat {
    of_aggregate(rows, aggregate_id).len()
}

/// The number of aggregates that have at least one row.
pub open spec fn total_aggregates<D, M>(rows: Seq<Event<D, M>>) -> nat {
    aggregates(rows).len()
}

/// A key is held by two tables laid end to end exactly if one of them holds
/// it.
pub proof fn lemma_holds_key_of_concatenation<D, M>(
    front: Seq<Event<D, M>>,
    back: Seq<Event<D, M>>,
    key: EventKey,
)
    ensures
        holds_key(front + back, key) <==> holds_key(front, key) || holds_key(back, key),
{
    let joined = front + back;
    if holds_key(front, key) {
        let i = choose|i: int| 0 <= i < front.len() && #[trigger] front[i].key() == key;
        assert(joined[i].key() == key);
    }
    if holds_key(back, key) {
        let i = choose|i: int| 0 <= i < back.len() && #[trigger] back[i].key() == key;
        assert(joined[front.len() + i].key() == key);
    }
    if holds_key(joined, key) {
        let i = choose|i: int| 0 <= i < joined.len() && #[trigger] joined[i].key() == key;
        if i < front.len() {
            assert(front[i].key() == key);
        } else {
            assert(back[i - front.len()].key() == key);
        }
    }
}

/// A table with unique keys still has unique keys after it took a batch.
pub proof fn lemma_accepted_batch_keeps_keys_unique<D, M>(
    rows: Seq<Event<D, M>>,
    batch: Seq<Event<D, M>>,
)
    requires
        keys_unique(rows),
        accepts(rows, batch),
    ensures
        keys_unique(rows + batch),
{
    let joined = rows + batch;
    assert forall|i: int, j: int| 0 <= i < j < joined.len() implies joined[i].key()
        != joined[j].key() by {
        if j >= rows.len() {
            let position = j - rows.len();
            assert(!conflicts_at(rows, batch, position));
            let earlier = rows + batch.take(position);
            assert(earlier[i] == joined[i]);
            assert(earlier[i].key() != batch[position].key());
        }
    }
}

/// Two ascending lists of events with the same members are the same list.
pub proof fn lemma_ascending_lists_with_same_members_are_equal<D, M>(
    left: Seq<Event<D, M>>,
    right: Seq<Event<D, M>>,
)
    requires
        ascending(left),
        ascending(right),
        forall|i: int| 0 <= i < left.len() ==> right.contains(#[trigger] left[i]),
        forall|j: int| 0 <= j < right.len() ==> left.contains(#[trigger] right[j]),
    ensures
        left == right,
    decreases left.len(),
{
    if left.len() == 0 {
        if right.len() > 0 {
            assert(left.contains(right[0]));
        }
        assert(left =~= right);
    } else if right.len() == 0 {
        assert(right.contains(left[0]));
    } else {
        let top = left.last();
        let at = choose|at: int| 0 <= at < right.len() && right[at] == top;
        let other = right.last();
        let back = choose|back: int| 0 <= back < left.len() && left[back] == other;
        assert(top == other) by {
            if at < right.len() - 1 {
                assert(right[at].event_id < right[right.len() - 1].event_id);
                if back < left.len() - 1 {
                    assert(left[back].event_id < left[left.len() - 1].event_id);
                }
            }
        }
        let shorter_left = left.drop_last();
        let shorter_right = right.drop_last();
        assert forall|i: int| 0 <= i < shorter_left.len() implies shorter_right.contains(
            #[trigger] shorter_left[i],
        ) by {
            assert(right.contains(left[i]));
            let j = choose|j: int| 0 <= j < right.len() && right[j] == left[i];
            assert(left[i].event_id < left[left.len() - 1].event_id);
            assert(j < right.len() - 1);
            assert(shorter_right[j] == shorter_left[i]);
        }
        assert forall|j: int| 0 <= j < shorter_right.len() implies shorter_left.contains(
            #[trigger] shorter_right[j],
        ) by {
            assert(left.contains(right[j]));
            let i = choose|i: int| 0 <= i < left.len() && left[i] == right[j];
            assert(right[j].event_id < right[right.len() - 1].event_id);
            assert(i < left.len() - 1);
            assert(shorter_left[i] == shorter_right[j]);
        }
        lemma_ascending_lists_with_same_members_are_equal(shorter_left, shorter_right);
        assert(left =~= shorter_left.push(top));
        assert(right =~= shorter_right.push(other));
    }
}

/// A table has one history per aggregate: a read is determined by the
/// table and the aggregate alone.
pub proof fn lemma_history_is_unique<D, M>(
    rows: Seq<Event<D, M>>,
    aggregate_id: u128,
    first: Seq<Event<D, M>>,
    second: Seq<Event<D, M>>,
)
    requires
        is_history(rows, aggregate_id, first),
        is_history(rows, aggregate_id, second),
    ensures
        first == second,
{
    assert forall|i: int| 0 <= i < first.len() implies second.contains(#[trigger] first[i]) by {
        let k = choose|k: int| 0 <= k < rows.len() && rows[k] == first[i];
        assert(second.contains(rows[k]));
    }
    assert forall|j: int| 0 <= j < second.len() implies first.contains(#[trigger] second[j]) by {
        let k = choose|k: int| 0 <= k < rows.len() && rows[k] == second[j];
        assert(first.contains(rows[k]));
    }
    lemma_ascending_lists_with_same_members_are_equal(first, second);
}

/// Where the events of an aggregate were appended in ascending
/// `event_id` order, in one batch or in many, a read yields exactly those
/// events, unchanged, in the order in which they were appended.
pub proof fn lemma_history_in_append_order<D, M>(
    rows: Seq<Event<D, M>>,
    aggregate_id: u128,
    history: Seq<Event<D, M>>,
)
    requires
        ascending(of_aggregate(rows, aggregate_id)),
        is_history(rows, aggregate_id, history),
    ensures
        history == of_aggregate(rows, aggregate_id),
{
    let owned = owned_by::<D, M>(aggregate_id);
    let appended = of_aggregate(rows, aggregate_id);
    assert forall|i: int| 0 <= i < appended.len() implies (#[trigger] appended[i]).aggregate_id
        == aggregate_id && rows.contains(appended[i]) by {
        rows.lemma_filter_pred(owned, i);
        assert(appended.contains(appended[i]));
        rows.lemma_filter_contains_rev(owned, appended[i]);
    }
    assert forall|k: int|
        0 <= k < rows.len() && (#[trigger] rows[k]).aggregate_id
            == aggregate_id implies appended.contains(rows[k]) by {
        rows.lemma_filter_contains(owned, k);
    }
    assert(is_history(rows, aggregate_id, appended));
    lemma_history_is_unique(rows, aggregate_id, history, appended);
}

/// The numbering that callers are meant to use: where the events of an
/// aggregate were appended with the `event_id`s 1 to N in that order, a read
/// yields N events, the one at index `i` being the one that was appended
/// with `event_id` `i + 1`.
pub proof fn lemma_history_counts_from_one<D, M>(
    rows: Seq<Event<D, M>>,
    aggregate_id: u128,
    history: Seq<Event<D, M>>,
)
    requires
        forall|i: int|
            0 <= i < of_aggregate(rows, aggregate_id).len() ==> (#[trigger] of_aggregate(
                rows,
                aggregate_id,
            )[i]).event_id == i + 1,
        is_history(rows, aggregate_id, history),
    ensures
        history == of_aggregate(rows, aggregate_id),
        history.len() == total_events_for_aggregate(rows, aggregate_id),
        forall|i: int| 0 <= i < history.len() ==> (#[trigger] history[i]).event_id == i + 1,
{
    lemma_history_in_append_order(rows, aggregate_id, history);
}

/// An append that fails leaves the table as it was, so no event
/// of the batch shows in any read or count afterwards.
pub proof fn lemma_failed_append_writes_nothing<D, M>(
    before: Seq<Event<D, M>>,
    batch: Seq<Event<D, M>>,
    saved: Result<SaveEventsResult, StoreError>,
    after: Seq<Event<D, M>>,
)
    requires
        is_append_result(before, batch, saved, after),
        saved is Err,
    ensures
        after == before,
        total_events(after) == total_events(before),
        total_aggregates(after) == total_aggregates(before),
        forall|aggregate_id: u128|
            total_events_for_aggregate(after, aggregate_id) == total_events_for_aggregate(
                before,
                aggregate_id,
            ),
        forall|aggregate_id: u128, history: Seq<Event<D, M>>|
            is_history(before, aggregate_id, history) <==> is_history(after, aggregate_id, history),
{
}

/// An append of no events reports `AlreadyExists` and leaves the table, and
/// with it every count, as it was.
pub proof fn lemma_empty_append_is_a_no_op<D, M>(
    before: Seq<Event<D, M>>,
    batch: Seq<Event<D, M>>,
    saved: Result<SaveEventsResult, StoreError>,
    after: Seq<Event<D, M>>,
)
    requires
        is_append_result(before, batch, saved, after),
        batch.len() == 0,
    ensures
        saved == Ok::<SaveEventsResult, StoreError>(SaveEventsResult::AlreadyExists),
        after == before,
        total_events(after) == total_events(before),
        total_aggregates(after) == total_aggregates(before),
        forall|aggregate_id: u128|
            total_events_for_aggregate(after, aggregate_id) == total_events_for_aggregate(
                before,
                aggregate_id,
            ),
{
}

/// An append that holds an event whose `(aggregate_id, event_id)` is already
/// a row of the table fails with a constraint violation and leaves the table
/// as it was.
pub proof fn lemma_duplicate_key_is_rejected<D, M>(
    before: Seq<Event<D, M>>,
    batch: Seq<Event<D, M>>,
    saved: Result<SaveEventsResult, StoreError>,
    after: Seq<Event<D, M>>,
    position: int,
)
    requires
        is_append_result(before, batch, saved, after),
        0 <= position < batch.len(),
        holds_key(before, batch[position].key()),
    ensures
        saved matches Err(StoreError::ConstraintViolation { position: first, failure })
            && first <= position && failure.is_duplicate_key_report(),
        after == before,
{
    lemma_holds_key_of_concatenation(before, batch.take(position), batch[position].key());
    assert(conflicts_at(before, batch, position));
}

/// An append succeeds exactly if the batch is not empty and none of its
/// events carries a taken key.
pub proof fn lemma_append_succeeds_iff_accepted<D, M>(
    before: Seq<Event<D, M>>,
    batch: Seq<Event<D, M>>,
    saved: Result<SaveEventsResult, StoreError>,
    after: Seq<Event<D, M>>,
)
    requires
        is_append_result(before, batch, saved, after),
    ensures
        saved == Ok::<SaveEventsResult, StoreError>(SaveEventsResult::Success) <==> batch.len() > 0
            && accepts(before, batch),
        saved is Ok <==> accepts(before, batch),
{
}

/// An append to other aggregates changes nothing in what a read
/// of this aggregate yields.
pub proof fn lemma_append_leaves_other_histories<D, M>(
    rows: Seq<Event<D, M>>,
    batch: Seq<Event<D, M>>,
    aggregate_id: u128,
    history: Seq<Event<D, M>>,
)
    requires
        forall|i: int| 0 <= i < batch.len() ==> (#[trigger] batch[i]).aggregate_id != aggregate_id,
    ensures
        is_history(rows, aggregate_id, history) <==> is_history(
            rows + batch,
            aggregate_id,
            history,
        ),
        total_events_for_aggregate(rows + batch, aggregate_id) == total_events_for_aggregate(
            rows,
            aggregate_id,
        ),
{
    let joined = rows + batch;
    let owned = owned_by::<D, M>(aggregate_id);
    if is_history(rows, aggregate_id, history) {
        assert forall|i: int| 0 <= i < history.len() implies joined.contains(
            #[trigger] history[i],
        ) by {
            let k = choose|k: int| 0 <= k < rows.len() && rows[k] == history[i];
            assert(joined[k] == history[i]);
        }
        assert forall|k: int|
            0 <= k < joined.len() && (#[trigger] joined[k]).aggregate_id
                == aggregate_id implies history.contains(joined[k]) by {
            if k < rows.len() {
                assert(joined[k] == rows[k]);
            } else {
                assert(joined[k] == batch[k - rows.len()]);
            }
        }
    }
    if is_history(joined, aggregate_id, history) {
        assert forall|i: int| 0 <= i < history.len() implies rows.contains(
            #[trigger] history[i],
        ) by {
            let k = choose|k: int| 0 <= k < joined.len() && joined[k] == history[i];
            if k >= rows.len() {
                assert(joined[k] == batch[k - rows.len()]);
            }
            assert(rows[k] == history[i]);
        }
        assert forall|k: int|
            0 <= k < rows.len() && (#[trigger] rows[k]).aggregate_id
                == aggregate_id implies history.contains(rows[k]) by {
            assert(joined[k] == rows[k]);
        }
    }
    Seq::filter_distributes_over_add(rows, batch, owned);
    batch.lemma_all_neg_filter_empty(owned);
}

/// A batch that was taken adds its length to the number of events,
/// and to each aggregate the number of its events in the batch.
pub proof fn lemma_counts_after_append<D, M>(
    rows: Seq<Event<D, M>>,
    batch: Seq<Event<D, M>>,
    aggregate_id: u128,
)
    ensures
        total_events(rows + batch) == total_events(rows) + batch.len(),
        total_events_for_aggregate(rows + batch, aggregate_id) == total_events_for_aggregate(
            rows,
            aggregate_id,
        ) + total_events_for_aggregate(batch, aggregate_id),
        aggregates(rows + batch) == aggregates(rows).union(aggregates(batch)),
{
    let owned = owned_by::<D, M>(aggregate_id);
    let column = owner::<D, M>();
    Seq::filter_distributes_over_add(rows, batch, owned);
    let joined = (rows + batch).map_values(column);
    let left = rows.map_values(column);
    let right = batch.map_values(column);
    assert(joined =~= left + right);
    assert forall|id: u128| joined.to_set().contains(id) <==> left.to_set().contains(id)
        || right.to_set().contains(id) by {
        if left.contains(id) {
            let i = choose|i: int| 0 <= i < left.len() && left[i] == id;
            assert(joined[i] == id);
        }
        if right.contains(id) {
            let i = choose|i: int| 0 <= i < right.len() && right[i] == id;
            assert(joined[left.len() + i] == id);
        }
        if joined.contains(id) {
            let i = choose|i: int| 0 <= i < joined.len() && joined[i] == id;
            if i < left.len() {
                assert(left[i] == id);
            } else {
                assert(right[i - left.len()] == id);
            }
        }
    }
    assert(aggregates(rows + batch) =~= aggregates(rows).union(aggregates(batch)));
}

/// The place of a new event in an ascending list: every event before it has
/// a lower `event_id`, every event from it on a higher one.
proof fn lemma_place_in_ascending_list<D, M>(events: Seq<Event<D, M>>, event_id: u32) -> (place: int)
    requires
        ascending(events),
        forall|i: int| 0 <= i < events.len() ==> (#[trigger] events[i]).event_id != event_id,
    ensures
        0 <= place <= events.len(),
        forall|i: int| 0 <= i < place ==> (#[trigger] events[i]).event_id < event_id,
        forall|i: int| place <= i < events.len() ==> (#[trigger] events[i]).event_id > event_id,
    decreases events.len(),
{
    if events.len() == 0 {
        0
    } else if events.last().event_id < event_id {
        assert forall|i: int| 0 <= i < events.len() implies (#[trigger] events[i]).event_id
            < event_id by {
            if i < events.len() - 1 {
                assert(events[i].event_id < events[events.len() - 1].event_id);
            }
        }
        events.len() as int
    } else {
        let shorter = events.drop_last();
        assert forall|i: int, j: int| 0 <= i < j < shorter.len() implies shorter[i].event_id
            < shorter[j].event_id by {
            assert(events[i].event_id < events[j].event_id);
        }
        assert forall|i: int| 0 <= i < shorter.len() implies (#[trigger] shorter[i]).event_id
            != event_id by {
            assert(events[i].event_id != event_id);
        }
        let place = lemma_place_in_ascending_list(shorter, event_id);
        assert forall|i: int| 0 <= i < place implies (#[trigger] events[i]).event_id < event_id by {
            assert(shorter[i].event_id < event_id);
        }
        assert forall|i: int| place <= i < events.len() implies (#[trigger] events[i]).event_id
            > event_id by {
            if i < shorter.len() {
                assert(shorter[i].event_id > event_id);
            }
        }
        place
    }
}

/// Every aggregate of a table with unique keys has a history, so a read
/// always has an answer.
pub proof fn lemma_history_exists<D, M>(rows: Seq<Event<D, M>>, aggregate_id: u128) -> (history: Seq<
    Event<D, M>,
>)
    requires
        keys_unique(rows),
    ensures
        is_history(rows, aggregate_id, history),
    decreases rows.len(),
{
    if rows.len() == 0 {
        Seq::empty()
    } else {
        let rest = rows.drop_last();
        let last = rows.last();
        assert forall|i: int, j: int| 0 <= i < j < rest.len() implies rest[i].key()
            != rest[j].key() by {
            assert(rows[i].key() != rows[j].key());
        }
        let shorter = lemma_history_exists(rest, aggregate_id);
        assert forall|i: int| 0 <= i < shorter.len() implies rows.contains(
            #[trigger] shorter[i],
        ) by {
            let k = choose|k: int| 0 <= k < rest.len() && rest[k] == shorter[i];
            assert(rows[k] == shorter[i]);
        }
        if last.aggregate_id != aggregate_id {
            assert forall|k: int|
                0 <= k < rows.len() && (#[trigger] rows[k]).aggregate_id
                    == aggregate_id implies shorter.contains(rows[k]) by {
                assert(rest[k] == rows[k]);
            }
            shorter
        } else {
            assert forall|i: int| 0 <= i < shorter.len() implies (#[trigger] shorter[i]).event_id
                != last.event_id by {
                let k = choose|k: int| 0 <= k < rest.len() && rest[k] == shorter[i];
                assert(rows[k].key() != rows[rows.len() - 1].key());
            }
            let place = lemma_place_in_ascending_list(shorter, last.event_id);
            let history = shorter.insert(place, last);
            shorter.insert_ensures(place, last);
            assert forall|i: int, j: int| 0 <= i < j < history.len() implies history[i].event_id
                < history[j].event_id by {
                let from = if i < place { i } else { i - 1 };
                let to = if j < place { j } else { j - 1 };
                if i != place {
                    assert(history[i] == shorter[from]);
                }
                if j != place {
                    assert(history[j] == shorter[to]);
                }
                if i != place && j != place {
                    assert(shorter[from].event_id < shorter[to].event_id);
                }
            }
            assert forall|i: int| 0 <= i < history.len() implies (#[trigger] history[i]).aggregate_id
                == aggregate_id && rows.contains(history[i]) by {
                if i == place {
                    assert(rows[rows.len() - 1] == last);
                } else {
                    let from = if i < place { i } else { i - 1 };
                    assert(history[i] == shorter[from]);
                }
            }
            assert forall|k: int|
                0 <= k < rows.len() && (#[trigger] rows[k]).aggregate_id
                    == aggregate_id implies history.contains(rows[k]) by {
                if k == rows.len() - 1 {
                    assert(history[place] == rows[k]);
                } else {
                    assert(rest[k] == rows[k]);
                    let at = choose|at: int| 0 <= at < shorter.len() && shorter[at] == rows[k];
                    if at < place {
                        assert(history[at] == rows[k]);
                    } else {
                        assert(history[at + 1] == rows[k]);
                    }
                }
            }
            history
        }
    }
}

/// A reader that asks for the next event again and again walks the history:
/// from nothing it gets the first event, after each event the one that
/// follows it, and after the last event nothing.
pub proof fn lemma_next_event_walks_the_history<D, M>(
    rows: Seq<Event<D, M>>,
    aggregate_id: u128,
    history: Seq<Event<D, M>>,
)
    requires
        is_history(rows, aggregate_id, history),
    ensures
        history.len() == 0 ==> is_next_event(rows, aggregate_id, None, None),
        history.len() > 0 ==> is_next_event(rows, aggregate_id, None, Some(history[0])),
        forall|i: int|
            0 <= i < history.len() - 1 ==> is_next_event(
                rows,
                aggregate_id,
                Some((#[trigger] history[i]).event_id),
                Some(history[i + 1]),
            ),
        history.len() > 0 ==> is_next_event(
            rows,
            aggregate_id,
            Some(history.last().event_id),
            None,
        ),
{
    if history.len() == 0 {
        assert forall|k: int|
            0 <= k < rows.len() && (#[trigger] rows[k]).aggregate_id
                == aggregate_id implies !comes_after(None, rows[k].event_id) by {
            assert(history.contains(rows[k]));
        }
    } else {
        assert forall|k: int|
            0 <= k < rows.len() && (#[trigger] rows[k]).aggregate_id == aggregate_id
                && comes_after(None, rows[k].event_id) implies history[0].event_id
            <= rows[k].event_id by {
            let at = choose|at: int| 0 <= at < history.len() && history[at] == rows[k];
            if at > 0 {
                assert(history[0].event_id < history[at].event_id);
            }
        }
        assert forall|i: int| 0 <= i < history.len() - 1 implies is_next_event(
            rows,
            aggregate_id,
            Some((#[trigger] history[i]).event_id),
            Some(history[i + 1]),
        ) by {
            let after = Some(history[i].event_id);
            assert(history[i].event_id < history[i + 1].event_id);
            assert forall|k: int|
                0 <= k < rows.len() && (#[trigger] rows[k]).aggregate_id == aggregate_id
                    && comes_after(after, rows[k].event_id) implies history[i + 1].event_id
                <= rows[k].event_id by {
                let at = choose|at: int| 0 <= at < history.len() && history[at] == rows[k];
                if at < i {
                    assert(history[at].event_id < history[i].event_id);
                }
                if at > i + 1 {
                    assert(history[i + 1].event_id < history[at].event_id);
                }
            }
        }
        let end = Some(history.last().event_id);
        assert forall|k: int|
            0 <= k < rows.len() && (#[trigger] rows[k]).aggregate_id
                == aggregate_id implies !comes_after(end, rows[k].event_id) by {
            let at = choose|at: int| 0 <= at < history.len() && history[at] == rows[k];
            if at < history.len() - 1 {
                assert(history[at].event_id < history[history.len() - 1].event_id);
            }
        }
    }
}

/// In a table with unique keys, what a reader gets next is determined by
/// the table, the aggregate and the point it has read up to.
pub proof fn lemma_next_event_is_unique<D, M>(
    rows: Seq<Event<D, M>>,
    aggregate_id: u128,
    after: Option<u32>,
    first: Option<Event<D, M>>,
    second: Option<Event<D, M>>,
)
    requires
        keys_unique(rows),
        is_next_event(rows, aggregate_id, after, first),
        is_next_event(rows, aggregate_id, after, second),
    ensures
        first == second,
{
    match (first, second) {
        (Some(one), Some(other)) => {
            let i = choose|i: int| 0 <= i < rows.len() && rows[i] == one;
            let j = choose|j: int| 0 <= j < rows.len() && rows[j] == other;
            assert(rows[i].event_id <= rows[j].event_id);
            assert(rows[j].event_id <= rows[i].event_id);
            assert(rows[i].key() == rows[j].key());
        },
        (Some(one), None) => {
            let i = choose|i: int| 0 <= i < rows.len() && rows[i] == one;
            assert(!comes_after(after, rows[i].event_id));
        },
        (None, Some(other)) => {
            let j = choose|j: int| 0 <= j < rows.len() && rows[j] == other;
            assert(!comes_after(after, rows[j].event_id));
        },
        (None, None) => {},
    }
}

/// The counts of the aggregates listed in `ids`, added up.
pub open spec fn sum_of_counts<D, M>(rows: Seq<Event<D, M>>, ids: Seq<u128>) -> nat
    decreases ids.len(),
{
    if ids.len() == 0 {
        0
    } else {
        sum_of_counts(rows, ids.drop_last()) + total_events_for_aggregate(rows, ids.last())
    }
}

/// One more row adds one to the sum over a list of aggregates in which the
/// row's aggregate stands once, and nothing where it does not stand.
proof fn lemma_sum_of_counts_after_push<D, M>(
    rows: Seq<Event<D, M>>,
    event: Event<D, M>,
    ids: Seq<u128>,
)
    requires
        ids.no_duplicates(),
    ensures
        sum_of_counts(rows.push(event), ids) == sum_of_counts(rows, ids) + if ids.contains(
            event.aggregate_id,
        ) {
            1nat
        } else {
            0nat
        },
    decreases ids.len(),
{
    if ids.len() > 0 {
        let earlier = ids.drop_last();
        let last = ids.last();
        assert forall|i: int, j: int| 0 <= i < j < earlier.len() implies earlier[i]
            != earlier[j] by {
            assert(ids[i] != ids[j]);
        }
        lemma_sum_of_counts_after_push(rows, event, earlier);
        rows.lemma_filter_push(event, owned_by(last));
        if earlier.contains(event.aggregate_id) {
            let i = choose|i: int| 0 <= i < earlier.len() && earlier[i] == event.aggregate_id;
            assert(ids[i] == event.aggregate_id);
            assert(ids[i] != ids[ids.len() - 1]);
        }
        if last == event.aggregate_id {
            assert(ids[ids.len() - 1] == event.aggregate_id);
        }
        if ids.contains(event.aggregate_id) && last != event.aggregate_id {
            let i = choose|i: int| 0 <= i < ids.len() && ids[i] == event.aggregate_id;
            assert(earlier[i] == event.aggregate_id);
        }
    }
}

/// The counts add up: over the aggregates of the table, each listed once,
/// the numbers of events per aggregate sum to the number of events.
pub proof fn lemma_counts_add_up<D, M>(rows: Seq<Event<D, M>>, ids: Seq<u128>)
    requires
        ids.no_duplicates(),
        ids.to_set() == aggregates(rows),
    ensures
        sum_of_counts(rows, ids) == total_events(rows),
        ids.len() == total_aggregates(rows),
{
    assert forall|k: int| 0 <= k < rows.len() implies ids.contains(
        (#[trigger] rows[k]).aggregate_id,
    ) by {
        let column = rows.map_values(owner());
        assert(column[k] == rows[k].aggregate_id);
        assert(column.to_set().contains(rows[k].aggregate_id));
    }
    lemma_counts_add_up_over(rows, ids);
    ids.unique_seq_to_set();
}

/// Over a list without repetition that names every aggregate of the table,
/// the numbers of events per aggregate sum to the number of events.
proof fn lemma_counts_add_up_over<D, M>(rows: Seq<Event<D, M>>, ids: Seq<u128>)
    requires
        ids.no_duplicates(),
        forall|k: int| 0 <= k < rows.len() ==> ids.contains((#[trigger] rows[k]).aggregate_id),
    ensures
        sum_of_counts(rows, ids) == total_events(rows),
    decreases rows.len(),
{
    if rows.len() == 0 {
        lemma_sum_of_counts_of_no_rows::<D, M>(rows, ids);
    } else {
        let rest = rows.drop_last();
        assert forall|k: int| 0 <= k < rest.len() implies ids.contains(
            (#[trigger] rest[k]).aggregate_id,
        ) by {
            assert(rest[k] == rows[k]);
        }
        lemma_counts_add_up_over(rest, ids);
        assert(rows =~= rest.push(rows.last()));
        assert(ids.contains(rows[rows.len() - 1].aggregate_id));
        lemma_sum_of_counts_after_push(rest, rows.last(), ids);
    }
}

/// A table without rows counts nothing for any aggregate.
proof fn lemma_sum_of_counts_of_no_rows<D, M>(rows: Seq<Event<D, M>>, ids: Seq<u128>)
    requires
        rows.len() == 0,
    ensures
        sum_of_counts(rows, ids) == 0,
    decreases ids.len(),
{
    if ids.len() > 0 {
        lemma_sum_of_counts_of_no_rows(rows, ids.drop_last());
        rows.lemma_filter_len(owned_by(ids.last()));
    }
}

} // verus!
