//! How the columns of a stored row and the fields of an event stand for each
//! other.

use vstd::prelude::*;
use crate::error::BackendError;
use crate::error::COUNT_OUT_OF_RANGE;
use crate::error::EVENT_ID_OUT_OF_RANGE;
use crate::error::StoreError;
use crate::event::Event;
use crate::event::Timestamp;

verus! {

/// The `BIGINT` column that stores `event_id`: the same number. The column
/// holds every `event_id`, and the engine orders by it as the `event_id`s
/// are ordered.
pub open spec fn column_of_event_id(event_id: u32) -> i64 {
    event_id as i64
}

/// The `event_id` that a `BIGINT` column stores: the same number, where it
/// is one that an `event_id` can be, and nothing where it is not.
pub open spec fn event_id_of_column(column: i64) -> Option<u32> {
    if 0 <= column <= u32::MAX {
        Some(column as u32)
    } else {
        None
    }
}

/// The value of the `BIGINT` column for `event_id`.
pub fn event_id_to_column(event_id: u32) -> (column: i64)
    ensures
        column == column_of_event_id(event_id),
{
    event_id as i64
}

/// The `event_id` that the `BIGINT` column holds, if it holds one.
pub fn event_id_from_column(column: i64) -> (event_id: Option<u32>)
    ensures
        event_id == event_id_of_column(column),
{
    if 0 <= column && column <= 0xffff_ffff {
        Some(column as u32)
    } else {
        None
    }
}

/// Every `event_id` comes back from its column as it went in.
pub proof fn lemma_event_id_survives_its_column(event_id: u32)
    ensures
        event_id_of_column(column_of_event_id(event_id)) == Some(event_id),
{
}

/// A column value that holds an `event_id` is the column of that
/// `event_id`.
pub proof fn lemma_column_survives_its_event_id(column: i64, event_id: u32)
    requires
        event_id_of_column(column) == Some(event_id),
    ensures
        column_of_event_id(event_id) == column,
{
}

/// The columns of any two `event_id`s are ordered as the `event_id`s are.
pub proof fn lemma_column_keeps_order(first: u32, second: u32)
    ensures
        first < second <==> column_of_event_id(first) < column_of_event_id(second),
        first == second <==> column_of_event_id(first) == column_of_event_id(second),
{
}

/// Rows that the engine hands out in ascending order of the column are in
/// ascending order of `event_id`: the order in which the relational store
/// reads a history is the order in which the store in memory reads it.
pub proof fn lemma_column_order_is_event_id_order(event_ids: Seq<u32>)
    requires
        forall|i: int, j: int|
            0 <= i < j < event_ids.len() ==> column_of_event_id(event_ids[i]) < column_of_event_id(
                event_ids[j],
            ),
    ensures
        forall|i: int, j: int| 0 <= i < j < event_ids.len() ==> event_ids[i] < event_ids[j],
{
    assert forall|i: int, j: int| 0 <= i < j < event_ids.len() implies event_ids[i]
        < event_ids[j] by {
        lemma_column_keeps_order(event_ids[i], event_ids[j]);
    }
}

/// The count that a counting query reports: the number in the first row,
/// zero where the query gave no row, and nothing where the number is
/// negative, which is no count.
pub open spec fn count_of_column(first: Option<i64>) -> Option<u64> {
    match first {
        None => Some(0),
        Some(count) => if count >= 0 {
            Some(count as u64)
        } else {
            None
        },
    }
}

/// The count that a counting query reports, from the number in its first
/// row, if it gave one.
pub fn count_from_column(first: Option<i64>) -> (count: Option<u64>)
    ensures
        count == count_of_column(first),
{
    match first {
        None => Some(0),
        Some(count) => if count >= 0 {
            Some(count as u64)
        } else {
            None
        },
    }
}

/// One row of a history as the engine hands it out: the `event_id` column,
/// the instant of creation, and what decoding the stored metadata and the
/// stored payload gave.
#[derive(Debug)]
pub struct EventRow<D, M> {
    pub event_id: i64,
    pub created_date: Timestamp,
    pub metadata: Result<Option<M>, StoreError>,
    pub payload: Result<D, StoreError>,
}

/// Whether `item` is what one item of a history read stands for.
///
/// A row that the engine could not deliver is a client error. A row whose
/// `event_id` column holds no `event_id` is a serialization error that says
/// so. A row whose metadata does not decode is that decoding error, and so
/// is one whose payload does not decode; where both fail, the metadata's
/// error wins. Every other row is the event it stores.
pub open spec fn is_decoded_event<D, M>(
    aggregate_id: u128,
    fetched: Result<EventRow<D, M>, BackendError>,
    item: Result<Event<D, M>, StoreError>,
) -> bool {
    match fetched {
        Err(failure) => item == Err::<Event<D, M>, StoreError>(StoreError::ClientError(failure)),
        Ok(row) => match event_id_of_column(row.event_id) {
            None => item matches Err(StoreError::SerializationError(reason)) && reason@
                == EVENT_ID_OUT_OF_RANGE@,
            Some(event_id) => match (row.metadata, row.payload) {
                (Err(error), _) => item == Err::<Event<D, M>, StoreError>(error),
                (Ok(_), Err(error)) => item == Err::<Event<D, M>, StoreError>(error),
                (Ok(metadata), Ok(payload)) => item == Ok::<Event<D, M>, StoreError>(
                    Event {
                        aggregate_id,
                        event_id,
                        created_date: row.created_date,
                        metadata,
                        payload,
                    },
                ),
            },
        },
    }
}

/// Turns one item of a history read of `aggregate_id` into an event or into
/// the error that takes its place in the stream.
pub fn event_from_row<D, M>(aggregate_id: u128, fetched: Result<EventRow<D, M>, BackendError>) -> (item:
    Result<Event<D, M>, StoreError>)
    ensures
        is_decoded_event(aggregate_id, fetched, item),
{
    match fetched {
        Err(failure) => Err(StoreError::ClientError(failure)),
        Ok(row) => match event_id_from_column(row.event_id) {
            None => Err(StoreError::SerializationError(String::from_str(EVENT_ID_OUT_OF_RANGE))),
            Some(event_id) => {
                let created_date = row.created_date;
                match row.metadata {
                    Err(error) => Err(error),
                    Ok(metadata) => match row.payload {
                        Err(error) => Err(error),
                        Ok(payload) => Ok(
                            Event { aggregate_id, event_id, created_date, metadata, payload },
                        ),
                    },
                }
            },
        },
    }
}

/// Turns one item of an enumeration of aggregates into the aggregate or into
/// the client error that takes its place in the stream.
pub fn aggregate_id_from_row(fetched: Result<u128, BackendError>) -> (item: Result<u128, StoreError>)
    ensures
        item == match fetched {
            Ok(aggregate_id) => Ok::<u128, StoreError>(aggregate_id),
            Err(failure) => Err(StoreError::ClientError(failure)),
        },
{
    match fetched {
        Ok(aggregate_id) => Ok(aggregate_id),
        Err(failure) => Err(StoreError::ClientError(failure)),
    }
}

/// Whether `count` is what the answer to a counting query stands for: the
/// number in the first row, zero where there is no row, a serialization
/// error that says so where the number is negative, and a client error
/// where the query failed.
pub open spec fn is_count(fetched: Result<Option<i64>, BackendError>, count: Result<u64, StoreError>) -> bool {
    match fetched {
        Err(failure) => count == Err::<u64, StoreError>(StoreError::ClientError(failure)),
        Ok(first) => match count_of_column(first) {
            Some(number) => count == Ok::<u64, StoreError>(number),
            None => count matches Err(StoreError::SerializationError(reason)) && reason@
                == COUNT_OUT_OF_RANGE@,
        },
    }
}

/// Turns the answer to a counting query into the count.
pub fn count_from_rows(fetched: Result<Option<i64>, BackendError>) -> (count: Result<u64, StoreError>)
    ensures
        is_count(fetched, count),
{
    match fetched {
        Err(failure) => Err(StoreError::ClientError(failure)),
        Ok(first) => match count_from_column(first) {
            Some(number) => Ok(number),
            None => Err(StoreError::SerializationError(String::from_str(COUNT_OUT_OF_RANGE))),
        },
    }
}

} // verus!
