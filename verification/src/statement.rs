//! The text of the statements that the relational store sends.
//!
//! Each service keeps its events in a table of its own, named after the
//! service. A statement is the same text for every service but for that name.

use vstd::prelude::*;

verus! {

/// The name of the table that holds the events of `service_name`.
pub open spec fn table_name(service_name: Seq<char>) -> Seq<char> {
    service_name + "_event_store"@
}

/// Provisions the table of a service, keyed by `(aggregate_id, event_id)`, if
/// it is not there yet.
pub open spec fn create_table_text(service_name: Seq<char>) -> Seq<char> {
    "CREATE TABLE IF NOT EXISTS "@ + table_name(service_name)
        + " (
            aggregate_id    UUID NOT NULL,
            event_id        BIGINT NOT NULL,
            created_date    TIMESTAMPTZ NOT NULL,
            metadata        JSONB,
            payload         JSONB,
            PRIMARY KEY (aggregate_id, event_id)
          )"@
}

/// Inserts one event; its five columns are the five parameters, in order.
pub open spec fn insert_event_text(service_name: Seq<char>) -> Seq<char> {
    "INSERT INTO "@ + table_name(service_name)
        + " (aggregate_id, event_id, created_date, metadata, payload)VALUES ($1, $2, $3, $4, $5)"@
}

/// Selects the events of the aggregate given as the one parameter, lowest
/// `event_id` first.
pub open spec fn select_events_text(service_name: Seq<char>) -> Seq<char> {
    "SELECT event_id, created_date, metadata, payload FROM "@ + table_name(service_name)
        + " WHERE aggregate_id = $1 ORDER BY event_id ASC;"@
}

/// Selects every aggregate that has at least one event, each once.
pub open spec fn select_aggregate_ids_text(service_name: Seq<char>) -> Seq<char> {
    "SELECT DISTINCT aggregate_id FROM "@ + table_name(service_name)
}

/// Counts the aggregates that have at least one event.
pub open spec fn count_aggregates_text(service_name: Seq<char>) -> Seq<char> {
    "SELECT COUNT(DISTINCT aggregate_id) FROM "@ + table_name(service_name)
}

/// Counts the events of the aggregate given as the one parameter.
pub open spec fn count_events_for_aggregate_text(service_name: Seq<char>) -> Seq<char> {
    "SELECT COUNT(*) FROM "@ + table_name(service_name) + " WHERE aggregate_id = $1"@
}

/// Counts the events of the service.
pub open spec fn count_events_text(service_name: Seq<char>) -> Seq<char> {
    "SELECT COUNT(*) FROM "@ + table_name(service_name)
}

/// `head`, the table of `service_name`, then `tail`.
fn around_table(head: &str, service_name: &str, tail: &str) -> (text: String)
    ensures
        text@ == head@ + table_name(service_name@) + tail@,
{
    let mut text = String::from_str(head);
    text.append(service_name);
    text.append("_event_store");
    text.append(tail);
    assert(text@ =~= head@ + table_name(service_name@) + tail@);
    text
}

/// The statement that provisions the table of `service_name`.
pub fn create_table(service_name: &str) -> (text: String)
    ensures
        text@ == create_table_text(service_name@),
{
    around_table(
        "CREATE TABLE IF NOT EXISTS ",
        service_name,
        " (
            aggregate_id    UUID NOT NULL,
            event_id        BIGINT NOT NULL,
            created_date    TIMESTAMPTZ NOT NULL,
            metadata        JSONB,
            payload         JSONB,
            PRIMARY KEY (aggregate_id, event_id)
          )",
    )
}

/// The statement that inserts one event into the table of `service_name`.
pub fn insert_event(service_name: &str) -> (text: String)
    ensures
        text@ == insert_event_text(service_name@),
{
    around_table(
        "INSERT INTO ",
        service_name,
        " (aggregate_id, event_id, created_date, metadata, payload)VALUES ($1, $2, $3, $4, $5)",
    )
}

/// The statement that reads the history of one aggregate of `service_name`.
pub fn select_events(service_name: &str) -> (text: String)
    ensures
        text@ == select_events_text(service_name@),
{
    around_table(
        "SELECT event_id, created_date, metadata, payload FROM ",
        service_name,
        " WHERE aggregate_id = $1 ORDER BY event_id ASC;",
    )
}

/// The statement that lists the aggregates of `service_name`.
pub fn select_aggregate_ids(service_name: &str) -> (text: String)
    ensures
        text@ == select_aggregate_ids_text(service_name@),
{
    let text = around_table("SELECT DISTINCT aggregate_id FROM ", service_name, "");
    proof {
        reveal_strlit("");
        assert(text@ =~= select_aggregate_ids_text(service_name@));
    }
    text
}

/// The statement that counts the aggregates of `service_name`.
pub fn count_aggregates(service_name: &str) -> (text: String)
    ensures
        text@ == count_aggregates_text(service_name@),
{
    let text = around_table("SELECT COUNT(DISTINCT aggregate_id) FROM ", service_name, "");
    proof {
        reveal_strlit("");
        assert(text@ =~= count_aggregates_text(service_name@));
    }
    text
}

/// The statement that counts the events of one aggregate of `service_name`.
pub fn count_events_for_aggregate(service_name: &str) -> (text: String)
    ensures
        text@ == count_events_for_aggregate_text(service_name@),
{
    around_table("SELECT COUNT(*) FROM ", service_name, " WHERE aggregate_id = $1")
}

/// The statement that counts the events of `service_name`.
pub fn count_events(service_name: &str) -> (text: String)
    ensures
        text@ == count_events_text(service_name@),
{
    let text = around_table("SELECT COUNT(*) FROM ", service_name, "");
    proof {
        reveal_strlit("");
        assert(text@ =~= count_events_text(service_name@));
    }
    text
}

} // verus!
