//! The data that every other part of the library operates on.

use vstd::prelude::*;

verus! {

/// An instant on the UTC time line: whole seconds since the Unix epoch and
/// the nanoseconds that follow them.
///
/// The store carries the value through untouched and never orders by it.
#[derive(Clone, Copy, Debug, PartialEq, Eq)]
pub struct Timestamp {
    pub seconds: i64,
    pub nanoseconds: u32,
}

/// One immutable fact in the history of an aggregate.
///
/// `event_id` is chosen by the caller: within one `aggregate_id` it is unique
/// and grows by append order, starting at 1.
#[derive(Clone, Debug, PartialEq, Eq)]
pub struct Event<D, M> {
    pub aggregate_id: u128,
    pub event_id: u32,
    pub created_date: Timestamp,
    pub metadata: Option<M>,
    pub payload: D,
}

/// The namespace that scopes every storage operation to one application.
#[derive(Clone, Debug, PartialEq, Eq)]
pub struct StoreContext {
    pub service_name: String,
}

/// What an append reports when it did not fail.
#[derive(Clone, Copy, Debug, PartialEq, Eq, Structural)]
pub enum SaveEventsResult {
    /// The batch is durable and visible.
    Success,
    /// The batch was empty; nothing was written.
    AlreadyExists,
}

/// The key under which a row is unique: the aggregate and the position in
/// its history.
pub type EventKey = (u128, u32);

impl<D, M> Event<D, M> {
    /// The uniqueness key of this event.
    pub open spec fn key(self) -> EventKey {
        (self.aggregate_id, self.event_id)
    }
}

impl StoreContext {
    /// A context for the service called `service_name`.
    pub fn new(service_name: &str) -> (context: Self)
        ensures
            context.service_name@ == service_name@,
    {
        StoreContext { service_name: String::from_str(service_name) }
    }
}

} // verus!
