//! Telling listeners that an aggregate has new events.
//!
//! The writer publishes the identifier of an aggregate on a broadcast channel
//! after every append that wrote something. Every subscriber sees every
//! identifier, unless it falls so far behind that the channel has overwritten
//! what it had not read yet: the channel never makes the writer wait. A
//! notification is therefore a hint to look at the store again, not a record
//! of what was appended.

use vstd::prelude::*;
use crate::error::StoreError;
use crate::event::SaveEventsResult;

verus! {

/// `uuid::Uuid`, the identifier as it travels on the channel. Its inside is
/// not visible to the proofs.
#[verifier::external_type_specification]
#[verifier::external_body]
pub struct ExUuid(uuid::Uuid);

/// `tokio::sync::broadcast::Receiver`, one subscriber's end of the channel.
/// Its inside is not visible to the proofs.
#[verifier::external_type_specification]
#[verifier::external_body]
#[verifier::reject_recursive_types(T)]
pub struct ExSubscription<T>(tokio::sync::broadcast::Receiver<T>);

/// What a subscriber finds when it looks at its subscription.
#[derive(Clone, Copy, Debug, PartialEq, Eq)]
pub enum Notification {
    /// This aggregate has new events.
    Appended(u128),
    /// Nothing is waiting; the publisher is still there.
    Empty,
    /// The subscriber fell behind, and this many notifications were
    /// overwritten before it read them. The next look resumes at the oldest
    /// notification that is left.
    Lagged(u64),
    /// Nothing is waiting, and the publisher is gone.
    Closed,
}

/// What a subscriber does about a notification.
#[derive(Clone, Copy, Debug, PartialEq, Eq)]
pub enum SenderStep {
    /// Bring what was derived from this aggregate up to date.
    Refresh(u128),
    /// Notifications were lost: derive the state anew from the store.
    Resynchronize,
    /// Wait for the next notification.
    Wait,
    /// Leave the loop; no notification will come any more.
    Stop,
}

/// What became of the notification for one append.
#[derive(Clone, Copy, Debug, PartialEq, Eq)]
pub enum Publication {
    /// The append wrote nothing, so nothing was published.
    Skipped,
    /// The identifier went out once, to this many subscribers.
    Delivered(usize),
    /// The identifier was due, but nobody is subscribed.
    Unheard,
}

/// `tokio::sync::broadcast::Receiver::try_recv`, with the identifier read
/// through `Uuid::as_u128`. The call never waits. It reports a lag only when
/// at least one notification was lost. Which of the four answers comes
/// depends on what other holders of the channel have done.
#[verifier::external_body]
fn try_receive(subscription: &mut tokio::sync::broadcast::Receiver<uuid::Uuid>) -> (found:
    Notification)
    ensures
        found matches Notification::Lagged(skipped) ==> skipped > 0,
{
    match subscription.try_recv() {
        Ok(id) => Notification::Appended(id.as_u128()),
        Err(tokio::sync::broadcast::error::TryRecvError::Empty) => Notification::Empty,
        Err(tokio::sync::broadcast::error::TryRecvError::Lagged(skipped)) => Notification::Lagged(
            skipped,
        ),
        Err(tokio::sync::broadcast::error::TryRecvError::Closed) => Notification::Closed,
    }
}

/// Whether an append with this result is followed by a notification: only one
/// that wrote events is.
pub open spec fn is_published(saved: Result<SaveEventsResult, StoreError>) -> bool {
    saved == Ok::<SaveEventsResult, StoreError>(SaveEventsResult::Success)
}

/// What became of the notification, given whether one was due and what the
/// channel said to it.
pub open spec fn publication_of(due: bool, subscribers: Option<usize>) -> Publication {
    if !due {
        Publication::Skipped
    } else {
        match subscribers {
            Some(count) => Publication::Delivered(count),
            None => Publication::Unheard,
        }
    }
}

impl SenderStep {
    /// The step that answers `notification`.
    pub open spec fn spec_after(notification: Notification) -> SenderStep {
        match notification {
            Notification::Appended(aggregate_id) => SenderStep::Refresh(aggregate_id),
            Notification::Lagged(_) => SenderStep::Resynchronize,
            Notification::Empty => SenderStep::Wait,
            Notification::Closed => SenderStep::Stop,
        }
    }

    /// The step that answers `notification`: refresh the aggregate that has
    /// new events, start over from the store after a lag, wait while nothing
    /// is there, and stop once the publisher is gone.
    #[verifier::when_used_as_spec(spec_after)]
    pub fn after(notification: Notification) -> (step: SenderStep)
        ensures
            step == SenderStep::spec_after(notification),
    {
        match notification {
            Notification::Appended(aggregate_id) => SenderStep::Refresh(aggregate_id),
            Notification::Lagged(_) => SenderStep::Resynchronize,
            Notification::Empty => SenderStep::Wait,
            Notification::Closed => SenderStep::Stop,
        }
    }
}

/// Whether an append with this result is followed by a notification: the
/// writer publishes the aggregate once after an append that wrote events,
/// and never after one that was empty or failed.
pub fn should_publish(saved: &Result<SaveEventsResult, StoreError>) -> (due: bool)
    ensures
        due == is_published(*saved),
{
    match saved {
        Ok(SaveEventsResult::Success) => true,
        _ => false,
    }
}

impl Publication {
    /// What became of the notification for the append that ended with
    /// `saved`, where `subscribers` is what the channel said if the
    /// identifier was sent.
    pub fn of(saved: &Result<SaveEventsResult, StoreError>, subscribers: Option<usize>) -> (publication:
        Publication)
        ensures
            publication == publication_of(is_published(*saved), subscribers),
    {
        if should_publish(saved) {
            match subscribers {
                Some(count) => Publication::Delivered(count),
                None => Publication::Unheard,
            }
        } else {
            Publication::Skipped
        }
    }
}

/// Looks at the subscription without waiting and says what to do next.
pub fn poll(subscription: &mut tokio::sync::broadcast::Receiver<uuid::Uuid>) -> (polled: (
    Notification,
    SenderStep,
))
    ensures
        polled.1 == SenderStep::after(polled.0),
        polled.0 matches Notification::Lagged(skipped) ==> skipped > 0,
{
    let found = try_receive(subscription);
    (found, SenderStep::after(found))
}

} // verus!
