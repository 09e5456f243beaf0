use eventific::error::{BackendError, StoreError};
use eventific::event::SaveEventsResult;
use eventific::notification::{poll, should_publish, Notification, Publication, SenderStep};
use tokio::sync::broadcast;
use uuid::Uuid;

const AGGREGATE: u128 = 0x0011_2233_4455_6677_8899_aabb_ccdd_eeff;

fn publish(publisher: &broadcast::Sender<Uuid>, saved: &Result<SaveEventsResult, StoreError>, id: u128) -> Publication {
    let sent = if should_publish(saved) { publisher.send(Uuid::from_u128(id)).ok() } else { None };
    Publication::of(saved, sent)
}

#[test]
fn two_subscribers_both_see_the_aggregate_exactly_once() {
    let (publisher, mut first) = broadcast::channel::<Uuid>(16);
    let mut second = publisher.subscribe();
    let published = publish(&publisher, &Ok(SaveEventsResult::Success), AGGREGATE);
    assert_eq!(published, Publication::Delivered(2));

    assert_eq!(poll(&mut first), (Notification::Appended(AGGREGATE), SenderStep::Refresh(AGGREGATE)));
    assert_eq!(poll(&mut first), (Notification::Empty, SenderStep::Wait));
    assert_eq!(poll(&mut second), (Notification::Appended(AGGREGATE), SenderStep::Refresh(AGGREGATE)));
    assert_eq!(poll(&mut second), (Notification::Empty, SenderStep::Wait));
}

#[test]
fn a_subscriber_that_never_reads_does_not_hold_up_the_writer() {
    let (publisher, mut idle) = broadcast::channel::<Uuid>(2);
    let mut busy = publisher.subscribe();
    for id in 1..=5u128 {
        assert_eq!(publish(&publisher, &Ok(SaveEventsResult::Success), id), Publication::Delivered(2));
        assert_eq!(poll(&mut busy), (Notification::Appended(id), SenderStep::Refresh(id)));
    }
    assert_eq!(poll(&mut idle), (Notification::Lagged(3), SenderStep::Resynchronize));
    assert_eq!(poll(&mut idle), (Notification::Appended(4), SenderStep::Refresh(4)));
    assert_eq!(poll(&mut idle), (Notification::Appended(5), SenderStep::Refresh(5)));
    assert_eq!(poll(&mut idle), (Notification::Empty, SenderStep::Wait));
}

#[test]
fn an_empty_append_publishes_nothing() {
    let (publisher, mut subscription) = broadcast::channel::<Uuid>(4);
    let saved = Ok(SaveEventsResult::AlreadyExists);
    assert!(!should_publish(&saved));
    assert_eq!(publish(&publisher, &saved, AGGREGATE), Publication::Skipped);
    assert_eq!(poll(&mut subscription), (Notification::Empty, SenderStep::Wait));
}

#[test]
fn a_failed_append_publishes_nothing() {
    let (publisher, mut subscription) = broadcast::channel::<Uuid>(4);
    let failures = vec![
        StoreError::ConstraintViolation { position: 0, failure: BackendError::duplicate_key() },
        StoreError::ClientError(BackendError { sql_state: None, message: "closed".to_string() }),
        StoreError::SerializationError("bad".to_string()),
    ];
    for failure in failures {
        let saved = Err(failure);
        assert!(!should_publish(&saved));
        assert_eq!(publish(&publisher, &saved, AGGREGATE), Publication::Skipped);
    }
    assert_eq!(poll(&mut subscription), (Notification::Empty, SenderStep::Wait));
}

#[test]
fn a_successful_append_is_published() {
    assert!(should_publish(&Ok(SaveEventsResult::Success)));
    assert_eq!(Publication::of(&Ok(SaveEventsResult::Success), Some(3)), Publication::Delivered(3));
}

#[test]
fn a_notification_without_subscribers_is_unheard() {
    let (publisher, subscription) = broadcast::channel::<Uuid>(4);
    drop(subscription);
    assert_eq!(publish(&publisher, &Ok(SaveEventsResult::Success), AGGREGATE), Publication::Unheard);
    assert_eq!(Publication::of(&Ok(SaveEventsResult::AlreadyExists), Some(3)), Publication::Skipped);
}

#[test]
fn a_subscriber_stops_once_the_publisher_is_gone() {
    let (publisher, mut subscription) = broadcast::channel::<Uuid>(4);
    publish(&publisher, &Ok(SaveEventsResult::Success), AGGREGATE);
    drop(publisher);
    assert_eq!(poll(&mut subscription), (Notification::Appended(AGGREGATE), SenderStep::Refresh(AGGREGATE)));
    assert_eq!(poll(&mut subscription), (Notification::Closed, SenderStep::Stop));
}

#[test]
fn a_subscription_sees_only_what_is_published_after_it() {
    let (publisher, _first) = broadcast::channel::<Uuid>(4);
    publish(&publisher, &Ok(SaveEventsResult::Success), 1);
    let mut late = publisher.subscribe();
    publish(&publisher, &Ok(SaveEventsResult::Success), 2);
    assert_eq!(poll(&mut late), (Notification::Appended(2), SenderStep::Refresh(2)));
}

#[test]
fn every_notification_has_its_step() {
    assert_eq!(SenderStep::after(Notification::Appended(9)), SenderStep::Refresh(9));
    assert_eq!(SenderStep::after(Notification::Lagged(1)), SenderStep::Resynchronize);
    assert_eq!(SenderStep::after(Notification::Empty), SenderStep::Wait);
    assert_eq!(SenderStep::after(Notification::Closed), SenderStep::Stop);
}
