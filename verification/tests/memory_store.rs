use eventific::error::{BackendError, StoreError};
use eventific::event::{Event, SaveEventsResult, StoreContext, Timestamp};
use eventific::memory::MemoryStore;

const X: u128 = 0x0123_4567_89ab_cdef_0123_4567_89ab_cdef;
const Y: u128 = 7;

fn context() -> StoreContext {
    StoreContext::new("orders")
}

fn event(aggregate_id: u128, event_id: u32, payload: &str) -> Event<String, String> {
    Event {
        aggregate_id,
        event_id,
        created_date: Timestamp { seconds: 1_600_000_000 + event_id as i64, nanoseconds: 42 },
        metadata: if event_id % 2 == 0 { Some(format!("meta-{event_id}")) } else { None },
        payload: payload.to_string(),
    }
}

fn taken(position: usize) -> StoreError {
    StoreError::ConstraintViolation {
        position,
        failure: BackendError {
            sql_state: Some("23505".to_string()),
            message: "duplicate key value violates unique constraint".to_string(),
        },
    }
}

fn ready() -> MemoryStore<String, String> {
    let mut store = MemoryStore::new();
    assert_eq!(store.init(context()), Ok(()));
    store
}

fn ids(history: &[&Event<String, String>]) -> Vec<u32> {
    history.iter().map(|event| event.event_id).collect()
}

#[test]
fn events_come_back_in_the_order_of_their_ids_across_batches() {
    let mut store = ready();
    let first = vec![event(X, 1, "opened"), event(X, 2, "paid")];
    let second = vec![event(X, 3, "packed"), event(X, 4, "shipped"), event(X, 5, "closed")];
    assert_eq!(store.save_events(context(), first), Ok(SaveEventsResult::Success));
    assert_eq!(store.save_events(context(), second), Ok(SaveEventsResult::Success));

    let history = store.events(context(), X);
    assert_eq!(ids(&history), vec![1, 2, 3, 4, 5]);
    assert_eq!(*history[0], event(X, 1, "opened"));
    assert_eq!(*history[1], event(X, 2, "paid"));
    assert_eq!(*history[2], event(X, 3, "packed"));
    assert_eq!(*history[3], event(X, 4, "shipped"));
    assert_eq!(*history[4], event(X, 5, "closed"));
    assert_eq!(history[1].metadata, Some("meta-2".to_string()));
    assert_eq!(history[0].metadata, None);
}

#[test]
fn events_are_sorted_even_when_appended_out_of_order() {
    let mut store = ready();
    let batch = vec![event(X, 3, "c"), event(Y, 9, "other"), event(X, 1, "a"), event(X, 2, "b")];
    assert_eq!(store.save_events(context(), batch), Ok(SaveEventsResult::Success));
    let history = store.events(context(), X);
    assert_eq!(ids(&history), vec![1, 2, 3]);
    assert_eq!(history[0].payload, "a");
    assert_eq!(history[2].payload, "c");
}

#[test]
fn history_of_an_unknown_aggregate_is_empty() {
    let store = ready();
    assert!(store.events(context(), X).is_empty());
    assert_eq!(store.next_event(&context(), X, None), None);
}

#[test]
fn a_batch_that_fails_on_its_last_event_leaves_nothing_behind() {
    let mut store = ready();
    assert_eq!(
        store.save_events(context(), vec![event(X, 1, "a"), event(X, 2, "b")]),
        Ok(SaveEventsResult::Success)
    );
    let failing = vec![event(X, 3, "c"), event(Y, 1, "y"), event(X, 4, "d"), event(X, 2, "again")];
    assert_eq!(
        store.save_events(context(), failing),
        Err(taken(3))
    );
    assert_eq!(ids(&store.events(context(), X)), vec![1, 2]);
    assert!(store.events(context(), Y).is_empty());
    assert_eq!(store.total_events(context()), 2);
    assert_eq!(store.total_aggregates(context()), 1);
    assert_eq!(store.total_events_for_aggregate(context(), X), 2);
    assert_eq!(store.total_events_for_aggregate(context(), Y), 0);
}

#[test]
fn an_empty_batch_already_exists_and_changes_no_count() {
    let mut store = ready();
    assert_eq!(store.save_events(context(), Vec::new()), Ok(SaveEventsResult::AlreadyExists));
    assert_eq!(store.total_events(context()), 0);
    assert_eq!(store.total_aggregates(context()), 0);

    assert_eq!(store.save_events(context(), vec![event(X, 1, "a")]), Ok(SaveEventsResult::Success));
    assert_eq!(store.save_events(context(), Vec::new()), Ok(SaveEventsResult::AlreadyExists));
    assert_eq!(store.total_events(context()), 1);
    assert_eq!(store.total_aggregates(context()), 1);
    assert_eq!(store.total_events_for_aggregate(context(), X), 1);
    assert_eq!(ids(&store.events(context(), X)), vec![1]);
}

#[test]
fn a_persisted_event_id_is_rejected_and_the_first_version_stays() {
    let mut store = ready();
    assert_eq!(store.save_events(context(), vec![event(X, 1, "first")]), Ok(SaveEventsResult::Success));
    assert_eq!(
        store.save_events(context(), vec![event(X, 1, "second")]),
        Err(taken(0))
    );
    let history = store.events(context(), X);
    assert_eq!(history.len(), 1);
    assert_eq!(history[0].payload, "first");
    assert_eq!(store.total_events(context()), 1);
}

#[test]
fn an_event_id_used_twice_inside_one_batch_is_rejected() {
    let mut store = ready();
    let batch = vec![event(X, 1, "a"), event(X, 2, "b"), event(X, 2, "c"), event(X, 1, "d")];
    assert_eq!(store.save_events(context(), batch), Err(taken(2)));
    assert_eq!(store.total_events(context()), 0);
}

#[test]
fn the_same_event_id_in_two_aggregates_is_no_conflict() {
    let mut store = ready();
    let batch = vec![event(X, 1, "x"), event(Y, 1, "y")];
    assert_eq!(store.save_events(context(), batch), Ok(SaveEventsResult::Success));
    assert_eq!(store.events(context(), X)[0].payload, "x");
    assert_eq!(store.events(context(), Y)[0].payload, "y");
}

#[test]
fn a_write_to_one_aggregate_leaves_the_history_of_another_alone() {
    let mut store = ready();
    assert_eq!(
        store.save_events(context(), vec![event(Y, 1, "y1"), event(Y, 2, "y2")]),
        Ok(SaveEventsResult::Success)
    );
    let before: Vec<Event<String, String>> =
        store.events(context(), Y).into_iter().cloned().collect();
    assert_eq!(
        store.save_events(context(), vec![event(X, 1, "x1"), event(X, 2, "x2"), event(X, 3, "x3")]),
        Ok(SaveEventsResult::Success)
    );
    let after: Vec<Event<String, String>> =
        store.events(context(), Y).into_iter().cloned().collect();
    assert_eq!(before, after);
    assert_eq!(after, vec![event(Y, 1, "y1"), event(Y, 2, "y2")]);
}

#[test]
fn counts_after_three_events_for_one_aggregate_and_two_for_another() {
    let mut store = ready();
    assert_eq!(
        store.save_events(context(), vec![event(X, 1, "a"), event(X, 2, "b"), event(X, 3, "c")]),
        Ok(SaveEventsResult::Success)
    );
    assert_eq!(
        store.save_events(context(), vec![event(Y, 1, "d"), event(Y, 2, "e")]),
        Ok(SaveEventsResult::Success)
    );
    assert_eq!(store.total_events(context()), 5);
    assert_eq!(store.total_aggregates(context()), 2);
    assert_eq!(store.total_events_for_aggregate(context(), X), 3);
    assert_eq!(store.total_events_for_aggregate(context(), Y), 2);
}

#[test]
fn counts_of_an_empty_table_are_zero() {
    let store = ready();
    assert_eq!(store.total_events(context()), 0);
    assert_eq!(store.total_aggregates(context()), 0);
    assert_eq!(store.total_events_for_aggregate(context(), X), 0);
    assert!(store.aggregate_ids(context()).is_empty());
}

#[test]
fn aggregate_ids_lists_every_aggregate_once() {
    let mut store = ready();
    let batch = vec![event(X, 1, "a"), event(Y, 1, "b"), event(X, 2, "c"), event(3, 1, "d"), event(Y, 2, "e")];
    assert_eq!(store.save_events(context(), batch), Ok(SaveEventsResult::Success));
    let mut listed = store.aggregate_ids(context());
    listed.sort();
    assert_eq!(listed, vec![3, Y, X]);
}

#[test]
fn next_event_walks_the_history_one_event_at_a_time() {
    let mut store = ready();
    let batch = vec![event(X, 5, "five"), event(Y, 3, "other"), event(X, 2, "two"), event(X, 9, "nine")];
    assert_eq!(store.save_events(context(), batch), Ok(SaveEventsResult::Success));
    let first = store.next_event(&context(), X, None).map(|event| event.event_id);
    assert_eq!(first, Some(2));
    assert_eq!(store.next_event(&context(), X, Some(2)).map(|event| event.event_id), Some(5));
    assert_eq!(store.next_event(&context(), X, Some(3)).map(|event| event.event_id), Some(5));
    assert_eq!(store.next_event(&context(), X, Some(5)).map(|event| event.event_id), Some(9));
    assert_eq!(store.next_event(&context(), X, Some(9)), None);
    assert_eq!(store.next_event(&context(), X, Some(u32::MAX)), None);
}

#[test]
fn a_reader_sees_events_appended_after_it_started() {
    let mut store = ready();
    assert_eq!(store.save_events(context(), vec![event(X, 1, "a")]), Ok(SaveEventsResult::Success));
    let seen = store.next_event(&context(), X, None).map(|event| event.event_id);
    assert_eq!(seen, Some(1));
    assert_eq!(store.save_events(context(), vec![event(X, 2, "b")]), Ok(SaveEventsResult::Success));
    assert_eq!(store.next_event(&context(), X, seen).map(|event| event.event_id), Some(2));
}

#[test]
fn init_is_idempotent_and_keeps_the_rows() {
    let mut store = ready();
    assert_eq!(store.save_events(context(), vec![event(X, 1, "a")]), Ok(SaveEventsResult::Success));
    assert_eq!(store.init(context()), Ok(()));
    assert_eq!(store.total_events(context()), 1);
    assert_eq!(ids(&store.events(context(), X)), vec![1]);
}

#[test]
fn services_do_not_see_each_other() {
    let mut store = ready();
    let billing = StoreContext::new("billing");
    assert_eq!(store.init(billing.clone()), Ok(()));
    assert_eq!(store.save_events(context(), vec![event(X, 1, "order")]), Ok(SaveEventsResult::Success));
    assert_eq!(
        store.save_events(billing.clone(), vec![event(X, 1, "invoice"), event(X, 2, "receipt")]),
        Ok(SaveEventsResult::Success)
    );
    assert_eq!(store.total_events(context()), 1);
    assert_eq!(store.total_events(billing.clone()), 2);
    assert_eq!(store.events(context(), X)[0].payload, "order");
    assert_eq!(store.events(billing, X)[0].payload, "invoice");
}

#[test]
fn the_largest_event_id_is_stored_and_read() {
    let mut store = ready();
    let batch = vec![event(X, u32::MAX, "last"), event(X, 0, "zeroth")];
    assert_eq!(store.save_events(context(), batch), Ok(SaveEventsResult::Success));
    assert_eq!(ids(&store.events(context(), X)), vec![0, u32::MAX]);
}

#[test]
fn a_service_is_provisioned_once_it_was_initialized() {
    let mut store: MemoryStore<String, String> = MemoryStore::new();
    assert!(!store.is_provisioned(&context()));
    assert_eq!(store.init(context()), Ok(()));
    assert!(store.is_provisioned(&context()));
    assert!(!store.is_provisioned(&StoreContext::new("billing")));
}

#[test]
fn event_ids_beyond_the_signed_range_are_read_after_the_small_ones() {
    let mut store = ready();
    assert_eq!(store.save_events(context(), vec![event(X, 1, "one")]), Ok(SaveEventsResult::Success));
    assert_eq!(
        store.save_events(context(), vec![event(X, 2_147_483_648, "big")]),
        Ok(SaveEventsResult::Success)
    );
    let history = store.events(context(), X);
    assert_eq!(ids(&history), vec![1, 2_147_483_648]);
    assert_eq!(history[0].payload, "one");
    assert_eq!(history[1].payload, "big");
}

#[test]
fn the_report_of_a_taken_key_is_a_unique_violation() {
    let mut store = ready();
    assert_eq!(store.save_events(context(), vec![event(X, 1, "a")]), Ok(SaveEventsResult::Success));
    match store.save_events(context(), vec![event(X, 1, "b")]) {
        Err(StoreError::ConstraintViolation { position, failure }) => {
            assert_eq!(position, 0);
            assert!(failure.is_unique_violation());
            assert_eq!(failure, BackendError::duplicate_key());
        }
        other => panic!("expected a constraint violation, got {:?}", other),
    }
}
