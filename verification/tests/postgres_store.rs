use eventific::append::{AppendCommand, AppendStage};
use eventific::error::{BackendError, StoreError};
use eventific::event::{SaveEventsResult, StoreContext};
use eventific::postgres::{InitCommand, InitStage, PostgresStore};

const TARGET: &str = "host=localhost user=postgres";

fn refused() -> BackendError {
    BackendError { sql_state: None, message: "error connecting to server".to_string() }
}

fn connected() -> PostgresStore<String, String> {
    let mut store = PostgresStore::new(TARGET);
    let (mut plan, _) = store.init(StoreContext::new("shop"));
    plan.advance(&mut store, Ok(()));
    store
}

#[test]
fn a_new_store_knows_its_target_and_is_not_initialized() {
    let store: PostgresStore<String, String> = PostgresStore::new(TARGET);
    assert_eq!(store.connection_string(), TARGET);
    assert!(!store.is_initialized());
}

#[test]
fn init_connects_then_creates_the_table() {
    let mut store: PostgresStore<String, String> = PostgresStore::new(TARGET);
    let (mut plan, command) = store.init(StoreContext::new("shop"));
    assert_eq!(command, InitCommand::Connect(TARGET.to_string()));
    assert_eq!(plan.stage(), InitStage::Connecting);

    let command = plan.advance(&mut store, Ok(()));
    assert_eq!(command, InitCommand::CreateTable(PostgresStore::<String, String>::create_table("shop")));
    assert_eq!(plan.stage(), InitStage::CreatingTable);
    assert!(store.is_initialized());

    let command = plan.advance(&mut store, Ok(()));
    assert_eq!(command, InitCommand::Finish(Ok(())));
    assert_eq!(plan.stage(), InitStage::Finished);
    assert!(store.is_initialized());
    assert_eq!(store.connection_string(), TARGET);
}

#[test]
fn a_refused_connection_is_a_client_error_and_leaves_the_store_uninitialized() {
    let mut store: PostgresStore<String, String> = PostgresStore::new(TARGET);
    let (mut plan, _) = store.init(StoreContext::new("shop"));
    let command = plan.advance(&mut store, Err(refused()));
    assert_eq!(command, InitCommand::Finish(Err(StoreError::ClientError(refused()))));
    assert_eq!(plan.stage(), InitStage::Finished);
    assert!(!store.is_initialized());
}

#[test]
fn a_table_that_cannot_be_created_is_a_create_table_error() {
    let mut store: PostgresStore<String, String> = PostgresStore::new(TARGET);
    let (mut plan, _) = store.init(StoreContext::new("shop"));
    plan.advance(&mut store, Ok(()));
    let denied = BackendError { sql_state: Some("42501".to_string()), message: "permission denied".to_string() };
    let command = plan.advance(&mut store, Err(denied.clone()));
    assert_eq!(command, InitCommand::Finish(Err(StoreError::CreateTableError(denied))));
    assert!(store.is_initialized());
}

#[test]
fn the_create_table_statement_of_the_store_is_the_one_of_the_service() {
    assert_eq!(
        PostgresStore::<u8, u8>::create_table("billing"),
        eventific::statement::create_table("billing")
    );
}

#[test]
fn save_events_of_nothing_sends_nothing() {
    let store = connected();
    let (plan, command) = store.save_events(StoreContext::new("shop"), 0);
    assert_eq!(command, AppendCommand::Finish(Ok(SaveEventsResult::AlreadyExists)));
    assert_eq!(plan.stage(), AppendStage::Finished);
}

#[test]
fn save_events_starts_by_opening_a_transaction() {
    let store = connected();
    let (mut plan, command) = store.save_events(StoreContext::new("shop"), 4);
    assert_eq!(command, AppendCommand::Begin);
    assert_eq!(
        plan.advance(eventific::append::Outcome::Completed),
        AppendCommand::Prepare(eventific::statement::insert_event("shop"))
    );
}

#[test]
fn every_read_has_its_statement() {
    let store = connected();
    assert_eq!(store.events(StoreContext::new("shop")), eventific::statement::select_events("shop"));
    assert_eq!(
        store.aggregate_ids(StoreContext::new("shop")),
        "SELECT DISTINCT aggregate_id FROM shop_event_store"
    );
    assert_eq!(
        store.total_aggregates(StoreContext::new("shop")),
        "SELECT COUNT(DISTINCT aggregate_id) FROM shop_event_store"
    );
    assert_eq!(
        store.total_events_for_aggregate(StoreContext::new("shop")),
        "SELECT COUNT(*) FROM shop_event_store WHERE aggregate_id = $1"
    );
    assert_eq!(store.total_events(StoreContext::new("shop")), "SELECT COUNT(*) FROM shop_event_store");
}

#[test]
fn a_clone_is_a_handle_on_the_same_store() {
    let fresh: PostgresStore<String, String> = PostgresStore::new(TARGET);
    let copy = fresh.clone();
    assert_eq!(copy.connection_string(), TARGET);
    assert!(!copy.is_initialized());
    let copy = connected().clone();
    assert_eq!(copy.connection_string(), TARGET);
    assert!(copy.is_initialized());
}

#[test]
fn a_store_shows_its_target_when_printed() {
    let store: PostgresStore<String, String> = PostgresStore::new(TARGET);
    assert!(format!("{:?}", store).contains(TARGET));
}
