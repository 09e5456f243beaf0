use eventific::statement;

#[test]
fn create_table_provisions_the_table_of_the_service() {
    let expected = "CREATE TABLE IF NOT EXISTS shop_event_store (
            aggregate_id    UUID NOT NULL,
            event_id        BIGINT NOT NULL,
            created_date    TIMESTAMPTZ NOT NULL,
            metadata        JSONB,
            payload         JSONB,
            PRIMARY KEY (aggregate_id, event_id)
          )";
    assert_eq!(statement::create_table("shop"), expected);
}

#[test]
fn insert_event_has_five_parameters() {
    assert_eq!(
        statement::insert_event("shop"),
        "INSERT INTO shop_event_store (aggregate_id, event_id, created_date, metadata, payload)VALUES ($1, $2, $3, $4, $5)"
    );
}

#[test]
fn select_events_orders_by_event_id() {
    assert_eq!(
        statement::select_events("shop"),
        "SELECT event_id, created_date, metadata, payload FROM shop_event_store WHERE aggregate_id = $1 ORDER BY event_id ASC;"
    );
}

#[test]
fn select_aggregate_ids_is_distinct() {
    assert_eq!(statement::select_aggregate_ids("shop"), "SELECT DISTINCT aggregate_id FROM shop_event_store");
}

#[test]
fn counting_statements_name_the_table_of_the_service() {
    assert_eq!(statement::count_aggregates("shop"), "SELECT COUNT(DISTINCT aggregate_id) FROM shop_event_store");
    assert_eq!(
        statement::count_events_for_aggregate("shop"),
        "SELECT COUNT(*) FROM shop_event_store WHERE aggregate_id = $1"
    );
    assert_eq!(statement::count_events("shop"), "SELECT COUNT(*) FROM shop_event_store");
}

#[test]
fn an_empty_service_name_leaves_the_bare_suffix() {
    assert_eq!(statement::count_events(""), "SELECT COUNT(*) FROM _event_store");
}
