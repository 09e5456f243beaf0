//! The failures a store reports, and how the failures of the database client
//! and of the JSON codec are turned into them.

use vstd::prelude::*;

verus! {

/// The SQLSTATE with which a relational engine reports a broken uniqueness
/// constraint.
pub const UNIQUE_VIOLATION: &'static str = "23505";

/// The text with which the store in memory reports a taken key.
pub const DUPLICATE_KEY: &'static str = "duplicate key value violates unique constraint";

/// The text of the error for an `event_id` column that holds no `event_id`.
pub const EVENT_ID_OUT_OF_RANGE: &'static str = "event_id is out of range";

/// The text of the error for a count column that holds a negative number.
pub const COUNT_OUT_OF_RANGE: &'static str = "count is out of range";

/// The text of the error for an instant of creation that the calendar of the
/// engine cannot hold.
pub const CREATED_DATE_OUT_OF_RANGE: &'static str = "created_date is out of range";

/// `tokio_postgres::Error`, the failure of the database client. Its inside
/// is not visible to the proofs.
#[verifier::external_type_specification]
#[verifier::external_body]
pub struct ExClientError(tokio_postgres::Error);

/// `serde_json::Error`, the failure of the JSON codec. Its inside is not
/// visible to the proofs.
#[verifier::external_type_specification]
#[verifier::external_body]
pub struct ExJsonError(serde_json::Error);

/// What the backing engine said when a step failed: the SQLSTATE, where the
/// engine itself raised the failure, and the text of the failure.
#[derive(Clone, Debug, PartialEq, Eq)]
pub struct BackendError {
    pub sql_state: Option<String>,
    pub message: String,
}

/// A recoverable failure of a store operation.
#[derive(Clone, Debug, PartialEq, Eq)]
pub enum StoreError {
    /// The connection could not be opened or used.
    ClientError(BackendError),
    /// The storage structure of a service could not be provisioned.
    CreateTableError(BackendError),
    /// The event at index `position` of the batch carries an
    /// `(aggregate_id, event_id)` that is already taken. `failure` is what
    /// the engine said when it refused the event.
    ConstraintViolation { position: usize, failure: BackendError },
    /// A stored payload or metadata value does not decode into the shape the
    /// application expects.
    SerializationError(String),
}

/// `tokio_postgres::Error::code`, then `SqlState::code`: the five-character
/// SQLSTATE of a failure that the server raised, and `None` for every other
/// failure. Nothing is claimed of the text.
#[verifier::external_body]
fn client_sql_state(error: &tokio_postgres::Error) -> (state: Option<String>) {
    match error.code() {
        Some(state) => Some(state.code().to_string()),
        None => None,
    }
}

/// The `Display` text of a `tokio_postgres::Error`. Nothing is claimed of it.
#[verifier::external_body]
fn client_message(error: &tokio_postgres::Error) -> (message: String) {
    error.to_string()
}

/// The `Display` text of a `serde_json::Error`. Nothing is claimed of it.
#[verifier::external_body]
fn json_message(error: &serde_json::Error) -> (message: String) {
    error.to_string()
}

impl BackendError {
    /// Whether this failure reports a broken uniqueness constraint.
    pub open spec fn spec_is_unique_violation(&self) -> bool {
        self.sql_state matches Some(state) && state@ == UNIQUE_VIOLATION@
    }

    /// Whether this failure reports a broken uniqueness constraint: its
    /// SQLSTATE is present and reads `23505`.
    #[verifier::when_used_as_spec(spec_is_unique_violation)]
    pub fn is_unique_violation(&self) -> (yes: bool)
        ensures
            yes == self.spec_is_unique_violation(),
    {
        match &self.sql_state {
            Some(state) => {
                let expected = String::from_str(UNIQUE_VIOLATION);
                *state == expected
            },
            None => false,
        }
    }

    /// Whether this failure is the one with which the store in memory
    /// reports a taken key.
    pub open spec fn is_duplicate_key_report(&self) -> bool {
        &&& self.sql_state matches Some(state) && state@ == UNIQUE_VIOLATION@
        &&& self.message@ == DUPLICATE_KEY@
    }

    /// The failure with which the store in memory reports a taken key: a
    /// unique violation, as a relational engine reports it.
    pub fn duplicate_key() -> (failure: Self)
        ensures
            failure.is_duplicate_key_report(),
            failure.spec_is_unique_violation(),
    {
        BackendError {
            sql_state: Some(String::from_str(UNIQUE_VIOLATION)),
            message: String::from_str(DUPLICATE_KEY),
        }
    }

    /// Reads the SQLSTATE and the text out of a failure of the database
    /// client. Both come from the client as they are.
    pub fn from_client(error: &tokio_postgres::Error) -> (failure: Self) {
        BackendError { sql_state: client_sql_state(error), message: client_message(error) }
    }
}

impl StoreError {
    /// The failure of the database client as a store error: whatever the
    /// client reports while a statement is prepared or run is a client
    /// error.
    pub fn from_client(error: &tokio_postgres::Error) -> (failure: Self)
        ensures
            failure is ClientError,
    {
        StoreError::ClientError(BackendError::from_client(error))
    }

    /// The failure of the JSON codec as a store error.
    pub fn from_json(error: &serde_json::Error) -> (failure: Self)
        ensures
            failure is SerializationError,
    {
        StoreError::SerializationError(json_message(error))
    }
}

} // verus!
