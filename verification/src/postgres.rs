//! The relational store, without its connection.
//!
//! A `PostgresStore` knows where its database is and whether the connection
//! has been opened. For every operation it decides what is sent and what the
//! answers mean; sending and waiting is left to the caller, who holds the
//! connection behind a reader/writer lock: exclusive for an append, shared
//! for every read.

use vstd::prelude::*;
use crate::append::AppendCommand;
use crate::append::AppendPlan;
use crate::append::AppendStage;
use crate::error::BackendError;
use crate::error::StoreError;
use crate::event::SaveEventsResult;
use crate::event::StoreContext;
use crate::statement::count_aggregates;
use crate::statement::count_aggregates_text;
use crate::statement::count_events;
use crate::statement::count_events_for_aggregate;
use crate::statement::count_events_for_aggregate_text;
use crate::statement::count_events_text;
use crate::statement::create_table;
use crate::statement::create_table_text;
use crate::statement::select_aggregate_ids;
use crate::statement::select_aggregate_ids_text;
use crate::statement::select_events;
use crate::statement::select_events_text;

verus! {

/// The relational store of events of payload type `D` and metadata type
/// `M`, before and after its connection is opened.
#[derive(Debug)]
pub struct PostgresStore<D, M> {
    connection_string: String,
    connected: bool,
    phantom_event_data: core::marker::PhantomData<D>,
    phantom_meta_data: core::marker::PhantomData<M>,
}

/// The command of an initialization whose answer is outstanding.
#[derive(Clone, Copy, Debug, PartialEq, Eq)]
pub enum InitStage {
    Connecting,
    CreatingTable,
    /// The initialization is over; no command is outstanding.
    Finished,
}

/// What the caller does next to initialize a store.
#[derive(Debug, PartialEq, Eq)]
pub enum InitCommand {
    /// Open the connection described by this connection string, keep it for
    /// the lifetime of the store, and start the task that drives its traffic.
    Connect(String),
    /// Run this statement, which provisions the table of the service.
    CreateTable(String),
    /// Return this result.
    Finish(Result<(), StoreError>),
}

/// The state of one initialization.
pub struct InitPlan {
    service_name: String,
    stage: InitStage,
}

/// Whether `command` is the one that an initialization for `service_name`
/// hands out on entering `stage` after a command that went through.
pub open spec fn is_init_command_on_entering(
    command: InitCommand,
    stage: InitStage,
    service_name: Seq<char>,
) -> bool {
    match stage {
        InitStage::Connecting => command is Connect,
        InitStage::CreatingTable => command matches InitCommand::CreateTable(text) && text@
            == create_table_text(service_name),
        InitStage::Finished => command == InitCommand::Finish(Ok(())),
    }
}

/// The error with which an initialization ends when the command of `stage`
/// fails: a failed connection is a client error, a failed provisioning a
/// create-table error.
pub open spec fn init_failure(stage: InitStage, failure: BackendError) -> StoreError {
    match stage {
        InitStage::Connecting => StoreError::ClientError(failure),
        _ => StoreError::CreateTableError(failure),
    }
}

impl InitPlan {
    /// The service whose table is provisioned.
    pub closed spec fn service_name(&self) -> Seq<char> {
        self.service_name@
    }

    /// The command whose answer the plan is waiting for.
    pub closed spec fn spec_stage(&self) -> InitStage {
        self.stage
    }

    /// The command whose answer the plan is waiting for.
    #[verifier::when_used_as_spec(spec_stage)]
    pub fn stage(&self) -> (stage: InitStage)
        ensures
            stage == self.spec_stage(),
    {
        self.stage
    }

    /// Takes the answer to the outstanding command and gives the next one.
    ///
    /// Once the connection is open, `store` counts as initialized, whatever
    /// becomes of the table, and the table is provisioned next. Once the
    /// table is provisioned, the initialization is over. A failure ends it
    /// at once.
    pub fn advance<D, M>(
        &mut self,
        store: &mut PostgresStore<D, M>,
        outcome: Result<(), BackendError>,
    ) -> (command: InitCommand)
        requires
            old(self).stage() != InitStage::Finished,
        ensures
            final(self).service_name() == old(self).service_name(),
            final(store).target() == old(store).target(),
            final(store).is_initialized() == (old(store).is_initialized() || (old(self).stage()
                == InitStage::Connecting && outcome is Ok)),
            match outcome {
                Ok(_) => final(self).stage() == (match old(self).stage() {
                    InitStage::Connecting => InitStage::CreatingTable,
                    _ => InitStage::Finished,
                }) && is_init_command_on_entering(
                    command,
                    final(self).stage(),
                    old(self).service_name(),
                ),
                Err(failure) => final(self).stage() == InitStage::Finished && command
                    == InitCommand::Finish(Err(init_failure(old(self).stage(), failure))),
            },
    {
        match outcome {
            Ok(_) => match self.stage {
                InitStage::Connecting => {
                    store.connected = true;
                    self.stage = InitStage::CreatingTable;
                    InitCommand::CreateTable(create_table(self.service_name.as_str()))
                },
                _ => {
                    self.stage = InitStage::Finished;
                    InitCommand::Finish(Ok(()))
                },
            },
            Err(failure) => {
                let error = match self.stage {
                    InitStage::Connecting => StoreError::ClientError(failure),
                    _ => StoreError::CreateTableError(failure),
                };
                self.stage = InitStage::Finished;
                InitCommand::Finish(Err(error))
            },
        }
    }
}

impl<D, M> Clone for PostgresStore<D, M> {
    /// A second handle on the same store: the same database, and initialized
    /// exactly if this one is.
    fn clone(&self) -> (copy: Self)
        ensures
            copy.target() == self.target(),
            copy.is_initialized() == self.is_initialized(),
    {
        PostgresStore {
            connection_string: self.connection_string.clone(),
            connected: self.connected,
            phantom_event_data: core::marker::PhantomData,
            phantom_meta_data: core::marker::PhantomData,
        }
    }
}

impl<D, M> PostgresStore<D, M> {
    /// Where the database is: the connection string the store was made with.
    pub closed spec fn target(&self) -> Seq<char> {
        self.connection_string@
    }

    /// Whether the connection has been opened.
    pub closed spec fn spec_is_initialized(&self) -> bool {
        self.connected
    }

    /// A store for the database at `connection_string`. Its connection is not
    /// open yet.
    pub fn new(connection_string: &str) -> (store: Self)
        ensures
            store.target() == connection_string@,
            !store.is_initialized(),
    {
        PostgresStore {
            connection_string: String::from_str(connection_string),
            connected: false,
            phantom_event_data: core::marker::PhantomData,
            phantom_meta_data: core::marker::PhantomData,
        }
    }

    /// Where the database is: the connection string the store was made with.
    pub fn connection_string(&self) -> (text: &str)
        ensures
            text@ == self.target(),
    {
        self.connection_string.as_str()
    }

    /// Whether the connection has been opened.
    #[verifier::when_used_as_spec(spec_is_initialized)]
    pub fn is_initialized(&self) -> (yes: bool)
        ensures
            yes == self.spec_is_initialized(),
    {
        self.connected
    }

    /// The statement that provisions the table of `service_name`.
    pub fn create_table(service_name: &str) -> (text: String)
        ensures
            text@ == create_table_text(service_name@),
    {
        create_table(service_name)
    }

    /// Starts the initialization for the context's service: the first thing
    /// to do is to open the connection that the store was made for.
    pub fn init(&self, context: StoreContext) -> (started: (InitPlan, InitCommand))
        ensures
            started.0.service_name() == context.service_name@,
            started.0.stage() == InitStage::Connecting,
            started.1 matches InitCommand::Connect(target) && target@ == self.target(),
    {
        (
            InitPlan { service_name: context.service_name, stage: InitStage::Connecting },
            InitCommand::Connect(self.connection_string.clone()),
        )
    }

    /// Starts the append of a batch of `total` events to the table of the
    /// context's service.
    ///
    /// An empty batch is over at once with `AlreadyExists`, and nothing is
    /// sent. Any other batch is written inside one transaction, which the
    /// first command opens.
    pub fn save_events(&self, context: StoreContext, total: usize) -> (started: (
        AppendPlan,
        AppendCommand,
    ))
        requires
            self.is_initialized(),
        ensures
            started.0.service_name() == context.service_name@,
            started.0.total() == total,
            total == 0 ==> started.0.stage() == AppendStage::Finished && started.1
                == AppendCommand::Finish(Ok(SaveEventsResult::AlreadyExists)),
            total > 0 ==> started.0.stage() == AppendStage::Beginning && started.1
                == AppendCommand::Begin,
    {
        AppendPlan::start(context.service_name.as_str(), total)
    }

    /// The statement that reads the history of one aggregate of the
    /// context's service. Its one parameter is the aggregate; its rows come
    /// lowest `event_id` first.
    pub fn events(&self, context: StoreContext) -> (text: String)
        requires
            self.is_initialized(),
        ensures
            text@ == select_events_text(context.service_name@),
    {
        select_events(context.service_name.as_str())
    }

    /// The statement that lists the aggregates of the context's service,
    /// each once. It has no parameter.
    pub fn aggregate_ids(&self, context: StoreContext) -> (text: String)
        requires
            self.is_initialized(),
        ensures
            text@ == select_aggregate_ids_text(context.service_name@),
    {
        select_aggregate_ids(context.service_name.as_str())
    }

    /// The statement that counts the aggregates of the context's service.
    pub fn total_aggregates(&self, context: StoreContext) -> (text: String)
        requires
            self.is_initialized(),
        ensures
            text@ == count_aggregates_text(context.service_name@),
    {
        count_aggregates(context.service_name.as_str())
    }

    /// The statement that counts the events of one aggregate of the
    /// context's service. Its one parameter is the aggregate.
    pub fn total_events_for_aggregate(&self, context: StoreContext) -> (text: String)
        requires
            self.is_initialized(),
        ensures
            text@ == count_events_for_aggregate_text(context.service_name@),
    {
        count_events_for_aggregate(context.service_name.as_str())
    }

    /// The statement that counts the events of the context's service.
    pub fn total_events(&self, context: StoreContext) -> (text: String)
        requires
            self.is_initialized(),
        ensures
            text@ == count_events_text(context.service_name@),
    {
        count_events(context.service_name.as_str())
    }
}

} // verus!
