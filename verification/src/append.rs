//! The append protocol: which step a writer takes next, given how the
//! previous one went.
//!
//! A batch is written inside one transaction: begin, prepare the insert,
//! run it once for every event in the caller's order, commit. The first step
//! that fails ends the protocol with its error and nothing further is sent,
//! so the transaction is dropped and rolls back. The plan only decides; the
//! caller performs each command against its backing engine and reports back.

use vstd::prelude::*;
use crate::error::BackendError;
use crate::error::CREATED_DATE_OUT_OF_RANGE;
use crate::error::StoreError;
use crate::event::SaveEventsResult;
use crate::statement::insert_event;
use crate::statement::insert_event_text;

verus! {

/// How the backing engine answered one command.
#[derive(Clone, Debug, PartialEq, Eq)]
pub enum Outcome {
    /// The command went through.
    Completed,
    /// The engine reported a broken uniqueness constraint: the
    /// `(aggregate_id, event_id)` of the event is already taken.
    KeyTaken(BackendError),
    /// The event could not be encoded for storage; the text says why.
    NotEncoded(String),
    /// The command failed for any other reason.
    Failed(BackendError),
}

/// The command whose answer the plan is waiting for.
#[derive(Clone, Copy, Debug, PartialEq, Eq)]
pub enum AppendStage {
    Beginning,
    Preparing,
    /// Inserting the event at this index of the batch.
    Inserting(usize),
    Committing,
    /// The protocol is over; no command is outstanding.
    Finished,
}

/// What the caller does next.
#[derive(Debug, PartialEq, Eq)]
pub enum AppendCommand {
    /// Take exclusive access to the connection and open a transaction.
    Begin,
    /// Prepare this insert statement inside the transaction.
    Prepare(String),
    /// Run the prepared insert for the event at this index of the batch.
    Insert(usize),
    /// Commit the transaction.
    Commit,
    /// Drop the transaction, if one is open, and return this result.
    Finish(Result<SaveEventsResult, StoreError>),
}

/// The state of one append of `total` events to the table of one service.
pub struct AppendPlan {
    service_name: String,
    total: usize,
    stage: AppendStage,
}

/// The number of events of the batch that the engine has accepted once the
/// plan has reached `stage`.
pub open spec fn accepted(stage: AppendStage, total: usize) -> usize {
    match stage {
        AppendStage::Beginning | AppendStage::Preparing => 0,
        AppendStage::Inserting(index) => index,
        AppendStage::Committing | AppendStage::Finished => total,
    }
}

/// The stage that follows `stage` when its command went through.
pub open spec fn stage_after(stage: AppendStage, total: usize) -> AppendStage {
    match stage {
        AppendStage::Beginning => AppendStage::Preparing,
        AppendStage::Preparing => AppendStage::Inserting(0),
        AppendStage::Inserting(index) => if index + 1 < total {
            AppendStage::Inserting((index + 1) as usize)
        } else {
            AppendStage::Committing
        },
        AppendStage::Committing | AppendStage::Finished => AppendStage::Finished,
    }
}

/// Whether `command` is the one that a plan for `service_name` hands out on
/// entering `stage` after a command that went through.
pub open spec fn is_command_on_entering(
    command: AppendCommand,
    stage: AppendStage,
    service_name: Seq<char>,
) -> bool {
    match stage {
        AppendStage::Beginning => command == AppendCommand::Begin,
        AppendStage::Preparing => command matches AppendCommand::Prepare(text) && text@
            == insert_event_text(service_name),
        AppendStage::Inserting(index) => command == AppendCommand::Insert(index),
        AppendStage::Committing => command == AppendCommand::Commit,
        AppendStage::Finished => command == AppendCommand::Finish(Ok(SaveEventsResult::Success)),
    }
}

/// The error with which an append ends when the command of `stage` did not
/// go through.
///
/// A taken key that the engine reports for the insert of an event is a
/// constraint violation at the index of that event. An event that cannot be
/// encoded is a serialization error. Everything else is a client error,
/// with the engine's failure inside; that holds of a broken uniqueness
/// constraint too where it is reported for a command that inserts no event.
pub open spec fn failure_of(outcome: Outcome, stage: AppendStage) -> StoreError
    recommends
        outcome != Outcome::Completed,
{
    match outcome {
        Outcome::KeyTaken(failure) => match stage {
            AppendStage::Inserting(index) => StoreError::ConstraintViolation {
                position: index,
                failure,
            },
            _ => StoreError::ClientError(failure),
        },
        Outcome::NotEncoded(reason) => StoreError::SerializationError(reason),
        Outcome::Failed(failure) => StoreError::ClientError(failure),
        Outcome::Completed => arbitrary(),
    }
}

impl Outcome {
    /// The outcome that a step's result stands for.
    pub open spec fn spec_of(result: Result<(), BackendError>) -> Outcome {
        match result {
            Ok(()) => Outcome::Completed,
            Err(failure) => if failure.spec_is_unique_violation() {
                Outcome::KeyTaken(failure)
            } else {
                Outcome::Failed(failure)
            },
        }
    }

    /// Classifies the result of one step: a failure whose SQLSTATE reports a
    /// broken uniqueness constraint is a taken key, any other failure is a
    /// plain failure. Either way the engine's failure is kept as it is.
    pub fn of(result: Result<(), BackendError>) -> (outcome: Outcome)
        ensures
            outcome == Outcome::spec_of(result),
    {
        match result {
            Ok(()) => Outcome::Completed,
            Err(failure) => if failure.is_unique_violation() {
                Outcome::KeyTaken(failure)
            } else {
                Outcome::Failed(failure)
            },
        }
    }
}

/// Whether `answer` is what the encoding of one event comes to, before
/// anything is sent for it.
///
/// An instant of creation that the engine's calendar cannot hold stops the
/// event first, then metadata that does not encode, then a payload that does
/// not encode; each is an outcome that ends the append with a serialization
/// error. An event that encodes has no outcome yet: its insert is sent.
pub open spec fn is_encoding_outcome(
    created_in_range: bool,
    metadata: Result<(), String>,
    payload: Result<(), String>,
    answer: Option<Outcome>,
) -> bool {
    if !created_in_range {
        answer matches Some(Outcome::NotEncoded(reason)) && reason@ == CREATED_DATE_OUT_OF_RANGE@
    } else {
        match (metadata, payload) {
            (Err(reason), _) => answer == Some(Outcome::NotEncoded(reason)),
            (Ok(_), Err(reason)) => answer == Some(Outcome::NotEncoded(reason)),
            (Ok(_), Ok(_)) => answer is None,
        }
    }
}

/// What the encoding of one event comes to: the outcome that ends the
/// append, or `None` where the event encodes and its insert is to be sent.
///
/// `created_in_range` says whether the engine's calendar holds the instant
/// of creation; `metadata` and `payload` say how encoding each went, with
/// the codec's text where it failed.
pub fn encoding_outcome(
    created_in_range: bool,
    metadata: Result<(), String>,
    payload: Result<(), String>,
) -> (answer: Option<Outcome>)
    ensures
        is_encoding_outcome(created_in_range, metadata, payload, answer),
{
    if !created_in_range {
        Some(Outcome::NotEncoded(String::from_str(CREATED_DATE_OUT_OF_RANGE)))
    } else {
        match metadata {
            Err(reason) => Some(Outcome::NotEncoded(reason)),
            Ok(_) => match payload {
                Err(reason) => Some(Outcome::NotEncoded(reason)),
                Ok(_) => None,
            },
        }
    }
}

impl AppendPlan {
    #[verifier::type_invariant]
    spec fn well_formed(&self) -> bool {
        &&& self.stage matches AppendStage::Inserting(index) ==> index < self.total
        &&& self.stage != AppendStage::Finished ==> self.total > 0
    }

    /// The service whose table the batch goes to.
    pub closed spec fn service_name(&self) -> Seq<char> {
        self.service_name@
    }

    /// The number of events in the batch.
    pub closed spec fn total(&self) -> usize {
        self.total
    }

    /// The command whose answer the plan is waiting for.
    pub closed spec fn spec_stage(&self) -> AppendStage {
        self.stage
    }

    /// The command whose answer the plan is waiting for.
    #[verifier::when_used_as_spec(spec_stage)]
    pub fn stage(&self) -> (stage: AppendStage)
        ensures
            stage == self.spec_stage(),
            stage matches AppendStage::Inserting(index) ==> index < self.total(),
            stage != AppendStage::Finished ==> self.total() > 0,
    {
        proof {
            use_type_invariant(self);
        }
        self.stage
    }

    /// Plans the append of a batch of `total` events to the table of
    /// `service_name`, and gives the first command.
    ///
    /// An empty batch is over at once: nothing is sent, and the result is
    /// `AlreadyExists`. Any other batch starts by opening a transaction.
    pub fn start(service_name: &str, total: usize) -> (started: (AppendPlan, AppendCommand))
        ensures
            started.0.service_name() == service_name@,
            started.0.total() == total,
            total == 0 ==> started.0.stage() == AppendStage::Finished && started.1
                == AppendCommand::Finish(Ok(SaveEventsResult::AlreadyExists)),
            total > 0 ==> started.0.stage() == AppendStage::Beginning && started.1
                == AppendCommand::Begin,
    {
        let name = String::from_str(service_name);
        if total == 0 {
            (
                AppendPlan { service_name: name, total, stage: AppendStage::Finished },
                AppendCommand::Finish(Ok(SaveEventsResult::AlreadyExists)),
            )
        } else {
            (
                AppendPlan { service_name: name, total, stage: AppendStage::Beginning },
                AppendCommand::Begin,
            )
        }
    }

    /// Takes the answer to the outstanding command and gives the next one.
    ///
    /// After a command that went through, the plan moves one stage on: from
    /// the transaction to the statement, through the events in order, to the
    /// commit, and after the commit to `Success`. After one that did not, the
    /// plan is over with the error, whatever was still to come.
    pub fn advance(&mut self, outcome: Outcome) -> (command: AppendCommand)
        requires
            old(self).stage() != AppendStage::Finished,
        ensures
            final(self).service_name() == old(self).service_name(),
            final(self).total() == old(self).total(),
            final(self).stage() == stage_on(old(self).stage(), old(self).total(), outcome),
            outcome == Outcome::Completed ==> is_command_on_entering(
                command,
                final(self).stage(),
                old(self).service_name(),
            ),
            outcome != Outcome::Completed ==> command == AppendCommand::Finish(
                Err(failure_of(outcome, old(self).stage())),
            ),
            final(self).stage() matches AppendStage::Inserting(index) ==> index < old(self).total(),
    {
        proof {
            use_type_invariant(&*self);
        }
        match outcome {
            Outcome::Completed => {
                let (next, command) = match self.stage {
                    AppendStage::Beginning => (
                        AppendStage::Preparing,
                        AppendCommand::Prepare(insert_event(self.service_name.as_str())),
                    ),
                    AppendStage::Preparing => (AppendStage::Inserting(0), AppendCommand::Insert(0)),
                    AppendStage::Inserting(index) => if index + 1 < self.total {
                        (AppendStage::Inserting(index + 1), AppendCommand::Insert(index + 1))
                    } else {
                        (AppendStage::Committing, AppendCommand::Commit)
                    },
                    AppendStage::Committing | AppendStage::Finished => (
                        AppendStage::Finished,
                        AppendCommand::Finish(Ok(SaveEventsResult::Success)),
                    ),
                };
                self.stage = next;
                command
            },
            Outcome::KeyTaken(failure) => {
                let error = match self.stage {
                    AppendStage::Inserting(index) => StoreError::ConstraintViolation {
                        position: index,
                        failure,
                    },
                    _ => StoreError::ClientError(failure),
                };
                self.stage = AppendStage::Finished;
                AppendCommand::Finish(Err(error))
            },
            Outcome::NotEncoded(reason) => {
                self.stage = AppendStage::Finished;
                AppendCommand::Finish(Err(StoreError::SerializationError(reason)))
            },
            Outcome::Failed(failure) => {
                self.stage = AppendStage::Finished;
                AppendCommand::Finish(Err(StoreError::ClientError(failure)))
            },
        }
    }
}

/// The stage that a plan is in after the answer `outcome` to the command of
/// `stage`.
pub open spec fn stage_on(stage: AppendStage, total: usize, outcome: Outcome) -> AppendStage {
    if outcome == Outcome::Completed {
        stage_after(stage, total)
    } else {
        AppendStage::Finished
    }
}

/// The stage that a plan for a batch of `total` events is in after the
/// answers `outcomes`, taken in order. Answers that come after the plan has
/// finished change nothing.
pub open spec fn stage_reached(total: usize, outcomes: Seq<Outcome>) -> AppendStage
    decreases outcomes.len(),
{
    if outcomes.len() == 0 {
        if total == 0 {
            AppendStage::Finished
        } else {
            AppendStage::Beginning
        }
    } else {
        let before = stage_reached(total, outcomes.drop_last());
        if before == AppendStage::Finished {
            AppendStage::Finished
        } else {
            stage_on(before, total, outcomes.last())
        }
    }
}

/// The number of commands that went through before a plan reached `stage`.
pub open spec fn commands_before(stage: AppendStage, total: usize) -> int {
    match stage {
        AppendStage::Beginning => 0,
        AppendStage::Preparing => 1,
        AppendStage::Inserting(index) => index + 2,
        AppendStage::Committing => total + 2,
        AppendStage::Finished => total + 3,
    }
}

/// A plan that has not finished has seen nothing fail: it stands where the
/// number of its answers puts it, and every answer was a command that went
/// through.
pub proof fn lemma_unfinished_plan_saw_no_failure(total: usize, outcomes: Seq<Outcome>)
    requires
        stage_reached(total, outcomes) != AppendStage::Finished,
    ensures
        total > 0,
        outcomes.len() == commands_before(stage_reached(total, outcomes), total),
        forall|i: int| 0 <= i < outcomes.len() ==> outcomes[i] == Outcome::Completed,
        stage_reached(total, outcomes) matches AppendStage::Inserting(index) ==> index < total,
    decreases outcomes.len(),
{
    if outcomes.len() > 0 {
        let earlier = outcomes.drop_last();
        lemma_unfinished_plan_saw_no_failure(total, earlier);
        assert forall|i: int| 0 <= i < outcomes.len() implies outcomes[i] == Outcome::Completed by {
            if i < earlier.len() {
                assert(earlier[i] == outcomes[i]);
            }
        }
    }
}

/// The commit is sent only after the transaction was opened, the statement
/// prepared, and every event of the batch inserted without a failure. A
/// batch of which one insert failed is never committed, so none of its
/// events becomes visible.
pub proof fn lemma_commit_follows_every_insert(total: usize, outcomes: Seq<Outcome>)
    requires
        stage_reached(total, outcomes) == AppendStage::Committing,
    ensures
        outcomes.len() == total + 2,
        forall|i: int| 0 <= i < outcomes.len() ==> outcomes[i] == Outcome::Completed,
{
    lemma_unfinished_plan_saw_no_failure(total, outcomes);
}

/// The events are inserted in the caller's order: the insert of the event at
/// `index` is sent after exactly the inserts of the events before it went
/// through.
pub proof fn lemma_inserts_follow_batch_order(total: usize, outcomes: Seq<Outcome>, index: usize)
    requires
        stage_reached(total, outcomes) == AppendStage::Inserting(index),
    ensures
        index < total,
        outcomes.len() == index + 2,
        forall|i: int| 0 <= i < outcomes.len() ==> outcomes[i] == Outcome::Completed,
{
    lemma_unfinished_plan_saw_no_failure(total, outcomes);
}

} // verus!
