//! A store that keeps every table in memory.
//!
//! It holds one table per service, each a list of rows in the order in which
//! they were appended, and answers every operation of the storage contract
//! from those lists. What each operation returns and changes is stated
//! over the model of the `log` module.

use vstd::prelude::*;
use crate::append::AppendCommand;
use crate::append::AppendPlan;
use crate::append::AppendStage;
use crate::append::Outcome;
use crate::append::accepted;
use crate::append::is_command_on_entering;
use crate::error::BackendError;
use crate::error::StoreError;
use crate::event::Event;
use crate::event::SaveEventsResult;
use crate::event::StoreContext;
use crate::log::aggregates;
use crate::log::ascending;
use crate::log::comes_after;
use crate::log::conflicts_at;
use crate::log::holds_key;
use crate::log::is_append_result;
use crate::log::is_history;
use crate::log::is_next_event;
use crate::log::keys_unique;
use crate::log::lemma_accepted_batch_keeps_keys_unique;
use crate::log::lemma_holds_key_of_concatenation;
use crate::log::of_aggregate;
use crate::log::owned_by;
use crate::log::owner;
use crate::log::total_aggregates;
use crate::log::total_events;
use crate::log::total_events_for_aggregate;

verus! {

/// The events that a list of borrowed events points to.
pub open spec fn borrowed<'a, D, M>(events: Seq<&'a Event<D, M>>) -> Seq<Event<D, M>> {
    events.map_values(|event: &Event<D, M>| *event)
}

/// Whether one of the first `limit` rows carries the key.
fn key_in_prefix<D, M>(rows: &Vec<Event<D, M>>, limit: usize, aggregate_id: u128, event_id: u32) -> (found: bool)
    requires
        limit <= rows.len(),
    ensures
        found == holds_key(rows@.take(limit as int), (aggregate_id, event_id)),
{
    let mut index: usize = 0;
    while index < limit
        invariant
            index <= limit <= rows.len(),
            !holds_key(rows@.take(index as int), (aggregate_id, event_id)),
        decreases limit - index,
    {
        if rows[index].aggregate_id == aggregate_id && rows[index].event_id == event_id {
            assert(rows@.take(limit as int)[index as int].key() == (aggregate_id, event_id));
            return true;
        }
        assert forall|k: int| 0 <= k < index + 1 implies (#[trigger] rows@.take(index + 1)[k]).key() != (
            aggregate_id,
            event_id,
        ) by {
            if k < index {
                assert(rows@.take(index as int)[k].key() != (aggregate_id, event_id));
            }
        }
        index += 1;
    }
    false
}

/// The row that a reader of `aggregate_id` gets after `after`.
fn next_row<'a, D, M>(rows: &'a Vec<Event<D, M>>, aggregate_id: u128, after: Option<u32>) -> (next:
    Option<&'a Event<D, M>>)
    ensures
        is_next_event(
            rows@,
            aggregate_id,
            after,
            match next {
                Some(event) => Some(*event),
                None => None,
            },
        ),
{
    let mut best: Option<usize> = None;
    let mut index: usize = 0;
    while index < rows.len()
        invariant
            index <= rows.len(),
            match best {
                Some(at) => {
                    &&& at < index
                    &&& rows@[at as int].aggregate_id == aggregate_id
                    &&& comes_after(after, rows@[at as int].event_id)
                    &&& forall|k: int|
                        0 <= k < index && (#[trigger] rows@[k]).aggregate_id == aggregate_id
                            && comes_after(after, rows@[k].event_id) ==> rows@[at as int].event_id
                            <= rows@[k].event_id
                },
                None => forall|k: int|
                    0 <= k < index && (#[trigger] rows@[k]).aggregate_id == aggregate_id
                        ==> !comes_after(after, rows@[k].event_id),
            },
        decreases rows.len() - index,
    {
        let row = &rows[index];
        let beyond = match after {
            Some(last) => last < row.event_id,
            None => true,
        };
        if row.aggregate_id == aggregate_id && beyond {
            let better = match best {
                Some(at) => row.event_id < rows[at].event_id,
                None => true,
            };
            if better {
                best = Some(index);
            }
        }
        index += 1;
    }
    match best {
        Some(at) => {
            assert(rows@.contains(rows@[at as int]));
            Some(&rows[at])
        },
        None => None,
    }
}

/// Whether `id` is among `ids`.
fn lists(ids: &Vec<u128>, id: u128) -> (found: bool)
    ensures
        found == ids@.contains(id),
{
    let mut index: usize = 0;
    while index < ids.len()
        invariant
            index <= ids.len(),
            forall|k: int| 0 <= k < index ==> ids@[k] != id,
        decreases ids.len() - index,
    {
        if ids[index] == id {
            return true;
        }
        index += 1;
    }
    false
}

/// The aggregates of `rows`, each once, in the order of their first row.
fn distinct_aggregates<D, M>(rows: &Vec<Event<D, M>>) -> (ids: Vec<u128>)
    ensures
        ids@.no_duplicates(),
        ids@.to_set() == aggregates(rows@),
{
    let mut ids: Vec<u128> = Vec::new();
    let mut index: usize = 0;
    assert(rows@.take(0).map_values(owner::<D, M>()) =~= Seq::<u128>::empty());
    assert(ids@.to_set() =~= aggregates(rows@.take(0)));
    while index < rows.len()
        invariant
            index <= rows.len(),
            ids@.no_duplicates(),
            ids@.to_set() == aggregates(rows@.take(index as int)),
        decreases rows.len() - index,
    {
        let id = rows[index].aggregate_id;
        proof {
            let seen = rows@.take(index as int);
            let column = owner::<D, M>();
            assert(rows@.take(index + 1) =~= seen.push(rows@[index as int]));
            seen.lemma_push_map_commute(column, rows@[index as int]);
            seen.map_values(column).lemma_push_to_set_commute(id);
            assert(aggregates(rows@.take(index + 1)) == aggregates(seen).insert(id));
        }
        if !lists(&ids, id) {
            proof {
                ids@.lemma_push_to_set_commute(id);
            }
            ids.push(id);
        } else {
            assert(ids@.to_set().insert(id) =~= ids@.to_set());
        }
        index += 1;
    }
    assert(rows@.take(rows@.len() as int) =~= rows@);
    ids
}

/// The number of rows of `aggregate_id`.
fn count_of_aggregate<D, M>(rows: &Vec<Event<D, M>>, aggregate_id: u128) -> (count: usize)
    ensures
        count == total_events_for_aggregate(rows@, aggregate_id),
{
    let mut count: usize = 0;
    let mut index: usize = 0;
    assert(rows@.take(0) =~= Seq::<Event<D, M>>::empty());
    assert(of_aggregate(rows@.take(0), aggregate_id).len() == 0) by {
        rows@.take(0).lemma_filter_len(owned_by(aggregate_id));
    }
    while index < rows.len()
        invariant
            index <= rows.len(),
            count <= index,
            count == of_aggregate(rows@.take(index as int), aggregate_id).len(),
        decreases rows.len() - index,
    {
        proof {
            let seen = rows@.take(index as int);
            assert(rows@.take(index + 1) =~= seen.push(rows@[index as int]));
            seen.lemma_filter_push(rows@[index as int], owned_by(aggregate_id));
        }
        if rows[index].aggregate_id == aggregate_id {
            count += 1;
        }
        index += 1;
    }
    assert(rows@.take(rows@.len() as int) =~= rows@);
    count
}

/// The table of one service.
struct ServiceTable<D, M> {
    name: String,
    rows: Vec<Event<D, M>>,
}

/// A store whose tables live in memory, one per service.
pub struct MemoryStore<D, M> {
    tables: Vec<ServiceTable<D, M>>,
}

impl<D, M> View for MemoryStore<D, M> {
    type V = Map<Seq<char>, Seq<Event<D, M>>>;

    /// The rows of every provisioned service, by the service's name.
    closed spec fn view(&self) -> Map<Seq<char>, Seq<Event<D, M>>> {
        Map::new(
            |name: Seq<char>| self.provisioned(name),
            |name: Seq<char>| self.tables@[self.slot_of(name)].rows@,
        )
    }
}

impl<D, M> MemoryStore<D, M> {
    /// What every store holds to: no two tables belong to one service, and
    /// inside a table no two rows share a key.
    pub closed spec fn wf(&self) -> bool {
        &&& forall|i: int, j: int|
            0 <= i < j < self.tables@.len() ==> self.tables@[i].name@ != self.tables@[j].name@
        &&& forall|i: int|
            0 <= i < self.tables@.len() ==> keys_unique((#[trigger] self.tables@[i]).rows@)
    }

    spec fn provisioned(&self, name: Seq<char>) -> bool {
        exists|i: int| 0 <= i < self.tables@.len() && (#[trigger] self.tables@[i]).name@ == name
    }

    spec fn slot_of(&self, name: Seq<char>) -> int {
        choose|i: int| 0 <= i < self.tables@.len() && (#[trigger] self.tables@[i]).name@ == name
    }

    /// A store without any table.
    pub fn new() -> (store: Self)
        ensures
            store.wf(),
            store@ == Map::<Seq<char>, Seq<Event<D, M>>>::empty(),
    {
        let store = MemoryStore { tables: Vec::new() };
        assert(store@ =~= Map::<Seq<char>, Seq<Event<D, M>>>::empty());
        store
    }

    /// The rows of a provisioned service never share a key.
    pub proof fn lemma_rows_have_unique_keys(&self, service_name: Seq<char>)
        requires
            self.wf(),
            self@.contains_key(service_name),
        ensures
            keys_unique(self@[service_name]),
    {
    }

    /// Whether the context's service has its table, so that it can be
    /// written to and read.
    pub fn is_provisioned(&self, context: &StoreContext) -> (yes: bool)
        requires
            self.wf(),
        ensures
            yes == self@.contains_key(context.service_name@),
    {
        self.find(&context.service_name).is_some()
    }

    /// Where the table of `name` stands, if the service is provisioned.
    fn find(&self, name: &String) -> (slot: Option<usize>)
        requires
            self.wf(),
        ensures
            match slot {
                Some(at) => at < self.tables@.len() && self.tables@[at as int].name@ == name@
                    && self@.contains_key(name@) && self@[name@] == self.tables@[at as int].rows@,
                None => !self@.contains_key(name@),
            },
    {
        let mut index: usize = 0;
        while index < self.tables.len()
            invariant
                self.wf(),
                index <= self.tables@.len(),
                forall|i: int| 0 <= i < index ==> (#[trigger] self.tables@[i]).name@ != name@,
            decreases self.tables@.len() - index,
        {
            if self.tables[index].name == *name {
                assert(self.provisioned(name@));
                assert(self.slot_of(name@) == index);
                return Some(index);
            }
            index += 1;
        }
        None
    }

    /// Provisions the table of the context's service.
    ///
    /// A service that has a table keeps it with all its rows; one that has
    /// none gets an empty one. No other service is touched, and the call
    /// always succeeds.
    pub fn init(&mut self, context: StoreContext) -> (done: Result<(), StoreError>)
        requires
            old(self).wf(),
        ensures
            final(self).wf(),
            done is Ok,
            old(self)@.contains_key(context.service_name@) ==> final(self)@ == old(self)@,
            !old(self)@.contains_key(context.service_name@) ==> final(self)@ == old(self)@.insert(
                context.service_name@,
                Seq::empty(),
            ),
    {
        if self.find(&context.service_name).is_none() {
            let ghost before = *self;
            let table = ServiceTable { name: context.service_name, rows: Vec::new() };
            self.tables.push(table);
            proof {
                let name = context.service_name@;
                let last = before.tables@.len() as int;
                assert forall|other: Seq<char>| self.provisioned(other) <==> (other == name
                    || before.provisioned(other)) by {
                    if before.provisioned(other) {
                        let i = before.slot_of(other);
                        assert(self.tables@[i].name@ == other);
                    }
                    if other == name {
                        assert(self.tables@[last].name@ == other);
                    }
                }
                assert forall|other: Seq<char>| self.provisioned(other) implies #[trigger] self@[other]
                    == before@.insert(name, Seq::empty())[other] by {
                    let i = self.slot_of(other);
                    if other != name {
                        let j = before.slot_of(other);
                        assert(self.tables@[j].name@ == other);
                        assert(i == j);
                    }
                }
                assert(self@ =~= before@.insert(name, Seq::empty()));
            }
        }
        Ok(())
    }

    /// One step of a lazy read of an aggregate's history: the event that
    /// follows the one with `event_id` `after`, or the first event where
    /// `after` is `None`.
    ///
    /// Every call reads the table as it is now, so a reader may stop at any
    /// point, and a fresh walk from `None` starts over.
    pub fn next_event(&self, context: &StoreContext, aggregate_id: u128, after: Option<u32>) -> (next:
        Option<&Event<D, M>>)
        requires
            self.wf(),
            self@.contains_key(context.service_name@),
        ensures
            is_next_event(
                self@[context.service_name@],
                aggregate_id,
                after,
                match next {
                    Some(event) => Some(*event),
                    None => None,
                },
            ),
    {
        let slot = self.find(&context.service_name).unwrap();
        next_row(&self.tables[slot].rows, aggregate_id, after)
    }

    /// The history of one aggregate: its events, lowest `event_id` first.
    pub fn events(&self, context: StoreContext, aggregate_id: u128) -> (history: Vec<&Event<D, M>>)
        requires
            self.wf(),
            self@.contains_key(context.service_name@),
        ensures
            is_history(self@[context.service_name@], aggregate_id, borrowed(history@)),
    {
        let slot = self.find(&context.service_name).unwrap();
        let rows = &self.tables[slot].rows;
        let mut history: Vec<&Event<D, M>> = Vec::new();
        let mut after: Option<u32> = None;
        let mut open = true;
        while open
            invariant
                keys_unique(rows@),
                ascending(borrowed(history@)),
                forall|i: int|
                    0 <= i < history@.len() ==> (#[trigger] borrowed(history@)[i]).aggregate_id
                        == aggregate_id && rows@.contains(borrowed(history@)[i]),
                match after {
                    Some(last) => history@.len() > 0 && borrowed(history@).last().event_id == last,
                    None => history@.len() == 0,
                },
                open ==> forall|k: int|
                    0 <= k < rows@.len() && (#[trigger] rows@[k]).aggregate_id == aggregate_id
                        && !comes_after(after, rows@[k].event_id) ==> borrowed(history@).contains(
                        rows@[k],
                    ),
                !open ==> is_history(rows@, aggregate_id, borrowed(history@)),
            decreases
                    if open { 1int } else { 0int },
                    match after {
                        Some(last) => u32::MAX - last,
                        None => u32::MAX + 1,
                    },
        {
            let ghost read = borrowed(history@);
            match next_row(rows, aggregate_id, after) {
                Some(event) => {
                    history.push(event);
                    after = Some(event.event_id);
                    proof {
                        let grown = borrowed(history@);
                        assert(grown =~= read.push(*event));
                        assert forall|k: int|
                            0 <= k < rows@.len() && (#[trigger] rows@[k]).aggregate_id
                                == aggregate_id && !comes_after(
                                after,
                                rows@[k].event_id,
                            ) implies grown.contains(rows@[k]) by {
                            if read.contains(rows@[k]) {
                                let at = choose|at: int| 0 <= at < read.len() && read[at] == rows@[k];
                                assert(grown[at] == rows@[k]);
                            } else {
                                let at = choose|at: int| 0 <= at < rows@.len() && rows@[at] == *event;
                                assert(rows@[k].key() == rows@[at].key());
                                assert(grown[read.len() as int] == rows@[k]);
                            }
                        }
                    }
                },
                None => {
                    open = false;
                },
            }
        }
        history
    }

    /// Every aggregate of the service that has at least one event, each
    /// once. The order says nothing.
    pub fn aggregate_ids(&self, context: StoreContext) -> (ids: Vec<u128>)
        requires
            self.wf(),
            self@.contains_key(context.service_name@),
        ensures
            ids@.no_duplicates(),
            ids@.to_set() == aggregates(self@[context.service_name@]),
    {
        let slot = self.find(&context.service_name).unwrap();
        distinct_aggregates(&self.tables[slot].rows)
    }

    /// The number of aggregates of the service that have at least one event.
    pub fn total_aggregates(&self, context: StoreContext) -> (count: u64)
        requires
            self.wf(),
            self@.contains_key(context.service_name@),
        ensures
            count == total_aggregates(self@[context.service_name@]),
    {
        let slot = self.find(&context.service_name).unwrap();
        let ids = distinct_aggregates(&self.tables[slot].rows);
        proof {
            ids@.unique_seq_to_set();
        }
        ids.len() as u64
    }

    /// The number of events of one aggregate of the service.
    pub fn total_events_for_aggregate(&self, context: StoreContext, aggregate_id: u128) -> (count: u64)
        requires
            self.wf(),
            self@.contains_key(context.service_name@),
        ensures
            count == total_events_for_aggregate(self@[context.service_name@], aggregate_id),
    {
        let slot = self.find(&context.service_name).unwrap();
        count_of_aggregate(&self.tables[slot].rows, aggregate_id) as u64
    }

    /// The number of events of the service.
    pub fn total_events(&self, context: StoreContext) -> (count: u64)
        requires
            self.wf(),
            self@.contains_key(context.service_name@),
        ensures
            count == total_events(self@[context.service_name@]),
    {
        let slot = self.find(&context.service_name).unwrap();
        self.tables[slot].rows.len() as u64
    }

    /// Appends a batch to the table of the context's service, all of it or
    /// nothing.
    ///
    /// The write follows the append protocol step by step against the table
    /// in memory: the events are checked in the caller's order, each against
    /// the rows of the table and the events before it, and only the commit
    /// makes them rows. No other service is touched.
    pub fn save_events(&mut self, context: StoreContext, events: Vec<Event<D, M>>) -> (saved: Result<
        SaveEventsResult,
        StoreError,
    >)
        requires
            old(self).wf(),
            old(self)@.contains_key(context.service_name@),
        ensures
            final(self).wf(),
            final(self)@.contains_key(context.service_name@),
            final(self)@ == old(self)@.insert(
                context.service_name@,
                final(self)@[context.service_name@],
            ),
            is_append_result(
                old(self)@[context.service_name@],
                events@,
                saved,
                final(self)@[context.service_name@],
            ),
    {
        let ghost before = *self;
        let ghost name = context.service_name@;
        let ghost rows = self@[name];
        let ghost batch = events@;
        let slot = self.find(&context.service_name).unwrap();
        let mut staged = events;
        let (mut plan, mut command) = AppendPlan::start(context.service_name.as_str(), staged.len());
        loop
            invariant
                before == *old(self),
                name == context.service_name@,
                batch == events@,
                before.wf(),
                before@.contains_key(name),
                before@[name] == rows,
                keys_unique(rows),
                slot < before.tables@.len(),
                before.tables@[slot as int].name@ == name,
                before.tables@[slot as int].rows@ == rows,
                plan.total() == batch.len(),
                plan.service_name() == name,
                plan.stage() matches AppendStage::Inserting(index) ==> index < batch.len(),
                plan.stage() != AppendStage::Finished ==> {
                    &&& batch.len() > 0
                    &&& *self == before
                    &&& staged@ == batch
                    &&& is_command_on_entering(command, plan.stage(), name)
                    &&& forall|position: int|
                        0 <= position < accepted(plan.stage(), plan.total())
                            ==> !conflicts_at(rows, batch, position)
                },
                plan.stage() == AppendStage::Finished ==> {
                    &&& self.wf()
                    &&& self@.contains_key(name)
                    &&& self@ == before@.insert(name, self@[name])
                    &&& command matches AppendCommand::Finish(saved) && is_append_result(
                        rows,
                        batch,
                        saved,
                        self@[name],
                    )
                },
            decreases steps_left(plan.stage(), plan.total()),
        {
            let outcome = match command {
                AppendCommand::Begin => Outcome::Completed,
                AppendCommand::Prepare(_) => Outcome::Completed,
                AppendCommand::Insert(index) => {
                    let aggregate_id = staged[index].aggregate_id;
                    let event_id = staged[index].event_id;
                    let table = &self.tables[slot].rows;
                    proof {
                        assert(table@.take(table@.len() as int) =~= table@);
                        lemma_holds_key_of_concatenation(
                            rows,
                            batch.take(index as int),
                            (aggregate_id, event_id),
                        );
                    }
                    if key_in_prefix(table, table.len(), aggregate_id, event_id) || key_in_prefix(
                        &staged,
                        index,
                        aggregate_id,
                        event_id,
                    ) {
                        Outcome::KeyTaken(BackendError::duplicate_key())
                    } else {
                        Outcome::Completed
                    }
                },
                AppendCommand::Commit => {
                    let mut table = self.tables.remove(slot);
                    table.rows.append(&mut staged);
                    self.tables.insert(slot, table);
                    proof {
                        lemma_accepted_batch_keeps_keys_unique(rows, batch);
                        before.lemma_replaced_rows(*self, slot as int, rows + batch);
                    }
                    Outcome::Completed
                },
                AppendCommand::Finish(saved) => {
                    return saved;
                },
            };
            command = plan.advance(outcome);
        }
    }

    /// A store that differs from this one in the rows of one table only
    /// differs in its view at that table's service only.
    proof fn lemma_replaced_rows(self, other: Self, slot: int, rows: Seq<Event<D, M>>)
        requires
            self.wf(),
            0 <= slot < self.tables@.len(),
            other.tables@.len() == self.tables@.len(),
            forall|i: int|
                0 <= i < self.tables@.len() ==> (#[trigger] other.tables@[i]).name@
                    == self.tables@[i].name@,
            forall|i: int|
                0 <= i < self.tables@.len() && i != slot ==> (#[trigger] other.tables@[i]).rows@
                    == self.tables@[i].rows@,
            other.tables@[slot].rows@ == rows,
            keys_unique(rows),
        ensures
            other.wf(),
            other@.contains_key(self.tables@[slot].name@),
            other@[self.tables@[slot].name@] == rows,
            other@ == self@.insert(self.tables@[slot].name@, rows),
    {
        let name = self.tables@[slot].name@;
        assert forall|service: Seq<char>| self.provisioned(service) <==> other.provisioned(
            service,
        ) by {
            if self.provisioned(service) {
                let i = self.slot_of(service);
                assert(other.tables@[i].name@ == service);
            }
            if other.provisioned(service) {
                let i = other.slot_of(service);
                assert(self.tables@[i].name@ == service);
            }
        }
        assert(self.tables@[slot].name@ == name);
        assert(self.provisioned(name));
        assert forall|service: Seq<char>| other.provisioned(service) implies #[trigger] other@[service]
            == self@.insert(name, rows)[service] by {
            let i = other.slot_of(service);
            let j = self.slot_of(service);
            assert(other.tables@[j].name@ == service);
            assert(self.tables@[i].name@ == service);
            assert(i == j);
            if service == name {
                assert(other.tables@[slot].name@ == service);
                assert(i == slot);
            }
        }
        assert(other@ =~= self@.insert(name, rows));
    }
}

/// The number of commands that a plan at `stage` still hands out when none
/// of them fails.
spec fn steps_left(stage: AppendStage, total: usize) -> int {
    match stage {
        AppendStage::Beginning => total + 4,
        AppendStage::Preparing => total + 3,
        AppendStage::Inserting(index) => total + 2 - index,
        AppendStage::Committing => 1,
        AppendStage::Finished => 0,
    }
}

} // verus!
