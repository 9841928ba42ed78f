//! The task store: tasks in a stable map, identifiers from a stable counter.

use crate::error::{Error, ErrorView};
use crate::model::{
    asks_for, created, is_listing_of, lists, outcome_view, storable, views, StoreView,
};
use crate::record::{fits_record, parse_record};
use crate::storage::{
    cell_get, cell_set, cell_value, lists_entries, map_clear, map_entries,
    map_entries_in_order, map_get, map_insert, map_remove, IdCell, RecordMap,
};
use crate::task::{Task, TaskPayload, TaskView};
use vstd::prelude::*;

verus! {

/// Whether `bytes`, stored under `id`, is the record of a task that may be
/// stored there when the next identifier is `next_id`.
pub open spec fn valid_entry(id: u64, bytes: Seq<u8>, next_id: u64) -> bool {
    parse_record(bytes) matches Some(task) && storable(task, id, next_id)
}

/// Whether a map of records and a counter make up the state of a store.
pub open spec fn consistent(entries: Map<u64, Seq<u8>>, next_id: u64) -> bool {
    forall|id: u64| #[trigger] entries.contains_key(id) ==> valid_entry(id, entries[id], next_id)
}

/// The tasks that a map of records holds.
pub open spec fn decoded(entries: Map<u64, Seq<u8>>) -> Map<u64, TaskView> {
    Map::new(|id: u64| entries.contains_key(id), |id: u64| parse_record(entries[id]).unwrap())
}

/// Whether every one of `entries` is valid when the next identifier is
/// `next_id`.
pub fn entries_consistent(entries: &Vec<(u64, Vec<u8>)>, next_id: u64) -> (ok: bool)
    ensures
        ok == forall|i: int|
            0 <= i < entries@.len() ==> valid_entry(
                (#[trigger] entries@[i]).0,
                entries@[i].1@,
                next_id,
            ),
{
    let mut at: usize = 0;
    while at < entries.len()
        invariant
            at <= entries@.len(),
            forall|i: int|
                0 <= i < at ==> valid_entry((#[trigger] entries@[i]).0, entries@[i].1@, next_id),
        decreases entries@.len() - at,
    {
        let id = entries[at].0;
        let valid = match Task::from_bytes(entries[at].1.as_slice()) {
            Some(task) => task.id == id && id < next_id && (!task.completed_late
                || task.completed) && fits_record(&task.owner, &task.title, &task.description),
            None => false,
        };
        if !valid {
            assert(!valid_entry(entries@[at as int].0, entries@[at as int].1@, next_id));
            return false;
        }
        at += 1;
    }
    true
}

/// The tasks that a request asks for among those whose records `entries`
/// holds, in the order of `entries`. An entry that is no record is passed
/// over.
pub open spec fn selected(entries: Seq<(u64, Vec<u8>)>, only_completed: bool) -> Seq<TaskView>
    decreases entries.len(),
{
    if entries.len() == 0 {
        Seq::empty()
    } else {
        let before = selected(entries.drop_last(), only_completed);
        match parse_record(entries.last().1@) {
            Some(task) => if asks_for(task, only_completed) {
                before.push(task)
            } else {
                before
            },
            None => before,
        }
    }
}

/// Decodes the records of `entries` and keeps the tasks that a request asks
/// for: all of them, or the completed ones if `only_completed`.
pub fn select_tasks(entries: &Vec<(u64, Vec<u8>)>, only_completed: bool) -> (listing: Vec<Task>)
    ensures
        views(listing@) == selected(entries@, only_completed),
{
    let mut listing: Vec<Task> = Vec::new();
    let mut at: usize = 0;
    assert(entries@.take(0) =~= Seq::empty());
    assert(views(listing@) =~= Seq::empty());
    while at < entries.len()
        invariant
            at <= entries@.len(),
            views(listing@) == selected(entries@.take(at as int), only_completed),
        decreases entries@.len() - at,
    {
        let ghost before = listing@;
        assert(entries@.take(at + 1).drop_last() =~= entries@.take(at as int));
        match Task::from_bytes(entries[at].1.as_slice()) {
            Some(task) => {
                if !only_completed || task.completed {
                    listing.push(task);
                    assert(views(listing@) =~= views(before).push(task@));
                }
            },
            None => {},
        }
        at += 1;
    }
    assert(entries@.take(at as int) =~= entries@);
    listing
}

/// The tasks selected from the first `upto` entries of a listing of the
/// records of a store are the tasks asked for among those entries, by rising
/// identifier.
proof fn lemma_selected_prefix(
    entries: Seq<(u64, Vec<u8>)>,
    upto: int,
    records: Map<u64, Seq<u8>>,
    next_id: u64,
    only_completed: bool,
)
    requires
        lists_entries(entries, records),
        consistent(records, next_id),
        0 <= upto <= entries.len(),
    ensures
        ({
            let listing = selected(entries.take(upto), only_completed);
            &&& forall|i: int|
                0 <= i < listing.len() ==> {
                    &&& records.contains_key((#[trigger] listing[i]).id)
                    &&& parse_record(records[listing[i].id]) == Some(listing[i])
                    &&& asks_for(listing[i], only_completed)
                    &&& upto > 0
                    &&& listing[i].id <= entries[upto - 1].0
                }
            &&& forall|i: int, j: int|
                0 <= i < j < listing.len() ==> (#[trigger] listing[i]).id < (
                #[trigger] listing[j]).id
            &&& forall|k: int|
                0 <= k < upto && asks_for(
                    parse_record((#[trigger] entries[k]).1@).unwrap(),
                    only_completed,
                ) ==> exists|i: int|
                    0 <= i < listing.len() && (#[trigger] listing[i]).id == entries[k].0
        }),
    decreases upto,
{
    if upto > 0 {
        lemma_selected_prefix(entries, upto - 1, records, next_id, only_completed);
        let before = selected(entries.take(upto - 1), only_completed);
        let listing = selected(entries.take(upto), only_completed);
        let last = entries[upto - 1];
        assert(entries.take(upto).drop_last() =~= entries.take(upto - 1));
        assert(entries.take(upto).last() == last);
        assert(records.contains_key(last.0));
        assert(valid_entry(last.0, records[last.0], next_id));
        let task = parse_record(last.1@).unwrap();
        assert(task.id == last.0);
        if upto > 1 {
            assert(entries[upto - 2].0 < entries[upto - 1].0);
        }
        assert forall|k: int|
            0 <= k < upto && asks_for(
                parse_record((#[trigger] entries[k]).1@).unwrap(),
                only_completed,
            ) implies exists|i: int|
            0 <= i < listing.len() && (#[trigger] listing[i]).id == entries[k].0 by {
            if k < upto - 1 {
                let i = choose|i: int|
                    0 <= i < before.len() && (#[trigger] before[i]).id == entries[k].0;
                assert(listing[i].id == entries[k].0);
            } else {
                assert(listing[listing.len() - 1].id == entries[k].0);
            }
        }
    }
}

/// The tasks selected from a listing of the records of a store are the tasks
/// of the store that were asked for, by rising identifier.
proof fn lemma_selected_lists(
    entries: Seq<(u64, Vec<u8>)>,
    records: Map<u64, Seq<u8>>,
    next_id: u64,
    only_completed: bool,
)
    requires
        lists_entries(entries, records),
        consistent(records, next_id),
    ensures
        lists(selected(entries, only_completed), decoded(records), only_completed),
{
    lemma_selected_prefix(entries, entries.len() as int, records, next_id, only_completed);
    assert(entries.take(entries.len() as int) =~= entries);
    let listing = selected(entries, only_completed);
    let tasks = decoded(records);
    assert forall|id: u64|
        #[trigger] tasks.contains_key(id) && asks_for(tasks[id], only_completed) implies exists|
        i: int,
    | 0 <= i < listing.len() && (#[trigger] listing[i]).id == id by {
        let k = choose|k: int| 0 <= k < entries.len() && (#[trigger] entries[k]).0 == id;
        assert(asks_for(parse_record(entries[k].1@).unwrap(), only_completed));
    }
}

/// A store of tasks in stable memory.
///
/// A store is made of a map of records and a cell that counts identifiers.
/// Whoever starts the program opens the two, each in a memory of its own, and
/// hands them to [`TaskStore::from_parts`], which takes up the store that
/// they hold, or to [`TaskStore::reset`], which starts an empty one.
///
/// The state of a store is a [`StoreView`], which `store@` denotes. Every
/// request is proved to give what the function of that name in
/// [`crate::model`] gives for this state, and to leave the state that the
/// model says it leaves.
///
/// The store does not find out who calls or what time it is: the caller and
/// the time are arguments of each request that depends on them.
pub struct TaskStore {
    records: RecordMap,
    counter: IdCell,
}

impl View for TaskStore {
    type V = StoreView;

    closed spec fn view(&self) -> StoreView {
        StoreView {
            tasks: decoded(map_entries(self.records)),
            next_id: cell_value(self.counter),
        }
    }
}

impl TaskStore {
    /// Whether the store is in order. Every store that this crate hands out
    /// is, and every request leaves it so.
    pub closed spec fn wf(&self) -> bool {
        consistent(map_entries(self.records), cell_value(self.counter))
    }

    /// The state of a store that is in order is well formed.
    pub proof fn lemma_wf_view(&self)
        requires
            self.wf(),
        ensures
            self@.wf(),
    {
    }

    /// The empty store in `records` and `counter`: what they held is gone,
    /// and identifiers start at zero again.
    pub fn reset(records: RecordMap, counter: IdCell) -> (store: TaskStore)
        ensures
            store.wf(),
            store@ == StoreView::empty(),
    {
        let mut records = records;
        let mut counter = counter;
        map_clear(&mut records);
        cell_set(&mut counter, 0);
        let store = TaskStore { records, counter };
        assert(store@.tasks =~= Map::empty());
        store
    }

    /// The store that `records` and `counter` hold, if they hold one: that
    /// is, if they are consistent. A map and a cell that were opened in blank
    /// memories, the cell with zero, hold the empty store.
    pub fn from_parts(records: RecordMap, counter: IdCell) -> (store: Option<TaskStore>)
        ensures
            store is Some <==> consistent(map_entries(records), cell_value(counter)),
            store matches Some(made) ==> made.wf() && made@ == (StoreView {
                tasks: decoded(map_entries(records)),
                next_id: cell_value(counter),
            }),
    {
        let entries = map_entries_in_order(&records);
        let next_id = cell_get(&counter);
        if entries_consistent(&entries, next_id) {
            assert forall|id: u64| #[trigger]
                map_entries(records).contains_key(id) implies valid_entry(
                id,
                map_entries(records)[id],
                next_id,
            ) by {
                let i = choose|i: int|
                    0 <= i < entries@.len() && (#[trigger] entries@[i]).0 == id;
                assert(valid_entry(entries@[i].0, entries@[i].1@, next_id));
            }
            Some(TaskStore { records, counter })
        } else {
            None
        }
    }

    /// The identifier that the next new task gets.
    pub fn next_id(&self) -> (id: u64)
        ensures
            id == self@.next_id,
    {
        cell_get(&self.counter)
    }

    /// Hands out the next identifier.
    fn allocate_id(&mut self) -> (id: u64)
        requires
            old(self).wf(),
            old(self)@.next_id < u64::MAX,
        ensures
            final(self).wf(),
            id == old(self)@.next_id,
            final(self)@ == (StoreView { next_id: (id + 1) as u64, ..old(self)@ }),
    {
        let id = cell_get(&self.counter);
        cell_set(&mut self.counter, id + 1);
        id
    }

    /// The task stored under `id`, if there is one.
    fn _get_task(&self, id: &u64) -> (found: Option<Task>)
        requires
            self.wf(),
        ensures
            match found {
                Some(task) => self@.tasks.contains_key(*id) && self@.tasks[*id] == task@,
                None => !self@.tasks.contains_key(*id),
            },
    {
        match map_get(&self.records, *id) {
            Some(bytes) => Task::from_bytes(bytes.as_slice()),
            None => None,
        }
    }

    /// Stores `task` under its identifier, in place of what was there.
    fn do_insert(&mut self, task: &Task)
        requires
            old(self).wf(),
            storable(task@, task.id, old(self)@.next_id),
        ensures
            final(self).wf(),
            final(self)@ == (StoreView {
                tasks: old(self)@.tasks.insert(task.id, task@),
                ..old(self)@
            }),
    {
        map_insert(&mut self.records, task.id, task.to_bytes());
        assert(self@.tasks =~= old(self)@.tasks.insert(task.id, task@));
    }

    /// The tasks of the store by rising identifier: all of them, or the
    /// completed ones if `only_completed`.
    fn list_tasks(&self, only_completed: bool) -> (listing: Vec<Task>)
        requires
            self.wf(),
        ensures
            lists(views(listing@), self@.tasks, only_completed),
    {
        let entries = map_entries_in_order(&self.records);
        let listing = select_tasks(&entries, only_completed);
        proof {
            lemma_selected_lists(
                entries@,
                map_entries(self.records),
                cell_value(self.counter),
                only_completed,
            );
        }
        listing
    }

    /// The task with identifier `id`.
    pub fn get_task(&self, id: u64) -> (outcome: Result<Task, Error>)
        requires
            self.wf(),
        ensures
            outcome_view(outcome) == self@.get(id),
    {
        match self._get_task(&id) {
            Some(task) => Ok(task),
            None => Err(Error::task_not_found(id)),
        }
    }

    /// The completed tasks, by rising identifier. That there are none is an
    /// error.
    pub fn get_completed_tasks(&self) -> (outcome: Result<Vec<Task>, Error>)
        requires
            self.wf(),
        ensures
            is_listing_of(outcome, self@, true),
    {
        let listing = self.list_tasks(true);
        proof {
            if listing@.len() > 0 {
                assert(self@.tasks.contains_key(views(listing@)[0].id));
            }
        }
        if listing.is_empty() {
            Err(Error::no_completed_tasks())
        } else {
            Ok(listing)
        }
    }

    /// All tasks, by rising identifier. That there are none is an error.
    pub fn get_all_tasks(&self) -> (outcome: Result<Vec<Task>, Error>)
        requires
            self.wf(),
        ensures
            is_listing_of(outcome, self@, false),
    {
        let listing = self.list_tasks(false);
        proof {
            if listing@.len() > 0 {
                assert(self@.tasks.contains_key(views(listing@)[0].id));
            }
        }
        if listing.is_empty() {
            Err(Error::no_tasks())
        } else {
            Ok(listing)
        }
    }

    /// Whether `caller` may create a task from `payload`: an identifier is
    /// left, and the record is not too large.
    pub fn can_add(&self, payload: &TaskPayload, caller: &String) -> (ok: bool)
        ensures
            ok == self@.can_add(payload@, caller@),
    {
        cell_get(&self.counter) < u64::MAX && fits_record(
            caller,
            &payload.title,
            &payload.description,
        )
    }

    /// Whether `caller` may ask to replace the payload of task `id` by
    /// `payload`: if the request is granted, the record is not too large.
    pub fn can_update(&self, id: u64, payload: &TaskPayload, caller: &String) -> (ok: bool)
        requires
            self.wf(),
        ensures
            ok == self@.can_update(id, payload@, caller@),
    {
        match self._get_task(&id) {
            Some(task) => task.owner != *caller || fits_record(
                caller,
                &payload.title,
                &payload.description,
            ),
            None => true,
        }
    }

    /// Creates a task from `payload`, owned by `caller`, at time `now`.
    pub fn add_task(&mut self, payload: TaskPayload, caller: String, now: u64) -> (task: Task)
        requires
            old(self).wf(),
            old(self)@.can_add(payload@, caller@),
        ensures
            final(self).wf(),
            task@ == created(old(self)@.next_id, payload@, caller@, now),
            final(self)@ == old(self)@.add(payload@, caller@, now),
            task.id == old(self)@.next_id,
            final(self)@.next_id == task.id + 1,
            final(self)@.get(task.id) == Ok::<TaskView, ErrorView>(task@),
    {
        let id = self.allocate_id();
        let task = Task {
            owner: caller,
            id,
            title: payload.title,
            description: payload.description,
            completed: false,
            created_at: now,
            updated_at: None,
            deadline: payload.deadline,
            completed_late: false,
        };
        self.do_insert(&task);
        task
    }

    /// Replaces the payload of task `id` by `payload`, at time `now`, if
    /// `caller` owns the task.
    pub fn update_task(
        &mut self,
        id: u64,
        payload: TaskPayload,
        caller: &String,
        now: u64,
    ) -> (outcome: Result<Task, Error>)
        requires
            old(self).wf(),
            old(self)@.can_update(id, payload@, caller@),
        ensures
            final(self).wf(),
            outcome_view(outcome) == old(self)@.update_outcome(id, payload@, caller@, now),
            final(self)@ == old(self)@.update(id, payload@, caller@, now),
            final(self)@.next_id == old(self)@.next_id,
    {
        match self._get_task(&id) {
            Some(task) => {
                if task.owner != *caller {
                    return Err(Error::not_authorized("update", id, caller));
                }
                let updated_task = Task {
                    owner: task.owner,
                    id: task.id,
                    title: payload.title,
                    description: payload.description,
                    completed: task.completed,
                    created_at: task.created_at,
                    updated_at: Some(now),
                    deadline: payload.deadline,
                    completed_late: task.completed_late,
                };
                proof {
                    self.lemma_wf_view();
                }
                self.do_insert(&updated_task);
                Ok(updated_task)
            },
            None => Err(Error::task_not_found(id)),
        }
    }

    /// Completes task `id` at time `now`, if `caller` owns the task and it is
    /// not completed yet.
    pub fn complete_task(&mut self, id: u64, caller: &String, now: u64) -> (outcome: Result<
        Task,
        Error,
    >)
        requires
            old(self).wf(),
        ensures
            final(self).wf(),
            outcome_view(outcome) == old(self)@.complete_outcome(id, caller@, now),
            final(self)@ == old(self)@.complete(id, caller@, now),
            final(self)@.next_id == old(self)@.next_id,
    {
        match self._get_task(&id) {
            Some(task) => {
                if task.owner != *caller {
                    return Err(Error::not_authorized("complete", id, caller));
                }
                if task.completed {
                    return Err(Error::already_completed());
                }
                let late = match task.deadline {
                    Some(deadline) => now > deadline,
                    None => false,
                };
                let completed_task = Task {
                    owner: task.owner,
                    id: task.id,
                    title: task.title,
                    description: task.description,
                    completed: true,
                    created_at: task.created_at,
                    updated_at: Some(now),
                    deadline: task.deadline,
                    completed_late: task.completed_late || late,
                };
                proof {
                    self.lemma_wf_view();
                }
                self.do_insert(&completed_task);
                Ok(completed_task)
            },
            None => Err(Error::task_not_found(id)),
        }
    }

    /// Deletes task `id`, if `caller` owns the task.
    pub fn delete_task(&mut self, id: u64, caller: &String) -> (outcome: Result<Task, Error>)
        requires
            old(self).wf(),
        ensures
            final(self).wf(),
            outcome_view(outcome) == old(self)@.delete_outcome(id, caller@),
            final(self)@ == old(self)@.delete(id, caller@),
            final(self)@.next_id == old(self)@.next_id,
    {
        match self._get_task(&id) {
            Some(task) => {
                if task.owner != *caller {
                    return Err(Error::not_authorized("delete", id, caller));
                }
                map_remove(&mut self.records, id);
                assert(self@.tasks =~= old(self)@.tasks.remove(id));
                Ok(task)
            },
            None => Err(Error::task_not_found(id)),
        }
    }
}

} // verus!
