//! What holds of the task service whatever is asked of it.
//!
//! The laws are stated over [`StoreView`], the state of a store, and over the
//! functions of the model that the requests of the executable store are
//! proved to follow.

use crate::error::{already_completed, not_authorized, task_not_found, ErrorView};
use crate::model::{asks_for, completed, created, lists, StoreView};
use crate::task::{PayloadView, TaskView};
use vstd::prelude::*;

verus! {

/// A request that changes a store.
pub enum Request {
    Add { payload: PayloadView, caller: Seq<char>, now: u64 },
    Update { id: u64, payload: PayloadView, caller: Seq<char>, now: u64 },
    Complete { id: u64, caller: Seq<char>, now: u64 },
    Delete { id: u64, caller: Seq<char> },
}

impl StoreView {
    /// Whether the store takes `request`: what the function that serves the
    /// request asks of its arguments.
    pub open spec fn admits(self, request: Request) -> bool {
        match request {
            Request::Add { payload, caller, .. } => self.can_add(payload, caller),
            Request::Update { id, payload, caller, .. } => self.can_update(id, payload, caller),
            Request::Complete { .. } => true,
            Request::Delete { .. } => true,
        }
    }

    /// The state after `request`.
    pub open spec fn after(self, request: Request) -> StoreView {
        match request {
            Request::Add { payload, caller, now } => self.add(payload, caller, now),
            Request::Update { id, payload, caller, now } => self.update(id, payload, caller, now),
            Request::Complete { id, caller, now } => self.complete(id, caller, now),
            Request::Delete { id, caller } => self.delete(id, caller),
        }
    }

    /// The state after `requests`, served one after the other.
    pub open spec fn after_all(self, requests: Seq<Request>) -> StoreView
        decreases requests.len(),
    {
        if requests.len() == 0 {
            self
        } else {
            self.after_all(requests.drop_last()).after(requests.last())
        }
    }

    /// Whether the store takes each of `requests` when its turn comes.
    pub open spec fn admits_all(self, requests: Seq<Request>) -> bool
        decreases requests.len(),
    {
        requests.len() > 0 ==> self.admits_all(requests.drop_last()) && self.after_all(
            requests.drop_last(),
        ).admits(requests.last())
    }

    /// The identifiers that the new tasks get while `requests` are served, in
    /// the order in which they are handed out.
    pub open spec fn issued(self, requests: Seq<Request>) -> Seq<u64>
        decreases requests.len(),
    {
        if requests.len() == 0 {
            Seq::empty()
        } else {
            let before = self.issued(requests.drop_last());
            match requests.last() {
                Request::Add { .. } => before.push(self.after_all(requests.drop_last()).next_id),
                _ => before,
            }
        }
    }
}

/// A request leaves a store in order.
pub proof fn law_requests_keep_order(state: StoreView, request: Request)
    requires
        state.wf(),
        state.admits(request),
    ensures
        state.after(request).wf(),
{
}

/// Whatever is asked of a store that is in order, it stays in order.
pub proof fn law_store_stays_in_order(state: StoreView, requests: Seq<Request>)
    requires
        state.wf(),
        state.admits_all(requests),
    ensures
        state.after_all(requests).wf(),
    decreases requests.len(),
{
    if requests.len() > 0 {
        law_store_stays_in_order(state, requests.drop_last());
        law_requests_keep_order(state.after_all(requests.drop_last()), requests.last());
    }
}

/// The number of creations among `requests`.
pub open spec fn creations(requests: Seq<Request>) -> nat
    decreases requests.len(),
{
    if requests.len() == 0 {
        0
    } else if requests.last() is Add {
        creations(requests.drop_last()) + 1
    } else {
        creations(requests.drop_last())
    }
}

/// No request but the creation of a task changes the next identifier, and a
/// creation moves it on by one as long as there is an identifier left.
pub proof fn law_next_identifier(state: StoreView, request: Request)
    requires
        request is Add ==> state.next_id < u64::MAX,
    ensures
        state.after(request).next_id == if request is Add {
            state.next_id + 1
        } else {
            state.next_id as int
        },
{
}

/// Whatever is asked of a store, creations, updates, completions and
/// deletions in any order, the identifiers that it hands out rise strictly,
/// as long as there are identifiers left: none comes twice, and none is one
/// that the store handed out before, whether the task that had it still
/// exists or was deleted. Each creation uses up one identifier, and nothing
/// else does.
pub proof fn law_identifiers_rise(state: StoreView, requests: Seq<Request>)
    requires
        state.next_id + creations(requests) <= u64::MAX,
    ensures
        state.after_all(requests).next_id == state.next_id + creations(requests),
        state.issued(requests).len() == creations(requests),
        forall|i: int|
            0 <= i < state.issued(requests).len() ==> state.next_id <= #[trigger] state.issued(
                requests,
            )[i] < state.after_all(requests).next_id,
        forall|i: int, j: int|
            0 <= i < j < state.issued(requests).len() ==> #[trigger] state.issued(requests)[i]
                < #[trigger] state.issued(requests)[j],
    decreases requests.len(),
{
    if requests.len() > 0 {
        let earlier = requests.drop_last();
        law_identifiers_rise(state, earlier);
        law_next_identifier(state.after_all(earlier), requests.last());
        let before = state.issued(earlier);
        let all = state.issued(requests);
        assert forall|i: int| 0 <= i < all.len() implies state.next_id <= #[trigger] all[i]
            < state.after_all(requests).next_id by {
            if i < before.len() {
                assert(all[i] == before[i]);
            }
        }
        assert forall|i: int, j: int| 0 <= i < j < all.len() implies #[trigger] all[i]
            < #[trigger] all[j] by {
            assert(all[i] == before[i]);
            if j < before.len() {
                assert(all[j] == before[j]);
            }
        }
    }
}

/// The identifier of a task of the store is not handed out again, whatever is
/// asked of the store, as long as there are identifiers left: not while the
/// task exists, and not after it was deleted.
pub proof fn law_identifier_is_not_reused(state: StoreView, id: u64, requests: Seq<Request>)
    requires
        state.wf(),
        state.tasks.contains_key(id),
        state.next_id + creations(requests) <= u64::MAX,
    ensures
        forall|i: int|
            0 <= i < state.issued(requests).len() ==> #[trigger] state.issued(requests)[i] != id,
{
    law_identifiers_rise(state, requests);
}

/// A task that was just created can be read back as it was given, not
/// completed, not late and never updated.
pub proof fn law_created_task_is_stored(
    state: StoreView,
    payload: PayloadView,
    caller: Seq<char>,
    now: u64,
)
    ensures
        state.add(payload, caller, now).get(state.next_id) == Ok::<TaskView, ErrorView>(
            created(state.next_id, payload, caller, now),
        ),
        created(state.next_id, payload, caller, now) == (TaskView {
            owner: caller,
            id: state.next_id,
            title: payload.title,
            description: payload.description,
            completed: false,
            created_at: now,
            updated_at: None,
            deadline: payload.deadline,
            completed_late: false,
        }),
{
}

/// An update by anyone but the owner is turned down as not authorized and
/// changes nothing: the task reads as before.
pub proof fn law_update_needs_owner(
    state: StoreView,
    id: u64,
    payload: PayloadView,
    caller: Seq<char>,
    now: u64,
)
    requires
        state.tasks.contains_key(id),
        state.tasks[id].owner != caller,
    ensures
        state.update_outcome(id, payload, caller, now) == Err::<TaskView, ErrorView>(
            not_authorized("update"@, id, caller),
        ),
        state.update(id, payload, caller, now) == state,
        state.update(id, payload, caller, now).get(id) == state.get(id),
{
}

/// No request that is turned down changes the store.
pub proof fn law_failure_changes_nothing(state: StoreView, request: Request)
    ensures
        match request {
            Request::Add { .. } => true,
            Request::Update { id, payload, caller, now } => state.update_outcome(
                id,
                payload,
                caller,
                now,
            ) is Err ==> state.after(request) == state,
            Request::Complete { id, caller, now } => state.complete_outcome(id, caller, now)
                is Err ==> state.after(request) == state,
            Request::Delete { id, caller } => state.delete_outcome(id, caller) is Err
                ==> state.after(request) == state,
        },
{
}

/// When its owner completes an open task, the task is stored as completed,
/// and as completed late exactly if it has a deadline that is before the time
/// of completion.
pub proof fn law_completion_marks_late(state: StoreView, id: u64, caller: Seq<char>, now: u64)
    requires
        state.wf(),
        state.tasks.contains_key(id),
        state.tasks[id].owner == caller,
        !state.tasks[id].completed,
    ensures
        state.complete_outcome(id, caller, now) == Ok::<TaskView, ErrorView>(
            completed(state.tasks[id], now),
        ),
        state.complete(id, caller, now).get(id) == state.complete_outcome(id, caller, now),
        completed(state.tasks[id], now).completed,
        completed(state.tasks[id], now).completed_late == match state.tasks[id].deadline {
            Some(deadline) => deadline < now,
            None => false,
        },
{
}

/// A task is completed once: when its owner asks again, at whatever time, the
/// request is turned down as invalid, and the task stays as it was.
pub proof fn law_completion_happens_once(
    state: StoreView,
    id: u64,
    caller: Seq<char>,
    now: u64,
    later: u64,
)
    requires
        state.complete_outcome(id, caller, now) is Ok,
    ensures
        state.complete(id, caller, now).complete_outcome(id, caller, later) == Err::<
            TaskView,
            ErrorView,
        >(already_completed()),
        state.complete(id, caller, now).complete(id, caller, later) == state.complete(
            id,
            caller,
            now,
        ),
{
}

/// Whoever is not the owner is told so, whether or not the task is completed.
pub proof fn law_completion_checks_owner_first(
    state: StoreView,
    id: u64,
    caller: Seq<char>,
    now: u64,
)
    requires
        state.tasks.contains_key(id),
        state.tasks[id].owner != caller,
    ensures
        state.complete_outcome(id, caller, now) == Err::<TaskView, ErrorView>(
            not_authorized("complete"@, id, caller),
        ),
{
}

/// A task that was deleted is gone: asking for it gives the error that says
/// that it was not found, and its identifier is not handed out again.
pub proof fn law_deleted_task_is_gone(state: StoreView, id: u64, caller: Seq<char>)
    requires
        state.delete_outcome(id, caller) is Ok,
    ensures
        state.delete_outcome(id, caller) == Ok::<TaskView, ErrorView>(state.tasks[id]),
        state.delete(id, caller).get(id) == Err::<TaskView, ErrorView>(task_not_found(id)),
        state.delete(id, caller).next_id == state.next_id,
{
}

/// The identifier that the next new task gets belongs to no task of the
/// store, so a creation replaces nothing.
pub proof fn law_next_identifier_is_unused(state: StoreView)
    requires
        state.wf(),
    ensures
        !state.tasks.contains_key(state.next_id),
{
}

/// Whatever is asked of a store, a task that is still there afterwards has
/// the owner, the identifier and the time of creation that it had before.
pub proof fn law_identity_is_written_once(state: StoreView, request: Request, id: u64)
    requires
        state.wf(),
        state.tasks.contains_key(id),
        state.after(request).tasks.contains_key(id),
    ensures
        state.after(request).tasks[id].owner == state.tasks[id].owner,
        state.after(request).tasks[id].id == state.tasks[id].id,
        state.after(request).tasks[id].created_at == state.tasks[id].created_at,
{
}

/// Whatever is asked of a store, a completed task that is still there
/// afterwards is still completed, and late exactly if it was late before.
pub proof fn law_completion_is_final(state: StoreView, request: Request, id: u64)
    requires
        state.wf(),
        state.tasks.contains_key(id),
        state.tasks[id].completed,
        state.after(request).tasks.contains_key(id),
    ensures
        state.after(request).tasks[id].completed,
        state.after(request).tasks[id].completed_late == state.tasks[id].completed_late,
{
}

/// A request changes no task but the one it names.
pub proof fn law_other_tasks_are_untouched(state: StoreView, request: Request, other: u64)
    requires
        state.wf(),
        match request {
            Request::Add { .. } => true,
            Request::Update { id, .. } => id != other,
            Request::Complete { id, .. } => id != other,
            Request::Delete { id, .. } => id != other,
        },
    ensures
        state.tasks.contains_key(other) ==> state.after(request).get(other) == state.get(other),
        !(request is Add) ==> state.after(request).get(other) == state.get(other),
{
}

/// An empty store has no tasks to list. After its first task was created, the
/// list of all tasks is that task alone and there is still no completed task;
/// once the owner completed it, the list of completed tasks is that task
/// alone.
pub proof fn law_first_task_is_listed(payload: PayloadView, caller: Seq<char>, now: u64, then: u64)
    ensures
        !StoreView::empty().has_any(false),
        !StoreView::empty().has_any(true),
        ({
            let one = StoreView::empty().add(payload, caller, now);
            let task = created(0, payload, caller, now);
            let done = one.complete(0, caller, then);
            &&& lists(seq![task], one.tasks, false)
            &&& !one.has_any(true)
            &&& done.has_any(true)
            &&& lists(seq![completed(task, then)], done.tasks, true)
            &&& lists(seq![completed(task, then)], done.tasks, false)
        }),
{
    let one = StoreView::empty().add(payload, caller, now);
    let task = created(0, payload, caller, now);
    let done = one.complete(0, caller, then);
    assert(one.tasks.contains_key(0));
    assert(seq![task][0] == task);
    assert(done.tasks.contains_key(0));
    assert(seq![completed(task, then)][0] == completed(task, then));
}

/// Two lists of the same tasks are the same list: what a store holds decides
/// what a request for all tasks, or for the completed ones, gives.
pub proof fn law_listing_is_unique(
    first: Seq<TaskView>,
    second: Seq<TaskView>,
    tasks: Map<u64, TaskView>,
    only_completed: bool,
)
    requires
        lists(first, tasks, only_completed),
        lists(second, tasks, only_completed),
    ensures
        first == second,
{
    lemma_listings_agree(first, second, tasks, only_completed, first.len() as int);
    lemma_listings_agree(second, first, tasks, only_completed, second.len() as int);
    assert(first.len() <= second.len());
    assert(second.len() <= first.len());
    assert forall|i: int| 0 <= i < first.len() implies first[i] == second[i] by {
        assert(first[i].id == second[i].id);
    }
    assert(first =~= second);
}

/// The first `upto` tasks of one list have the identifiers of the first
/// `upto` tasks of another list of the same tasks.
proof fn lemma_listings_agree(
    first: Seq<TaskView>,
    second: Seq<TaskView>,
    tasks: Map<u64, TaskView>,
    only_completed: bool,
    upto: int,
)
    requires
        lists(first, tasks, only_completed),
        lists(second, tasks, only_completed),
        0 <= upto <= first.len(),
    ensures
        upto <= second.len(),
        forall|i: int| 0 <= i < upto ==> (#[trigger] first[i]).id == second[i].id,
    decreases upto,
{
    if upto > 0 {
        lemma_listings_agree(first, second, tasks, only_completed, upto - 1);
        let here = upto - 1;
        // The task at `here` in the first list stands somewhere in the second,
        // and not before `here`, where the two lists agree.
        let id = first[here].id;
        assert(tasks.contains_key(id) && asks_for(tasks[id], only_completed));
        let there = choose|j: int| 0 <= j < second.len() && (#[trigger] second[j]).id == id;
        if there < here {
            assert(first[there].id == second[there].id);
            assert(first[there].id < first[here].id);
        }
        assert(here <= there);
        // The task at `here` in the second list stands somewhere in the first,
        // and not before `here` either.
        let other = second[here].id;
        assert(tasks.contains_key(other) && asks_for(tasks[other], only_completed));
        let back = choose|j: int| 0 <= j < first.len() && (#[trigger] first[j]).id == other;
        if back < here {
            assert(first[back].id == second[back].id);
            assert(second[back].id < second[here].id);
        }
        assert(here <= back);
        if here < there {
            assert(second[here].id < second[there].id);
        }
        if here < back {
            assert(first[here].id < first[back].id);
        }
    }
}

} // verus!
