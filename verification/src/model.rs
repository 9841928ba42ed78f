//! What the task service does, as mathematics.
//!
//! A [`StoreView`] is the state of a store: the tasks it holds and the next
//! identifier it will hand out. Each request is a function from a state to an
//! outcome and a next state. The executable store is proved to do exactly what
//! these functions say.

use crate::error::{
    already_completed, no_completed_tasks, no_tasks, not_authorized, task_not_found, Error,
    ErrorView,
};
use crate::record::{record_size, MAX_RECORD_SIZE};
use crate::task::{PayloadView, Task, TaskView};
use vstd::prelude::*;

verus! {

/// What a request for one task gives back.
pub type Outcome = Result<TaskView, ErrorView>;

/// The state of a task store.
pub struct StoreView {
    /// The tasks that exist, by identifier.
    pub tasks: Map<u64, TaskView>,
    /// The identifier that the next new task gets.
    pub next_id: u64,
}

/// The task that `caller` creates from `payload` at time `now`, under `id`.
pub open spec fn created(id: u64, payload: PayloadView, caller: Seq<char>, now: u64) -> TaskView {
    TaskView {
        owner: caller,
        id,
        title: payload.title,
        description: payload.description,
        completed: false,
        created_at: now,
        updated_at: None,
        deadline: payload.deadline,
        completed_late: false,
    }
}

/// `task` after its owner replaced its payload at time `now`.
pub open spec fn updated(task: TaskView, payload: PayloadView, now: u64) -> TaskView {
    TaskView {
        title: payload.title,
        description: payload.description,
        deadline: payload.deadline,
        updated_at: Some(now),
        ..task
    }
}

/// Whether `now` is past the deadline of `task`.
pub open spec fn is_late(task: TaskView, now: u64) -> bool {
    task.deadline matches Some(deadline) && now > deadline
}

/// `task` after its owner completed it at time `now`.
pub open spec fn completed(task: TaskView, now: u64) -> TaskView {
    TaskView {
        completed: true,
        completed_late: task.completed_late || is_late(task, now),
        updated_at: Some(now),
        ..task
    }
}

/// Whether a task may be stored under `id` in a store whose next identifier
/// is `next_id`.
pub open spec fn storable(task: TaskView, id: u64, next_id: u64) -> bool {
    &&& task.id == id
    &&& id < next_id
    &&& task.completed_late ==> task.completed
    &&& record_size(task.owner, task.title, task.description) <= MAX_RECORD_SIZE
}

/// The tasks of `tasks` as mathematical values, in the same order.
pub open spec fn views(tasks: Seq<Task>) -> Seq<TaskView> {
    tasks.map_values(|task: Task| task@)
}

/// Whether a request that is for the completed tasks if `only_completed`, and
/// for all tasks if not, is for `task`.
pub open spec fn asks_for(task: TaskView, only_completed: bool) -> bool {
    only_completed ==> task.completed
}

/// Whether `listing` lists, by rising identifier, the tasks of `tasks` that a
/// request asks for: each of them once, and nothing else.
pub open spec fn lists(
    listing: Seq<TaskView>,
    tasks: Map<u64, TaskView>,
    only_completed: bool,
) -> bool {
    &&& forall|i: int, j: int|
        0 <= i < j < listing.len() ==> (#[trigger] listing[i]).id < (#[trigger] listing[j]).id
    &&& forall|i: int|
        0 <= i < listing.len() ==> {
            &&& tasks.contains_key((#[trigger] listing[i]).id)
            &&& tasks[listing[i].id] == listing[i]
            &&& asks_for(listing[i], only_completed)
        }
    &&& forall|id: u64|
        #[trigger] tasks.contains_key(id) && asks_for(tasks[id], only_completed) ==> exists|
            i: int,
        | 0 <= i < listing.len() && (#[trigger] listing[i]).id == id
}

impl StoreView {
    /// The state of a store that was never used.
    pub open spec fn empty() -> StoreView {
        StoreView { tasks: Map::empty(), next_id: 0 }
    }

    /// What holds of every state that a store can be in: a task is stored
    /// under its own identifier, which was handed out before; one that was
    /// completed late was completed; and its record is not too large.
    pub open spec fn wf(self) -> bool {
        forall|id: u64| #[trigger]
            self.tasks.contains_key(id) ==> storable(self.tasks[id], id, self.next_id)
    }

    /// Whether the store holds a task that a request asks for: any task, or a
    /// completed one if `only_completed`.
    pub open spec fn has_any(self, only_completed: bool) -> bool {
        exists|id: u64| #[trigger]
            self.tasks.contains_key(id) && asks_for(self.tasks[id], only_completed)
    }

    /// What asking for task `id` gives.
    pub open spec fn get(self, id: u64) -> Outcome {
        if self.tasks.contains_key(id) {
            Ok(self.tasks[id])
        } else {
            Err(task_not_found(id))
        }
    }

    /// Whether `caller` may create a task from `payload`: an identifier is
    /// left, and the record is not too large.
    pub open spec fn can_add(self, payload: PayloadView, caller: Seq<char>) -> bool {
        &&& self.next_id < u64::MAX
        &&& record_size(caller, payload.title, payload.description) <= MAX_RECORD_SIZE
    }

    /// The state after `caller` created a task from `payload` at time `now`.
    /// The new task is `created(self.next_id, payload, caller, now)`.
    pub open spec fn add(self, payload: PayloadView, caller: Seq<char>, now: u64) -> StoreView {
        StoreView {
            tasks: self.tasks.insert(self.next_id, created(self.next_id, payload, caller, now)),
            next_id: (self.next_id + 1) as u64,
        }
    }

    /// Whether `caller` may ask to replace the payload of task `id` by
    /// `payload`: if the request is granted, the record is not too large.
    pub open spec fn can_update(self, id: u64, payload: PayloadView, caller: Seq<char>) -> bool {
        self.tasks.contains_key(id) && self.tasks[id].owner == caller ==> record_size(
            caller,
            payload.title,
            payload.description,
        ) <= MAX_RECORD_SIZE
    }

    /// What `caller` gets for asking, at time `now`, to replace the payload of
    /// task `id`.
    pub open spec fn update_outcome(
        self,
        id: u64,
        payload: PayloadView,
        caller: Seq<char>,
        now: u64,
    ) -> Outcome {
        if !self.tasks.contains_key(id) {
            Err(task_not_found(id))
        } else if self.tasks[id].owner != caller {
            Err(not_authorized("update"@, id, caller))
        } else {
            Ok(updated(self.tasks[id], payload, now))
        }
    }

    /// The state after that request.
    pub open spec fn update(self, id: u64, payload: PayloadView, caller: Seq<char>, now: u64)
        -> StoreView {
        match self.update_outcome(id, payload, caller, now) {
            Ok(task) => StoreView { tasks: self.tasks.insert(id, task), ..self },
            Err(_) => self,
        }
    }

    /// What `caller` gets for asking, at time `now`, to complete task `id`.
    pub open spec fn complete_outcome(self, id: u64, caller: Seq<char>, now: u64) -> Outcome {
        if !self.tasks.contains_key(id) {
            Err(task_not_found(id))
        } else if self.tasks[id].owner != caller {
            Err(not_authorized("complete"@, id, caller))
        } else if self.tasks[id].completed {
            Err(already_completed())
        } else {
            Ok(completed(self.tasks[id], now))
        }
    }

    /// The state after that request.
    pub open spec fn complete(self, id: u64, caller: Seq<char>, now: u64) -> StoreView {
        match self.complete_outcome(id, caller, now) {
            Ok(task) => StoreView { tasks: self.tasks.insert(id, task), ..self },
            Err(_) => self,
        }
    }

    /// What `caller` gets for asking to delete task `id`.
    pub open spec fn delete_outcome(self, id: u64, caller: Seq<char>) -> Outcome {
        if !self.tasks.contains_key(id) {
            Err(task_not_found(id))
        } else if self.tasks[id].owner != caller {
            Err(not_authorized("delete"@, id, caller))
        } else {
            Ok(self.tasks[id])
        }
    }

    /// The state after that request.
    pub open spec fn delete(self, id: u64, caller: Seq<char>) -> StoreView {
        match self.delete_outcome(id, caller) {
            Ok(_) => StoreView { tasks: self.tasks.remove(id), ..self },
            Err(_) => self,
        }
    }
}

/// What a request for one task gave back, as a mathematical value.
pub open spec fn outcome_view(outcome: Result<Task, Error>) -> Outcome {
    match outcome {
        Ok(task) => Ok(task@),
        Err(error) => Err(error@),
    }
}

/// Whether `outcome` is what a request for all tasks of `state` gives (for the
/// completed ones, if `only_completed`): the tasks by rising identifier if
/// there are any, and else the error that says that there are none.
pub open spec fn is_listing_of(
    outcome: Result<Vec<Task>, Error>,
    state: StoreView,
    only_completed: bool,
) -> bool {
    match outcome {
        Ok(listing) => {
            &&& state.has_any(only_completed)
            &&& listing@.len() > 0
            &&& lists(views(listing@), state.tasks, only_completed)
        },
        Err(error) => {
            &&& !state.has_any(only_completed)
            &&& error@ == if only_completed {
                no_completed_tasks()
            } else {
                no_tasks()
            }
        },
    }
}

} // verus!
