//! Tasks, and the values that contracts use to speak of them.

use vstd::prelude::*;

verus! {

/// A task as a mathematical value: the text fields are sequences of
/// characters. Every contract of this crate speaks of tasks through this type.
pub struct TaskView {
    pub owner: Seq<char>,
    pub id: u64,
    pub title: Seq<char>,
    pub description: Seq<char>,
    pub completed: bool,
    pub created_at: u64,
    pub updated_at: Option<u64>,
    pub deadline: Option<u64>,
    pub completed_late: bool,
}

/// A task record.
///
/// `owner` is the identity of the caller that created the task, in its text
/// form. Time stamps are whatever the clock of the host counts.
#[derive(Debug, PartialEq, Eq)]
pub struct Task {
    pub owner: String,
    pub id: u64,
    pub title: String,
    pub description: String,
    pub completed: bool,
    pub created_at: u64,
    pub updated_at: Option<u64>,
    pub deadline: Option<u64>,
    pub completed_late: bool,
}

impl View for Task {
    type V = TaskView;

    open spec fn view(&self) -> TaskView {
        TaskView {
            owner: self.owner@,
            id: self.id,
            title: self.title@,
            description: self.description@,
            completed: self.completed,
            created_at: self.created_at,
            updated_at: self.updated_at,
            deadline: self.deadline,
            completed_late: self.completed_late,
        }
    }
}

impl Clone for Task {
    fn clone(&self) -> (copy: Task)
        ensures
            copy@ == self@,
    {
        Task {
            owner: self.owner.clone(),
            id: self.id,
            title: self.title.clone(),
            description: self.description.clone(),
            completed: self.completed,
            created_at: self.created_at,
            updated_at: self.updated_at,
            deadline: self.deadline,
            completed_late: self.completed_late,
        }
    }
}

/// The part of a task that its owner chooses, as a mathematical value.
pub struct PayloadView {
    pub title: Seq<char>,
    pub description: Seq<char>,
    pub deadline: Option<u64>,
}

/// The part of a task that its owner chooses when creating or updating it.
#[derive(Debug, PartialEq, Eq)]
pub struct TaskPayload {
    pub title: String,
    pub description: String,
    pub deadline: Option<u64>,
}

impl View for TaskPayload {
    type V = PayloadView;

    open spec fn view(&self) -> PayloadView {
        PayloadView {
            title: self.title@,
            description: self.description@,
            deadline: self.deadline,
        }
    }
}

impl Clone for TaskPayload {
    fn clone(&self) -> (copy: TaskPayload)
        ensures
            copy@ == self@,
    {
        TaskPayload {
            title: self.title.clone(),
            description: self.description.clone(),
            deadline: self.deadline,
        }
    }
}

impl Default for TaskPayload {
    /// The payload with empty texts and no deadline.
    fn default() -> (payload: TaskPayload)
        ensures
            payload@ == (PayloadView {
                title: Seq::empty(),
                description: Seq::empty(),
                deadline: None,
            }),
    {
        TaskPayload { title: String::new(), description: String::new(), deadline: None }
    }
}

} // verus!
