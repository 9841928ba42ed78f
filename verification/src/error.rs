//! The ways in which a request can fail, and the messages that say so.

use crate::decimal::{decimal_digits, push_decimal};
use vstd::prelude::*;
use vstd::string::*;

verus! {

/// An error as a mathematical value.
pub enum ErrorView {
    NotFound { msg: Seq<char> },
    NotAuthorized { msg: Seq<char>, caller: Seq<char> },
    InvalidAction { msg: Seq<char> },
}

/// Why a request was turned down.
#[derive(Debug, PartialEq, Eq)]
pub enum Error {
    /// The task asked for, or any task of the kind asked for, does not exist.
    NotFound { msg: String },
    /// `caller` is not the owner of the task.
    NotAuthorized { msg: String, caller: String },
    /// The task is in a state that does not allow the request.
    InvalidAction { msg: String },
}

impl View for Error {
    type V = ErrorView;

    open spec fn view(&self) -> ErrorView {
        match self {
            Error::NotFound { msg } => ErrorView::NotFound { msg: msg@ },
            Error::NotAuthorized { msg, caller } => ErrorView::NotAuthorized {
                msg: msg@,
                caller: caller@,
            },
            Error::InvalidAction { msg } => ErrorView::InvalidAction { msg: msg@ },
        }
    }
}

/// No task has the identifier `id`.
pub open spec fn task_not_found(id: u64) -> ErrorView {
    ErrorView::NotFound { msg: "Task with id="@ + decimal_digits(id as nat) + " not found"@ }
}

/// The store holds no task.
pub open spec fn no_tasks() -> ErrorView {
    ErrorView::NotFound { msg: "There are currently no tasks"@ }
}

/// The store holds no completed task.
pub open spec fn no_completed_tasks() -> ErrorView {
    ErrorView::NotFound { msg: "There are currently no completed tasks"@ }
}

/// `caller` asked to do `verb` to task `id`, which another identity owns.
pub open spec fn not_authorized(verb: Seq<char>, id: u64, caller: Seq<char>) -> ErrorView {
    ErrorView::NotAuthorized {
        msg: "Caller is not authorized to "@ + verb + " task with id="@ + decimal_digits(
            id as nat,
        ),
        caller,
    }
}

/// The task was completed before.
pub open spec fn already_completed() -> ErrorView {
    ErrorView::InvalidAction { msg: "Task is already completed"@ }
}

impl Error {
    /// The message of the error.
    pub fn message(&self) -> (msg: String)
        ensures
            msg@ == match self@ {
                ErrorView::NotFound { msg } => msg,
                ErrorView::NotAuthorized { msg, .. } => msg,
                ErrorView::InvalidAction { msg } => msg,
            },
    {
        match self {
            Error::NotFound { msg } => msg.clone(),
            Error::NotAuthorized { msg, .. } => msg.clone(),
            Error::InvalidAction { msg } => msg.clone(),
        }
    }

    pub fn task_not_found(id: u64) -> (error: Error)
        ensures
            error@ == task_not_found(id),
    {
        let mut msg = String::from_str("Task with id=");
        push_decimal(&mut msg, id);
        msg.append(" not found");
        Error::NotFound { msg }
    }

    pub fn no_tasks() -> (error: Error)
        ensures
            error@ == no_tasks(),
    {
        Error::NotFound { msg: String::from_str("There are currently no tasks") }
    }

    pub fn no_completed_tasks() -> (error: Error)
        ensures
            error@ == no_completed_tasks(),
    {
        Error::NotFound { msg: String::from_str("There are currently no completed tasks") }
    }

    pub fn not_authorized(verb: &str, id: u64, caller: &String) -> (error: Error)
        ensures
            error@ == not_authorized(verb@, id, caller@),
    {
        let mut msg = String::from_str("Caller is not authorized to ");
        msg.append(verb);
        msg.append(" task with id=");
        push_decimal(&mut msg, id);
        Error::NotAuthorized { msg, caller: caller.clone() }
    }

    pub fn already_completed() -> (error: Error)
        ensures
            error@ == already_completed(),
    {
        Error::InvalidAction { msg: String::from_str("Task is already completed") }
    }
}

} // verus!
