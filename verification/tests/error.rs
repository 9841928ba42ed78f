use task_store::error::Error;

#[test]
fn message_of_a_task_that_is_not_found() {
    assert_eq!(
        Error::task_not_found(12),
        Error::NotFound { msg: String::from("Task with id=12 not found") }
    );
    assert_eq!(Error::task_not_found(0).message(), "Task with id=0 not found");
}

#[test]
fn message_of_an_empty_store() {
    assert_eq!(
        Error::no_tasks(),
        Error::NotFound { msg: String::from("There are currently no tasks") }
    );
    assert_eq!(
        Error::no_completed_tasks(),
        Error::NotFound { msg: String::from("There are currently no completed tasks") }
    );
}

#[test]
fn message_of_a_caller_that_is_not_the_owner() {
    let caller = String::from("2vxsx-fae");
    assert_eq!(
        Error::not_authorized("update", 3, &caller),
        Error::NotAuthorized {
            msg: String::from("Caller is not authorized to update task with id=3"),
            caller: caller.clone(),
        }
    );
    assert_eq!(
        Error::not_authorized("delete", u64::MAX, &caller).message(),
        "Caller is not authorized to delete task with id=18446744073709551615"
    );
}

#[test]
fn message_of_a_second_completion() {
    assert_eq!(
        Error::already_completed(),
        Error::InvalidAction { msg: String::from("Task is already completed") }
    );
    assert_eq!(Error::already_completed().message(), "Task is already completed");
}
