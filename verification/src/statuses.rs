//! The five requests on statuses.
//!
//! They run as the requests on assignments do: each handler is asked for the
//! next move of its request until it answers [`Step::Respond`] or
//! [`Step::Abort`], and a response of `None` is "not found".

use vstd::prelude::*;
use crate::exchange::{Progress, Step, StoreError};
use crate::models::{NewTaskStatus, TaskStatus};

verus! {

/// The body of a request that creates or renames a status.
#[derive(Clone, Debug, PartialEq, Eq)]
pub struct StatusInput {
    pub status_name: String,
}

impl StatusInput {
    /// The name that the body asks to have written.
    pub open spec fn values(self) -> NewTaskStatus {
        NewTaskStatus { status_name: self.status_name }
    }
}

/// Lists every status. A store that fails is answered with an empty list.
/// This is the one request that is given up where the pool refuses.
pub fn get_task_statuses(
    progress: Progress<Result<Vec<TaskStatus>, StoreError>>,
) -> (step: Step<(), Vec<TaskStatus>>)
    ensures
        progress is Started ==> step is Acquire,
        progress is Refused ==> step is Abort,
        progress is Connected ==> step.runs(()),
        progress matches Progress::Answered(Ok(rows)) ==> step.responds(rows),
        progress matches Progress::Answered(Err(_)) ==> step matches Step::Respond(rows)
            && rows@.len() == 0,
{
    match progress {
        Progress::Started => Step::Acquire,
        Progress::Refused => Step::Abort,
        Progress::Connected => Step::Run(()),
        Progress::Answered(Ok(rows)) => Step::Respond(rows),
        Progress::Answered(Err(_)) => Step::Respond(Vec::new()),
    }
}

/// Reads the status with an id. The response is the row that the store
/// found, or `None` where it found none or failed.
pub fn get_task_status(
    id: i32,
    progress: Progress<Result<Option<TaskStatus>, StoreError>>,
) -> (step: Step<i32, Option<TaskStatus>>)
    ensures
        progress is Started ==> step is Acquire,
        progress is Refused ==> step.responds(None),
        progress is Connected ==> step.runs(id),
        progress matches Progress::Answered(Ok(found)) ==> step.responds(found),
        progress matches Progress::Answered(Err(_)) ==> step.responds(None),
{
    match progress {
        Progress::Started => Step::Acquire,
        Progress::Refused => Step::Respond(None),
        Progress::Connected => Step::Run(id),
        Progress::Answered(Ok(found)) => Step::Respond(found),
        Progress::Answered(Err(_)) => Step::Respond(None),
    }
}

/// Creates a status with the name of the body. The store is asked to write
/// the name as a new row and picks the id; the response is the row that the
/// store reports, or `None` where it reports a failure.
pub fn create_task_status(
    status: &StatusInput,
    progress: Progress<Result<TaskStatus, StoreError>>,
) -> (step: Step<NewTaskStatus, Option<TaskStatus>>)
    ensures
        progress is Started ==> step is Acquire,
        progress is Refused ==> step.responds(None),
        progress is Connected ==> step.runs(status.values()),
        progress matches Progress::Answered(Ok(row)) ==> step.responds(Some(row)),
        progress matches Progress::Answered(Err(_)) ==> step.responds(None),
{
    match progress {
        Progress::Started => Step::Acquire,
        Progress::Refused => Step::Respond(None),
        Progress::Connected => Step::Run(NewTaskStatus { status_name: status.status_name.clone() }),
        Progress::Answered(Ok(row)) => Step::Respond(Some(row)),
        Progress::Answered(Err(_)) => Step::Respond(None),
    }
}

/// Renames the status with an id to the name of the body. The response is
/// the row that the store reports, or `None` where it reports a failure, a
/// missing row among them.
pub fn update_task_status(
    id: i32,
    status: &StatusInput,
    progress: Progress<Result<TaskStatus, StoreError>>,
) -> (step: Step<(i32, NewTaskStatus), Option<TaskStatus>>)
    ensures
        progress is Started ==> step is Acquire,
        progress is Refused ==> step.responds(None),
        progress is Connected ==> step.runs((id, status.values())),
        progress matches Progress::Answered(Ok(row)) ==> step.responds(Some(row)),
        progress matches Progress::Answered(Err(_)) ==> step.responds(None),
{
    match progress {
        Progress::Started => Step::Acquire,
        Progress::Refused => Step::Respond(None),
        Progress::Connected => Step::Run(
            (id, NewTaskStatus { status_name: status.status_name.clone() }),
        ),
        Progress::Answered(Ok(row)) => Step::Respond(Some(row)),
        Progress::Answered(Err(_)) => Step::Respond(None),
    }
}

/// Removes the status with an id. The response is the number of rows that
/// the store removed, or `None` where it removed none or failed: an id
/// without a row is "not found", never a count of zero.
pub fn delete_task_status(
    id: i32,
    progress: Progress<Result<usize, StoreError>>,
) -> (step: Step<i32, Option<usize>>)
    ensures
        progress is Started ==> step is Acquire,
        progress is Refused ==> step.responds(None),
        progress is Connected ==> step.runs(id),
        progress matches Progress::Answered(Ok(count)) ==> step.responds(
            if count == 0 {
                None
            } else {
                Some(count)
            },
        ),
        progress matches Progress::Answered(Err(_)) ==> step.responds(None),
{
    match progress {
        Progress::Started => Step::Acquire,
        Progress::Refused => Step::Respond(None),
        Progress::Connected => Step::Run(id),
        Progress::Answered(Ok(count)) => if count == 0 {
            Step::Respond(None)
        } else {
            Step::Respond(Some(count))
        },
        Progress::Answered(Err(_)) => Step::Respond(None),
    }
}

} // verus!
