//! The five requests on assignments.
//!
//! Each handler is asked for the next move of its request, with what has
//! happened so far, until it answers [`Step::Respond`] or [`Step::Abort`].
//! A response of `None` is "not found": the caller learns no more than that,
//! whether the pool refused, the store failed or the row is not there.

use vstd::prelude::*;
use crate::exchange::{Progress, Step, StoreError};
use crate::models::{NewUserTask, UserTask};

verus! {

/// The body of a request that creates or replaces an assignment.
#[derive(Clone, Copy, Debug, PartialEq, Eq, Structural)]
pub struct AssignmentInput {
    pub user_id: i32,
    pub task_id: i32,
    pub task_status_id: i32,
}

impl AssignmentInput {
    /// The values that the body asks to have written.
    pub open spec fn values(self) -> NewUserTask {
        NewUserTask {
            user_id: self.user_id,
            task_id: self.task_id,
            task_status_id: self.task_status_id,
        }
    }
}

/// Lists every assignment. A store that fails is answered with an empty
/// list. This is the one request that is given up where the pool refuses.
pub fn get_user_tasks(
    progress: Progress<Result<Vec<UserTask>, StoreError>>,
) -> (step: Step<(), Vec<UserTask>>)
    ensures
        progress is Started ==> step is Acquire,
        progress is Refused ==> step is Abort,
        progress is Connected ==> step.runs(()),
        progress matches Progress::Answered(Ok(rows)) ==> step.responds(rows),
        progress matches Progress::Answered(Err(_)) ==> step matches Step::Respond(rows)
            && rows@.len() == 0,
{
    match progress {
        Progress::Started => Step::Acquire,
        Progress::Refused => Step::Abort,
        Progress::Connected => Step::Run(()),
        Progress::Answered(Ok(rows)) => Step::Respond(rows),
        Progress::Answered(Err(_)) => Step::Respond(Vec::new()),
    }
}

/// Reads the assignment of a user and a task. The response is the row that
/// the store found, or `None` where it found none or failed.
pub fn get_user_task(
    user_id: i32,
    task_id: i32,
    progress: Progress<Result<Option<UserTask>, StoreError>>,
) -> (step: Step<(i32, i32), Option<UserTask>>)
    ensures
        progress is Started ==> step is Acquire,
        progress is Refused ==> step.responds(None),
        progress is Connected ==> step.runs((user_id, task_id)),
        progress matches Progress::Answered(Ok(found)) ==> step.responds(found),
        progress matches Progress::Answered(Err(_)) ==> step.responds(None),
{
    match progress {
        Progress::Started => Step::Acquire,
        Progress::Refused => Step::Respond(None),
        Progress::Connected => Step::Run((user_id, task_id)),
        Progress::Answered(Ok(found)) => Step::Respond(found),
        Progress::Answered(Err(_)) => Step::Respond(None),
    }
}

/// Creates the assignment that the body describes. The store is asked to
/// write the body's three values as a new row; the response is the row that
/// the store reports, or `None` where it reports a failure, a key that is
/// taken among them.
pub fn create_user_task(
    assignment: &AssignmentInput,
    progress: Progress<Result<UserTask, StoreError>>,
) -> (step: Step<NewUserTask, Option<UserTask>>)
    ensures
        progress is Started ==> step is Acquire,
        progress is Refused ==> step.responds(None),
        progress is Connected ==> step.runs(assignment.values()),
        progress matches Progress::Answered(Ok(row)) ==> step.responds(Some(row)),
        progress matches Progress::Answered(Err(_)) ==> step.responds(None),
{
    match progress {
        Progress::Started => Step::Acquire,
        Progress::Refused => Step::Respond(None),
        Progress::Connected => Step::Run(
            NewUserTask {
                user_id: assignment.user_id,
                task_id: assignment.task_id,
                task_status_id: assignment.task_status_id,
            },
        ),
        Progress::Answered(Ok(row)) => Step::Respond(Some(row)),
        Progress::Answered(Err(_)) => Step::Respond(None),
    }
}

/// Replaces the assignment of a user and a task by what the body describes.
/// The store is asked to overwrite all three values of the row under the
/// key of the path; the response is the row that the store reports, or `None`
/// where it reports a failure, a missing row among them.
pub fn update_user_task(
    user_id: i32,
    task_id: i32,
    assignment: &AssignmentInput,
    progress: Progress<Result<UserTask, StoreError>>,
) -> (step: Step<((i32, i32), NewUserTask), Option<UserTask>>)
    ensures
        progress is Started ==> step is Acquire,
        progress is Refused ==> step.responds(None),
        progress is Connected ==> step.runs(((user_id, task_id), assignment.values())),
        progress matches Progress::Answered(Ok(row)) ==> step.responds(Some(row)),
        progress matches Progress::Answered(Err(_)) ==> step.responds(None),
{
    match progress {
        Progress::Started => Step::Acquire,
        Progress::Refused => Step::Respond(None),
        Progress::Connected => Step::Run(
            (
                (user_id, task_id),
                NewUserTask {
                    user_id: assignment.user_id,
                    task_id: assignment.task_id,
                    task_status_id: assignment.task_status_id,
                },
            ),
        ),
        Progress::Answered(Ok(row)) => Step::Respond(Some(row)),
        Progress::Answered(Err(_)) => Step::Respond(None),
    }
}

/// Removes the assignment of a user and a task. The response is the number
/// of rows that the store removed, or `None` where it removed none or failed:
/// a key without a row is "not found", never a count of zero.
pub fn delete_user_task(
    user_id: i32,
    task_id: i32,
    progress: Progress<Result<usize, StoreError>>,
) -> (step: Step<(i32, i32), Option<usize>>)
    ensures
        progress is Started ==> step is Acquire,
        progress is Refused ==> step.responds(None),
        progress is Connected ==> step.runs((user_id, task_id)),
        progress matches Progress::Answered(Ok(count)) ==> step.responds(
            if count == 0 {
                None
            } else {
                Some(count)
            },
        ),
        progress matches Progress::Answered(Err(_)) ==> step.responds(None),
{
    match progress {
        Progress::Started => Step::Acquire,
        Progress::Refused => Step::Respond(None),
        Progress::Connected => Step::Run((user_id, task_id)),
        Progress::Answered(Ok(count)) => if count == 0 {
            Step::Respond(None)
        } else {
            Step::Respond(Some(count))
        },
        Progress::Answered(Err(_)) => Step::Respond(None),
    }
}

} // verus!
