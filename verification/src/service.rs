//! The service as a whole: each request played against the tables in memory.
//!
//! A function `serve_..` runs one request from its first move to its
//! response. It asks the handler for each move in turn, stands in for the
//! pool, which gives a connection or refuses as `connected` says, and has the
//! table run the operation. The spec function of the same name with `_on`
//! says what the request comes to on a given table: the response, and the
//! table that the request leaves where it writes.

use vstd::prelude::*;
use crate::assignment_table;
use crate::assignment_table::AssignmentTable;
use crate::assignments::{
    create_user_task,
    delete_user_task,
    get_user_task,
    get_user_tasks,
    update_user_task,
    AssignmentInput,
};
use crate::exchange::{shown, Progress, Step, StoreError};
use crate::models::{TaskStatus, TaskStatusView, UserTask};
use crate::status_table;
use crate::status_table::{StatusTable, StatusTableView};
use crate::statuses::{
    create_task_status,
    delete_task_status,
    get_task_status,
    get_task_statuses,
    update_task_status,
    StatusInput,
};

verus! {

/// How many moves a request has left at most.
spec fn moves_left<R>(progress: Progress<R>) -> int {
    match progress {
        Progress::Started => 3,
        Progress::Refused => 1,
        Progress::Connected => 2,
        Progress::Answered(_) => 1,
    }
}

/// What reading the assignment of a user and a task comes to: the row under
/// the key, where the pool gives a connection and the key has a row.
pub open spec fn get_user_task_on(
    table: Map<(i32, i32), i32>,
    connected: bool,
    user_id: i32,
    task_id: i32,
) -> Option<UserTask> {
    if connected && table.contains_key((user_id, task_id)) {
        Some(assignment_table::row_of((user_id, task_id), table[(user_id, task_id)]))
    } else {
        None
    }
}

/// What creating an assignment comes to: the new row, written under its key,
/// where the pool gives a connection and the key has no row yet.
pub open spec fn create_user_task_on(
    table: Map<(i32, i32), i32>,
    connected: bool,
    assignment: AssignmentInput,
) -> (Option<UserTask>, Map<(i32, i32), i32>) {
    let new = assignment.values();
    if connected && !table.contains_key(new.key()) {
        (Some(new.row()), table.insert(new.key(), new.task_status_id))
    } else {
        (None, table)
    }
}

/// What replacing an assignment comes to: the new row, written in place of
/// the row under the key of the path, where the pool gives a connection, that
/// key has a row, and the key of the body is the same or has no row.
pub open spec fn update_user_task_on(
    table: Map<(i32, i32), i32>,
    connected: bool,
    user_id: i32,
    task_id: i32,
    assignment: AssignmentInput,
) -> (Option<UserTask>, Map<(i32, i32), i32>) {
    let key = (user_id, task_id);
    let new = assignment.values();
    if connected && table.contains_key(key) && (new.key() == key || !table.contains_key(
        new.key(),
    )) {
        (Some(new.row()), table.remove(key).insert(new.key(), new.task_status_id))
    } else {
        (None, table)
    }
}

/// What deleting an assignment comes to: a count of one, and the table
/// without the key, where the pool gives a connection and the key has a row.
pub open spec fn delete_user_task_on(
    table: Map<(i32, i32), i32>,
    connected: bool,
    user_id: i32,
    task_id: i32,
) -> (Option<usize>, Map<(i32, i32), i32>) {
    if connected && table.contains_key((user_id, task_id)) {
        (Some(1usize), table.remove((user_id, task_id)))
    } else {
        (None, table)
    }
}

/// Lists the assignments of `table`, over a pool that gives a connection.
pub fn serve_get_user_tasks(table: &AssignmentTable) -> (response: Vec<UserTask>)
    requires
        table.wf(),
    ensures
        assignment_table::lists(response@, table@),
{
    let mut progress: Progress<Result<Vec<UserTask>, StoreError>> = Progress::Started;
    loop
        invariant
            table.wf(),
            progress !is Refused,
            progress matches Progress::Answered(reply) ==> reply matches Ok(rows)
                && assignment_table::lists(rows@, table@),
        decreases moves_left(progress),
    {
        match get_user_tasks(progress) {
            Step::Acquire => {
                progress = Progress::Connected;
            },
            Step::Run(()) => {
                progress = Progress::Answered(table.read_all());
            },
            Step::Respond(rows) => {
                return rows;
            },
            Step::Abort => {
                return unreached();
            },
        }
    }
}

/// Reads the assignment of a user and a task from `table`.
pub fn serve_get_user_task(
    table: &AssignmentTable,
    connected: bool,
    user_id: i32,
    task_id: i32,
) -> (response: Option<UserTask>)
    requires
        table.wf(),
    ensures
        response == get_user_task_on(table@, connected, user_id, task_id),
{
    let mut progress: Progress<Result<Option<UserTask>, StoreError>> = Progress::Started;
    loop
        invariant
            table.wf(),
            progress is Refused ==> !connected,
            progress is Connected ==> connected,
            progress matches Progress::Answered(reply) ==> connected && reply
                == assignment_table::read_on(table@, (user_id, task_id)),
        decreases moves_left(progress),
    {
        match get_user_task(user_id, task_id, progress) {
            Step::Acquire => {
                progress = if connected {
                    Progress::Connected
                } else {
                    Progress::Refused
                };
            },
            Step::Run(key) => {
                progress = Progress::Answered(table.read(key));
            },
            Step::Respond(found) => {
                return found;
            },
            Step::Abort => {
                return unreached();
            },
        }
    }
}

/// Creates in `table` the assignment that the body describes.
pub fn serve_create_user_task(
    table: &mut AssignmentTable,
    connected: bool,
    assignment: &AssignmentInput,
) -> (response: Option<UserTask>)
    requires
        old(table).wf(),
    ensures
        final(table).wf(),
        response == create_user_task_on(old(table)@, connected, *assignment).0,
        final(table)@ == create_user_task_on(old(table)@, connected, *assignment).1,
{
    let ghost before = table@;
    let mut progress: Progress<Result<UserTask, StoreError>> = Progress::Started;
    loop
        invariant
            table.wf(),
            progress is Refused ==> !connected,
            progress is Connected ==> connected,
            progress matches Progress::Answered(reply) ==> connected && (reply, table@)
                == assignment_table::create_on(before, assignment.values()),
            progress !is Answered ==> table@ == before,
            before == old(table)@,
        decreases moves_left(progress),
    {
        match create_user_task(assignment, progress) {
            Step::Acquire => {
                progress = if connected {
                    Progress::Connected
                } else {
                    Progress::Refused
                };
            },
            Step::Run(new) => {
                progress = Progress::Answered(table.create(new));
            },
            Step::Respond(created) => {
                return created;
            },
            Step::Abort => {
                return unreached();
            },
        }
    }
}

/// Replaces in `table` the assignment of a user and a task by what the body
/// describes.
pub fn serve_update_user_task(
    table: &mut AssignmentTable,
    connected: bool,
    user_id: i32,
    task_id: i32,
    assignment: &AssignmentInput,
) -> (response: Option<UserTask>)
    requires
        old(table).wf(),
    ensures
        final(table).wf(),
        response == update_user_task_on(old(table)@, connected, user_id, task_id, *assignment).0,
        final(table)@ == update_user_task_on(
            old(table)@,
            connected,
            user_id,
            task_id,
            *assignment,
        ).1,
{
    let ghost before = table@;
    let mut progress: Progress<Result<UserTask, StoreError>> = Progress::Started;
    loop
        invariant
            table.wf(),
            progress is Refused ==> !connected,
            progress is Connected ==> connected,
            progress matches Progress::Answered(reply) ==> connected && (reply, table@)
                == assignment_table::update_on(before, (user_id, task_id), assignment.values()),
            progress !is Answered ==> table@ == before,
            before == old(table)@,
        decreases moves_left(progress),
    {
        match update_user_task(user_id, task_id, assignment, progress) {
            Step::Acquire => {
                progress = if connected {
                    Progress::Connected
                } else {
                    Progress::Refused
                };
            },
            Step::Run((key, new)) => {
                progress = Progress::Answered(table.update(key, new));
            },
            Step::Respond(updated) => {
                return updated;
            },
            Step::Abort => {
                return unreached();
            },
        }
    }
}

/// Removes from `table` the assignment of a user and a task.
pub fn serve_delete_user_task(
    table: &mut AssignmentTable,
    connected: bool,
    user_id: i32,
    task_id: i32,
) -> (response: Option<usize>)
    requires
        old(table).wf(),
    ensures
        final(table).wf(),
        response == delete_user_task_on(old(table)@, connected, user_id, task_id).0,
        final(table)@ == delete_user_task_on(old(table)@, connected, user_id, task_id).1,
{
    let ghost before = table@;
    let mut progress: Progress<Result<usize, StoreError>> = Progress::Started;
    loop
        invariant
            table.wf(),
            progress is Refused ==> !connected,
            progress is Connected ==> connected,
            progress matches Progress::Answered(reply) ==> connected && (reply, table@)
                == assignment_table::delete_on(before, (user_id, task_id)),
            progress !is Answered ==> table@ == before,
            before == old(table)@,
        decreases moves_left(progress),
    {
        match delete_user_task(user_id, task_id, progress) {
            Step::Acquire => {
                progress = if connected {
                    Progress::Connected
                } else {
                    Progress::Refused
                };
            },
            Step::Run(key) => {
                progress = Progress::Answered(table.delete(key));
            },
            Step::Respond(removed) => {
                return removed;
            },
            Step::Abort => {
                return unreached();
            },
        }
    }
}

/// What reading the status with an id comes to: the row under the id, where
/// the pool gives a connection and the id has a row.
pub open spec fn get_task_status_on(
    table: StatusTableView,
    connected: bool,
    id: i32,
) -> Option<TaskStatusView> {
    if connected && table.rows.contains_key(id) {
        Some(status_table::row_of(id, table.rows[id]))
    } else {
        None
    }
}

/// What creating a status named `name` comes to: a row with that name under
/// the id after the last one given out, where the pool gives a connection and
/// an `i32` can hold that id.
pub open spec fn create_task_status_on(
    table: StatusTableView,
    connected: bool,
    name: Seq<char>,
) -> (Option<TaskStatusView>, StatusTableView) {
    if connected && table.assigned < i32::MAX {
        let id = (table.assigned + 1) as i32;
        (
            Some(status_table::row_of(id, name)),
            StatusTableView { rows: table.rows.insert(id, name), assigned: table.assigned + 1 },
        )
    } else {
        (None, table)
    }
}

/// What renaming the status with an id to `name` comes to: the row under the
/// id with the new name, where the pool gives a connection and the id has a
/// row.
pub open spec fn update_task_status_on(
    table: StatusTableView,
    connected: bool,
    id: i32,
    name: Seq<char>,
) -> (Option<TaskStatusView>, StatusTableView) {
    if connected && table.rows.contains_key(id) {
        (
            Some(status_table::row_of(id, name)),
            StatusTableView { rows: table.rows.insert(id, name), ..table },
        )
    } else {
        (None, table)
    }
}

/// What deleting the status with an id comes to: a count of one, and the
/// table without the id, where the pool gives a connection and the id has a
/// row.
pub open spec fn delete_task_status_on(
    table: StatusTableView,
    connected: bool,
    id: i32,
) -> (Option<usize>, StatusTableView) {
    if connected && table.rows.contains_key(id) {
        (Some(1usize), StatusTableView { rows: table.rows.remove(id), ..table })
    } else {
        (None, table)
    }
}

/// Lists the statuses of `table`, over a pool that gives a connection.
pub fn serve_get_task_statuses(table: &StatusTable) -> (response: Vec<TaskStatus>)
    requires
        table.wf(),
    ensures
        status_table::lists(response.deep_view(), table@.rows),
{
    let mut progress: Progress<Result<Vec<TaskStatus>, StoreError>> = Progress::Started;
    loop
        invariant
            table.wf(),
            progress !is Refused,
            progress matches Progress::Answered(reply) ==> reply matches Ok(rows)
                && status_table::lists(rows.deep_view(), table@.rows),
        decreases moves_left(progress),
    {
        match get_task_statuses(progress) {
            Step::Acquire => {
                progress = Progress::Connected;
            },
            Step::Run(()) => {
                progress = Progress::Answered(table.read_all());
            },
            Step::Respond(rows) => {
                return rows;
            },
            Step::Abort => {
                return unreached();
            },
        }
    }
}

/// Reads the status with an id from `table`.
pub fn serve_get_task_status(
    table: &StatusTable,
    connected: bool,
    id: i32,
) -> (response: Option<TaskStatus>)
    requires
        table.wf(),
    ensures
        response.deep_view() == get_task_status_on(table@, connected, id),
{
    let mut progress: Progress<Result<Option<TaskStatus>, StoreError>> = Progress::Started;
    loop
        invariant
            table.wf(),
            progress is Refused ==> !connected,
            progress is Connected ==> connected,
            progress matches Progress::Answered(reply) ==> connected && shown(reply)
                == status_table::read_on(table@, id),
        decreases moves_left(progress),
    {
        match get_task_status(id, progress) {
            Step::Acquire => {
                progress = if connected {
                    Progress::Connected
                } else {
                    Progress::Refused
                };
            },
            Step::Run(key) => {
                progress = Progress::Answered(table.read(key));
            },
            Step::Respond(found) => {
                return found;
            },
            Step::Abort => {
                return unreached();
            },
        }
    }
}

/// Creates in `table` a status with the name of the body.
pub fn serve_create_task_status(
    table: &mut StatusTable,
    connected: bool,
    status: &StatusInput,
) -> (response: Option<TaskStatus>)
    requires
        old(table).wf(),
    ensures
        final(table).wf(),
        response.deep_view() == create_task_status_on(
            old(table)@,
            connected,
            status.status_name@,
        ).0,
        final(table)@ == create_task_status_on(old(table)@, connected, status.status_name@).1,
{
    let ghost before = table@;
    let mut progress: Progress<Result<TaskStatus, StoreError>> = Progress::Started;
    loop
        invariant
            table.wf(),
            progress is Refused ==> !connected,
            progress is Connected ==> connected,
            progress matches Progress::Answered(reply) ==> connected && (shown(reply), table@)
                == status_table::create_on(before, status.status_name@),
            progress !is Answered ==> table@ == before,
            before == old(table)@,
        decreases moves_left(progress),
    {
        match create_task_status(status, progress) {
            Step::Acquire => {
                progress = if connected {
                    Progress::Connected
                } else {
                    Progress::Refused
                };
            },
            Step::Run(new) => {
                progress = Progress::Answered(table.create(new));
            },
            Step::Respond(created) => {
                return created;
            },
            Step::Abort => {
                return unreached();
            },
        }
    }
}

/// Renames in `table` the status with an id to the name of the body.
pub fn serve_update_task_status(
    table: &mut StatusTable,
    connected: bool,
    id: i32,
    status: &StatusInput,
) -> (response: Option<TaskStatus>)
    requires
        old(table).wf(),
    ensures
        final(table).wf(),
        response.deep_view() == update_task_status_on(
            old(table)@,
            connected,
            id,
            status.status_name@,
        ).0,
        final(table)@ == update_task_status_on(old(table)@, connected, id, status.status_name@).1,
{
    let ghost before = table@;
    let mut progress: Progress<Result<TaskStatus, StoreError>> = Progress::Started;
    loop
        invariant
            table.wf(),
            progress is Refused ==> !connected,
            progress is Connected ==> connected,
            progress matches Progress::Answered(reply) ==> connected && (shown(reply), table@)
                == status_table::update_on(before, id, status.status_name@),
            progress !is Answered ==> table@ == before,
            before == old(table)@,
        decreases moves_left(progress),
    {
        match update_task_status(id, status, progress) {
            Step::Acquire => {
                progress = if connected {
                    Progress::Connected
                } else {
                    Progress::Refused
                };
            },
            Step::Run((key, new)) => {
                progress = Progress::Answered(table.update(key, new));
            },
            Step::Respond(updated) => {
                return updated;
            },
            Step::Abort => {
                return unreached();
            },
        }
    }
}

/// Removes from `table` the status with an id.
pub fn serve_delete_task_status(
    table: &mut StatusTable,
    connected: bool,
    id: i32,
) -> (response: Option<usize>)
    requires
        old(table).wf(),
    ensures
        final(table).wf(),
        response == delete_task_status_on(old(table)@, connected, id).0,
        final(table)@ == delete_task_status_on(old(table)@, connected, id).1,
{
    let ghost before = table@;
    let mut progress: Progress<Result<usize, StoreError>> = Progress::Started;
    loop
        invariant
            table.wf(),
            progress is Refused ==> !connected,
            progress is Connected ==> connected,
            progress matches Progress::Answered(reply) ==> connected && (shown(reply), table@)
                == status_table::delete_on(before, id),
            progress !is Answered ==> table@ == before,
            before == old(table)@,
        decreases moves_left(progress),
    {
        match delete_task_status(id, progress) {
            Step::Acquire => {
                progress = if connected {
                    Progress::Connected
                } else {
                    Progress::Refused
                };
            },
            Step::Run(key) => {
                progress = Progress::Answered(table.delete(key));
            },
            Step::Respond(removed) => {
                return removed;
            },
            Step::Abort => {
                return unreached();
            },
        }
    }
}

} // verus!
