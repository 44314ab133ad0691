//! What holds of the service as a whole, whatever its tables hold.
//!
//! The laws speak of the requests as [`crate::service`] defines them on a
//! table, which is what the functions `serve_..` there are proved to do.

use vstd::prelude::*;
use crate::assignments::AssignmentInput;
use crate::models::TaskStatusView;
use crate::service::{
    create_task_status_on,
    create_user_task_on,
    delete_user_task_on,
    get_task_status_on,
    get_user_task_on,
    update_user_task_on,
};
use crate::status_table;
use crate::status_table::StatusTableView;

verus! {

/// An assignment is created exactly where the pool gives a connection and
/// its key has no row. Once created, it is read back under its key with the
/// three values of the body, as long as the pool gives the reader a
/// connection.
pub proof fn created_assignment_is_read_back(
    table: Map<(i32, i32), i32>,
    connected: bool,
    assignment: AssignmentInput,
)
    ensures
        ({
            let (created, after) = create_user_task_on(table, connected, assignment);
            let row = assignment.values().row();
            &&& created is Some <==> connected && !table.contains_key(
                (assignment.user_id, assignment.task_id),
            )
            &&& created is Some ==> created == Some(row) && get_user_task_on(
                after,
                true,
                assignment.user_id,
                assignment.task_id,
            ) == Some(row)
            &&& created is None ==> after == table
        }),
{
}

/// An assignment that has been replaced is read back under the key of the
/// body with the three values of the body, as long as the pool gives the
/// reader a connection; where the body has another key than the path, the key
/// of the path has no row any more. A body that keeps the key of a row
/// replaces it whenever the pool gives a connection, so its new status is
/// read back, whatever the old one was.
pub proof fn updated_assignment_is_read_back(
    table: Map<(i32, i32), i32>,
    connected: bool,
    user_id: i32,
    task_id: i32,
    assignment: AssignmentInput,
)
    ensures
        ({
            let (updated, after) = update_user_task_on(
                table,
                connected,
                user_id,
                task_id,
                assignment,
            );
            let row = assignment.values().row();
            let same_key = assignment.user_id == user_id && assignment.task_id == task_id;
            &&& connected && same_key && table.contains_key((user_id, task_id)) ==> updated is Some
            &&& updated is Some ==> updated == Some(row) && get_user_task_on(
                after,
                true,
                assignment.user_id,
                assignment.task_id,
            ) == Some(row)
            &&& updated is Some && !same_key ==> get_user_task_on(after, true, user_id, task_id)
                is None
            &&& updated is None ==> after == table
        }),
{
}

/// Deleting a key that has no row is "not found", never a count of zero, and
/// leaves the table as it was. Deleting a key that has a row removes that one
/// row where the pool gives a connection.
pub proof fn deleting_missing_assignment_is_not_found(
    table: Map<(i32, i32), i32>,
    connected: bool,
    user_id: i32,
    task_id: i32,
)
    ensures
        ({
            let (removed, after) = delete_user_task_on(table, connected, user_id, task_id);
            &&& !table.contains_key((user_id, task_id)) ==> removed is None && after == table
            &&& removed != Some(0usize)
            &&& removed is Some <==> connected && table.contains_key((user_id, task_id))
            &&& removed is Some ==> get_user_task_on(after, true, user_id, task_id) is None
        }),
{
}

/// A request on assignments, as the history of a table records it.
pub enum AssignmentRequest {
    List,
    Get { user_id: i32, task_id: i32 },
    Create { assignment: AssignmentInput },
    Update { user_id: i32, task_id: i32, assignment: AssignmentInput },
    Delete { user_id: i32, task_id: i32 },
}

impl AssignmentRequest {
    /// The request asks to have a row written under `key`.
    pub open spec fn writes(self, key: (i32, i32)) -> bool {
        match self {
            AssignmentRequest::Create { assignment } => assignment.values().key() == key,
            AssignmentRequest::Update { assignment, .. } => assignment.values().key() == key,
            _ => false,
        }
    }

    /// The table that the request leaves of `table`.
    pub open spec fn leaves(self, table: Map<(i32, i32), i32>, connected: bool) -> Map<
        (i32, i32),
        i32,
    > {
        match self {
            AssignmentRequest::List => table,
            AssignmentRequest::Get { .. } => table,
            AssignmentRequest::Create { assignment } => create_user_task_on(
                table,
                connected,
                assignment,
            ).1,
            AssignmentRequest::Update { user_id, task_id, assignment } => update_user_task_on(
                table,
                connected,
                user_id,
                task_id,
                assignment,
            ).1,
            AssignmentRequest::Delete { user_id, task_id } => delete_user_task_on(
                table,
                connected,
                user_id,
                task_id,
            ).1,
        }
    }
}

/// The table that a history of requests leaves of an empty table. Each
/// request comes with whether the pool gave it a connection.
pub open spec fn table_after(history: Seq<(AssignmentRequest, bool)>) -> Map<(i32, i32), i32>
    decreases history.len(),
{
    if history.len() == 0 {
        Map::empty()
    } else {
        history.last().0.leaves(table_after(history.drop_last()), history.last().1)
    }
}

/// A key that no request of the history asked to have written has no row,
/// so reading it is "not found".
pub proof fn unwritten_assignment_is_not_found(
    history: Seq<(AssignmentRequest, bool)>,
    connected: bool,
    user_id: i32,
    task_id: i32,
)
    requires
        forall|i: int| 0 <= i < history.len() ==> !(#[trigger] history[i]).0.writes((user_id, task_id)),
    ensures
        !table_after(history).contains_key((user_id, task_id)),
        get_user_task_on(table_after(history), connected, user_id, task_id) is None,
    decreases history.len(),
{
    if history.len() > 0 {
        let earlier = history.drop_last();
        assert forall|i: int| 0 <= i < earlier.len() implies !(#[trigger] earlier[i]).0.writes(
            (user_id, task_id),
        ) by {
            assert(earlier[i] == history[i]);
        }
        unwritten_assignment_is_not_found(earlier, connected, user_id, task_id);
        assert(!history[history.len() - 1].0.writes((user_id, task_id)));
    }
}

/// Reading a key that has no row is "not found", whatever the pool does.
pub proof fn missing_assignment_is_not_found(
    table: Map<(i32, i32), i32>,
    connected: bool,
    user_id: i32,
    task_id: i32,
)
    requires
        !table.contains_key((user_id, task_id)),
    ensures
        get_user_task_on(table, connected, user_id, task_id) is None,
{
}

/// A status that has been created is read back under the id that it was
/// given, with the name of the body, as long as the pool gives the reader a
/// connection.
pub proof fn created_status_is_read_back(table: StatusTableView, connected: bool, name: Seq<char>)
    ensures
        ({
            let (created, after) = create_task_status_on(table, connected, name);
            created matches Some(row) ==> row.status_name == name && get_task_status_on(
                after,
                true,
                row.id,
            ) == Some(row)
        }),
{
}

/// A status is created exactly where the pool gives a connection and an id
/// is left. On a valid table its id is one that no row has, and the table
/// stays valid.
pub proof fn created_status_gets_an_unused_id(
    table: StatusTableView,
    connected: bool,
    name: Seq<char>,
)
    requires
        status_table::valid(table),
    ensures
        ({
            let (created, after) = create_task_status_on(table, connected, name);
            &&& status_table::valid(after)
            &&& created is Some <==> connected && table.assigned < i32::MAX
            &&& created matches Some(row) ==> {
                &&& row.status_name == name
                &&& !table.rows.contains_key(row.id)
                &&& after.rows == table.rows.insert(row.id, name)
            }
            &&& created is None ==> after == table
        }),
{
}

/// After two statuses have been created, one after the other, every list of
/// the table holds both, each under its own id and with its own name.
pub proof fn created_statuses_are_listed(
    table: StatusTableView,
    first: Seq<char>,
    second: Seq<char>,
    rows: Seq<TaskStatusView>,
)
    requires
        status_table::valid(table),
        create_task_status_on(table, true, first).0 is Some,
        create_task_status_on(create_task_status_on(table, true, first).1, true, second).0 is Some,
        status_table::lists(
            rows,
            create_task_status_on(create_task_status_on(table, true, first).1, true, second).1.rows,
        ),
    ensures
        ({
            let (one, between) = create_task_status_on(table, true, first);
            let (other, after) = create_task_status_on(between, true, second);
            &&& one->Some_0.status_name == first
            &&& other->Some_0.status_name == second
            &&& one->Some_0.id != other->Some_0.id
            &&& rows.contains(one->Some_0)
            &&& rows.contains(other->Some_0)
        }),
{
    let (one, between) = create_task_status_on(table, true, first);
    let (other, after) = create_task_status_on(between, true, second);
    let a = one->Some_0;
    let b = other->Some_0;
    assert(after.rows.contains_key(a.id));
    let i = choose|i: int| 0 <= i < rows.len() && (#[trigger] rows[i]).id == a.id;
    assert(after.rows.contains_pair(rows[i].id, rows[i].status_name));
    assert(rows[i] == a);
    assert(after.rows.contains_key(b.id));
    let j = choose|j: int| 0 <= j < rows.len() && (#[trigger] rows[j]).id == b.id;
    assert(after.rows.contains_pair(rows[j].id, rows[j].status_name));
    assert(rows[j] == b);
}

} // verus!
