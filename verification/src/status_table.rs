//! The table of statuses, held in memory.
//!
//! The table is a finite map from the id of a status to its name, and counts
//! the ids that it has given out: a new status gets the next one, so no id is
//! given twice, not even after its row is gone. Its operations answer as a
//! store answers the handlers of [`crate::statuses`].

use vstd::prelude::*;
use crate::exchange::{shown, StoreError};
use crate::models::{NewTaskStatus, TaskStatus, TaskStatusView};

verus! {

/// The table as contracts speak of it.
pub struct StatusTableView {
    /// The name of each status, by its id.
    pub rows: Map<i32, Seq<char>>,
    /// How many ids have been given out; they are the ids from 1 to this.
    pub assigned: int,
}

/// Every id of the table has been given out by it, and an `i32` can hold
/// the count.
pub open spec fn valid(table: StatusTableView) -> bool {
    &&& 0 <= table.assigned <= i32::MAX
    &&& forall|id: i32| #[trigger] table.rows.contains_key(id) ==> 1 <= id <= table.assigned
}

/// The row that a table holds under `id` when the id has the name `name`.
pub open spec fn row_of(id: i32, name: Seq<char>) -> TaskStatusView {
    TaskStatusView { id, status_name: name }
}

/// `rows` lists `table`: every row is in the table, every id of the table
/// has a row, and none has two.
pub open spec fn lists(rows: Seq<TaskStatusView>, table: Map<i32, Seq<char>>) -> bool {
    &&& forall|i: int|
        0 <= i < rows.len() ==> table.contains_pair((#[trigger] rows[i]).id, rows[i].status_name)
    &&& forall|id: i32| #[trigger]
        table.contains_key(id) ==> exists|i: int| 0 <= i < rows.len() && (#[trigger] rows[i]).id == id
    &&& forall|i: int, j: int|
        0 <= i < j < rows.len() ==> (#[trigger] rows[i]).id != (#[trigger] rows[j]).id
}

/// What reading `id` answers on `table`.
pub open spec fn read_on(
    table: StatusTableView,
    id: i32,
) -> Result<Option<TaskStatusView>, StoreError> {
    if table.rows.contains_key(id) {
        Ok(Some(row_of(id, table.rows[id])))
    } else {
        Ok(None)
    }
}

/// What creating a status named `name` answers on `table`, and the table
/// that it leaves. The status gets the id after the last one given out; where
/// an `i32` cannot hold that id, the store is unavailable and nothing is
/// written.
pub open spec fn create_on(table: StatusTableView, name: Seq<char>) -> (
    Result<TaskStatusView, StoreError>,
    StatusTableView,
) {
    if table.assigned >= i32::MAX {
        (Err(StoreError::Unavailable), table)
    } else {
        let id = (table.assigned + 1) as i32;
        (
            Ok(row_of(id, name)),
            StatusTableView { rows: table.rows.insert(id, name), assigned: table.assigned + 1 },
        )
    }
}

/// What renaming the status under `id` to `name` answers on `table`, and the
/// table that it leaves. An id without a row is not found, and nothing is
/// written.
pub open spec fn update_on(table: StatusTableView, id: i32, name: Seq<char>) -> (
    Result<TaskStatusView, StoreError>,
    StatusTableView,
) {
    if table.rows.contains_key(id) {
        (Ok(row_of(id, name)), StatusTableView { rows: table.rows.insert(id, name), ..table })
    } else {
        (Err(StoreError::NotFound), table)
    }
}

/// What deleting `id` answers on `table`, the number of rows removed, and the
/// table that it leaves.
pub open spec fn delete_on(table: StatusTableView, id: i32) -> (
    Result<usize, StoreError>,
    StatusTableView,
) {
    if table.rows.contains_key(id) {
        (Ok(1usize), StatusTableView { rows: table.rows.remove(id), ..table })
    } else {
        (Ok(0usize), table)
    }
}

/// No two rows have the same id.
spec fn distinct(rows: Seq<TaskStatus>) -> bool {
    forall|i: int, j: int|
        0 <= i < j < rows.len() ==> (#[trigger] rows[i]).id != (#[trigger] rows[j]).id
}

/// Some row has the id.
spec fn holds(rows: Seq<TaskStatus>, id: i32) -> bool {
    exists|i: int| 0 <= i < rows.len() && (#[trigger] rows[i]).id == id
}

/// Where the row with the id stands, if there is one.
spec fn place(rows: Seq<TaskStatus>, id: i32) -> int {
    choose|i: int| 0 <= i < rows.len() && (#[trigger] rows[i]).id == id
}

/// The map that the rows stand for.
spec fn table_of(rows: Seq<TaskStatus>) -> Map<i32, Seq<char>> {
    Map::new(|id: i32| holds(rows, id), |id: i32| rows[place(rows, id)].status_name@)
}

/// Among distinct rows, each is the one that the map has under its id.
proof fn lemma_row(rows: Seq<TaskStatus>, i: int)
    requires
        distinct(rows),
        0 <= i < rows.len(),
    ensures
        holds(rows, rows[i].id),
        place(rows, rows[i].id) == i,
        table_of(rows).contains_pair(rows[i].id, rows[i].status_name@),
{
    let id = rows[i].id;
    let at = place(rows, id);
    assert(0 <= at < rows.len() && rows[at].id == id);
    if at < i {
        assert(rows[at].id != rows[i].id);
    } else if i < at {
        assert(rows[i].id != rows[at].id);
    }
}

/// Distinct rows list the map that they stand for.
proof fn lemma_lists(rows: Seq<TaskStatus>, copies: Seq<TaskStatusView>)
    requires
        distinct(rows),
        copies.len() == rows.len(),
        forall|i: int| 0 <= i < rows.len() ==> #[trigger] copies[i] == rows[i]@,
    ensures
        lists(copies, table_of(rows)),
{
    assert forall|i: int| 0 <= i < copies.len() implies table_of(rows).contains_pair(
        (#[trigger] copies[i]).id,
        copies[i].status_name,
    ) by {
        lemma_row(rows, i);
    }
    assert forall|id: i32| #[trigger] table_of(rows).contains_key(id) implies exists|i: int|
        0 <= i < copies.len() && (#[trigger] copies[i]).id == id by {
        let i = place(rows, id);
        assert(copies[i].id == id);
    }
    assert forall|i: int, j: int| 0 <= i < j < copies.len() implies (#[trigger] copies[i]).id
        != (#[trigger] copies[j]).id by {
        assert(rows[i].id != rows[j].id);
    }
}

/// A row with a new id, put at the end, is an insertion into the map.
proof fn lemma_push(rows: Seq<TaskStatus>, row: TaskStatus)
    requires
        distinct(rows),
        !holds(rows, row.id),
    ensures
        distinct(rows.push(row)),
        table_of(rows.push(row)) == table_of(rows).insert(row.id, row.status_name@),
{
    let after = rows.push(row);
    assert forall|i: int, j: int| 0 <= i < j < after.len() implies (#[trigger] after[i]).id
        != (#[trigger] after[j]).id by {
        if j < rows.len() {
            assert(rows[i].id != rows[j].id);
        } else {
            assert(rows[i].id != row.id);
        }
    }
    let want = table_of(rows).insert(row.id, row.status_name@);
    assert forall|id: i32| table_of(after).contains_key(id) <==> want.contains_key(id) by {
        if holds(after, id) {
            let i = place(after, id);
            if i < rows.len() {
                assert(rows[i].id == id);
            }
        }
        if holds(rows, id) {
            let i = place(rows, id);
            assert(after[i].id == id);
        }
        if id == row.id {
            assert(after[rows.len() as int].id == id);
        }
    }
    assert forall|id: i32| table_of(after).contains_key(id) implies table_of(after)[id]
        == want[id] by {
        let i = place(after, id);
        lemma_row(after, i);
        if i < rows.len() {
            assert(rows[i] == after[i]);
            lemma_row(rows, i);
        }
    }
    assert(table_of(after) =~= want);
}

/// A row put in the place of another with the same id overwrites its name
/// in the map.
proof fn lemma_replace(rows: Seq<TaskStatus>, at: int, row: TaskStatus)
    requires
        distinct(rows),
        0 <= at < rows.len(),
        row.id == rows[at].id,
    ensures
        distinct(rows.update(at, row)),
        table_of(rows.update(at, row)) == table_of(rows).insert(row.id, row.status_name@),
{
    let after = rows.update(at, row);
    assert forall|i: int, j: int| 0 <= i < j < after.len() implies (#[trigger] after[i]).id
        != (#[trigger] after[j]).id by {
        assert(rows[i].id != rows[j].id);
    }
    let want = table_of(rows).insert(row.id, row.status_name@);
    assert forall|id: i32| table_of(after).contains_key(id) <==> want.contains_key(id) by {
        if holds(after, id) {
            let i = place(after, id);
            assert(rows[i].id == id);
        }
        if holds(rows, id) {
            let i = place(rows, id);
            assert(after[i].id == id);
        }
        if id == row.id {
            assert(after[at].id == id);
        }
    }
    assert forall|id: i32| table_of(after).contains_key(id) implies table_of(after)[id]
        == want[id] by {
        let i = place(after, id);
        lemma_row(after, i);
        if i != at {
            assert(rows[i] == after[i]);
            lemma_row(rows, i);
        }
    }
    assert(table_of(after) =~= want);
}

/// A row taken out is its id removed from the map.
proof fn lemma_remove(rows: Seq<TaskStatus>, at: int)
    requires
        distinct(rows),
        0 <= at < rows.len(),
    ensures
        distinct(rows.remove(at)),
        table_of(rows.remove(at)) == table_of(rows).remove(rows[at].id),
{
    let after = rows.remove(at);
    assert forall|i: int| 0 <= i < after.len() implies #[trigger] after[i] == rows[if i < at {
        i
    } else {
        i + 1
    }] by {
    }
    assert forall|i: int, j: int| 0 <= i < j < after.len() implies (#[trigger] after[i]).id
        != (#[trigger] after[j]).id by {
        let from_i = if i < at { i } else { i + 1 };
        let from_j = if j < at { j } else { j + 1 };
        assert(rows[from_i].id != rows[from_j].id);
    }
    let want = table_of(rows).remove(rows[at].id);
    assert forall|id: i32| table_of(after).contains_key(id) <==> want.contains_key(id) by {
        if holds(after, id) {
            let i = place(after, id);
            let from = if i < at { i } else { i + 1 };
            assert(rows[from].id == id);
            lemma_row(rows, from);
            lemma_row(rows, at);
        }
        if id != rows[at].id && holds(rows, id) {
            let i = place(rows, id);
            let to = if i < at { i } else { i - 1 };
            assert(after[to].id == id);
        }
    }
    assert forall|id: i32| table_of(after).contains_key(id) implies table_of(after)[id]
        == want[id] by {
        let i = place(after, id);
        lemma_row(after, i);
        let from = if i < at { i } else { i + 1 };
        assert(rows[from] == after[i]);
        lemma_row(rows, from);
    }
    assert(table_of(after) =~= want);
}

/// The statuses that the service holds.
pub struct StatusTable {
    rows: Vec<TaskStatus>,
    assigned: i32,
}

impl View for StatusTable {
    type V = StatusTableView;

    /// The rows as a map from each id to its name, and the count of the ids
    /// given out.
    closed spec fn view(&self) -> StatusTableView {
        StatusTableView { rows: table_of(self.rows@), assigned: self.assigned as int }
    }
}

impl StatusTable {
    /// No id has two rows, and every row has an id that the table gave out.
    pub closed spec fn wf(&self) -> bool {
        &&& distinct(self.rows@)
        &&& 0 <= self.assigned
        &&& forall|i: int|
            0 <= i < self.rows@.len() ==> 1 <= (#[trigger] self.rows@[i]).id <= self.assigned
    }

    /// A table that is well formed has a valid view.
    pub proof fn wf_is_valid(&self)
        requires
            self.wf(),
        ensures
            valid(self@),
    {
        assert forall|id: i32| #[trigger] self@.rows.contains_key(id) implies 1 <= id
            <= self@.assigned by {
            let i = place(self.rows@, id);
            assert(self.rows@[i].id == id);
        }
    }

    /// A table without rows that has given out no id.
    pub fn new() -> (table: Self)
        ensures
            table.wf(),
            table@ == (StatusTableView { rows: Map::empty(), assigned: 0 }),
    {
        let table = StatusTable { rows: Vec::new(), assigned: 0 };
        assert(table@.rows =~= Map::<i32, Seq<char>>::empty());
        table
    }

    /// A table without rows that has given out the ids from 1 to `assigned`
    /// before: the next status gets the id after them.
    pub fn resuming(assigned: i32) -> (table: Self)
        requires
            assigned >= 0,
        ensures
            table.wf(),
            table@ == (StatusTableView { rows: Map::empty(), assigned: assigned as int }),
    {
        let table = StatusTable { rows: Vec::new(), assigned };
        assert(table@.rows =~= Map::<i32, Seq<char>>::empty());
        table
    }

    fn find(&self, id: i32) -> (at: Option<usize>)
        requires
            self.wf(),
        ensures
            at is Some <==> self@.rows.contains_key(id),
            at matches Some(i) ==> i < self.rows@.len() && self.rows@[i as int]@ == row_of(
                id,
                self@.rows[id],
            ),
            at is None ==> !holds(self.rows@, id),
    {
        let mut i: usize = 0;
        while i < self.rows.len()
            invariant
                self.wf(),
                i <= self.rows@.len(),
                forall|j: int| 0 <= j < i ==> (#[trigger] self.rows@[j]).id != id,
            decreases self.rows@.len() - i,
        {
            if self.rows[i].id == id {
                proof {
                    lemma_row(self.rows@, i as int);
                }
                return Some(i);
            }
            i += 1;
        }
        None
    }

    /// Lists every row, each once.
    pub fn read_all(&self) -> (reply: Result<Vec<TaskStatus>, StoreError>)
        requires
            self.wf(),
        ensures
            reply matches Ok(rows) && lists(rows.deep_view(), self@.rows),
    {
        let mut copies: Vec<TaskStatus> = Vec::new();
        let mut i: usize = 0;
        while i < self.rows.len()
            invariant
                i <= self.rows@.len(),
                copies@.len() == i,
                forall|j: int| 0 <= j < i ==> (#[trigger] copies@[j])@ == self.rows@[j]@,
            decreases self.rows@.len() - i,
        {
            let row = &self.rows[i];
            copies.push(TaskStatus { id: row.id, status_name: row.status_name.clone() });
            i += 1;
        }
        proof {
            lemma_lists(self.rows@, copies.deep_view());
        }
        Ok(copies)
    }

    /// Reads the row under `id`, if there is one.
    pub fn read(&self, id: i32) -> (reply: Result<Option<TaskStatus>, StoreError>)
        requires
            self.wf(),
        ensures
            shown(reply) == read_on(self@, id),
    {
        match self.find(id) {
            Some(at) => {
                let row = &self.rows[at];
                Ok(Some(TaskStatus { id: row.id, status_name: row.status_name.clone() }))
            },
            None => Ok(None),
        }
    }

    /// Writes `new` as a row of its own, under the next id.
    pub fn create(&mut self, new: NewTaskStatus) -> (reply: Result<TaskStatus, StoreError>)
        requires
            old(self).wf(),
        ensures
            final(self).wf(),
            shown(reply) == create_on(old(self)@, new@).0,
            final(self)@ == create_on(old(self)@, new@).1,
    {
        if self.assigned == i32::MAX {
            return Err(StoreError::Unavailable);
        }
        let id = self.assigned + 1;
        let row = TaskStatus { id, status_name: new.status_name.clone() };
        proof {
            assert(!holds(self.rows@, id));
            lemma_push(self.rows@, row);
        }
        self.assigned = id;
        self.rows.push(row);
        Ok(TaskStatus { id, status_name: new.status_name })
    }

    /// Renames the row under `id` to the name of `new`.
    pub fn update(
        &mut self,
        id: i32,
        new: NewTaskStatus,
    ) -> (reply: Result<TaskStatus, StoreError>)
        requires
            old(self).wf(),
        ensures
            final(self).wf(),
            shown(reply) == update_on(old(self)@, id, new@).0,
            final(self)@ == update_on(old(self)@, id, new@).1,
    {
        match self.find(id) {
            Some(at) => {
                let row = TaskStatus { id, status_name: new.status_name.clone() };
                proof {
                    lemma_replace(self.rows@, at as int, row);
                }
                self.rows[at] = row;
                Ok(TaskStatus { id, status_name: new.status_name })
            },
            None => Err(StoreError::NotFound),
        }
    }

    /// Removes the row under `id`, if there is one.
    pub fn delete(&mut self, id: i32) -> (reply: Result<usize, StoreError>)
        requires
            old(self).wf(),
        ensures
            final(self).wf(),
            shown(reply) == delete_on(old(self)@, id).0,
            final(self)@ == delete_on(old(self)@, id).1,
    {
        match self.find(id) {
            Some(at) => {
                proof {
                    lemma_remove(self.rows@, at as int);
                }
                self.rows.remove(at);
                Ok(1)
            },
            None => Ok(0),
        }
    }
}

} // verus!
