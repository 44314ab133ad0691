//! The table of assignments, held in memory.
//!
//! The table is a finite map from the key of an assignment, the pair of its
//! user and its task, to the id of its status: no key has two rows. Its
//! operations answer as a store answers the handlers of
//! [`crate::assignments`].

use vstd::prelude::*;
use crate::exchange::StoreError;
use crate::models::{NewUserTask, UserTask};

verus! {

/// The row that a table holds under `key` when the key has the status `status`.
pub open spec fn row_of(key: (i32, i32), status: i32) -> UserTask {
    UserTask { user_id: key.0, task_id: key.1, task_status_id: status }
}

/// `rows` lists `table`: every row is in the table, every key of the table
/// has a row, and none has two.
pub open spec fn lists(rows: Seq<UserTask>, table: Map<(i32, i32), i32>) -> bool {
    &&& forall|i: int|
        0 <= i < rows.len() ==> table.contains_pair((#[trigger] rows[i]).key(), rows[i].task_status_id)
    &&& forall|key: (i32, i32)| #[trigger]
        table.contains_key(key) ==> exists|i: int|
            0 <= i < rows.len() && (#[trigger] rows[i]).key() == key
    &&& forall|i: int, j: int|
        0 <= i < j < rows.len() ==> (#[trigger] rows[i]).key() != (#[trigger] rows[j]).key()
}

/// What reading `key` answers on `table`.
pub open spec fn read_on(
    table: Map<(i32, i32), i32>,
    key: (i32, i32),
) -> Result<Option<UserTask>, StoreError> {
    if table.contains_key(key) {
        Ok(Some(row_of(key, table[key])))
    } else {
        Ok(None)
    }
}

/// What creating `new` answers on `table`, and the table that it leaves.
/// A key that has a row is a conflict, and nothing is written.
pub open spec fn create_on(table: Map<(i32, i32), i32>, new: NewUserTask) -> (
    Result<UserTask, StoreError>,
    Map<(i32, i32), i32>,
) {
    if table.contains_key(new.key()) {
        (Err(StoreError::Conflict), table)
    } else {
        (Ok(new.row()), table.insert(new.key(), new.task_status_id))
    }
}

/// What replacing the row under `key` by `new` answers on `table`, and the
/// table that it leaves. All three values are overwritten, so the row may
/// move to another key. A key without a row is not found; a move to a key
/// that has a row of its own is a conflict; in both cases nothing is written.
pub open spec fn update_on(table: Map<(i32, i32), i32>, key: (i32, i32), new: NewUserTask) -> (
    Result<UserTask, StoreError>,
    Map<(i32, i32), i32>,
) {
    if !table.contains_key(key) {
        (Err(StoreError::NotFound), table)
    } else if new.key() != key && table.contains_key(new.key()) {
        (Err(StoreError::Conflict), table)
    } else {
        (Ok(new.row()), table.remove(key).insert(new.key(), new.task_status_id))
    }
}

/// What deleting `key` answers on `table`, the number of rows removed, and
/// the table that it leaves.
pub open spec fn delete_on(table: Map<(i32, i32), i32>, key: (i32, i32)) -> (
    Result<usize, StoreError>,
    Map<(i32, i32), i32>,
) {
    if table.contains_key(key) {
        (Ok(1usize), table.remove(key))
    } else {
        (Ok(0usize), table)
    }
}

/// No two rows have the same key.
spec fn distinct(rows: Seq<UserTask>) -> bool {
    forall|i: int, j: int|
        0 <= i < j < rows.len() ==> (#[trigger] rows[i]).key() != (#[trigger] rows[j]).key()
}

/// Some row has the key.
spec fn holds(rows: Seq<UserTask>, key: (i32, i32)) -> bool {
    exists|i: int| 0 <= i < rows.len() && (#[trigger] rows[i]).key() == key
}

/// Where the row with the key stands, if there is one.
spec fn place(rows: Seq<UserTask>, key: (i32, i32)) -> int {
    choose|i: int| 0 <= i < rows.len() && (#[trigger] rows[i]).key() == key
}

/// The map that the rows stand for.
spec fn table_of(rows: Seq<UserTask>) -> Map<(i32, i32), i32> {
    Map::new(|key: (i32, i32)| holds(rows, key), |key: (i32, i32)| rows[place(rows, key)].task_status_id)
}

/// Among distinct rows, each is the one that the map has under its key.
proof fn lemma_row(rows: Seq<UserTask>, i: int)
    requires
        distinct(rows),
        0 <= i < rows.len(),
    ensures
        holds(rows, rows[i].key()),
        place(rows, rows[i].key()) == i,
        table_of(rows).contains_pair(rows[i].key(), rows[i].task_status_id),
{
    let key = rows[i].key();
    let at = place(rows, key);
    assert(0 <= at < rows.len() && rows[at].key() == key);
    if at < i {
        assert(rows[at].key() != rows[i].key());
    } else if i < at {
        assert(rows[i].key() != rows[at].key());
    }
}

/// Distinct rows list the map that they stand for.
proof fn lemma_lists(rows: Seq<UserTask>)
    requires
        distinct(rows),
    ensures
        lists(rows, table_of(rows)),
{
    assert forall|i: int| 0 <= i < rows.len() implies table_of(rows).contains_pair(
        (#[trigger] rows[i]).key(),
        rows[i].task_status_id,
    ) by {
        lemma_row(rows, i);
    }
}

/// A row with a new key, put at the end, is an insertion into the map.
proof fn lemma_push(rows: Seq<UserTask>, row: UserTask)
    requires
        distinct(rows),
        !holds(rows, row.key()),
    ensures
        distinct(rows.push(row)),
        table_of(rows.push(row)) == table_of(rows).insert(row.key(), row.task_status_id),
{
    let after = rows.push(row);
    assert forall|i: int, j: int| 0 <= i < j < after.len() implies (#[trigger] after[i]).key()
        != (#[trigger] after[j]).key() by {
        if j < rows.len() {
            assert(rows[i].key() != rows[j].key());
        } else {
            assert(rows[i].key() != row.key());
        }
    }
    let want = table_of(rows).insert(row.key(), row.task_status_id);
    assert forall|key: (i32, i32)| table_of(after).contains_key(key) <==> want.contains_key(
        key,
    ) by {
        if holds(after, key) {
            let i = place(after, key);
            if i < rows.len() {
                assert(rows[i].key() == key);
            }
        }
        if holds(rows, key) {
            let i = place(rows, key);
            assert(after[i].key() == key);
        }
        if key == row.key() {
            assert(after[rows.len() as int].key() == key);
        }
    }
    assert forall|key: (i32, i32)| table_of(after).contains_key(key) implies table_of(after)[key]
        == want[key] by {
        let i = place(after, key);
        lemma_row(after, i);
        if i < rows.len() {
            assert(rows[i] == after[i]);
            lemma_row(rows, i);
        }
    }
    assert(table_of(after) =~= want);
}

/// A row put in the place of another is that one removed and this one
/// inserted.
proof fn lemma_replace(rows: Seq<UserTask>, at: int, row: UserTask)
    requires
        distinct(rows),
        0 <= at < rows.len(),
        row.key() == rows[at].key() || !holds(rows, row.key()),
    ensures
        distinct(rows.update(at, row)),
        table_of(rows.update(at, row)) == table_of(rows).remove(rows[at].key()).insert(
            row.key(),
            row.task_status_id,
        ),
{
    let after = rows.update(at, row);
    assert forall|i: int, j: int| 0 <= i < j < after.len() implies (#[trigger] after[i]).key()
        != (#[trigger] after[j]).key() by {
        assert(rows[i].key() != rows[j].key());
        if i == at {
            assert(rows[j].key() != row.key());
        } else if j == at {
            assert(rows[i].key() != row.key());
        }
    }
    let want = table_of(rows).remove(rows[at].key()).insert(row.key(), row.task_status_id);
    assert forall|key: (i32, i32)| table_of(after).contains_key(key) <==> want.contains_key(
        key,
    ) by {
        if holds(after, key) {
            let i = place(after, key);
            if i != at {
                assert(rows[i].key() == key);
                lemma_row(rows, i);
                lemma_row(rows, at);
            }
        }
        if key != row.key() && key != rows[at].key() && holds(rows, key) {
            let i = place(rows, key);
            assert(after[i].key() == key);
        }
        if key == row.key() {
            assert(after[at].key() == key);
        }
    }
    assert forall|key: (i32, i32)| table_of(after).contains_key(key) implies table_of(after)[key]
        == want[key] by {
        let i = place(after, key);
        lemma_row(after, i);
        if i != at {
            assert(rows[i] == after[i]);
            lemma_row(rows, i);
            lemma_row(rows, at);
        }
    }
    assert(table_of(after) =~= want);
}

/// A row taken out is its key removed from the map.
proof fn lemma_remove(rows: Seq<UserTask>, at: int)
    requires
        distinct(rows),
        0 <= at < rows.len(),
    ensures
        distinct(rows.remove(at)),
        table_of(rows.remove(at)) == table_of(rows).remove(rows[at].key()),
{
    let after = rows.remove(at);
    assert forall|i: int| 0 <= i < after.len() implies #[trigger] after[i] == rows[if i < at {
        i
    } else {
        i + 1
    }] by {
    }
    assert forall|i: int, j: int| 0 <= i < j < after.len() implies (#[trigger] after[i]).key()
        != (#[trigger] after[j]).key() by {
        let from_i = if i < at { i } else { i + 1 };
        let from_j = if j < at { j } else { j + 1 };
        assert(rows[from_i].key() != rows[from_j].key());
    }
    let want = table_of(rows).remove(rows[at].key());
    assert forall|key: (i32, i32)| table_of(after).contains_key(key) <==> want.contains_key(
        key,
    ) by {
        if holds(after, key) {
            let i = place(after, key);
            let from = if i < at { i } else { i + 1 };
            assert(rows[from].key() == key);
            lemma_row(rows, from);
            lemma_row(rows, at);
        }
        if key != rows[at].key() && holds(rows, key) {
            let i = place(rows, key);
            let to = if i < at { i } else { i - 1 };
            assert(after[to].key() == key);
        }
    }
    assert forall|key: (i32, i32)| table_of(after).contains_key(key) implies table_of(after)[key]
        == want[key] by {
        let i = place(after, key);
        lemma_row(after, i);
        let from = if i < at { i } else { i + 1 };
        assert(rows[from] == after[i]);
        lemma_row(rows, from);
    }
    assert(table_of(after) =~= want);
}

/// The assignments that the service holds.
pub struct AssignmentTable {
    rows: Vec<UserTask>,
}

impl View for AssignmentTable {
    type V = Map<(i32, i32), i32>;

    /// The table as a map from the key of each row to the id of its status.
    closed spec fn view(&self) -> Map<(i32, i32), i32> {
        table_of(self.rows@)
    }
}

impl AssignmentTable {
    /// No key has two rows.
    pub closed spec fn wf(&self) -> bool {
        distinct(self.rows@)
    }

    /// A table without rows.
    pub fn new() -> (table: Self)
        ensures
            table.wf(),
            table@ == Map::<(i32, i32), i32>::empty(),
    {
        let table = AssignmentTable { rows: Vec::new() };
        assert(table@ =~= Map::<(i32, i32), i32>::empty());
        table
    }

    fn find(&self, key: (i32, i32)) -> (at: Option<usize>)
        requires
            self.wf(),
        ensures
            at is Some <==> self@.contains_key(key),
            at matches Some(i) ==> i < self.rows@.len() && self.rows@[i as int] == row_of(
                key,
                self@[key],
            ),
            at is None ==> !holds(self.rows@, key),
    {
        let mut i: usize = 0;
        while i < self.rows.len()
            invariant
                self.wf(),
                i <= self.rows@.len(),
                forall|j: int| 0 <= j < i ==> (#[trigger] self.rows@[j]).key() != key,
            decreases self.rows@.len() - i,
        {
            let row = self.rows[i];
            if row.user_id == key.0 && row.task_id == key.1 {
                proof {
                    lemma_row(self.rows@, i as int);
                }
                return Some(i);
            }
            i += 1;
        }
        None
    }

    /// Lists every row, each once.
    pub fn read_all(&self) -> (reply: Result<Vec<UserTask>, StoreError>)
        requires
            self.wf(),
        ensures
            reply matches Ok(rows) && lists(rows@, self@),
    {
        let rows = self.rows.clone();
        proof {
            assert(rows@ =~= self.rows@);
            lemma_lists(self.rows@);
        }
        Ok(rows)
    }

    /// Reads the row under `key`, if there is one.
    pub fn read(&self, key: (i32, i32)) -> (reply: Result<Option<UserTask>, StoreError>)
        requires
            self.wf(),
        ensures
            reply == read_on(self@, key),
    {
        match self.find(key) {
            Some(at) => Ok(Some(self.rows[at])),
            None => Ok(None),
        }
    }

    /// Writes `new` as a row of its own.
    pub fn create(&mut self, new: NewUserTask) -> (reply: Result<UserTask, StoreError>)
        requires
            old(self).wf(),
        ensures
            final(self).wf(),
            reply == create_on(old(self)@, new).0,
            final(self)@ == create_on(old(self)@, new).1,
    {
        match self.find((new.user_id, new.task_id)) {
            Some(_) => Err(StoreError::Conflict),
            None => {
                let row = UserTask {
                    user_id: new.user_id,
                    task_id: new.task_id,
                    task_status_id: new.task_status_id,
                };
                proof {
                    lemma_push(self.rows@, row);
                }
                self.rows.push(row);
                Ok(row)
            },
        }
    }

    /// Overwrites the row under `key` by `new`.
    pub fn update(
        &mut self,
        key: (i32, i32),
        new: NewUserTask,
    ) -> (reply: Result<UserTask, StoreError>)
        requires
            old(self).wf(),
        ensures
            final(self).wf(),
            reply == update_on(old(self)@, key, new).0,
            final(self)@ == update_on(old(self)@, key, new).1,
    {
        let at = match self.find(key) {
            Some(at) => at,
            None => {
                return Err(StoreError::NotFound);
            },
        };
        let moves = new.user_id != key.0 || new.task_id != key.1;
        if moves && self.find((new.user_id, new.task_id)).is_some() {
            return Err(StoreError::Conflict);
        }
        let row = UserTask {
            user_id: new.user_id,
            task_id: new.task_id,
            task_status_id: new.task_status_id,
        };
        proof {
            lemma_replace(self.rows@, at as int, row);
        }
        self.rows[at] = row;
        Ok(row)
    }

    /// Removes the row under `key`, if there is one.
    pub fn delete(&mut self, key: (i32, i32)) -> (reply: Result<usize, StoreError>)
        requires
            old(self).wf(),
        ensures
            final(self).wf(),
            reply == delete_on(old(self)@, key).0,
            final(self)@ == delete_on(old(self)@, key).1,
    {
        match self.find(key) {
            Some(at) => {
                proof {
                    lemma_remove(self.rows@, at as int);
                }
                self.rows.remove(at);
                Ok(1)
            },
            None => Ok(0),
        }
    }
}

} // verus!
