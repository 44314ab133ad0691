//! The rows of the two tables, and what is needed to write one.

use vstd::prelude::*;

verus! {

/// An assignment: the status that a task has for a user. The pair of
/// `user_id` and `task_id` is its key.
#[derive(Clone, Copy, Debug, PartialEq, Eq, Structural)]
pub struct UserTask {
    pub user_id: i32,
    pub task_id: i32,
    pub task_status_id: i32,
}

/// The three values of an assignment that is to be written.
#[derive(Clone, Copy, Debug, PartialEq, Eq, Structural)]
pub struct NewUserTask {
    pub user_id: i32,
    pub task_id: i32,
    pub task_status_id: i32,
}

impl UserTask {
    /// The key of the row.
    pub open spec fn key(self) -> (i32, i32) {
        (self.user_id, self.task_id)
    }
}

impl NewUserTask {
    /// The key under which the values are written.
    pub open spec fn key(self) -> (i32, i32) {
        (self.user_id, self.task_id)
    }

    /// The row that holds the values once they are written.
    pub open spec fn row(self) -> UserTask {
        UserTask {
            user_id: self.user_id,
            task_id: self.task_id,
            task_status_id: self.task_status_id,
        }
    }
}

/// A status that an assignment can have. The store gives it its `id` when
/// it is created.
#[derive(Clone, Debug, PartialEq, Eq)]
pub struct TaskStatus {
    pub id: i32,
    pub status_name: String,
}

/// A status as contracts speak of it: its name is the sequence of its
/// characters.
pub struct TaskStatusView {
    pub id: i32,
    pub status_name: Seq<char>,
}

impl View for TaskStatus {
    type V = TaskStatusView;

    open spec fn view(&self) -> TaskStatusView {
        TaskStatusView { id: self.id, status_name: self.status_name@ }
    }
}

impl DeepView for TaskStatus {
    type V = TaskStatusView;

    open spec fn deep_view(&self) -> TaskStatusView {
        self@
    }
}

/// The name of a status that is to be written.
#[derive(Clone, Debug, PartialEq, Eq)]
pub struct NewTaskStatus {
    pub status_name: String,
}

impl View for NewTaskStatus {
    type V = Seq<char>;

    open spec fn view(&self) -> Seq<char> {
        self.status_name@
    }
}

} // verus!
