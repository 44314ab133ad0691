//! Request logic of a small task-tracking service.
//!
//! The service keeps two tables: assignments, which link a user and a task to
//! a status, and the statuses themselves. Every request is answered in the
//! same three moves: take a connection from the pool, run one operation on
//! the store, turn what the store said into a response. The handlers in
//! [`assignments`] and [`statuses`] decide each move and leave the pool and
//! the store to their caller. [`assignment_table`] and [`status_table`] hold
//! the two tables in memory, [`service`] plays the handlers against them, and
//! [`laws`] states what then holds of the service as a whole.

pub mod exchange;
pub mod models;
pub mod assignments;
pub mod statuses;
pub mod assignment_table;
pub mod status_table;
pub mod service;
pub mod laws;
