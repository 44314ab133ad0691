use rocket_app::assignment_table::AssignmentTable;
use rocket_app::exchange::StoreError;
use rocket_app::models::{NewTaskStatus, NewUserTask, TaskStatus, UserTask};
use rocket_app::status_table::StatusTable;

fn values(user_id: i32, task_id: i32, task_status_id: i32) -> NewUserTask {
    NewUserTask { user_id, task_id, task_status_id }
}

fn row(user_id: i32, task_id: i32, task_status_id: i32) -> UserTask {
    UserTask { user_id, task_id, task_status_id }
}

fn named(name: &str) -> NewTaskStatus {
    NewTaskStatus { status_name: name.to_string() }
}

fn status(id: i32, name: &str) -> TaskStatus {
    TaskStatus { id, status_name: name.to_string() }
}

#[test]
fn a_new_assignment_table_is_empty() {
    let table = AssignmentTable::new();
    assert_eq!(table.read_all(), Ok(vec![]));
    assert_eq!(table.read((1, 2)), Ok(None));
}

#[test]
fn an_assignment_is_created_once_per_key() {
    let mut table = AssignmentTable::new();
    assert_eq!(table.create(values(1, 2, 3)), Ok(row(1, 2, 3)));
    assert_eq!(table.create(values(1, 2, 9)), Err(StoreError::Conflict));
    assert_eq!(table.read((1, 2)), Ok(Some(row(1, 2, 3))));
    assert_eq!(table.create(values(2, 1, 3)), Ok(row(2, 1, 3)));
    assert_eq!(table.read_all(), Ok(vec![row(1, 2, 3), row(2, 1, 3)]));
}

#[test]
fn an_assignment_is_updated_in_place() {
    let mut table = AssignmentTable::new();
    assert_eq!(table.create(values(1, 2, 3)), Ok(row(1, 2, 3)));
    assert_eq!(table.update((1, 2), values(1, 2, 4)), Ok(row(1, 2, 4)));
    assert_eq!(table.read((1, 2)), Ok(Some(row(1, 2, 4))));
    assert_eq!(table.read_all(), Ok(vec![row(1, 2, 4)]));
}

#[test]
fn an_update_may_move_the_row_to_a_free_key() {
    let mut table = AssignmentTable::new();
    assert_eq!(table.create(values(1, 2, 3)), Ok(row(1, 2, 3)));
    assert_eq!(table.update((1, 2), values(5, 6, 7)), Ok(row(5, 6, 7)));
    assert_eq!(table.read((1, 2)), Ok(None));
    assert_eq!(table.read((5, 6)), Ok(Some(row(5, 6, 7))));
}

#[test]
fn an_update_does_not_move_the_row_onto_another() {
    let mut table = AssignmentTable::new();
    assert_eq!(table.create(values(1, 2, 3)), Ok(row(1, 2, 3)));
    assert_eq!(table.create(values(5, 6, 7)), Ok(row(5, 6, 7)));
    assert_eq!(table.update((1, 2), values(5, 6, 9)), Err(StoreError::Conflict));
    assert_eq!(table.read((1, 2)), Ok(Some(row(1, 2, 3))));
    assert_eq!(table.read((5, 6)), Ok(Some(row(5, 6, 7))));
}

#[test]
fn an_update_of_a_missing_assignment_is_not_found() {
    let mut table = AssignmentTable::new();
    assert_eq!(table.update((1, 2), values(1, 2, 4)), Err(StoreError::NotFound));
    assert_eq!(table.read_all(), Ok(vec![]));
}

#[test]
fn a_delete_counts_the_rows_it_removed() {
    let mut table = AssignmentTable::new();
    assert_eq!(table.create(values(1, 2, 3)), Ok(row(1, 2, 3)));
    assert_eq!(table.create(values(1, 3, 3)), Ok(row(1, 3, 3)));
    assert_eq!(table.delete((9, 9)), Ok(0));
    assert_eq!(table.delete((1, 2)), Ok(1));
    assert_eq!(table.delete((1, 2)), Ok(0));
    assert_eq!(table.read_all(), Ok(vec![row(1, 3, 3)]));
}

#[test]
fn a_key_is_the_pair_in_its_order() {
    let mut table = AssignmentTable::new();
    assert_eq!(table.create(values(1, 2, 3)), Ok(row(1, 2, 3)));
    assert_eq!(table.read((2, 1)), Ok(None));
    assert_eq!(table.read((1, 1)), Ok(None));
    assert_eq!(table.read((2, 2)), Ok(None));
}

#[test]
fn negative_and_extreme_ids_are_keys_like_any_other() {
    let mut table = AssignmentTable::new();
    assert_eq!(table.create(values(i32::MIN, i32::MAX, -1)), Ok(row(i32::MIN, i32::MAX, -1)));
    assert_eq!(table.read((i32::MIN, i32::MAX)), Ok(Some(row(i32::MIN, i32::MAX, -1))));
    assert_eq!(table.delete((i32::MIN, i32::MAX)), Ok(1));
}

#[test]
fn a_new_status_table_is_empty() {
    let table = StatusTable::new();
    assert_eq!(table.read_all(), Ok(vec![]));
    assert_eq!(table.read(1), Ok(None));
}

#[test]
fn statuses_get_the_ids_from_one_on() {
    let mut table = StatusTable::new();
    assert_eq!(table.create(named("Open")), Ok(status(1, "Open")));
    assert_eq!(table.create(named("Done")), Ok(status(2, "Done")));
    assert_eq!(table.create(named("Open")), Ok(status(3, "Open")));
    assert_eq!(table.read(2), Ok(Some(status(2, "Done"))));
    assert_eq!(
        table.read_all(),
        Ok(vec![status(1, "Open"), status(2, "Done"), status(3, "Open")])
    );
}

#[test]
fn the_id_of_a_deleted_status_is_not_given_again() {
    let mut table = StatusTable::new();
    assert_eq!(table.create(named("Open")), Ok(status(1, "Open")));
    assert_eq!(table.delete(1), Ok(1));
    assert_eq!(table.create(named("Done")), Ok(status(2, "Done")));
    assert_eq!(table.read(1), Ok(None));
}

#[test]
fn a_status_is_renamed_under_its_id() {
    let mut table = StatusTable::new();
    assert_eq!(table.create(named("Open")), Ok(status(1, "Open")));
    assert_eq!(table.create(named("Done")), Ok(status(2, "Done")));
    assert_eq!(table.update(1, named("Blocked")), Ok(status(1, "Blocked")));
    assert_eq!(table.read(1), Ok(Some(status(1, "Blocked"))));
    assert_eq!(table.read(2), Ok(Some(status(2, "Done"))));
}

#[test]
fn a_rename_of_a_missing_status_is_not_found() {
    let mut table = StatusTable::new();
    assert_eq!(table.update(1, named("Blocked")), Err(StoreError::NotFound));
    assert_eq!(table.read_all(), Ok(vec![]));
}

#[test]
fn a_status_delete_counts_the_rows_it_removed() {
    let mut table = StatusTable::new();
    assert_eq!(table.create(named("Open")), Ok(status(1, "Open")));
    assert_eq!(table.delete(5), Ok(0));
    assert_eq!(table.delete(1), Ok(1));
    assert_eq!(table.delete(1), Ok(0));
}

#[test]
fn a_resumed_table_goes_on_after_the_ids_given_out() {
    let mut table = StatusTable::resuming(41);
    assert_eq!(table.read_all(), Ok(vec![]));
    assert_eq!(table.create(named("Open")), Ok(status(42, "Open")));
}

#[test]
fn the_last_id_is_given_and_then_the_table_is_unavailable() {
    let mut table = StatusTable::resuming(i32::MAX - 1);
    assert_eq!(table.create(named("Last")), Ok(status(i32::MAX, "Last")));
    assert_eq!(table.create(named("Over")), Err(StoreError::Unavailable));
    assert_eq!(table.read_all(), Ok(vec![status(i32::MAX, "Last")]));
}

#[test]
fn an_empty_name_is_a_name() {
    let mut table = StatusTable::new();
    assert_eq!(table.create(named("")), Ok(status(1, "")));
    assert_eq!(table.read(1), Ok(Some(status(1, ""))));
}
