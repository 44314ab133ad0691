use rocket_app::assignments::{
    create_user_task, delete_user_task, get_user_task, get_user_tasks, update_user_task,
    AssignmentInput,
};
use rocket_app::exchange::{Progress, Step, StoreError};
use rocket_app::models::{NewTaskStatus, NewUserTask, TaskStatus, UserTask};
use rocket_app::statuses::{
    create_task_status, delete_task_status, get_task_status, get_task_statuses,
    update_task_status, StatusInput,
};

fn row(user_id: i32, task_id: i32, task_status_id: i32) -> UserTask {
    UserTask { user_id, task_id, task_status_id }
}

fn status(id: i32, name: &str) -> TaskStatus {
    TaskStatus { id, status_name: name.to_string() }
}

#[test]
fn every_request_starts_by_asking_for_a_connection() {
    let input = AssignmentInput { user_id: 1, task_id: 2, task_status_id: 3 };
    let name = StatusInput { status_name: "Open".to_string() };
    assert_eq!(get_user_tasks(Progress::Started), Step::Acquire);
    assert_eq!(get_user_task(1, 2, Progress::Started), Step::Acquire);
    assert_eq!(create_user_task(&input, Progress::Started), Step::Acquire);
    assert_eq!(update_user_task(1, 2, &input, Progress::Started), Step::Acquire);
    assert_eq!(delete_user_task(1, 2, Progress::Started), Step::Acquire);
    assert_eq!(get_task_statuses(Progress::Started), Step::Acquire);
    assert_eq!(get_task_status(7, Progress::Started), Step::Acquire);
    assert_eq!(create_task_status(&name, Progress::Started), Step::Acquire);
    assert_eq!(update_task_status(7, &name, Progress::Started), Step::Acquire);
    assert_eq!(delete_task_status(7, Progress::Started), Step::Acquire);
}

#[test]
fn lists_are_given_up_where_the_pool_refuses() {
    assert_eq!(get_user_tasks(Progress::Refused), Step::Abort);
    assert_eq!(get_task_statuses(Progress::Refused), Step::Abort);
}

#[test]
fn other_requests_are_not_found_where_the_pool_refuses() {
    let input = AssignmentInput { user_id: 1, task_id: 2, task_status_id: 3 };
    let name = StatusInput { status_name: "Open".to_string() };
    assert_eq!(get_user_task(1, 2, Progress::Refused), Step::Respond(None));
    assert_eq!(create_user_task(&input, Progress::Refused), Step::Respond(None));
    assert_eq!(update_user_task(1, 2, &input, Progress::Refused), Step::Respond(None));
    assert_eq!(delete_user_task(1, 2, Progress::Refused), Step::Respond(None));
    assert_eq!(get_task_status(7, Progress::Refused), Step::Respond(None));
    assert_eq!(create_task_status(&name, Progress::Refused), Step::Respond(None));
    assert_eq!(update_task_status(7, &name, Progress::Refused), Step::Respond(None));
    assert_eq!(delete_task_status(7, Progress::Refused), Step::Respond(None));
}

#[test]
fn assignment_requests_name_their_operation() {
    let input = AssignmentInput { user_id: 4, task_id: 5, task_status_id: 6 };
    let values = NewUserTask { user_id: 4, task_id: 5, task_status_id: 6 };
    assert_eq!(get_user_tasks(Progress::Connected), Step::Run(()));
    assert_eq!(get_user_task(1, 2, Progress::Connected), Step::Run((1, 2)));
    assert_eq!(create_user_task(&input, Progress::Connected), Step::Run(values));
    assert_eq!(update_user_task(1, 2, &input, Progress::Connected), Step::Run(((1, 2), values)));
    assert_eq!(delete_user_task(1, 2, Progress::Connected), Step::Run((1, 2)));
}

#[test]
fn status_requests_name_their_operation() {
    let name = StatusInput { status_name: "In Progress".to_string() };
    let values = NewTaskStatus { status_name: "In Progress".to_string() };
    assert_eq!(get_task_statuses(Progress::Connected), Step::Run(()));
    assert_eq!(get_task_status(7, Progress::Connected), Step::Run(7));
    assert_eq!(create_task_status(&name, Progress::Connected), Step::Run(values.clone()));
    assert_eq!(update_task_status(7, &name, Progress::Connected), Step::Run((7, values)));
    assert_eq!(delete_task_status(7, Progress::Connected), Step::Run(7));
}

#[test]
fn a_list_is_passed_on_as_the_store_gave_it() {
    let rows = vec![row(1, 2, 3), row(1, 3, 4)];
    assert_eq!(get_user_tasks(Progress::Answered(Ok(rows.clone()))), Step::Respond(rows));
    let statuses = vec![status(1, "Open"), status(2, "Done")];
    assert_eq!(
        get_task_statuses(Progress::Answered(Ok(statuses.clone()))),
        Step::Respond(statuses)
    );
}

#[test]
fn a_list_that_fails_is_empty() {
    assert_eq!(
        get_user_tasks(Progress::Answered(Err(StoreError::Unavailable))),
        Step::Respond(vec![])
    );
    assert_eq!(
        get_task_statuses(Progress::Answered(Err(StoreError::Unavailable))),
        Step::Respond(vec![])
    );
}

#[test]
fn a_row_that_was_found_is_the_response() {
    assert_eq!(
        get_user_task(1, 2, Progress::Answered(Ok(Some(row(1, 2, 3))))),
        Step::Respond(Some(row(1, 2, 3)))
    );
    assert_eq!(
        get_task_status(7, Progress::Answered(Ok(Some(status(7, "Open"))))),
        Step::Respond(Some(status(7, "Open")))
    );
}

#[test]
fn a_row_that_was_not_found_is_not_found() {
    assert_eq!(get_user_task(1, 2, Progress::Answered(Ok(None))), Step::Respond(None));
    assert_eq!(get_task_status(7, Progress::Answered(Ok(None))), Step::Respond(None));
}

#[test]
fn a_written_row_is_the_response() {
    let input = AssignmentInput { user_id: 1, task_id: 2, task_status_id: 3 };
    let name = StatusInput { status_name: "Open".to_string() };
    assert_eq!(
        create_user_task(&input, Progress::Answered(Ok(row(1, 2, 3)))),
        Step::Respond(Some(row(1, 2, 3)))
    );
    assert_eq!(
        update_user_task(1, 2, &input, Progress::Answered(Ok(row(1, 2, 3)))),
        Step::Respond(Some(row(1, 2, 3)))
    );
    assert_eq!(
        create_task_status(&name, Progress::Answered(Ok(status(9, "Open")))),
        Step::Respond(Some(status(9, "Open")))
    );
    assert_eq!(
        update_task_status(9, &name, Progress::Answered(Ok(status(9, "Open")))),
        Step::Respond(Some(status(9, "Open")))
    );
}

#[test]
fn every_failure_of_the_store_is_not_found() {
    let input = AssignmentInput { user_id: 1, task_id: 2, task_status_id: 3 };
    let name = StatusInput { status_name: "Open".to_string() };
    for error in [StoreError::Conflict, StoreError::NotFound, StoreError::Unavailable] {
        assert_eq!(get_user_task(1, 2, Progress::Answered(Err(error))), Step::Respond(None));
        assert_eq!(create_user_task(&input, Progress::Answered(Err(error))), Step::Respond(None));
        assert_eq!(
            update_user_task(1, 2, &input, Progress::Answered(Err(error))),
            Step::Respond(None)
        );
        assert_eq!(delete_user_task(1, 2, Progress::Answered(Err(error))), Step::Respond(None));
        assert_eq!(get_task_status(7, Progress::Answered(Err(error))), Step::Respond(None));
        assert_eq!(create_task_status(&name, Progress::Answered(Err(error))), Step::Respond(None));
        assert_eq!(
            update_task_status(7, &name, Progress::Answered(Err(error))),
            Step::Respond(None)
        );
        assert_eq!(delete_task_status(7, Progress::Answered(Err(error))), Step::Respond(None));
    }
}

#[test]
fn a_count_of_removed_rows_is_the_response() {
    assert_eq!(delete_user_task(1, 2, Progress::Answered(Ok(1))), Step::Respond(Some(1)));
    assert_eq!(delete_task_status(7, Progress::Answered(Ok(1))), Step::Respond(Some(1)));
    assert_eq!(delete_task_status(7, Progress::Answered(Ok(3))), Step::Respond(Some(3)));
}

#[test]
fn a_count_of_zero_is_not_found() {
    assert_eq!(delete_user_task(1, 2, Progress::Answered(Ok(0))), Step::Respond(None));
    assert_eq!(delete_task_status(7, Progress::Answered(Ok(0))), Step::Respond(None));
}
