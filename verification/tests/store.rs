use todo_list::{
    add_task, complete, complete_task, delete_completed, tasks_or_empty, Completion, Task,
    TodoError,
};

fn task(description: &str, completed: bool) -> Task {
    Task { description: description.to_string(), completed }
}

#[test]
fn test_add_task() {
    let mut tasks = vec![task("Task 1", false)];

    add_task(&mut tasks, "Task 2").unwrap();

    let expected_tasks = vec![task("Task 1", false), task("Task 2", false)];
    assert_eq!(tasks.len(), 2);
    assert_eq!(tasks[0].description, expected_tasks[0].description);
    assert_eq!(tasks[0].completed, expected_tasks[0].completed);
    assert_eq!(tasks[1].description, expected_tasks[1].description);
    assert_eq!(tasks[1].completed, expected_tasks[1].completed);
}

#[test]
fn test_complete_task() {
    let mut tasks = vec![task("Task 1", false), task("Task 2", true)];

    add_task(&mut tasks, "Task 3").unwrap();
    complete_task(&mut tasks, 2).unwrap();

    let expected_tasks = vec![task("Task 1", false), task("Task 2", true), task("Task 3", true)];
    assert_eq!(tasks[0].completed, expected_tasks[0].completed);
    assert_eq!(tasks[2].completed, expected_tasks[2].completed);
    assert_eq!(tasks, expected_tasks);

    complete_task(&mut tasks, 0).unwrap();
    assert!(tasks[0].completed);
}

#[test]
fn test_delete_completed() {
    let mut tasks = vec![task("Task 1", false), task("Task 2", true)];

    add_task(&mut tasks, "Task 3").unwrap();
    complete_task(&mut tasks, 2).unwrap();
    delete_completed(&mut tasks).unwrap();

    let expected_tasks = vec![task("Task 1", false)];
    assert_eq!(tasks.len(), expected_tasks.len());
    assert_eq!(tasks[0].description, expected_tasks[0].description);

    assert!(delete_completed(&mut tasks).is_err());
    assert_eq!(tasks.len(), expected_tasks.len());
}

#[test]
fn new_task_is_open() {
    assert_eq!(Task::new("Water the plants"), task("Water the plants", false));
}

#[test]
fn add_appends_and_keeps_the_rest() {
    let mut tasks = vec![task("a", true), task("b", false), task("c", true)];
    let before = tasks.clone();
    assert_eq!(add_task(&mut tasks, "d"), Ok(()));
    assert_eq!(tasks.len(), before.len() + 1);
    assert_eq!(&tasks[..3], &before[..]);
    assert_eq!(tasks[3], task("d", false));
}

#[test]
fn add_to_empty_list() {
    let mut tasks: Vec<Task> = Vec::new();
    assert_eq!(add_task(&mut tasks, ""), Ok(()));
    assert_eq!(tasks, vec![task("", false)]);
}

#[test]
fn complete_task_reports_what_it_did() {
    let mut tasks = vec![task("a", false), task("b", true)];
    assert_eq!(complete_task(&mut tasks, 0), Ok(Completion::Marked));
    assert_eq!(tasks, vec![task("a", true), task("b", true)]);
    assert_eq!(complete_task(&mut tasks, 1), Ok(Completion::AlreadyCompleted));
    assert_eq!(tasks, vec![task("a", true), task("b", true)]);
}

#[test]
fn complete_task_twice_is_as_once() {
    let mut once = vec![task("a", false), task("b", false)];
    let mut twice = once.clone();
    assert_eq!(complete_task(&mut once, 1), Ok(Completion::Marked));
    assert_eq!(complete_task(&mut twice, 1), Ok(Completion::Marked));
    assert_eq!(complete_task(&mut twice, 1), Ok(Completion::AlreadyCompleted));
    assert_eq!(once, twice);
    assert_eq!(twice, vec![task("a", false), task("b", true)]);
}

#[test]
fn complete_task_out_of_bounds() {
    let mut tasks = vec![task("a", false), task("b", true)];
    let before = tasks.clone();
    assert_eq!(complete_task(&mut tasks, 2), Err(TodoError::IndexOutOfBounds));
    assert_eq!(complete_task(&mut tasks, usize::MAX), Err(TodoError::IndexOutOfBounds));
    assert_eq!(tasks, before);
    let mut none: Vec<Task> = Vec::new();
    assert_eq!(complete_task(&mut none, 0), Err(TodoError::IndexOutOfBounds));
}

#[test]
fn complete_counts_from_one() {
    let mut tasks = vec![task("a", false), task("b", false), task("c", false)];
    assert_eq!(complete(&mut tasks, 0), Err(TodoError::IndexOutOfBounds));
    assert_eq!(complete(&mut tasks, 4), Err(TodoError::IndexOutOfBounds));
    assert_eq!(tasks, vec![task("a", false), task("b", false), task("c", false)]);
    assert_eq!(complete(&mut tasks, 1), Ok(Completion::Marked));
    assert_eq!(complete(&mut tasks, 3), Ok(Completion::Marked));
    assert_eq!(tasks, vec![task("a", true), task("b", false), task("c", true)]);
    assert_eq!(complete(&mut tasks, 3), Ok(Completion::AlreadyCompleted));
    assert_eq!(tasks, vec![task("a", true), task("b", false), task("c", true)]);
}

#[test]
fn delete_completed_keeps_open_tasks_in_order() {
    let mut tasks = vec![
        task("a", true),
        task("b", false),
        task("c", true),
        task("d", false),
        task("e", false),
        task("f", true),
    ];
    assert_eq!(delete_completed(&mut tasks), Ok(3));
    assert_eq!(tasks, vec![task("b", false), task("d", false), task("e", false)]);
    assert!(tasks.iter().all(|t| !t.completed));
}

#[test]
fn delete_completed_counts_what_it_removed() {
    let mut tasks = vec![task("a", true), task("b", true)];
    let before = tasks.len();
    let removed = delete_completed(&mut tasks).unwrap();
    assert_eq!(removed, before - tasks.len());
    assert_eq!(removed, 2);
    assert!(tasks.is_empty());
}

#[test]
fn delete_completed_with_nothing_to_delete() {
    let mut tasks = vec![task("a", false), task("b", false)];
    assert_eq!(delete_completed(&mut tasks), Err(TodoError::NothingToDelete));
    assert_eq!(tasks, vec![task("a", false), task("b", false)]);
    let mut none: Vec<Task> = Vec::new();
    assert_eq!(delete_completed(&mut none), Err(TodoError::NothingToDelete));
    assert!(none.is_empty());
}

#[test]
fn add_complete_delete_in_turn() {
    let mut tasks = vec![task("Task 1", false), task("Task 2", true)];
    add_task(&mut tasks, "Task 3").unwrap();
    assert_eq!(tasks.len(), 3);
    assert_eq!(tasks[2], task("Task 3", false));
    assert_eq!(complete(&mut tasks, 3), Ok(Completion::Marked));
    assert!(tasks[2].completed);
    assert_eq!(delete_completed(&mut tasks), Ok(2));
    assert_eq!(tasks, vec![task("Task 1", false)]);
    assert_eq!(delete_completed(&mut tasks), Err(TodoError::NothingToDelete));
}

#[test]
fn nothing_read_gives_an_empty_list() {
    assert_eq!(tasks_or_empty(None), Vec::<Task>::new());
    let read = vec![task("a", true), task("b", false)];
    assert_eq!(tasks_or_empty(Some(read.clone())), read);
}

#[test]
fn error_messages() {
    assert_eq!(TodoError::IndexOutOfBounds.message(), "Index out of bounds");
    assert_eq!(TodoError::NothingToDelete.message(), "No completed tasks to delete");
    assert_eq!(TodoError::InvalidIndex.message(), "Index must be a positive integer");
}
