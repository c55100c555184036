use todolist::deadline::parse_deadline;
use todolist::models::{QueryTask, Task, TaskPriority};
use todolist::todolist::{check_new_task, check_new_task_with, SortMode, TaskError, Todolist};

const JUNE_FIRST_2025_NINE: i64 = 1748768400;

fn row(id: i32, priority: i32, deadline: &str) -> QueryTask {
    QueryTask {
        id,
        done: false,
        title: format!("task {}", id),
        description: format!("about {}", id),
        deadline: deadline.to_string(),
        priority,
    }
}

fn task(id: i32, priority: TaskPriority, deadline: i64) -> Task {
    Task {
        id,
        done: false,
        title: format!("task {}", id),
        description: format!("about {}", id),
        deadline,
        deadline_string: String::new(),
        priority,
    }
}

fn draft(title: &str, description: &str, deadline: &str) -> Task {
    let mut t = Task::empty();
    t.title = title.to_string();
    t.description = description.to_string();
    t.deadline_string = deadline.to_string();
    t
}

fn ids(tasks: &[Task]) -> Vec<i32> {
    tasks.iter().map(|t| t.id).collect()
}

#[test]
fn parse_deadline_reads_short_form_as_utc() {
    assert_eq!(parse_deadline("25-06-01 09:00"), Some(JUNE_FIRST_2025_NINE));
    assert_eq!(parse_deadline("70-01-01 00:00"), Some(3155760000));
    assert_eq!(parse_deadline("01/06/2025"), None);
    assert_eq!(parse_deadline(""), None);
}

#[test]
fn row_round_trip_keeps_fields() {
    let q = row(7, 2, "25-06-01 09:00");
    let t = q.to_task().expect("deadline reads");
    assert_eq!(t.id, 7);
    assert!(!t.done);
    assert_eq!(t.title, "task 7");
    assert_eq!(t.description, "about 7");
    assert_eq!(t.deadline, JUNE_FIRST_2025_NINE);
    assert_eq!(t.deadline_string, "25-06-01 09:00");
    assert_eq!(t.priority, TaskPriority::Medium);
    let back = t.to_query();
    assert_eq!(back.id, q.id);
    assert_eq!(back.done, q.done);
    assert_eq!(back.title, q.title);
    assert_eq!(back.description, q.description);
    assert_eq!(back.deadline, q.deadline);
    assert_eq!(back.priority, 2);
}

#[test]
fn priority_codes_other_than_one_and_two_are_high() {
    assert_eq!(TaskPriority::from_code(1), TaskPriority::Low);
    assert_eq!(TaskPriority::from_code(2), TaskPriority::Medium);
    assert_eq!(TaskPriority::from_code(3), TaskPriority::High);
    assert_eq!(TaskPriority::from_code(99), TaskPriority::High);
    assert_eq!(TaskPriority::from_code(0), TaskPriority::High);
    let t = row(1, 99, "25-06-01 09:00").to_task().unwrap();
    assert_eq!(t.priority, TaskPriority::High);
    assert_eq!(t.to_query().priority, 3);
    assert_eq!(TaskPriority::Low.code(), 1);
    assert_eq!(TaskPriority::High.code(), 3);
}

#[test]
fn unreadable_row_deadline_is_refused() {
    assert!(row(1, 1, "tomorrow").to_task().is_none());
    let rows = vec![row(1, 1, "25-06-01 09:00"), row(2, 3, "tomorrow")];
    assert!(Todolist::fetch_tasks(&rows).is_none());
}

#[test]
fn fetch_tasks_keeps_store_order() {
    let rows = vec![row(4, 1, "25-06-01 09:00"), row(2, 3, "24-01-01 00:00")];
    let tasks = Todolist::fetch_tasks(&rows).unwrap();
    assert_eq!(ids(&tasks), vec![4, 2]);
    assert_eq!(tasks[1].priority, TaskPriority::High);
}

#[test]
fn each_fault_gives_one_error() {
    let mut errors = Vec::new();
    let mut t = draft("", "d", "25-06-01 09:00");
    check_new_task(&mut t, &mut errors);
    assert_eq!(errors, vec![TaskError::MissingTitle]);

    let mut t = draft("t", "", "25-06-01 09:00");
    check_new_task(&mut t, &mut errors);
    assert_eq!(errors, vec![TaskError::MissingDescription]);

    let mut t = draft("t", "d", "25/06/01");
    check_new_task(&mut t, &mut errors);
    assert_eq!(errors, vec![TaskError::BadDeadline]);

    let mut t = draft("", "", "soon");
    check_new_task(&mut t, &mut errors);
    assert_eq!(errors, vec![TaskError::MissingTitle, TaskError::MissingDescription, TaskError::BadDeadline]);

    let mut t = draft("t", "d", "25-06-01 09:00");
    check_new_task(&mut t, &mut errors);
    assert!(errors.is_empty());
    assert_eq!(t.deadline, JUNE_FIRST_2025_NINE);
}

#[test]
fn bad_deadline_leaves_old_value() {
    let mut errors = vec![TaskError::NotStored];
    let mut t = draft("t", "d", "bad");
    t.deadline = 42;
    check_new_task(&mut t, &mut errors);
    assert_eq!(t.deadline, 42);
    assert_eq!(errors, vec![TaskError::BadDeadline]);
    check_new_task_with(&mut t, &mut errors, Some(5));
    assert_eq!(t.deadline, 5);
    assert!(errors.is_empty());
}

#[test]
fn validating_twice_gives_same_errors() {
    let mut errors = Vec::new();
    let mut t = draft("", "d", "nope");
    check_new_task(&mut t, &mut errors);
    let first = errors.clone();
    check_new_task(&mut t, &mut errors);
    assert_eq!(errors, first);
    assert_eq!(errors, vec![TaskError::MissingTitle, TaskError::BadDeadline]);
}

#[test]
fn priority_sort_keeps_ties_in_order() {
    let tasks = vec![
        task(0, TaskPriority::Low, 0),
        task(1, TaskPriority::High, 0),
        task(2, TaskPriority::Medium, 0),
        task(3, TaskPriority::High, 0),
    ];
    let mut list = Todolist::new(tasks);
    list.sort_by = SortMode::Priority;
    list.sort_tasks();
    assert_eq!(ids(&list.tasks), vec![1, 3, 2, 0]);
}

#[test]
fn deadline_sort_is_ascending_and_stable() {
    let tasks = vec![
        task(0, TaskPriority::Low, 30),
        task(1, TaskPriority::High, 10),
        task(2, TaskPriority::Medium, 20),
        task(3, TaskPriority::High, 10),
        task(4, TaskPriority::High, -5),
    ];
    let mut list = Todolist::new(tasks);
    list.sort_by = SortMode::Deadline;
    list.sort_tasks();
    assert_eq!(ids(&list.tasks), vec![4, 1, 3, 2, 0]);
}

#[test]
fn unsorted_keeps_order() {
    let tasks = vec![task(5, TaskPriority::Low, 3), task(1, TaskPriority::High, 1)];
    let mut list = Todolist::new(tasks);
    list.sort_tasks();
    assert_eq!(ids(&list.tasks), vec![5, 1]);
}

#[test]
fn done_tasks_are_never_shown() {
    for mode in [SortMode::Unsorted, SortMode::Priority, SortMode::Deadline] {
        let mut tasks = vec![
            task(0, TaskPriority::Low, 30),
            task(1, TaskPriority::High, 10),
            task(2, TaskPriority::Medium, 20),
        ];
        tasks[1].done = true;
        let mut list = Todolist::new(tasks);
        list.sort_by = mode;
        list.sort_tasks();
        let shown = list.visible_tasks();
        assert_eq!(shown.len(), 2);
        assert!(shown.iter().all(|&i| !list.tasks[i].done));
        assert!(list.tasks.iter().any(|t| t.id == 1 && t.done));
    }
}

#[test]
fn visible_positions_are_in_order() {
    let mut tasks = vec![
        task(0, TaskPriority::Low, 1),
        task(1, TaskPriority::Low, 2),
        task(2, TaskPriority::Low, 3),
    ];
    tasks[0].done = true;
    let list = Todolist::new(tasks);
    assert_eq!(list.visible_tasks(), vec![1, 2]);
    let empty = Todolist::new(Vec::new());
    assert!(empty.visible_tasks().is_empty());
}

#[test]
fn mark_done_needs_store_success() {
    let tasks = vec![task(0, TaskPriority::Low, 1), task(1, TaskPriority::Low, 2)];
    let mut list = Todolist::new(tasks);
    list.mark_done(1, false);
    assert!(!list.tasks[1].done);
    assert_eq!(list.visible_tasks(), vec![0, 1]);
    list.mark_done(1, true);
    assert!(list.tasks[1].done);
    assert!(!list.tasks[0].done);
    assert_eq!(list.visible_tasks(), vec![0]);
}

fn milk_list() -> Todolist {
    let mut list = Todolist::new(vec![task(0, TaskPriority::High, 5)]);
    list.new_task.title = "Buy milk".to_string();
    list.new_task.description = "2%".to_string();
    list.new_task.priority = TaskPriority::Low;
    list.new_task.deadline_string = "25-06-01 09:00".to_string();
    list
}

#[test]
fn create_success_appends_and_resets_draft() {
    let mut list = milk_list();
    let q = list.prepare_new_task().expect("draft is valid");
    assert_eq!(q.id, 1);
    assert_eq!(q.title, "Buy milk");
    assert_eq!(q.description, "2%");
    assert_eq!(q.deadline, "25-06-01 09:00");
    assert_eq!(q.priority, 1);
    assert!(!q.done);
    assert!(list.finish_new_task(true));
    assert_eq!(list.tasks.len(), 2);
    let added = &list.tasks[1];
    assert_eq!(added.id, 1);
    assert_eq!(added.title, "Buy milk");
    assert_eq!(added.deadline, JUNE_FIRST_2025_NINE);
    assert!(!added.done);
    assert_eq!(added.priority, TaskPriority::Low);
    assert!(list.errors.is_empty());
    assert_eq!(list.new_task.title, "");
    assert_eq!(list.new_task.description, "");
    assert_eq!(list.new_task.deadline_string, "");
    assert_eq!(list.new_task.deadline, 0);
    assert_eq!(list.new_task.id, 0);
    assert_eq!(list.new_task.priority, TaskPriority::Low);
}

#[test]
fn create_failure_keeps_state() {
    let mut list = milk_list();
    assert!(list.prepare_new_task().is_some());
    assert!(!list.finish_new_task(false));
    assert_eq!(ids(&list.tasks), vec![0]);
    assert_eq!(list.errors, vec![TaskError::NotStored]);
    assert_eq!(list.errors[0].message(), "Error while adding task to database.");
    assert_eq!(list.new_task.title, "Buy milk");
    assert_eq!(list.new_task.description, "2%");
    assert_eq!(list.new_task.deadline_string, "25-06-01 09:00");
    assert_eq!(list.new_task.deadline, JUNE_FIRST_2025_NINE);
}

#[test]
fn invalid_draft_is_not_offered_for_storage() {
    let mut list = milk_list();
    list.new_task.title = String::new();
    assert!(list.prepare_new_task().is_none());
    assert_eq!(list.errors, vec![TaskError::MissingTitle]);
    assert_eq!(list.tasks.len(), 1);
}

#[test]
fn prepare_with_given_deadline() {
    let mut list = milk_list();
    let q = list.prepare_new_task_with(Some(77)).unwrap();
    assert_eq!(q.id, 1);
    assert_eq!(list.new_task.deadline, 77);
    assert!(list.prepare_new_task_with(None).is_none());
    assert_eq!(list.errors, vec![TaskError::BadDeadline]);
}

#[test]
fn error_messages() {
    assert_eq!(TaskError::MissingTitle.message(), "Task title should be specified.");
    assert_eq!(TaskError::MissingDescription.message(), "Task description should not be empty.");
    assert_eq!(TaskError::BadDeadline.message(), "Wrong deadline format.");
}

#[test]
fn new_list_is_empty_and_unsorted() {
    let list = Todolist::new(Vec::new());
    assert!(list.tasks.is_empty());
    assert!(list.errors.is_empty());
    assert_eq!(list.sort_by, SortMode::Unsorted);
    assert_eq!(list.new_task.title, "");
    let t = Task::default();
    assert_eq!(t.id, 0);
    let c = list.new_task.clone();
    assert_eq!(c.priority, TaskPriority::Low);
}

#[test]
fn row_converts_with_given_deadline() {
    let q = row(3, 1, "whatever");
    let t = q.to_task_with(Some(99)).unwrap();
    assert_eq!(t.deadline, 99);
    assert_eq!(t.deadline_string, "whatever");
    assert_eq!(t.priority, TaskPriority::Low);
    assert!(q.to_task_with(None).is_none());
}
