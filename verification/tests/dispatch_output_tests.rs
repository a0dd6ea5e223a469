use task_cli::app::commands::Commands;
use task_cli::app::{apply_update, format_task, status_text, App, AppError, Output};
use task_cli::domain::tasks::{Status, Task};
use task_cli::domain::text::is_blank;
use task_cli::storage::json_storage::TaskList;
use task_cli::storage::{Storage, StorageError};

fn task(id: u32, description: &str, status: Status) -> Task {
    Task { id, description: description.into(), status }
}

fn sample_app() -> App<TaskList> {
    App::new(TaskList::from_tasks(vec![
        task(1, "Write", Status::Todo),
        task(2, "Test", Status::InProgress),
        task(3, "Ship", Status::Done),
    ]))
}

fn lines(v: &[&str]) -> Vec<String> {
    v.iter().map(|s| s.to_string()).collect()
}

#[test]
fn list_all_writes_one_line_per_task() {
    let mut app = sample_app();
    let out = app.dispatch(Commands::List { all: true, status: None }).unwrap();
    assert_eq!(
        out,
        Output {
            stdout: lines(&["1: (to-do) Write", "2: (in progress) Test", "3: (done) Ship"]),
            stderr: vec![],
        }
    );
}

#[test]
fn default_listing_leaves_out_done_tasks() {
    let mut app = sample_app();
    let out = app.dispatch(Commands::List { all: false, status: None }).unwrap();
    assert_eq!(out.stdout, lines(&["1: (to-do) Write", "2: (in progress) Test"]));
    assert!(out.stderr.is_empty());
}

#[test]
fn listing_by_status_reads_the_status_loosely() {
    let mut app = sample_app();
    let out = app
        .dispatch(Commands::List { all: false, status: Some("In Progress".into()) })
        .unwrap();
    assert_eq!(out.stdout, lines(&["2: (in progress) Test"]));
}

#[test]
fn listing_with_unknown_status_reports_empty_storage() {
    let mut app = sample_app();
    let result = app.dispatch(Commands::List { all: false, status: Some("later".into()) });
    assert_eq!(result, Err(AppError::EmptyStorage));
}

#[test]
fn listing_an_empty_store_writes_nothing() {
    let mut app = App::new(TaskList::new());
    let out = app.dispatch(Commands::List { all: true, status: None }).unwrap();
    assert_eq!(out, Output { stdout: vec![], stderr: vec![] });
}

#[test]
fn create_without_description_writes_usage() {
    let mut app = App::new(TaskList::new());
    let out = app.dispatch(Commands::Create { description: None }).unwrap();
    assert_eq!(
        out.stderr,
        lines(&["Nothing has changed.", "Usage: create --description \"text\""])
    );
    assert!(out.stdout.is_empty());
    assert_eq!(app.storage.len(), 0);
}

#[test]
fn update_without_options_writes_usage_and_changes_nothing() {
    let mut app = sample_app();
    let out = app.dispatch(Commands::Update { id: 1, description: None, status: None }).unwrap();
    assert_eq!(
        out.stderr,
        lines(&[
            "Nothing has changed.",
            "Usage: update <id> --description \"text\" or --status [todo|in-progress|done]",
        ])
    );
    assert_eq!(app.storage.list()[0], task(1, "Write", Status::Todo));
}

#[test]
fn update_with_unknown_status_reports_empty_storage_and_keeps_task() {
    let mut app = sample_app();
    let result = app.dispatch(Commands::Update {
        id: 2,
        description: Some("New".into()),
        status: Some("maybe".into()),
    });
    assert_eq!(result, Err(AppError::EmptyStorage));
    assert_eq!(app.storage.list()[1], task(2, "Test", Status::InProgress));
}

#[test]
fn update_status_only_keeps_description() {
    let mut app = sample_app();
    app.dispatch(Commands::Update { id: 3, description: None, status: Some("TO-DO".into()) })
        .unwrap();
    assert_eq!(app.storage.list()[2], task(3, "Ship", Status::Todo));
}

#[test]
fn remove_on_empty_file_store_reports_not_found() {
    let mut app = App::new(TaskList::new());
    assert_eq!(app.dispatch(Commands::Remove { id: 1 }), Err(AppError::TaskNotFound(1)));
}

#[test]
fn create_gives_next_identifier_in_file_store() {
    let mut app = sample_app();
    app.dispatch(Commands::Create { description: Some("Deploy".into()) }).unwrap();
    assert_eq!(app.storage.list()[3], task(4, "Deploy", Status::Todo));
}

#[test]
fn create_blank_description_changes_nothing() {
    let mut app = sample_app();
    let result = app.dispatch(Commands::Create { description: Some(" \t\n".into()) });
    assert_eq!(result, Err(AppError::InvalidDescription));
    assert_eq!(app.storage.len(), 3);
}

#[test]
fn clear_done_marks_every_task_done() {
    let mut app = sample_app();
    app.dispatch(Commands::Clear { yes: false, done: true }).unwrap();
    assert_eq!(
        app.storage.list(),
        vec![
            task(1, "Write", Status::Done),
            task(2, "Test", Status::Done),
            task(3, "Ship", Status::Done)
        ]
    );
}

#[test]
fn clear_yes_removes_every_task() {
    let mut app = sample_app();
    app.dispatch(Commands::Clear { yes: true, done: false }).unwrap();
    assert!(app.storage.list().is_empty());
}

#[test]
fn clear_without_flags_writes_usage() {
    let mut app = sample_app();
    let out = app.dispatch(Commands::Clear { yes: false, done: false }).unwrap();
    assert_eq!(out.stderr, lines(&["Nothing has changed.", "Usage: clear --yes or --done"]));
    assert_eq!(app.storage.len(), 3);
}

#[test]
fn storage_errors_become_app_errors() {
    assert_eq!(AppError::from(StorageError::TaskNotFound(7)), AppError::TaskNotFound(7));
    assert_eq!(AppError::from(StorageError::EmptyStorage), AppError::EmptyStorage);
}

#[test]
fn task_lines_show_decimal_identifiers() {
    assert_eq!(format_task(&task(0, "zero", Status::Todo)), "0: (to-do) zero");
    assert_eq!(format_task(&task(10, "ten", Status::InProgress)), "10: (in progress) ten");
    assert_eq!(format_task(&task(u32::MAX, "", Status::Done)), "4294967295: (done) ");
}

#[test]
fn status_texts() {
    assert_eq!(status_text(Status::Todo), "to-do");
    assert_eq!(status_text(Status::InProgress), "in progress");
    assert_eq!(status_text(Status::Done), "done");
}

#[test]
fn blank_texts() {
    assert!(is_blank(""));
    assert!(is_blank(" \t\n"));
    assert!(!is_blank(" a "));
}

#[test]
fn blank_texts_follow_unicode_white_space() {
    assert!(is_blank("\u{00A0}\u{2003}\u{3000}\u{0085}"));
    assert!(!is_blank("\u{200B}"));
}

#[test]
fn apply_update_maps_the_read_and_the_status() {
    assert_eq!(
        apply_update(Err(StorageError::TaskNotFound(4)), Some("x".into()), None),
        Err(AppError::TaskNotFound(4))
    );
    assert_eq!(
        apply_update(Err(StorageError::EmptyStorage), None, Some("done".into())),
        Err(AppError::EmptyStorage)
    );
    let found = task(4, "Old", Status::Todo);
    assert_eq!(
        apply_update(Ok(found.clone()), None, Some("soon".into())),
        Err(AppError::EmptyStorage)
    );
    assert_eq!(
        apply_update(Ok(found.clone()), Some("New".into()), None),
        Ok(task(4, "New", Status::Todo))
    );
    assert_eq!(
        apply_update(Ok(found), None, Some("In-Progress".into())),
        Ok(task(4, "Old", Status::InProgress))
    );
}

#[test]
fn store_errors_come_out_unchanged_from_update() {
    let mut app = App::new(TaskList::new());
    assert_eq!(
        app.dispatch(Commands::Update { id: 1, description: Some("x".into()), status: None }),
        Err(AppError::EmptyStorage)
    );
}
