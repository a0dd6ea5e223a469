use task_cli::domain::status::{normalize_status, parse_status, status_from_normalized};
use task_cli::domain::tasks::Status;

#[test]
fn parse_todo_lowercase() {
    assert_eq!(parse_status("todo").unwrap(), Status::Todo);
}

#[test]
fn parse_todo_uppercase() {
    assert_eq!(parse_status("TODO").unwrap(), Status::Todo);
}

#[test]
fn parse_todo_mixed_case() {
    assert_eq!(parse_status("To Do").unwrap(), Status::Todo);
    assert_eq!(parse_status("tO-dO").unwrap(), Status::Todo);
}

#[test]
fn parse_todo_with_hyphen() {
    assert_eq!(parse_status("to-do").unwrap(), Status::Todo);
}

#[test]
fn parse_inprogress_lowercase() {
    assert_eq!(parse_status("inprogress").unwrap(), Status::InProgress);
}

#[test]
fn parse_inprogress_with_space() {
    assert_eq!(parse_status("in progress").unwrap(), Status::InProgress);
}

#[test]
fn parse_inprogress_with_hyphen() {
    assert_eq!(parse_status("in-progress").unwrap(), Status::InProgress);
}

#[test]
fn parse_inprogress_uppercase() {
    assert_eq!(parse_status("IN-PROGRESS").unwrap(), Status::InProgress);
}

#[test]
fn parse_done_lowercase() {
    assert_eq!(parse_status("done").unwrap(), Status::Done);
}

#[test]
fn parse_done_uppercase() {
    assert_eq!(parse_status("DONE").unwrap(), Status::Done);
}

#[test]
fn parse_invalid_returns_error() {
    let result = parse_status("tod");
    assert!(result.is_err());
}

#[test]
fn parse_random_string_returns_error() {
    let result = parse_status("invalid");
    assert!(result.is_err());
}

#[test]
fn parse_invalid_status_message_quotes_the_input() {
    assert_eq!(
        parse_status("Soon!").unwrap_err(),
        "Invalid status: 'Soon!'. Valid options are: todo, in-progress, done"
    );
}

#[test]
fn parse_empty_and_punctuation_only_are_refused() {
    assert!(parse_status("").is_err());
    assert!(parse_status("--- !").is_err());
}

#[test]
fn normalize_lowercases_and_keeps_letters_and_digits() {
    assert_eq!(normalize_status("In-Progress 2!"), "inprogress2");
    assert_eq!(normalize_status("  D_O_N_E  "), "done");
}

#[test]
fn status_from_normalized_knows_three_words() {
    assert_eq!(status_from_normalized("todo"), Some(Status::Todo));
    assert_eq!(status_from_normalized("inprogress"), Some(Status::InProgress));
    assert_eq!(status_from_normalized("done"), Some(Status::Done));
    assert_eq!(status_from_normalized("to-do"), None);
    assert_eq!(status_from_normalized("Done"), None);
}
