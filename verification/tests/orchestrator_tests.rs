//! Tests for the orchestrator state machine: starting, progress,
//! terminal outcomes, and cancellation.

use ostk::orchestrator::ExecRefusal;
use ostk::state::{AppState, ExecutionResult};

fn ready_state() -> AppState {
    let mut st = AppState::new();
    st.query_params.start = Some(String::from("2024-03-10 00:00:00"));
    st
}

#[test]
fn start_without_start_time_is_refused() {
    let mut st = AppState::new();
    assert_eq!(st.start_query(), Err(ExecRefusal::MissingStart));
    assert!(!st.execution.is_executing);
    assert!(st.execution.logs.is_empty());
}

#[test]
fn start_resets_and_logs() {
    let mut st = ready_state();
    assert_eq!(st.start_query(), Ok(()));
    assert!(st.execution.is_executing);
    assert_eq!(st.execution.status, "Connecting to OpenSky...");
    assert_eq!(st.execution.logs.len(), 1);
    assert!(st.execution.logs[0].ends_with("Starting query execution"));
    assert!(st.execution.query_id.is_none());
    assert!(st.execution.result.is_none());
}

#[test]
fn second_start_is_refused_and_changes_nothing() {
    let mut st = ready_state();
    assert_eq!(st.start_query(), Ok(()));
    let status_before = st.execution.status.clone();
    let logs_before = st.execution.logs.clone();
    assert_eq!(st.start_query(), Err(ExecRefusal::AlreadyRunning));
    assert!(st.execution.is_executing);
    assert_eq!(st.execution.status, status_before);
    assert_eq!(st.execution.logs, logs_before);
    assert!(st.execution.result.is_none());
}

#[test]
fn zero_rows_end_in_no_data() {
    let mut st = ready_state();
    st.start_query().unwrap();
    st.apply_connected();
    assert_eq!(st.execution.status, "Executing query...");
    st.apply_query_result(0, vec![String::from("icao24")]);
    assert!(!st.execution.is_executing);
    assert_eq!(st.execution.status, "No data found");
    match st.execution.result.as_ref().expect("result should be set") {
        ExecutionResult::NoData { error, row_count } => {
            assert_eq!(error, "No data found");
            assert_eq!(*row_count, 0);
        },
        _ => panic!("expected the empty outcome"),
    }
    assert!(st.last_result.is_none());
    let view = st.status_snapshot();
    assert!(view.complete);
    assert!(!view.is_executing);
    assert!(!view.can_cancel);
}

#[test]
fn rows_end_in_success_and_update_last_result() {
    let mut st = ready_state();
    st.start_query().unwrap();
    st.apply_connected();
    let cols = vec![String::from("icao24"), String::from("callsign")];
    st.apply_query_result(3, cols.clone());
    assert!(!st.execution.is_executing);
    assert_eq!(st.execution.status, "Complete");
    match st.execution.result.as_ref().expect("result should be set") {
        ExecutionResult::Success { success, row_count, columns } => {
            assert!(*success);
            assert_eq!(*row_count, 3);
            assert_eq!(*columns, cols);
        },
        _ => panic!("expected the successful outcome"),
    }
    let info = st.last_result.as_ref().expect("last result should be set");
    assert_eq!(info.row_count, 3);
    assert_eq!(info.columns, cols);
}

#[test]
fn engine_error_ends_in_error() {
    let mut st = ready_state();
    st.start_query().unwrap();
    st.apply_connected();
    st.apply_query_error("remote blew up");
    assert!(!st.execution.is_executing);
    assert_eq!(st.execution.status, "Error");
    match st.execution.result.as_ref().expect("result should be set") {
        ExecutionResult::Error { error } => assert_eq!(error, "remote blew up"),
        _ => panic!("expected the error outcome"),
    }
    assert!(st.execution.logs.last().unwrap().ends_with("Error: remote blew up"));
}

#[test]
fn connection_failure_ends_before_executing() {
    let mut st = ready_state();
    st.start_query().unwrap();
    st.apply_connection_failed("no route to host");
    assert!(!st.execution.is_executing);
    assert_eq!(st.execution.status, "Error");
    match st.execution.result.as_ref().expect("result should be set") {
        ExecutionResult::Error { error } => assert_eq!(error, "no route to host"),
        _ => panic!("expected the error outcome"),
    }
    assert!(st.execution.logs.last().unwrap().ends_with("Connection error: no route to host"));
}

#[test]
fn progress_builds_status_line_and_records_handle_once() {
    let mut st = ready_state();
    st.start_query().unwrap();
    st.apply_connected();
    st.apply_progress("RUNNING", "42.5", 100, Some(String::from("q1")));
    assert_eq!(st.execution.status, "RUNNING | 42.5% | 100 rows");
    assert_eq!(st.execution.query_id.as_deref(), Some("q1"));
    assert!(st.execution.logs.iter().any(|l| l.ends_with("Query ID: q1")));
    st.apply_progress("FINISHING", "99.0", 200, Some(String::from("q2")));
    assert_eq!(st.execution.status, "FINISHING | 99.0% | 200 rows");
    assert_eq!(st.execution.query_id.as_deref(), Some("q1"));
    assert!(!st.execution.logs.iter().any(|l| l.ends_with("Query ID: q2")));
}

#[test]
fn can_cancel_only_with_handle_while_executing() {
    let mut st = ready_state();
    st.start_query().unwrap();
    assert!(!st.status_snapshot().can_cancel);
    st.apply_progress("RUNNING", "1.0", 0, Some(String::from("q9")));
    assert!(st.status_snapshot().can_cancel);
}

#[test]
fn cancel_of_idle_run_is_refused_and_changes_nothing() {
    let mut st = AppState::new();
    assert_eq!(st.cancel_begin(), Err(ExecRefusal::NotRunning));
    assert!(st.execution.logs.is_empty());
    assert_eq!(st.execution.status, "");
    assert!(st.execution.result.is_none());
}

#[test]
fn cancel_without_handle_still_ends_cancelled() {
    let mut st = ready_state();
    st.start_query().unwrap();
    let handle = st.cancel_begin().expect("cancel should be accepted");
    assert!(handle.is_none());
    assert_eq!(st.execution.status, "Cancelling...");
    st.cancel_finish();
    assert!(!st.execution.is_executing);
    assert_eq!(st.execution.status, "Cancelled");
    match st.execution.result.as_ref().expect("result should be set") {
        ExecutionResult::Cancelled { cancelled } => assert!(*cancelled),
        _ => panic!("expected the cancelled outcome"),
    }
}

#[test]
fn cancel_with_handle_hands_it_back() {
    let mut st = ready_state();
    st.start_query().unwrap();
    st.apply_progress("RUNNING", "10.0", 5, Some(String::from("q42")));
    let handle = st.cancel_begin().expect("cancel should be accepted");
    assert_eq!(handle.as_deref(), Some("q42"));
    assert!(st.execution.logs.iter().any(|l| l.ends_with("Cancelling Trino query q42...")));
    st.cancel_finish();
    assert_eq!(st.execution.status, "Cancelled");
    assert!(!st.execution.is_executing);
}

#[test]
fn run_started_log_names_the_shape() {
    let mut st = ready_state();
    st.start_query().unwrap();
    st.log_run_started(ostk::params::QueryType::Rawdata);
    assert!(st.execution.logs.last().unwrap().ends_with("Starting raw data query execution"));
}

#[test]
fn log_entries_are_stamped() {
    let mut st = AppState::new();
    st.add_log("hello there");
    let entry = st.execution.logs.last().unwrap();
    assert!(entry.starts_with('['));
    assert!(entry.ends_with("] hello there"));
    assert_eq!(entry.chars().count(), "hello there".chars().count() + 11);
}

#[test]
fn snapshot_reflects_the_record() {
    let mut st = ready_state();
    st.start_query().unwrap();
    let view = st.status_snapshot();
    assert!(view.is_executing);
    assert_eq!(view.status, "Connecting to OpenSky...");
    assert_eq!(view.logs, st.execution.logs);
    assert!(!view.complete);
    assert!(view.result.is_none());
}
