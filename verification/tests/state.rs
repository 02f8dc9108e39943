use process_manager::config::{ProcessConfig, ProcessType};
use process_manager::state::{framed, make_started_line, ProcessState, ProcessStatus, MAX_LOG_LINES};

fn state() -> ProcessState {
    ProcessState::new(ProcessConfig::with_id(
        "1".to_string(),
        "web".to_string(),
        "npm run dev".to_string(),
        String::new(),
        ProcessType::Process,
    ))
}

#[test]
fn new_state_is_at_rest() {
    let s = state();
    assert_eq!(s.status, ProcessStatus::Stopped);
    assert!(s.logs.is_empty());
    assert_eq!(s.child, None);
    assert!(!s.job);
    assert!(!s.pending_removal);
    assert_eq!(s.config.id, "1");
    assert_eq!(s.config.command, "npm run dev");
}

#[test]
fn log_keeps_order() {
    let mut s = state();
    s.push_log("a".to_string());
    s.push_log("b".to_string());
    s.push_log("c".to_string());
    assert_eq!(s.logs, vec!["a", "b", "c"]);
}

#[test]
fn log_of_1001_lines_keeps_the_last_1000() {
    let mut s = state();
    for i in 0..1001 {
        s.push_log(format!("line {}", i));
        assert!(s.logs.len() <= 1000);
    }
    assert_eq!(MAX_LOG_LINES, 1000);
    assert_eq!(s.logs.len(), 1000);
    assert_eq!(s.logs[0], "line 1");
    assert_eq!(s.logs[999], "line 1000");
    for (k, line) in s.logs.iter().enumerate() {
        assert_eq!(*line, format!("line {}", k + 1));
    }
}

#[test]
fn full_log_gives_up_one_line_per_line() {
    let mut s = state();
    for i in 0..1500 {
        s.push_log(format!("{}", i));
    }
    assert_eq!(s.logs.len(), 1000);
    assert_eq!(s.logs[0], "500");
    assert_eq!(s.logs[999], "1499");
}

#[test]
fn overlong_log_is_cut_down_on_the_next_line() {
    let mut s = state();
    s.logs = (0..1200).map(|i| format!("{}", i)).collect();
    s.push_log("new".to_string());
    assert_eq!(s.logs.len(), 1000);
    assert_eq!(s.logs[0], "201");
    assert_eq!(s.logs[999], "new");
}

#[test]
fn clearing_the_log_keeps_the_rest() {
    let mut s = state();
    s.push_log("a".to_string());
    s.status = ProcessStatus::Running;
    s.child = Some(7);
    s.clear_logs();
    assert!(s.logs.is_empty());
    assert_eq!(s.status, ProcessStatus::Running);
    assert_eq!(s.child, Some(7));
}

#[test]
fn status_texts() {
    assert_eq!(ProcessStatus::Stopped.to_string(), "Stopped");
    assert_eq!(ProcessStatus::Running.to_string(), "Running");
    assert_eq!(ProcessStatus::Starting.to_string(), "Starting");
    assert_eq!(ProcessStatus::Stopping.to_string(), "Stopping");
    assert_eq!(ProcessStatus::Error("no such file".to_string()).to_string(), "Error: no such file");
}

#[test]
fn status_tests() {
    assert!(ProcessStatus::Running.is_running());
    assert!(!ProcessStatus::Starting.is_running());
    assert!(!ProcessStatus::Error("x".to_string()).is_running());
    assert!(ProcessStatus::Starting.is_in_flight());
    assert!(ProcessStatus::Stopping.is_in_flight());
    assert!(!ProcessStatus::Running.is_in_flight());
    assert!(!ProcessStatus::Stopped.is_in_flight());
    let e = ProcessStatus::Error("boom".to_string());
    assert_eq!(e.clone(), e);
}

#[test]
fn log_line_texts() {
    assert_eq!(make_started_line(4242), "[Started with PID 4242]");
    assert_eq!(make_started_line(0), "[Started with PID 0]");
    assert_eq!(framed("[Failed to start: ", "nope", "]"), "[Failed to start: nope]");
    assert_eq!(framed("", "", ""), "");
}
