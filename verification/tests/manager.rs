use process_manager::config::{ProcessConfig, ProcessType};
use process_manager::events::{KillOrder, StartAction, StopAction, ToolOutcome, WaitOutcome};
use process_manager::manager::ProcessManager;
use process_manager::state::ProcessStatus;

fn command(id: &str, line: &str) -> ProcessConfig {
    ProcessConfig::with_id(
        id.to_string(),
        format!("name of {}", id),
        line.to_string(),
        String::new(),
        ProcessType::Process,
    )
}

fn container(id: &str, name: &str) -> ProcessConfig {
    ProcessConfig::with_id(
        id.to_string(),
        format!("name of {}", id),
        name.to_string(),
        String::new(),
        ProcessType::Docker,
    )
}

fn running(m: &mut ProcessManager, id: &str, pid: u32) {
    assert!(matches!(m.start_process(id), StartAction::Launch { .. }));
    assert!(m.launch_succeeded(id, pid, false));
}

#[test]
fn new_engine_is_empty() {
    let m = ProcessManager::new();
    assert_eq!(m.len(), 0);
    assert_eq!(m.event_version(), 0);
    assert_eq!(m.error_version(), 0);
    assert_eq!(m.get_status("x"), None);
    assert!(m.get_logs("x").is_empty());
    assert!(m.ids().is_empty());
}

#[test]
fn init_enters_each_configuration_once() {
    let mut m = ProcessManager::new();
    let configs = vec![command("a", "x"), container("b", "demo"), command("a", "other")];
    m.init_from_config(&configs);
    assert_eq!(m.ids(), vec!["a", "b"]);
    assert_eq!(m.get_config("a").unwrap().command, "x");
    assert_eq!(m.get_status("a"), Some(ProcessStatus::Stopped));
    assert_eq!(m.get_status("b"), Some(ProcessStatus::Stopped));
    assert_eq!(m.event_version(), 1);
}

#[test]
fn init_can_be_repeated() {
    let mut m = ProcessManager::new();
    let configs = vec![command("a", "x"), command("b", "y")];
    m.init_from_config(&configs);
    running(&mut m, "a", 10);
    m.append_output("a", "hello".to_string(), false);
    let events = m.event_version();
    m.init_from_config(&configs);
    assert_eq!(m.event_version(), events);
    assert_eq!(m.ids(), vec!["a", "b"]);
    assert_eq!(m.get_status("a"), Some(ProcessStatus::Running));
    assert_eq!(m.get_logs("a"), vec!["[Started with PID 10]", "hello"]);
    m.init_from_config(&Vec::new());
    assert_eq!(m.event_version(), events);
    m.init_from_config(&vec![command("c", "z")]);
    assert_eq!(m.event_version(), events + 1);
    assert_eq!(m.ids(), vec!["a", "b", "c"]);
}

#[test]
fn add_enters_or_replaces() {
    let mut m = ProcessManager::new();
    m.add_process(command("a", "x"));
    m.add_process(command("b", "y"));
    assert_eq!(m.event_version(), 2);
    running(&mut m, "a", 10);
    m.add_process(command("a", "new"));
    assert_eq!(m.ids(), vec!["a", "b"]);
    assert_eq!(m.get_config("a").unwrap().command, "new");
    assert_eq!(m.get_status("a"), Some(ProcessStatus::Stopped));
    assert!(m.get_logs("a").is_empty());
}

#[test]
fn start_of_a_command_asks_for_a_launch() {
    let mut m = ProcessManager::new();
    let mut c = command("a", "npm run dev");
    c.working_directory = "/srv".to_string();
    m.add_process(c);
    m.append_output("a", "old".to_string(), false);
    let events = m.event_version();
    let action = m.start_process("a");
    assert_eq!(
        action,
        StartAction::Launch {
            id: "a".to_string(),
            command: "npm run dev".to_string(),
            working_directory: "/srv".to_string(),
        }
    );
    assert_eq!(m.get_status("a"), Some(ProcessStatus::Starting));
    assert!(m.get_logs("a").is_empty());
    assert_eq!(m.event_version(), events + 1);
    assert_eq!(m.error_version(), 0);
}

#[test]
fn start_of_a_container_asks_the_runtime() {
    let mut m = ProcessManager::new();
    m.add_process(container("d", "demo"));
    assert_eq!(
        m.start_process("d"),
        StartAction::DockerStart { id: "d".to_string(), container: "demo".to_string() }
    );
    assert_eq!(m.get_status("d"), Some(ProcessStatus::Starting));
}

#[test]
fn start_of_unknown_identifier_does_nothing() {
    let mut m = ProcessManager::new();
    m.add_process(command("a", "x"));
    assert_eq!(m.start_process("zzz"), StartAction::Nothing);
    assert_eq!(m.event_version(), 1);
}

#[test]
fn start_of_running_workload_is_a_noop() {
    let mut m = ProcessManager::new();
    m.add_process(command("a", "x"));
    running(&mut m, "a", 10);
    m.append_output("a", "hello".to_string(), false);
    let events = m.event_version();
    let logs = m.get_logs("a");
    assert_eq!(m.start_process("a"), StartAction::Nothing);
    assert_eq!(m.get_status("a"), Some(ProcessStatus::Running));
    assert_eq!(m.get_logs("a"), logs);
    assert_eq!(m.event_version(), events);
    assert_eq!(m.get_logs("a"), vec!["[Started with PID 10]", "hello"]);
}

#[test]
fn start_while_in_flight_is_a_noop() {
    let mut m = ProcessManager::new();
    m.add_process(command("a", "x"));
    assert!(matches!(m.start_process("a"), StartAction::Launch { .. }));
    let events = m.event_version();
    assert_eq!(m.start_process("a"), StartAction::Nothing);
    assert_eq!(m.get_status("a"), Some(ProcessStatus::Starting));
    assert_eq!(m.event_version(), events);
    assert!(m.launch_succeeded("a", 5, false));
    assert!(matches!(m.stop_process("a"), StopAction::Kill { .. }));
    let events = m.event_version();
    assert_eq!(m.start_process("a"), StartAction::Nothing);
    assert_eq!(m.get_status("a"), Some(ProcessStatus::Stopping));
    assert_eq!(m.event_version(), events);
}

#[test]
fn start_after_error_launches_again() {
    let mut m = ProcessManager::new();
    m.add_process(command("a", "x"));
    m.start_process("a");
    m.launch_failed("a", "no such file".to_string());
    assert_eq!(m.get_status("a"), Some(ProcessStatus::Error("no such file".to_string())));
    assert!(matches!(m.start_process("a"), StartAction::Launch { .. }));
    assert_eq!(m.get_status("a"), Some(ProcessStatus::Starting));
    assert!(m.get_logs("a").is_empty());
}

#[test]
fn launch_failure_is_recorded_and_counted() {
    let mut m = ProcessManager::new();
    m.add_process(command("a", "x"));
    m.start_process("a");
    let events = m.event_version();
    m.launch_failed("a", "permission denied".to_string());
    assert_eq!(m.get_status("a"), Some(ProcessStatus::Error("permission denied".to_string())));
    assert_eq!(m.get_logs("a"), vec!["[Failed to start: permission denied]"]);
    assert_eq!(m.event_version(), events + 1);
    assert_eq!(m.error_version(), 1);
}

#[test]
fn launch_failure_of_a_vanished_workload_is_still_counted() {
    let mut m = ProcessManager::new();
    m.launch_failed("gone", "x".to_string());
    assert_eq!(m.len(), 0);
    assert_eq!(m.event_version(), 1);
    assert_eq!(m.error_version(), 1);
}

#[test]
fn begin_launch_splits_the_command() {
    let mut m = ProcessManager::new();
    m.add_process(command("a", "x"));
    m.start_process("a");
    let events = m.event_version();
    let plan = m.begin_launch("a", "npm run \"dev server\"");
    assert_eq!(
        plan,
        Some(("npm".to_string(), vec!["run".to_string(), "dev server".to_string()]))
    );
    assert_eq!(m.get_status("a"), Some(ProcessStatus::Starting));
    assert_eq!(m.event_version(), events);
    assert_eq!(m.error_version(), 0);
}

#[test]
fn begin_launch_fails_the_launch_on_a_bad_command() {
    let cases = [
        ("", "Command is empty"),
        ("a | b", "Shell operators are not supported without a shell. Use a script or remove operators."),
        ("\"open", "Unclosed quote in command"),
    ];
    for (line, message) in cases {
        let mut m = ProcessManager::new();
        m.add_process(command("a", line));
        m.start_process("a");
        let events = m.event_version();
        assert_eq!(m.begin_launch("a", line), None);
        assert_eq!(m.get_status("a"), Some(ProcessStatus::Error(message.to_string())));
        assert_eq!(m.get_logs("a"), vec![format!("[Failed to start: {}]", message)]);
        assert_eq!(m.event_version(), events + 1);
        assert_eq!(m.error_version(), 1);
    }
}

#[test]
fn launch_success_is_recorded() {
    let mut m = ProcessManager::new();
    m.add_process(command("a", "x"));
    m.start_process("a");
    let events = m.event_version();
    assert!(m.launch_succeeded("a", 4242, true));
    assert_eq!(m.get_status("a"), Some(ProcessStatus::Running));
    assert_eq!(m.get_logs("a"), vec!["[Started with PID 4242]"]);
    assert_eq!(m.event_version(), events + 1);
    assert_eq!(m.error_version(), 0);
    assert_eq!(
        m.stop_process("a"),
        StopAction::Kill { id: "a".to_string(), pid: 4242, has_job: true }
    );
}

#[test]
fn launch_success_of_a_vanished_workload_is_not_adopted() {
    let mut m = ProcessManager::new();
    assert!(!m.launch_succeeded("gone", 1, false));
    assert_eq!(m.len(), 0);
    assert_eq!(m.event_version(), 1);
}

#[test]
fn output_enters_the_log_and_alarming_lines_count() {
    let mut m = ProcessManager::new();
    m.add_process(command("a", "x"));
    running(&mut m, "a", 1);
    let events = m.event_version();
    m.append_output("a", "INFO: normal startup".to_string(), false);
    assert_eq!(m.error_version(), 0);
    m.append_output("a", "Compilation error: missing semicolon".to_string(), false);
    assert_eq!(m.error_version(), 1);
    m.append_output("a", "warning: unused".to_string(), true);
    assert_eq!(m.error_version(), 1);
    m.append_output("a", "fatal: boom".to_string(), true);
    assert_eq!(m.error_version(), 2);
    assert_eq!(m.event_version(), events + 4);
    assert_eq!(
        m.get_logs("a"),
        vec![
            "[Started with PID 1]",
            "INFO: normal startup",
            "Compilation error: missing semicolon",
            "[stderr] warning: unused",
            "[stderr] fatal: boom",
        ]
    );
}

#[test]
fn output_for_a_vanished_workload_is_dropped() {
    let mut m = ProcessManager::new();
    m.append_output("gone", "error".to_string(), false);
    assert_eq!(m.event_version(), 0);
    assert_eq!(m.error_version(), 0);
}

#[test]
fn log_of_a_workload_keeps_the_last_1000_lines() {
    let mut m = ProcessManager::new();
    m.add_process(command("a", "x"));
    for i in 0..1001 {
        m.append_output("a", format!("line {}", i), false);
    }
    let logs = m.get_logs("a");
    assert_eq!(logs.len(), 1000);
    assert_eq!(logs[0], "line 1");
    assert_eq!(logs[999], "line 1000");
    assert_eq!(m.event_version(), 1 + 1001);
}

#[test]
fn monitor_sees_the_exit() {
    let mut m = ProcessManager::new();
    m.add_process(command("a", "x"));
    running(&mut m, "a", 9);
    let events = m.event_version();
    assert!(m.monitor_exit("a", WaitOutcome::StillRunning));
    assert_eq!(m.event_version(), events);
    assert_eq!(m.get_status("a"), Some(ProcessStatus::Running));
    assert!(!m.monitor_exit("a", WaitOutcome::Exited("exit status: 0".to_string())));
    assert_eq!(m.get_status("a"), Some(ProcessStatus::Stopped));
    assert_eq!(
        m.get_logs("a"),
        vec!["[Started with PID 9]", "[Process exited with: exit status: 0]"]
    );
    assert_eq!(m.event_version(), events + 1);
    assert_eq!(m.error_version(), 0);
    assert_eq!(m.stop_process("a"), StopAction::Nothing);
}

#[test]
fn monitor_reports_a_failed_look() {
    let mut m = ProcessManager::new();
    m.add_process(command("a", "x"));
    running(&mut m, "a", 9);
    let events = m.event_version();
    assert!(!m.monitor_exit("a", WaitOutcome::Failed("no child processes".to_string())));
    assert_eq!(m.get_status("a"), Some(ProcessStatus::Error("no child processes".to_string())));
    assert_eq!(m.get_logs("a"), vec!["[Started with PID 9]"]);
    assert_eq!(m.event_version(), events + 1);
    assert_eq!(m.error_version(), 1);
    assert_eq!(m.stop_process("a"), StopAction::Nothing);
}

#[test]
fn monitor_is_done_without_a_process() {
    let mut m = ProcessManager::new();
    m.add_process(command("a", "x"));
    let events = m.event_version();
    assert!(!m.monitor_exit("a", WaitOutcome::StillRunning));
    assert!(!m.monitor_exit("a", WaitOutcome::Exited("exit status: 0".to_string())));
    assert!(!m.monitor_exit("gone", WaitOutcome::Failed("x".to_string())));
    assert_eq!(m.event_version(), events);
    assert_eq!(m.error_version(), 0);
    assert_eq!(m.get_status("a"), Some(ProcessStatus::Stopped));
    assert!(m.get_logs("a").is_empty());
}

#[test]
fn stop_of_a_live_command_asks_for_a_kill() {
    let mut m = ProcessManager::new();
    m.add_process(command("a", "x"));
    running(&mut m, "a", 77);
    let events = m.event_version();
    assert_eq!(
        m.stop_process("a"),
        StopAction::Kill { id: "a".to_string(), pid: 77, has_job: false }
    );
    assert_eq!(m.get_status("a"), Some(ProcessStatus::Stopping));
    assert_eq!(m.event_version(), events + 1);
    assert!(!m.monitor_exit("a", WaitOutcome::StillRunning));
    m.kill_finished("a", None);
    assert_eq!(m.get_status("a"), Some(ProcessStatus::Stopped));
    assert_eq!(m.get_logs("a"), vec!["[Started with PID 77]", "[Process stopped]"]);
    assert_eq!(m.event_version(), events + 2);
    assert_eq!(m.error_version(), 0);
}

#[test]
fn stop_without_a_live_process_goes_straight_to_stopped() {
    let mut m = ProcessManager::new();
    m.add_process(command("a", "x"));
    m.start_process("a");
    m.launch_failed("a", "nope".to_string());
    let events = m.event_version();
    let logs = m.get_logs("a");
    assert_eq!(m.stop_process("a"), StopAction::Nothing);
    assert_eq!(m.get_status("a"), Some(ProcessStatus::Stopped));
    assert_eq!(m.get_logs("a"), logs);
    assert_eq!(m.event_version(), events + 1);
    assert_eq!(m.stop_process("a"), StopAction::Nothing);
    assert_eq!(m.get_status("a"), Some(ProcessStatus::Stopped));
}

#[test]
fn stop_of_unknown_identifier_does_nothing() {
    let mut m = ProcessManager::new();
    assert_eq!(m.stop_process("zzz"), StopAction::Nothing);
    assert_eq!(m.event_version(), 0);
}

#[test]
fn kill_that_reported_an_error_still_ends_in_stopped() {
    let mut m = ProcessManager::new();
    m.add_process(command("a", "x"));
    running(&mut m, "a", 77);
    m.stop_process("a");
    m.kill_finished("a", Some("taskkill failed: access denied".to_string()));
    assert_eq!(m.get_status("a"), Some(ProcessStatus::Stopped));
    assert_eq!(
        m.get_logs("a"),
        vec![
            "[Started with PID 77]",
            "[Stop error: taskkill failed: access denied]",
            "[Process stopped]",
        ]
    );
    assert_eq!(m.error_version(), 0);
}

#[test]
fn kill_report_for_a_vanished_workload_counts_one_change() {
    let mut m = ProcessManager::new();
    m.kill_finished("gone", None);
    assert_eq!(m.event_version(), 1);
    assert_eq!(m.len(), 0);
}

#[test]
fn command_end_to_end() {
    let mut m = ProcessManager::new();
    m.init_from_config(&vec![command("p", "printf hello")]);
    let action = m.start_process("p");
    let (id, line, dir) = match action {
        StartAction::Launch { id, command, working_directory } => (id, command, working_directory),
        other => panic!("{:?}", other),
    };
    assert_eq!(dir, "");
    assert_eq!(m.get_status("p"), Some(ProcessStatus::Starting));
    let (program, args) = m.begin_launch(&id, &line).unwrap();
    assert_eq!(program, "printf");
    assert_eq!(args, vec!["hello"]);
    assert!(m.launch_succeeded(&id, 31337, false));
    assert_eq!(m.get_status("p"), Some(ProcessStatus::Running));
    m.append_output(&id, "hello".to_string(), false);
    assert!(m.monitor_exit(&id, WaitOutcome::StillRunning));
    assert!(!m.monitor_exit(&id, WaitOutcome::Exited("exit status: 0".to_string())));
    assert_eq!(m.get_status("p"), Some(ProcessStatus::Stopped));
    let logs = m.get_logs("p");
    assert!(logs.iter().any(|l| l == "hello"));
    assert!(logs.iter().any(|l| l == "[Started with PID 31337]"));
    assert!(logs.iter().any(|l| l.starts_with("[Process exited with: ")));
    assert_eq!(
        logs,
        vec!["[Started with PID 31337]", "hello", "[Process exited with: exit status: 0]"]
    );
    assert_eq!(m.error_version(), 0);
    assert_eq!(m.event_version(), 5);
}

#[test]
fn container_whose_start_fails_ends_in_error() {
    let mut m = ProcessManager::new();
    m.init_from_config(&vec![container("d", "demo")]);
    let action = m.start_process("d");
    assert_eq!(
        action,
        StartAction::DockerStart { id: "d".to_string(), container: "demo".to_string() }
    );
    assert_eq!(m.error_version(), 0);
    m.docker_start_finished(
        "d",
        "demo",
        ToolOutcome::Rejected("Error response from daemon: No such container: demo".to_string()),
    );
    assert_eq!(
        m.get_status("d"),
        Some(ProcessStatus::Error(
            "Error response from daemon: No such container: demo".to_string()
        ))
    );
    assert_eq!(m.error_version(), 1);
    assert_eq!(
        m.get_logs("d"),
        vec!["[Failed to start: Error response from daemon: No such container: demo]"]
    );
    assert!(!m.append_docker_log("d", "late line with error".to_string()));
    assert_eq!(m.error_version(), 1);
    assert_eq!(m.refresh_docker_status("d", false), true);
    assert_eq!(m.error_version(), 1);
}

#[test]
fn container_runtime_that_cannot_be_run_counts_as_error() {
    let mut m = ProcessManager::new();
    m.add_process(container("d", "demo"));
    m.start_process("d");
    let events = m.event_version();
    m.docker_start_finished("d", "demo", ToolOutcome::Unavailable("program not found".to_string()));
    assert_eq!(m.get_status("d"), Some(ProcessStatus::Error("program not found".to_string())));
    assert_eq!(m.get_logs("d"), vec!["[Failed to start docker: program not found]"]);
    assert_eq!(m.error_version(), 1);
    assert_eq!(m.event_version(), events + 1);
    m.docker_start_finished("gone", "demo", ToolOutcome::Unavailable("x".to_string()));
    assert_eq!(m.error_version(), 2);
    m.docker_start_finished("gone", "demo", ToolOutcome::Rejected("x".to_string()));
    assert_eq!(m.error_version(), 2);
    assert_eq!(m.event_version(), events + 3);
}

#[test]
fn container_that_starts_runs_and_is_followed() {
    let mut m = ProcessManager::new();
    m.add_process(container("d", "demo"));
    m.start_process("d");
    m.docker_start_finished("d", "demo", ToolOutcome::Succeeded);
    assert_eq!(m.get_status("d"), Some(ProcessStatus::Running));
    assert_eq!(m.get_logs("d"), vec!["[Docker container 'demo' started]"]);
    assert!(m.append_docker_log("d", "ready".to_string()));
    assert!(m.append_docker_log("d", "panic: oh no".to_string()));
    assert_eq!(m.error_version(), 1);
    assert_eq!(
        m.get_logs("d"),
        vec!["[Docker container 'demo' started]", "ready", "panic: oh no"]
    );
    assert_eq!(
        m.stop_process("d"),
        StopAction::DockerStop { id: "d".to_string(), container: "demo".to_string() }
    );
    assert_eq!(m.get_status("d"), Some(ProcessStatus::Stopping));
    let events = m.event_version();
    assert!(!m.append_docker_log("d", "bye".to_string()));
    assert_eq!(m.event_version(), events);
    m.docker_stop_finished("d", "demo", ToolOutcome::Succeeded);
    assert_eq!(m.get_status("d"), Some(ProcessStatus::Stopped));
    assert_eq!(m.get_logs("d").last().unwrap(), "[Docker container 'demo' stopped]");
    assert!(!m.append_docker_log("gone", "x".to_string()));
}

#[test]
fn container_stop_settles_to_stopped_whatever_the_runtime_says() {
    for outcome in [
        ToolOutcome::Rejected("no such container".to_string()),
        ToolOutcome::Unavailable("no such container".to_string()),
    ] {
        let mut m = ProcessManager::new();
        m.add_process(container("d", "demo"));
        m.start_process("d");
        m.docker_start_finished("d", "demo", ToolOutcome::Succeeded);
        m.stop_process("d");
        let errors = m.error_version();
        m.docker_stop_finished("d", "demo", outcome);
        assert_eq!(m.get_status("d"), Some(ProcessStatus::Stopped));
        assert_eq!(m.get_logs("d").last().unwrap(), "[Stop error: no such container]");
        assert_eq!(m.error_version(), errors);
    }
}

#[test]
fn container_poll_changes_the_status_only_when_it_differs() {
    let mut m = ProcessManager::new();
    m.add_process(container("d", "demo"));
    m.add_process(command("a", "x"));
    assert_eq!(m.docker_container("d"), Some("demo".to_string()));
    assert_eq!(m.docker_container("a"), None);
    assert_eq!(m.docker_container("gone"), None);
    let events = m.event_version();
    assert!(!m.refresh_docker_status("d", false));
    assert_eq!(m.event_version(), events);
    assert!(m.refresh_docker_status("d", true));
    assert_eq!(m.get_status("d"), Some(ProcessStatus::Running));
    assert_eq!(m.event_version(), events + 1);
    assert!(!m.refresh_docker_status("d", true));
    assert_eq!(m.event_version(), events + 1);
    assert!(m.refresh_docker_status("d", false));
    assert_eq!(m.get_status("d"), Some(ProcessStatus::Stopped));
    assert_eq!(m.event_version(), events + 2);
    assert!(!m.refresh_docker_status("a", true));
    assert_eq!(m.get_status("a"), Some(ProcessStatus::Stopped));
    assert!(!m.refresh_docker_status("gone", true));
    assert_eq!(m.event_version(), events + 2);
    assert_eq!(m.error_version(), 0);
}

#[test]
fn container_poll_overrides_an_error() {
    let mut m = ProcessManager::new();
    m.add_process(container("d", "demo"));
    m.start_process("d");
    m.docker_start_finished("d", "demo", ToolOutcome::Rejected("x".to_string()));
    assert!(m.refresh_docker_status("d", false));
    assert_eq!(m.get_status("d"), Some(ProcessStatus::Stopped));
}

#[test]
fn docker_ids_are_the_containers_in_table_order() {
    let mut m = ProcessManager::new();
    m.add_process(container("d1", "one"));
    m.add_process(command("a", "x"));
    m.add_process(container("d2", "two"));
    assert_eq!(m.docker_ids(), vec!["d1", "d2"]);
    assert_eq!(m.ids(), vec!["d1", "a", "d2"]);
    assert!(ProcessManager::new().docker_ids().is_empty());
}

#[test]
fn background_poll_is_asked_for_once() {
    let mut m = ProcessManager::new();
    assert!(m.start_background_tasks());
    assert!(!m.start_background_tasks());
    assert!(!m.start_background_tasks());
    assert_eq!(m.event_version(), 0);
}

#[test]
fn removal_of_a_running_command_waits_for_the_kill() {
    let mut m = ProcessManager::new();
    m.add_process(command("a", "x"));
    m.add_process(command("b", "y"));
    running(&mut m, "a", 5);
    let events = m.event_version();
    assert_eq!(
        m.remove_process("a"),
        StopAction::Kill { id: "a".to_string(), pid: 5, has_job: false }
    );
    assert_eq!(m.get_status("a"), Some(ProcessStatus::Stopping));
    assert_eq!(m.event_version(), events + 1);
    assert_eq!(m.len(), 2);
    m.kill_finished("a", None);
    assert_eq!(m.get_status("a"), None);
    assert!(m.get_logs("a").is_empty());
    assert_eq!(m.ids(), vec!["b"]);
    assert_eq!(m.event_version(), events + 3);
}

#[test]
fn removal_of_a_container_waits_for_the_runtime() {
    let mut m = ProcessManager::new();
    m.add_process(container("d", "demo"));
    m.start_process("d");
    m.docker_start_finished("d", "demo", ToolOutcome::Succeeded);
    assert_eq!(
        m.remove_process("d"),
        StopAction::DockerStop { id: "d".to_string(), container: "demo".to_string() }
    );
    assert_eq!(m.get_status("d"), Some(ProcessStatus::Stopping));
    m.docker_stop_finished("d", "demo", ToolOutcome::Rejected("x".to_string()));
    assert_eq!(m.get_status("d"), None);
    assert_eq!(m.len(), 0);
}

#[test]
fn removal_of_a_workload_at_rest_is_immediate() {
    let mut m = ProcessManager::new();
    m.add_process(command("a", "x"));
    let events = m.event_version();
    assert_eq!(m.remove_process("a"), StopAction::Nothing);
    assert_eq!(m.get_status("a"), None);
    assert_eq!(m.len(), 0);
    assert_eq!(m.event_version(), events + 2);
}

#[test]
fn removal_of_unknown_identifier_does_nothing() {
    let mut m = ProcessManager::new();
    m.add_process(command("a", "x"));
    let events = m.event_version();
    assert_eq!(m.remove_process("zzz"), StopAction::Nothing);
    assert_eq!(m.len(), 1);
    assert_eq!(m.event_version(), events);
}

#[test]
fn start_all_starts_what_is_at_rest() {
    let mut m = ProcessManager::new();
    m.add_process(command("a", "x"));
    m.add_process(container("d", "demo"));
    m.add_process(command("b", "y"));
    running(&mut m, "b", 3);
    let events = m.event_version();
    let actions = m.start_all();
    assert_eq!(
        actions,
        vec![
            StartAction::Launch {
                id: "a".to_string(),
                command: "x".to_string(),
                working_directory: String::new(),
            },
            StartAction::DockerStart { id: "d".to_string(), container: "demo".to_string() },
        ]
    );
    assert_eq!(m.get_status("a"), Some(ProcessStatus::Starting));
    assert_eq!(m.get_status("d"), Some(ProcessStatus::Starting));
    assert_eq!(m.get_status("b"), Some(ProcessStatus::Running));
    assert_eq!(m.event_version(), events + 2);
    assert!(m.start_all().is_empty());
    assert_eq!(m.event_version(), events + 2);
}

#[test]
fn stop_all_stops_everything() {
    let mut m = ProcessManager::new();
    m.add_process(command("a", "x"));
    m.add_process(container("d", "demo"));
    m.add_process(command("b", "y"));
    running(&mut m, "b", 3);
    let events = m.event_version();
    let actions = m.stop_all();
    assert_eq!(
        actions,
        vec![
            StopAction::DockerStop { id: "d".to_string(), container: "demo".to_string() },
            StopAction::Kill { id: "b".to_string(), pid: 3, has_job: false },
        ]
    );
    assert_eq!(m.get_status("a"), Some(ProcessStatus::Stopped));
    assert_eq!(m.get_status("d"), Some(ProcessStatus::Stopping));
    assert_eq!(m.get_status("b"), Some(ProcessStatus::Stopping));
    assert_eq!(m.event_version(), events + 3);
}

#[test]
fn shutdown_stops_commands_and_leaves_containers() {
    let mut m = ProcessManager::new();
    m.add_process(command("a", "x"));
    m.add_process(container("d", "demo"));
    m.add_process(command("b", "y"));
    m.add_process(command("c", "z"));
    running(&mut m, "a", 11);
    assert!(matches!(m.start_process("c"), StartAction::Launch { .. }));
    assert!(m.launch_succeeded("c", 12, true));
    m.start_process("d");
    m.docker_start_finished("d", "demo", ToolOutcome::Succeeded);
    let events = m.event_version();
    let orders = m.stop_non_docker();
    assert_eq!(
        orders,
        vec![
            KillOrder { id: "a".to_string(), pid: 11, has_job: false },
            KillOrder { id: "c".to_string(), pid: 12, has_job: true },
        ]
    );
    assert_eq!(m.get_status("a"), Some(ProcessStatus::Stopped));
    assert_eq!(m.get_status("b"), Some(ProcessStatus::Stopped));
    assert_eq!(m.get_status("c"), Some(ProcessStatus::Stopped));
    assert_eq!(m.get_status("d"), Some(ProcessStatus::Running));
    assert_eq!(m.event_version(), events + 1);
    assert_eq!(m.stop_process("a"), StopAction::Nothing);
    assert!(m.stop_non_docker().is_empty());
    assert_eq!(m.get_logs("a"), vec!["[Started with PID 11]"]);
}

#[test]
fn subscribers_see_the_latest_count() {
    let mut m = ProcessManager::new();
    let early = m.subscribe();
    assert_eq!(*early.borrow(), 0);
    m.add_process(command("a", "x"));
    m.start_process("a");
    assert_eq!(*early.borrow(), 2);
    assert_eq!(m.event_version(), 2);
    let late = m.subscribe();
    assert_eq!(*late.borrow(), 2);
    m.launch_failed("a", "x".to_string());
    assert_eq!(*early.borrow(), 3);
    assert_eq!(*late.borrow(), 3);
    assert!(early.has_changed().unwrap());
}

#[test]
fn count_is_published_without_any_subscriber() {
    let mut m = ProcessManager::new();
    m.add_process(command("a", "x"));
    m.add_process(command("b", "y"));
    let rx = m.subscribe();
    assert_eq!(*rx.borrow(), 2);
    assert!(!rx.has_changed().unwrap());
}

#[test]
fn subscriber_sees_the_count_in_every_state() {
    let mut m = ProcessManager::new();
    assert_eq!(*m.subscribe().borrow(), m.event_version());
    m.init_from_config(&vec![command("a", "x"), container("d", "demo")]);
    assert_eq!(*m.subscribe().borrow(), m.event_version());
    m.start_all();
    assert_eq!(*m.subscribe().borrow(), m.event_version());
    m.launch_succeeded("a", 7, false);
    m.docker_start_finished("d", "demo", ToolOutcome::Succeeded);
    m.append_output("a", "error".to_string(), true);
    assert_eq!(*m.subscribe().borrow(), m.event_version());
    m.remove_process("a");
    m.kill_finished("a", None);
    assert_eq!(*m.subscribe().borrow(), m.event_version());
    m.stop_non_docker();
    let rx = m.subscribe();
    assert_eq!(*rx.borrow(), m.event_version());
    assert_eq!(m.event_version(), 10);
    assert!(!rx.has_changed().unwrap());
    m.stop_all();
    assert!(rx.has_changed().unwrap());
    assert_eq!(*rx.borrow(), m.event_version());
}
