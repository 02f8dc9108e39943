//! The supervision engine as a mathematical state machine.
//!
//! The table of workloads is a sequence of states with a place for each
//! identifier; two counters tell observers that something changed and that
//! something alarming happened. Every operation of the engine, and every
//! report that the launcher, the streamers, the monitor and the container
//! runtime hand back, is a function from one such state to the next.

use vstd::prelude::*;

use crate::config::{ProcessConfigView, ProcessType};
use crate::severity::is_error_line;
use crate::state::{
    appended, container_started_line, container_stopped_line, exited_line, failed_line, fresh_state,
    runtime_missing_line, started_line, stderr_line, stop_error_line, stopped_line,
    ProcessStateView, StatusView,
};
use crate::tokenizer::{error_message, tokenize};

verus! {

/// The engine's state as plain values.
pub struct ManagerView {
    /// The workloads, in the order in which they entered the table.
    pub entries: Seq<ProcessStateView>,
    /// Counts the committed changes.
    pub event_version: u64,
    /// Counts the alarming ones among them.
    pub error_version: u64,
    /// Whether the periodic container poll was asked for.
    pub background_started: bool,
    /// What the change-notification channel holds.
    pub published: Seq<u64>,
}

/// What the caller has to do after a start request.
pub enum StartActionView {
    Nothing,
    Launch { id: Seq<char>, command: Seq<char>, working_directory: Seq<char> },
    DockerStart { id: Seq<char>, container: Seq<char> },
}

/// What the caller has to do after a stop request.
pub enum StopActionView {
    Nothing,
    Kill { id: Seq<char>, pid: u32, has_job: bool },
    DockerStop { id: Seq<char>, container: Seq<char> },
}

/// A process to tear down at shutdown.
pub struct KillOrderView {
    pub id: Seq<char>,
    pub pid: u32,
    pub has_job: bool,
}

/// What one look at a live process found.
pub enum WaitOutcomeView {
    StillRunning,
    Exited(Seq<char>),
    Failed(Seq<char>),
}

/// How a call of the container runtime ended.
pub enum ToolOutcomeView {
    Succeeded,
    Rejected(Seq<char>),
    Unavailable(Seq<char>),
}

/// The counter value that follows `v`; after the largest value it starts
/// again at zero.
pub open spec fn bump(v: u64) -> u64 {
    if v == u64::MAX {
        0u64
    } else {
        (v + 1) as u64
    }
}

/// `m` after one more committed change: the event counter has advanced and
/// the channel holds its new value.
pub open spec fn event_bumped(m: ManagerView) -> ManagerView {
    ManagerView {
        event_version: bump(m.event_version),
        published: seq![bump(m.event_version)],
        ..m
    }
}

/// `m` after one more alarming event.
pub open spec fn error_bumped(m: ManagerView) -> ManagerView {
    ManagerView { error_version: bump(m.error_version), ..m }
}

/// Whether `i` is the first place in `entries` that holds the identifier
/// `id`.
pub open spec fn is_first_entry(entries: Seq<ProcessStateView>, id: Seq<char>, i: int) -> bool {
    &&& 0 <= i < entries.len()
    &&& entries[i].config.id == id
    &&& forall|j: int| 0 <= j < i ==> (#[trigger] entries[j]).config.id != id
}

/// Whether the table holds the identifier `id`.
pub open spec fn has_entry(entries: Seq<ProcessStateView>, id: Seq<char>) -> bool {
    exists|i: int| is_first_entry(entries, id, i)
}

/// The place of the identifier `id` in the table.
pub open spec fn index_of(entries: Seq<ProcessStateView>, id: Seq<char>) -> int {
    choose|i: int| is_first_entry(entries, id, i)
}

/// The state of the workload `id`.
pub open spec fn entry_of(m: ManagerView, id: Seq<char>) -> ProcessStateView {
    m.entries[index_of(m.entries, id)]
}

/// `m` with the state of the workload `id` replaced by `e`.
pub open spec fn with_entry(m: ManagerView, id: Seq<char>, e: ProcessStateView) -> ManagerView {
    ManagerView { entries: m.entries.update(index_of(m.entries, id), e), ..m }
}

/// `m` without the workload `id`.
pub open spec fn without_entry(m: ManagerView, id: Seq<char>) -> ManagerView {
    ManagerView { entries: m.entries.remove(index_of(m.entries, id)), ..m }
}

/// No identifier stands at two places of the table.
pub open spec fn unique_ids(entries: Seq<ProcessStateView>) -> bool {
    forall|i: int, j: int|
        0 <= i < j < entries.len() ==> (#[trigger] entries[i]).config.id != (
        #[trigger] entries[j]).config.id
}

/// No log in the table is longer than the bound.
pub open spec fn logs_bounded(entries: Seq<ProcessStateView>) -> bool {
    forall|i: int|
        0 <= i < entries.len() ==> (#[trigger] entries[i]).logs.len()
            <= crate::state::MAX_LOG_LINES
}

/// The channel holds the event counter's value.
pub open spec fn count_is_published(m: ManagerView) -> bool {
    m.published == seq![m.event_version]
}

/// What holds of every state that the engine can reach.
pub open spec fn well_formed(m: ManagerView) -> bool {
    unique_ids(m.entries) && logs_bounded(m.entries) && count_is_published(m)
}

/// The state of an engine that was just made.
pub open spec fn initial() -> ManagerView {
    ManagerView {
        entries: Seq::empty(),
        event_version: 0,
        error_version: 0,
        background_started: false,
        published: seq![0u64],
    }
}

// ---------------------------------------------------------------------------
// Table membership
// ---------------------------------------------------------------------------

/// The table after each of `configs` whose identifier it lacks was entered,
/// in order.
pub open spec fn init_entries(
    entries: Seq<ProcessStateView>,
    configs: Seq<ProcessConfigView>,
) -> Seq<ProcessStateView>
    decreases configs.len(),
{
    if configs.len() == 0 {
        entries
    } else {
        let before = init_entries(entries, configs.drop_last());
        let c = configs.last();
        if has_entry(before, c.id) {
            before
        } else {
            before.push(fresh_state(c))
        }
    }
}

/// `init_from_config`: existing entries stay as they are; one change is
/// counted if any entry was added.
pub open spec fn init_model(m: ManagerView, configs: Seq<ProcessConfigView>) -> ManagerView {
    let entries = init_entries(m.entries, configs);
    if entries.len() == m.entries.len() {
        m
    } else {
        event_bumped(ManagerView { entries, ..m })
    }
}

/// `add_process`: a fresh state under the configuration's identifier, in the
/// place of an entry that had it or at the end.
pub open spec fn add_model(m: ManagerView, c: ProcessConfigView) -> ManagerView {
    if has_entry(m.entries, c.id) {
        event_bumped(with_entry(m, c.id, fresh_state(c)))
    } else {
        event_bumped(ManagerView { entries: m.entries.push(fresh_state(c)), ..m })
    }
}

/// The table once the stopped workload `id` has left it, if it was marked to
/// leave.
pub open spec fn settle(m: ManagerView, id: Seq<char>) -> ManagerView {
    if has_entry(m.entries, id) && entry_of(m, id).pending_removal {
        event_bumped(without_entry(m, id))
    } else {
        m
    }
}

// ---------------------------------------------------------------------------
// Start
// ---------------------------------------------------------------------------

/// Whether a start request acts on a workload in status `s`: it does at
/// rest, and not while the workload runs or a launch or termination is under
/// way.
pub open spec fn can_start(s: StatusView) -> bool {
    s is Stopped || s is Error
}

/// The launch that a start request asks for.
pub open spec fn start_order(e: ProcessStateView) -> StartActionView {
    match e.config.process_type {
        ProcessType::Process => StartActionView::Launch {
            id: e.config.id,
            command: e.config.command,
            working_directory: e.config.working_directory,
        },
        ProcessType::Docker => StartActionView::DockerStart {
            id: e.config.id,
            container: e.config.command,
        },
    }
}

/// `start_process`: a workload at rest goes to `Starting` with an empty log.
pub open spec fn start_model(m: ManagerView, id: Seq<char>) -> ManagerView {
    if has_entry(m.entries, id) && can_start(entry_of(m, id).status) {
        let e = entry_of(m, id);
        event_bumped(
            with_entry(
                m,
                id,
                ProcessStateView { status: StatusView::Starting, logs: Seq::empty(), ..e },
            ),
        )
    } else {
        m
    }
}

/// What `start_process` asks the caller to do.
pub open spec fn start_action(m: ManagerView, id: Seq<char>) -> StartActionView {
    if has_entry(m.entries, id) && can_start(entry_of(m, id).status) {
        start_order(entry_of(m, id))
    } else {
        StartActionView::Nothing
    }
}

/// A workload whose launch failed with `reason`.
pub open spec fn failed(e: ProcessStateView, reason: Seq<char>) -> ProcessStateView {
    ProcessStateView {
        status: StatusView::Error(reason),
        logs: appended(e.logs, failed_line(reason)),
        ..e
    }
}

/// `launch_failed`: the workload, if it is still there, goes to `Error`; the
/// failure is counted either way.
pub open spec fn launch_failed_model(
    m: ManagerView,
    id: Seq<char>,
    reason: Seq<char>,
) -> ManagerView {
    let marked = if has_entry(m.entries, id) {
        with_entry(m, id, failed(entry_of(m, id), reason))
    } else {
        m
    };
    event_bumped(error_bumped(marked))
}

/// `begin_launch`: a command line that cannot be split fails the launch.
pub open spec fn begin_launch_model(
    m: ManagerView,
    id: Seq<char>,
    command: Seq<char>,
) -> ManagerView {
    match tokenize(command) {
        Ok(_) => m,
        Err(e) => launch_failed_model(m, id, error_message(e)),
    }
}

/// The program and arguments that `begin_launch` hands to the launcher.
pub open spec fn begin_launch_plan(command: Seq<char>) -> Option<(Seq<char>, Seq<Seq<char>>)> {
    match tokenize(command) {
        Ok(fields) => Some((fields[0], fields.skip(1))),
        Err(_) => None,
    }
}

/// `launch_succeeded`: the workload, if it is still there, runs and holds the
/// new process.
pub open spec fn launch_succeeded_model(
    m: ManagerView,
    id: Seq<char>,
    pid: u32,
    has_job: bool,
) -> ManagerView {
    if has_entry(m.entries, id) {
        let e = entry_of(m, id);
        event_bumped(
            with_entry(
                m,
                id,
                ProcessStateView {
                    status: StatusView::Running,
                    logs: appended(e.logs, started_line(pid)),
                    child: Some(pid),
                    job: has_job,
                    ..e
                },
            ),
        )
    } else {
        event_bumped(m)
    }
}

// ---------------------------------------------------------------------------
// Output and exit
// ---------------------------------------------------------------------------

/// A line as it is stored: one of the error stream carries the tag.
pub open spec fn stored_line(line: Seq<char>, from_stderr: bool) -> Seq<char> {
    if from_stderr {
        stderr_line(line)
    } else {
        line
    }
}

/// `m` after the line `line`, stored as `stored`, entered the log of the
/// workload `id`.
pub open spec fn logged(
    m: ManagerView,
    id: Seq<char>,
    line: Seq<char>,
    stored: Seq<char>,
) -> ManagerView {
    let e = entry_of(m, id);
    let kept = with_entry(m, id, ProcessStateView { logs: appended(e.logs, stored), ..e });
    if is_error_line(line) {
        event_bumped(error_bumped(kept))
    } else {
        event_bumped(kept)
    }
}

/// `append_output`: a line read from a stream of the workload enters its log.
pub open spec fn append_output_model(
    m: ManagerView,
    id: Seq<char>,
    line: Seq<char>,
    from_stderr: bool,
) -> ManagerView {
    if has_entry(m.entries, id) {
        logged(m, id, line, stored_line(line, from_stderr))
    } else {
        m
    }
}

/// Whether the monitor of the workload `id` has a process to look at.
pub open spec fn is_monitored(m: ManagerView, id: Seq<char>) -> bool {
    has_entry(m.entries, id) && entry_of(m, id).child is Some
}

/// `monitor_exit`: what one look at the workload's process leads to.
pub open spec fn monitor_model(
    m: ManagerView,
    id: Seq<char>,
    outcome: WaitOutcomeView,
) -> ManagerView {
    if !is_monitored(m, id) {
        m
    } else {
        let e = entry_of(m, id);
        match outcome {
            WaitOutcomeView::StillRunning => m,
            WaitOutcomeView::Exited(result) => event_bumped(
                with_entry(
                    m,
                    id,
                    ProcessStateView {
                        status: StatusView::Stopped,
                        logs: appended(e.logs, exited_line(result)),
                        child: None,
                        job: false,
                        ..e
                    },
                ),
            ),
            WaitOutcomeView::Failed(reason) => event_bumped(
                error_bumped(
                    with_entry(
                        m,
                        id,
                        ProcessStateView {
                            status: StatusView::Error(reason),
                            child: None,
                            job: false,
                            ..e
                        },
                    ),
                ),
            ),
        }
    }
}

/// Whether the monitor goes on after `monitor_exit`.
pub open spec fn monitor_continues(
    m: ManagerView,
    id: Seq<char>,
    outcome: WaitOutcomeView,
) -> bool {
    is_monitored(m, id) && outcome is StillRunning
}

// ---------------------------------------------------------------------------
// Stop
// ---------------------------------------------------------------------------

/// A workload after a stop request.
pub open spec fn stop_requested(e: ProcessStateView) -> ProcessStateView {
    match e.config.process_type {
        ProcessType::Process => if e.child is Some {
            ProcessStateView { status: StatusView::Stopping, child: None, job: false, ..e }
        } else {
            ProcessStateView { status: StatusView::Stopped, job: false, ..e }
        },
        ProcessType::Docker => ProcessStateView { status: StatusView::Stopping, ..e },
    }
}

/// The termination that a stop request asks for.
pub open spec fn stop_order(e: ProcessStateView) -> StopActionView {
    match e.config.process_type {
        ProcessType::Process => match e.child {
            Some(pid) => StopActionView::Kill { id: e.config.id, pid, has_job: e.job },
            None => StopActionView::Nothing,
        },
        ProcessType::Docker => StopActionView::DockerStop {
            id: e.config.id,
            container: e.config.command,
        },
    }
}

/// `stop_process`.
pub open spec fn stop_model(m: ManagerView, id: Seq<char>) -> ManagerView {
    if has_entry(m.entries, id) {
        event_bumped(with_entry(m, id, stop_requested(entry_of(m, id))))
    } else {
        m
    }
}

/// What `stop_process` asks the caller to do.
pub open spec fn stop_action(m: ManagerView, id: Seq<char>) -> StopActionView {
    if has_entry(m.entries, id) {
        stop_order(entry_of(m, id))
    } else {
        StopActionView::Nothing
    }
}

/// A workload whose process was terminated; `error` is what the termination
/// reported, if anything.
pub open spec fn killed(e: ProcessStateView, error: Option<Seq<char>>) -> ProcessStateView {
    let logs = match error {
        Some(reason) => appended(e.logs, stop_error_line(reason)),
        None => e.logs,
    };
    ProcessStateView {
        status: StatusView::Stopped,
        logs: appended(logs, stopped_line()),
        child: None,
        ..e
    }
}

/// `kill_finished`: the termination is confirmed.
pub open spec fn kill_finished_model(
    m: ManagerView,
    id: Seq<char>,
    error: Option<Seq<char>>,
) -> ManagerView {
    let stopped = if has_entry(m.entries, id) {
        with_entry(m, id, killed(entry_of(m, id), error))
    } else {
        m
    };
    settle(event_bumped(stopped), id)
}

/// `remove_process`: the workload is stopped; it leaves the table at once if
/// that brings it to rest, and when its termination is confirmed if not.
pub open spec fn remove_model(m: ManagerView, id: Seq<char>) -> ManagerView {
    if has_entry(m.entries, id) {
        let stopped = stop_model(m, id);
        let e = entry_of(stopped, id);
        if e.status is Stopped {
            event_bumped(without_entry(stopped, id))
        } else {
            with_entry(stopped, id, ProcessStateView { pending_removal: true, ..e })
        }
    } else {
        m
    }
}

/// A workload of the command kind brought to rest at shutdown; containers
/// are left alone.
pub open spec fn quiesced(e: ProcessStateView) -> ProcessStateView {
    match e.config.process_type {
        ProcessType::Process => ProcessStateView {
            status: StatusView::Stopped,
            child: None,
            job: false,
            ..e
        },
        ProcessType::Docker => e,
    }
}

/// `stop_non_docker`.
pub open spec fn stop_local_model(m: ManagerView) -> ManagerView {
    event_bumped(
        ManagerView {
            entries: Seq::new(m.entries.len(), |i: int| quiesced(m.entries[i])),
            ..m
        },
    )
}

/// The process that `stop_non_docker` has the caller tear down for `e`.
pub open spec fn local_kill_order(e: ProcessStateView) -> Option<KillOrderView> {
    if e.config.process_type == ProcessType::Process && e.child is Some {
        Some(KillOrderView { id: e.config.id, pid: e.child->0, has_job: e.job })
    } else {
        None
    }
}

/// The processes that `stop_non_docker` has the caller tear down.
pub open spec fn local_kill_orders(m: ManagerView) -> Seq<KillOrderView> {
    m.entries.filter_map(|e: ProcessStateView| local_kill_order(e))
}

// ---------------------------------------------------------------------------
// Containers
// ---------------------------------------------------------------------------

/// A container workload after its start call ended with `outcome`.
pub open spec fn container_start_result(
    e: ProcessStateView,
    container: Seq<char>,
    outcome: ToolOutcomeView,
) -> ProcessStateView {
    match outcome {
        ToolOutcomeView::Succeeded => ProcessStateView {
            status: StatusView::Running,
            logs: appended(e.logs, container_started_line(container)),
            ..e
        },
        ToolOutcomeView::Rejected(reason) => failed(e, reason),
        ToolOutcomeView::Unavailable(reason) => ProcessStateView {
            status: StatusView::Error(reason),
            logs: appended(e.logs, runtime_missing_line(reason)),
            ..e
        },
    }
}

/// `docker_start_finished`. A start that the runtime rejected is counted as
/// an error only while the workload is still there; a runtime that could not
/// be run is counted either way.
pub open spec fn docker_start_model(
    m: ManagerView,
    id: Seq<char>,
    container: Seq<char>,
    outcome: ToolOutcomeView,
) -> ManagerView {
    let present = has_entry(m.entries, id);
    let marked = if present {
        with_entry(m, id, container_start_result(entry_of(m, id), container, outcome))
    } else {
        m
    };
    let alarming = match outcome {
        ToolOutcomeView::Succeeded => false,
        ToolOutcomeView::Rejected(_) => present,
        ToolOutcomeView::Unavailable(_) => true,
    };
    if alarming {
        event_bumped(error_bumped(marked))
    } else {
        event_bumped(marked)
    }
}

/// Whether the log follower of the container workload `id` goes on.
pub open spec fn is_followed(m: ManagerView, id: Seq<char>) -> bool {
    has_entry(m.entries, id) && entry_of(m, id).status is Running
}

/// `append_docker_log`: a line of the container's log enters the workload's
/// log while the workload runs.
pub open spec fn docker_log_model(m: ManagerView, id: Seq<char>, line: Seq<char>) -> ManagerView {
    if is_followed(m, id) {
        logged(m, id, line, line)
    } else {
        m
    }
}

/// A container workload after its stop call ended with `outcome`: stopped,
/// whatever the call reported.
pub open spec fn container_stop_result(
    e: ProcessStateView,
    container: Seq<char>,
    outcome: ToolOutcomeView,
) -> ProcessStateView {
    let line = match outcome {
        ToolOutcomeView::Succeeded => container_stopped_line(container),
        ToolOutcomeView::Rejected(reason) => stop_error_line(reason),
        ToolOutcomeView::Unavailable(reason) => stop_error_line(reason),
    };
    ProcessStateView { status: StatusView::Stopped, logs: appended(e.logs, line), ..e }
}

/// `docker_stop_finished`.
pub open spec fn docker_stop_model(
    m: ManagerView,
    id: Seq<char>,
    container: Seq<char>,
    outcome: ToolOutcomeView,
) -> ManagerView {
    let stopped = if has_entry(m.entries, id) {
        with_entry(m, id, container_stop_result(entry_of(m, id), container, outcome))
    } else {
        m
    };
    settle(event_bumped(stopped), id)
}

/// The status that an inspection of a container gives.
pub open spec fn polled_status(running: bool) -> StatusView {
    if running {
        StatusView::Running
    } else {
        StatusView::Stopped
    }
}

/// Whether `refresh_docker_status` changes anything: the workload is a
/// container whose status differs from what the inspection found.
pub open spec fn poll_changes(m: ManagerView, id: Seq<char>, running: bool) -> bool {
    &&& has_entry(m.entries, id)
    &&& entry_of(m, id).config.process_type == ProcessType::Docker
    &&& entry_of(m, id).status != polled_status(running)
}

/// `refresh_docker_status`.
pub open spec fn docker_poll_model(m: ManagerView, id: Seq<char>, running: bool) -> ManagerView {
    if poll_changes(m, id, running) {
        event_bumped(
            with_entry(
                m,
                id,
                ProcessStateView { status: polled_status(running), ..entry_of(m, id) },
            ),
        )
    } else {
        m
    }
}

/// The container that `refresh_docker_status` has to inspect for `id`.
pub open spec fn poll_target(m: ManagerView, id: Seq<char>) -> Option<Seq<char>> {
    if has_entry(m.entries, id) && entry_of(m, id).config.process_type == ProcessType::Docker {
        Some(entry_of(m, id).config.command)
    } else {
        None
    }
}

/// The identifiers of the container workloads, in table order.
pub open spec fn docker_ids_of(m: ManagerView) -> Seq<Seq<char>> {
    m.entries.filter_map(
        |e: ProcessStateView|
            if e.config.process_type == ProcessType::Docker {
                Some(e.config.id)
            } else {
                None
            },
    )
}

// ---------------------------------------------------------------------------
// Every workload at once
// ---------------------------------------------------------------------------

/// The identifiers in the table, in table order.
pub open spec fn ids_of(m: ManagerView) -> Seq<Seq<char>> {
    Seq::new(m.entries.len(), |i: int| m.entries[i].config.id)
}

/// `m` after a start request for each of `ids` in turn.
pub open spec fn start_each(m: ManagerView, ids: Seq<Seq<char>>) -> ManagerView
    decreases ids.len(),
{
    if ids.len() == 0 {
        m
    } else {
        start_model(start_each(m, ids.drop_last()), ids.last())
    }
}

/// What the start requests for `ids` ask the caller to do, in order, those
/// that ask for nothing left out.
pub open spec fn start_each_actions(m: ManagerView, ids: Seq<Seq<char>>) -> Seq<StartActionView>
    decreases ids.len(),
{
    if ids.len() == 0 {
        Seq::empty()
    } else {
        let before = start_each_actions(m, ids.drop_last());
        let action = start_action(start_each(m, ids.drop_last()), ids.last());
        if action is Nothing {
            before
        } else {
            before.push(action)
        }
    }
}

/// `m` after a stop request for each of `ids` in turn.
pub open spec fn stop_each(m: ManagerView, ids: Seq<Seq<char>>) -> ManagerView
    decreases ids.len(),
{
    if ids.len() == 0 {
        m
    } else {
        stop_model(stop_each(m, ids.drop_last()), ids.last())
    }
}

/// What the stop requests for `ids` ask the caller to do, in order, those
/// that ask for nothing left out.
pub open spec fn stop_each_actions(m: ManagerView, ids: Seq<Seq<char>>) -> Seq<StopActionView>
    decreases ids.len(),
{
    if ids.len() == 0 {
        Seq::empty()
    } else {
        let before = stop_each_actions(m, ids.drop_last());
        let action = stop_action(stop_each(m, ids.drop_last()), ids.last());
        if action is Nothing {
            before
        } else {
            before.push(action)
        }
    }
}

// ---------------------------------------------------------------------------
// Queries
// ---------------------------------------------------------------------------

/// The status of the workload `id`, if the table holds it.
pub open spec fn status_of(m: ManagerView, id: Seq<char>) -> Option<StatusView> {
    if has_entry(m.entries, id) {
        Some(entry_of(m, id).status)
    } else {
        None
    }
}

/// The log of the workload `id`; empty if the table does not hold it.
pub open spec fn logs_of(m: ManagerView, id: Seq<char>) -> Seq<Seq<char>> {
    if has_entry(m.entries, id) {
        entry_of(m, id).logs
    } else {
        Seq::empty()
    }
}

/// The first place that holds an identifier is the place that `index_of`
/// names.
pub proof fn lemma_index_of(entries: Seq<ProcessStateView>, id: Seq<char>, i: int)
    requires
        is_first_entry(entries, id, i),
    ensures
        has_entry(entries, id),
        index_of(entries, id) == i,
{
    let j = index_of(entries, id);
    assert(is_first_entry(entries, id, j));
    if i < j {
        assert(entries[i].config.id != id);
    }
    if j < i {
        assert(entries[j].config.id != id);
    }
}

/// Entering configurations only adds at the end of the table.
pub proof fn lemma_init_extends(entries: Seq<ProcessStateView>, configs: Seq<ProcessConfigView>)
    ensures
        init_entries(entries, configs).len() >= entries.len(),
        init_entries(entries, configs).take(entries.len() as int) == entries,
    decreases configs.len(),
{
    if configs.len() == 0 {
        assert(entries.take(entries.len() as int) =~= entries);
    } else {
        lemma_init_extends(entries, configs.drop_last());
        let before = init_entries(entries, configs.drop_last());
        let after = init_entries(entries, configs);
        assert(after.take(entries.len() as int) =~= before.take(entries.len() as int));
    }
}

/// Replacing the state at the place of an identifier by one with the same
/// identifier keeps the place.
pub proof fn lemma_update_keeps_place(
    entries: Seq<ProcessStateView>,
    id: Seq<char>,
    i: int,
    e: ProcessStateView,
)
    requires
        is_first_entry(entries, id, i),
        e.config.id == id,
    ensures
        is_first_entry(entries.update(i, e), id, i),
        has_entry(entries.update(i, e), id),
        index_of(entries.update(i, e), id) == i,
{
    let updated = entries.update(i, e);
    assert forall|j: int| 0 <= j < i implies (#[trigger] updated[j]).config.id != id by {
        assert(updated[j] == entries[j]);
    }
    lemma_index_of(updated, id, i);
}

} // verus!
