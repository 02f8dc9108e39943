//! The supervision engine: the table of workloads, the two counters and the
//! operations on them.
//!
//! Every operation runs to its end without waiting for anything. What takes
//! time, spawning, killing, reading output, calling the container runtime,
//! is done by the caller, which reports back through the operations named
//! after what happened.

use vstd::prelude::*;
use vstd::string::*;

use crate::config::{ProcessConfig, ProcessConfigView, ProcessType};
use crate::events::{text_view, KillOrder, StartAction, StopAction, ToolOutcome, WaitOutcome};
use crate::model::{
    add_model, append_output_model, begin_launch_model, begin_launch_plan, bump,
    container_start_result, container_stop_result, docker_ids_of, docker_log_model,
    docker_poll_model, docker_start_model, docker_stop_model, error_bumped, event_bumped, failed,
    has_entry, ids_of, index_of, init_entries, init_model, initial, is_first_entry, is_followed,
    kill_finished_model, killed, launch_failed_model, launch_succeeded_model, lemma_index_of,
    lemma_init_extends, lemma_update_keeps_place, local_kill_order, local_kill_orders, logs_of,
    monitor_continues, monitor_model, poll_changes, poll_target, quiesced, remove_model, settle,
    start_action, start_each, start_each_actions, start_model, status_of, stop_action, stop_each,
    stop_each_actions, stop_local_model, stop_model, stop_order, stop_requested, well_formed,
    KillOrderView,
    ManagerView, StartActionView, StopActionView,
};
use crate::notify::{attach, first_shown, held, open_channel, publish};
use crate::severity::line_has_error;
use crate::state::{
    appended, exited_line, framed, lines_view, make_started_line, started_line, ProcessState,
    ProcessStateView, ProcessStatus, StatusView,
};
use crate::text::str_eq;
use crate::tokenizer::{parse_command, views};

verus! {

/// The supervision engine.
pub struct ProcessManager {
    processes: Vec<ProcessState>,
    event_tx: tokio::sync::watch::Sender<u64>,
    event_version: u64,
    error_version: u64,
    background_started: bool,
}

/// The states in a table as plain values.
pub open spec fn entries_view(table: Seq<ProcessState>) -> Seq<ProcessStateView> {
    Seq::new(table.len(), |i: int| table[i]@)
}

impl View for ProcessManager {
    type V = ManagerView;

    closed spec fn view(&self) -> ManagerView {
        ManagerView {
            entries: entries_view(self.processes@),
            event_version: self.event_version,
            error_version: self.error_version,
            background_started: self.background_started,
            published: held(self.event_tx),
        }
    }
}

/// The counter value that follows `v`.
fn next_version(v: u64) -> (r: u64)
    ensures
        r == bump(v),
{
    if v == u64::MAX {
        0
    } else {
        v + 1
    }
}

impl Default for ProcessManager {
    fn default() -> (r: Self)
        ensures
            r@ == initial(),
    {
        ProcessManager::new()
    }
}

impl ProcessManager {
    /// An engine with an empty table and both counters at zero.
    pub fn new() -> (r: Self)
        ensures
            r@ == initial(),
    {
        let r = ProcessManager {
            processes: Vec::new(),
            event_tx: open_channel(0),
            event_version: 0,
            error_version: 0,
            background_started: false,
        };
        assert(r@.entries =~= Seq::<ProcessStateView>::empty());
        r
    }

    /// A handle on the change-notification channel. The handle shows what
    /// the channel holds at this moment, which in every state that the
    /// engine can reach is the event counter's latest value; from then on it
    /// is woken each time the counter advances.
    pub fn subscribe(&self) -> (receiver: tokio::sync::watch::Receiver<u64>)
        ensures
            first_shown(receiver) == self@.published,
            well_formed(self@) ==> first_shown(receiver) == seq![self@.event_version],
    {
        attach(&self.event_tx)
    }

    /// How many changes were committed so far.
    pub fn event_version(&self) -> (v: u64)
        ensures
            v == self@.event_version,
    {
        self.event_version
    }

    /// How many alarming events were counted so far.
    pub fn error_version(&self) -> (v: u64)
        ensures
            v == self@.error_version,
    {
        self.error_version
    }

    /// Counts one committed change and publishes the new count.
    fn notify(&mut self)
        ensures
            final(self)@ == event_bumped(old(self)@),
            final(self).processes == old(self).processes,
    {
        let next = next_version(self.event_version);
        self.event_version = next;
        publish(&mut self.event_tx, next);
    }

    /// Counts one alarming event.
    fn bump_error(&mut self)
        ensures
            final(self)@ == error_bumped(old(self)@),
            final(self).processes == old(self).processes,
    {
        self.error_version = next_version(self.error_version);
    }

    /// The place of the identifier `id` in the table.
    fn find(&self, id: &str) -> (r: Option<usize>)
        ensures
            match r {
                Some(i) => i < self.processes@.len() && has_entry(self@.entries, id@) && index_of(
                    self@.entries,
                    id@,
                ) == i,
                None => !has_entry(self@.entries, id@),
            },
    {
        let mut i: usize = 0;
        while i < self.processes.len()
            invariant
                i <= self.processes.len(),
                forall|j: int| 0 <= j < i ==> (#[trigger] self@.entries[j]).config.id != id@,
            decreases self.processes.len() - i,
        {
            if str_eq(self.processes[i].config.id.as_str(), id) {
                proof {
                    assert(self@.entries[i as int].config.id == id@);
                    lemma_index_of(self@.entries, id@, i as int);
                }
                return Some(i);
            }
            assert(self@.entries[i as int].config.id != id@);
            i += 1;
        }
        None
    }

    /// Marks the periodic container poll as asked for, and says whether this
    /// call was the first to ask.
    pub fn start_background_tasks(&mut self) -> (first: bool)
        ensures
            first == !old(self)@.background_started,
            final(self)@ == (ManagerView { background_started: true, ..old(self)@ }),
    {
        let first = !self.background_started;
        self.background_started = true;
        first
    }

    /// Enters a workload under the identifier of `config`, stopped and with
    /// an empty log. An entry that had the identifier is replaced.
    pub fn add_process(&mut self, config: ProcessConfig)
        ensures
            final(self)@ == add_model(old(self)@, config@),
    {
        let ghost before = self@;
        match self.find(config.id.as_str()) {
            Some(i) => {
                let state = ProcessState::new(config);
                self.processes.set(i, state);
                assert(self@.entries =~= before.entries.update(i as int, state@));
            },
            None => {
                let state = ProcessState::new(config);
                self.processes.push(state);
                assert(self@.entries =~= before.entries.push(state@));
            },
        }
        self.notify();
    }

    /// Asks for the workload `id` to be started. A workload at rest goes to
    /// `Starting` with an empty log, and the launch to perform is returned.
    /// A workload that runs, or whose launch or termination is under way, is
    /// left alone, as is an unknown identifier.
    pub fn start_process(&mut self, id: &str) -> (action: StartAction)
        ensures
            final(self)@ == start_model(old(self)@, id@),
            action@ == start_action(old(self)@, id@),
    {
        let ghost before = self@;
        match self.find(id) {
            None => StartAction::Nothing,
            Some(i) => {
                if !self.processes[i].status.is_at_rest() {
                    return StartAction::Nothing;
                }
                self.processes[i].status = ProcessStatus::Starting;
                self.processes[i].clear_logs();
                assert(self@.entries =~= before.entries.update(
                    i as int,
                    ProcessStateView {
                        status: crate::state::StatusView::Starting,
                        logs: Seq::empty(),
                        ..before.entries[i as int]
                    },
                ));
                self.notify();
                let config = self.config_at(i);
                match config.process_type {
                    ProcessType::Process => StartAction::Launch {
                        id: config.id.clone(),
                        command: config.command.clone(),
                        working_directory: config.working_directory.clone(),
                    },
                    ProcessType::Docker => StartAction::DockerStart {
                        id: config.id.clone(),
                        container: config.command.clone(),
                    },
                }
            },
        }
    }
}

impl ProcessManager {
    /// Puts `status` on the workload at place `i`.
    fn set_status_at(&mut self, i: usize, status: ProcessStatus)
        requires
            i < old(self).processes@.len(),
        ensures
            final(self)@ == (ManagerView {
                entries: old(self)@.entries.update(
                    i as int,
                    ProcessStateView { status: status@, ..old(self)@.entries[i as int] },
                ),
                ..old(self)@
            }),
            final(self).processes@.len() == old(self).processes@.len(),
    {
        let ghost before = self@;
        self.processes[i].status = status;
        assert(self@.entries =~= before.entries.update(
            i as int,
            ProcessStateView { status: status@, ..before.entries[i as int] },
        ));
    }

    /// Adds `line` to the log of the workload at place `i`.
    fn push_log_at(&mut self, i: usize, line: String)
        requires
            i < old(self).processes@.len(),
        ensures
            final(self)@ == (ManagerView {
                entries: old(self)@.entries.update(
                    i as int,
                    ProcessStateView {
                        logs: appended(old(self)@.entries[i as int].logs, line@),
                        ..old(self)@.entries[i as int]
                    },
                ),
                ..old(self)@
            }),
            final(self).processes@.len() == old(self).processes@.len(),
    {
        let ghost before = self@;
        self.processes[i].push_log(line);
        assert(self@.entries =~= before.entries.update(
            i as int,
            ProcessStateView {
                logs: appended(before.entries[i as int].logs, line@),
                ..before.entries[i as int]
            },
        ));
    }

    /// Puts the process handle `child`, inside a boundary if `job`, on the
    /// workload at place `i`.
    fn set_handles_at(&mut self, i: usize, child: Option<u32>, job: bool)
        requires
            i < old(self).processes@.len(),
        ensures
            final(self)@ == (ManagerView {
                entries: old(self)@.entries.update(
                    i as int,
                    ProcessStateView { child, job, ..old(self)@.entries[i as int] },
                ),
                ..old(self)@
            }),
            final(self).processes@.len() == old(self).processes@.len(),
    {
        let ghost before = self@;
        self.processes[i].child = child;
        self.processes[i].job = job;
        assert(self@.entries =~= before.entries.update(
            i as int,
            ProcessStateView { child, job, ..before.entries[i as int] },
        ));
    }

    /// Takes the process handle, and the boundary with it, from the workload
    /// at place `i`.
    fn clear_handles_at(&mut self, i: usize)
        requires
            i < old(self).processes@.len(),
        ensures
            final(self)@ == (ManagerView {
                entries: old(self)@.entries.update(
                    i as int,
                    ProcessStateView { child: None, job: false, ..old(self)@.entries[i as int] },
                ),
                ..old(self)@
            }),
            final(self).processes@.len() == old(self).processes@.len(),
    {
        self.set_handles_at(i, None, false);
    }

    /// The configuration of the workload at place `i`.
    fn config_at(&self, i: usize) -> (config: &ProcessConfig)
        requires
            i < self.processes@.len(),
        ensures
            config@ == self@.entries[i as int].config,
    {
        &self.processes[i].config
    }

    /// Lets the stopped workload `id` leave the table if it was marked to
    /// leave.
    fn settle_removal(&mut self, id: &str)
        ensures
            final(self)@ == settle(old(self)@, id@),
    {
        let ghost before = self@;
        match self.find(id) {
            Some(i) => {
                if self.processes[i].pending_removal {
                    self.processes.remove(i);
                    assert(self@.entries =~= before.entries.remove(i as int));
                    self.notify();
                }
            },
            None => {},
        }
    }

    /// Records that the launch of the workload `id` failed with `reason`:
    /// the workload, if the table still holds it, goes to `Error` and its log
    /// says why. The failure is counted as a change and as an error either
    /// way.
    pub fn launch_failed(&mut self, id: &str, reason: String)
        ensures
            final(self)@ == launch_failed_model(old(self)@, id@, reason@),
    {
        let ghost before = self@;
        match self.find(id) {
            Some(i) => {
                let line = framed("[Failed to start: ", reason.as_str(), "]");
                self.set_status_at(i, ProcessStatus::Error(reason));
                self.push_log_at(i, line);
                assert(self@.entries =~= before.entries.update(
                    i as int,
                    failed(before.entries[i as int], reason@),
                ));
            },
            None => {},
        }
        self.bump_error();
        self.notify();
    }

    /// Splits the command line of the workload `id` into the program and its
    /// arguments for the launcher. A line that cannot be split fails the
    /// launch, with the tokenizer's message as the reason, and gives `None`.
    pub fn begin_launch(&mut self, id: &str, command: &str) -> (plan: Option<(String, Vec<String>)>)
        ensures
            final(self)@ == begin_launch_model(old(self)@, id@, command@),
            match begin_launch_plan(command@) {
                Some(p) => plan is Some && (plan->Some_0).0@ == p.0 && views(
                    (plan->Some_0).1@,
                ) == p.1,
                None => plan is None,
            },
    {
        match parse_command(command) {
            Ok(plan) => Some(plan),
            Err(message) => {
                self.launch_failed(id, message);
                None
            },
        }
    }

    /// Records that the workload `id` was launched as the process `pid`,
    /// inside a termination boundary if `has_job`: the workload runs, holds
    /// the process, and its log names it. Says whether the table still holds
    /// the workload; if not, nothing keeps the process. One change is counted
    /// either way.
    pub fn launch_succeeded(&mut self, id: &str, pid: u32, has_job: bool) -> (adopted: bool)
        ensures
            final(self)@ == launch_succeeded_model(old(self)@, id@, pid, has_job),
            adopted == has_entry(old(self)@.entries, id@),
    {
        let ghost before = self@;
        let adopted = match self.find(id) {
            Some(i) => {
                self.set_status_at(i, ProcessStatus::Running);
                self.push_log_at(i, make_started_line(pid));
                self.set_handles_at(i, Some(pid), has_job);
                assert(self@.entries =~= before.entries.update(
                    i as int,
                    ProcessStateView {
                        status: StatusView::Running,
                        logs: appended(before.entries[i as int].logs, started_line(pid)),
                        child: Some(pid),
                        job: has_job,
                        ..before.entries[i as int]
                    },
                ));
                true
            },
            None => false,
        };
        self.notify();
        adopted
    }

    /// Takes a line read from the standard output of the workload `id`, or
    /// from its error stream if `from_stderr`, into the workload's log; a
    /// line of the error stream is stored behind the tag `[stderr] `. The
    /// line counts as a change, and as an error if its text is alarming.
    /// Nothing happens if the table does not hold the workload.
    pub fn append_output(&mut self, id: &str, line: String, from_stderr: bool)
        ensures
            final(self)@ == append_output_model(old(self)@, id@, line@, from_stderr),
    {
        match self.find(id) {
            Some(i) => {
                let alarming = line_has_error(line.as_str());
                let stored = if from_stderr {
                    String::from_str("[stderr] ").concat(line.as_str())
                } else {
                    line
                };
                self.push_log_at(i, stored);
                if alarming {
                    self.bump_error();
                }
                self.notify();
            },
            None => {},
        }
    }

    /// Takes what one look at the process of the workload `id` found. A
    /// process that ended leaves the workload `Stopped`, with the result in
    /// its log; a look that failed leaves it in `Error` and counts as one.
    /// Either way the handles are released and the monitor is done. The
    /// monitor is also done, with nothing changed, if the table does not hold
    /// the workload or the workload holds no process. Returns whether the
    /// monitor goes on.
    pub fn monitor_exit(&mut self, id: &str, outcome: WaitOutcome) -> (goes_on: bool)
        ensures
            final(self)@ == monitor_model(old(self)@, id@, outcome@),
            goes_on == monitor_continues(old(self)@, id@, outcome@),
    {
        let ghost before = self@;
        match self.find(id) {
            Some(i) => {
                if self.processes[i].child.is_none() {
                    return false;
                }
                match outcome {
                    WaitOutcome::StillRunning => true,
                    WaitOutcome::Exited(result) => {
                        let line = framed("[Process exited with: ", result.as_str(), "]");
                        self.push_log_at(i, line);
                        self.set_status_at(i, ProcessStatus::Stopped);
                        self.clear_handles_at(i);
                        assert(self@.entries =~= before.entries.update(
                            i as int,
                            ProcessStateView {
                                status: StatusView::Stopped,
                                logs: appended(before.entries[i as int].logs, exited_line(result@)),
                                child: None,
                                job: false,
                                ..before.entries[i as int]
                            },
                        ));
                        self.notify();
                        false
                    },
                    WaitOutcome::Failed(reason) => {
                        self.set_status_at(i, ProcessStatus::Error(reason));
                        self.clear_handles_at(i);
                        assert(self@.entries =~= before.entries.update(
                            i as int,
                            ProcessStateView {
                                status: StatusView::Error(reason@),
                                child: None,
                                job: false,
                                ..before.entries[i as int]
                            },
                        ));
                        self.bump_error();
                        self.notify();
                        false
                    },
                }
            },
            None => false,
        }
    }

    /// Carries out a stop request on the workload at place `i`.
    fn stop_at(&mut self, i: usize) -> (action: StopAction)
        requires
            i < old(self).processes@.len(),
        ensures
            final(self)@ == event_bumped(
                ManagerView {
                    entries: old(self)@.entries.update(
                        i as int,
                        stop_requested(old(self)@.entries[i as int]),
                    ),
                    ..old(self)@
                },
            ),
            action@ == stop_order(old(self)@.entries[i as int]),
            final(self).processes@.len() == old(self).processes@.len(),
    {
        let ghost before = self@;
        let kind = self.config_at(i).process_type;
        let id = self.config_at(i).id.clone();
        let command = self.config_at(i).command.clone();
        let child = self.processes[i].child;
        let has_job = self.processes[i].job;
        assert(before.entries[i as int] == self.processes@[i as int]@);
        let action = match kind {
            ProcessType::Process => {
                match child {
                    Some(pid) => {
                        self.set_status_at(i, ProcessStatus::Stopping);
                        self.clear_handles_at(i);
                        StopAction::Kill { id, pid, has_job }
                    },
                    None => {
                        self.set_status_at(i, ProcessStatus::Stopped);
                        self.clear_handles_at(i);
                        StopAction::Nothing
                    },
                }
            },
            ProcessType::Docker => {
                self.set_status_at(i, ProcessStatus::Stopping);
                StopAction::DockerStop { id, container: command }
            },
        };
        assert(self@.entries =~= before.entries.update(
            i as int,
            stop_requested(before.entries[i as int]),
        ));
        self.notify();
        action
    }

    /// Asks for the workload `id` to be stopped. A command whose process is
    /// alive goes to `Stopping`, gives up the process and its boundary, and
    /// the termination to perform is returned; a command without a live
    /// process goes straight to `Stopped` and nothing is to be done. A
    /// container goes to `Stopping` and the runtime is to be asked. Nothing
    /// happens on an unknown identifier.
    pub fn stop_process(&mut self, id: &str) -> (action: StopAction)
        ensures
            final(self)@ == stop_model(old(self)@, id@),
            action@ == stop_action(old(self)@, id@),
    {
        match self.find(id) {
            Some(i) => self.stop_at(i),
            None => StopAction::Nothing,
        }
    }

    /// Records that the termination asked for by a stop request on the
    /// workload `id` is over; `error` is what the termination reported, if it
    /// reported anything. The workload, if the table still holds it, is
    /// `Stopped`, and its log says so. One change is counted either way. A
    /// workload that was marked to leave the table leaves it now, which
    /// counts as one more change.
    pub fn kill_finished(&mut self, id: &str, error: Option<String>)
        ensures
            final(self)@ == kill_finished_model(old(self)@, id@, text_view(error)),
    {
        let ghost before = self@;
        let ghost error_view = text_view(error);
        match self.find(id) {
            Some(i) => {
                let job = self.processes[i].job;
                assert(before.entries[i as int] == self.processes@[i as int]@);
                self.set_handles_at(i, None, job);
                match error {
                    Some(reason) => {
                        let line = framed("[Stop error: ", reason.as_str(), "]");
                        self.push_log_at(i, line);
                    },
                    None => {},
                }
                self.push_log_at(i, String::from_str("[Process stopped]"));
                self.set_status_at(i, ProcessStatus::Stopped);
                assert(self@.entries =~= before.entries.update(
                    i as int,
                    killed(before.entries[i as int], error_view),
                ));
            },
            None => {},
        }
        self.notify();
        self.settle_removal(id);
    }

    /// Stops the workload `id` and takes it out of the table. A workload
    /// that the stop request brings to rest leaves at once; one whose
    /// termination is under way stays, in `Stopping`, until the termination
    /// is reported, and leaves then. Returns the termination to perform.
    /// Nothing happens on an unknown identifier.
    pub fn remove_process(&mut self, id: &str) -> (action: StopAction)
        ensures
            final(self)@ == remove_model(old(self)@, id@),
            action@ == stop_action(old(self)@, id@),
    {
        let ghost before = self@;
        match self.find(id) {
            Some(i) => {
                let action = self.stop_at(i);
                let ghost stopped = self@;
                proof {
                    lemma_update_keeps_place(
                        before.entries,
                        id@,
                        i as int,
                        stop_requested(before.entries[i as int]),
                    );
                }
                let at_rest = match &self.processes[i].status {
                    ProcessStatus::Stopped => true,
                    _ => false,
                };
                if at_rest {
                    self.processes.remove(i);
                    assert(self@.entries =~= stopped.entries.remove(i as int));
                    self.notify();
                } else {
                    self.processes[i].pending_removal = true;
                    assert(self@.entries =~= stopped.entries.update(
                        i as int,
                        ProcessStateView { pending_removal: true, ..stopped.entries[i as int] },
                    ));
                }
                action
            },
            None => StopAction::Nothing,
        }
    }
}

/// The configurations in a list as plain values.
pub open spec fn configs_view(configs: Seq<ProcessConfig>) -> Seq<ProcessConfigView> {
    Seq::new(configs.len(), |i: int| configs[i]@)
}

/// The start requests in a list as plain values.
pub open spec fn start_actions_view(actions: Seq<StartAction>) -> Seq<StartActionView> {
    Seq::new(actions.len(), |i: int| actions[i]@)
}

/// The stop requests in a list as plain values.
pub open spec fn stop_actions_view(actions: Seq<StopAction>) -> Seq<StopActionView> {
    Seq::new(actions.len(), |i: int| actions[i]@)
}

/// The kill orders in a list as plain values.
pub open spec fn kill_orders_view(orders: Seq<KillOrder>) -> Seq<KillOrderView> {
    Seq::new(orders.len(), |i: int| orders[i]@)
}

impl ProcessManager {
    /// How many workloads the table holds.
    pub fn len(&self) -> (n: usize)
        ensures
            n == self@.entries.len(),
    {
        self.processes.len()
    }

    /// The status of the workload `id`, if the table holds it.
    pub fn get_status(&self, id: &str) -> (status: Option<ProcessStatus>)
        ensures
            match status_of(self@, id@) {
                Some(s) => status is Some && status->0@ == s,
                None => status is None,
            },
    {
        match self.find(id) {
            Some(i) => Some(self.processes[i].status.clone()),
            None => None,
        }
    }

    /// The log of the workload `id`, oldest line first; empty if the table
    /// does not hold the workload.
    pub fn get_logs(&self, id: &str) -> (logs: Vec<String>)
        ensures
            lines_view(logs@) == logs_of(self@, id@),
    {
        let mut logs: Vec<String> = Vec::new();
        match self.find(id) {
            Some(i) => {
                let source = &self.processes[i].logs;
                let mut k: usize = 0;
                while k < source.len()
                    invariant
                        k <= source.len(),
                        logs@ == source@.take(k as int),
                    decreases source.len() - k,
                {
                    logs.push(source[k].clone());
                    k += 1;
                }
                assert(source@.take(source@.len() as int) =~= source@);
            },
            None => {
                assert(lines_view(logs@) =~= Seq::<Seq<char>>::empty());
            },
        }
        logs
    }

    /// The configuration of the workload `id`, if the table holds it.
    pub fn get_config(&self, id: &str) -> (config: Option<&ProcessConfig>)
        ensures
            match config {
                Some(c) => has_entry(self@.entries, id@) && c@ == crate::model::entry_of(
                    self@,
                    id@,
                ).config,
                None => !has_entry(self@.entries, id@),
            },
    {
        match self.find(id) {
            Some(i) => Some(self.config_at(i)),
            None => None,
        }
    }

    /// The identifiers in the table, in table order.
    pub fn ids(&self) -> (ids: Vec<String>)
        ensures
            views(ids@) == ids_of(self@),
    {
        let mut ids: Vec<String> = Vec::new();
        let mut k: usize = 0;
        while k < self.processes.len()
            invariant
                k <= self.processes.len(),
                views(ids@) == ids_of(self@).take(k as int),
            decreases self.processes.len() - k,
        {
            let ghost before = ids@;
            ids.push(self.config_at(k).id.clone());
            assert(views(ids@) =~= views(before).push(self@.entries[k as int].config.id));
            assert(ids_of(self@).take(k + 1) =~= ids_of(self@).take(k as int).push(
                ids_of(self@)[k as int],
            ));
            k += 1;
        }
        assert(ids_of(self@).take(self.processes@.len() as int) =~= ids_of(self@));
        ids
    }

    /// The identifiers of the container workloads, in table order: those
    /// whose status the periodic poll has to refresh.
    pub fn docker_ids(&self) -> (ids: Vec<String>)
        ensures
            views(ids@) == docker_ids_of(self@),
    {
        let ghost pick = |e: ProcessStateView|
            if e.config.process_type == ProcessType::Docker {
                Some(e.config.id)
            } else {
                None::<Seq<char>>
            };
        let mut ids: Vec<String> = Vec::new();
        let mut k: usize = 0;
        assert(views(ids@) =~= self@.entries.take(0).filter_map(pick));
        while k < self.processes.len()
            invariant
                k <= self.processes.len(),
                pick == |e: ProcessStateView|
                    if e.config.process_type == ProcessType::Docker {
                        Some(e.config.id)
                    } else {
                        None::<Seq<char>>
                    },
                views(ids@) == self@.entries.take(k as int).filter_map(pick),
            decreases self.processes.len() - k,
        {
            let ghost before = ids@;
            let ghost next = self@.entries.take(k + 1);
            assert(next.drop_last() =~= self@.entries.take(k as int));
            assert(next.last() == self@.entries[k as int]);
            let config = self.config_at(k);
            match config.process_type {
                ProcessType::Docker => {
                    ids.push(config.id.clone());
                    assert(views(ids@) =~= views(before) + seq![config.id@]);
                },
                ProcessType::Process => {},
            }
            k += 1;
        }
        assert(self@.entries.take(self.processes@.len() as int) =~= self@.entries);
        ids
    }

    /// Makes sure that the table holds a workload for each of `configs`. A
    /// configuration whose identifier the table already holds changes
    /// nothing, so the call can be repeated; the others are entered in order,
    /// stopped and with empty logs. One change is counted if any workload was
    /// entered.
    pub fn init_from_config(&mut self, configs: &[ProcessConfig])
        ensures
            final(self)@ == init_model(old(self)@, configs_view(configs@)),
    {
        let ghost before = self@;
        let ghost all = configs_view(configs@);
        let initial_len = self.processes.len();
        let mut k: usize = 0;
        assert(all.take(0) =~= Seq::<ProcessConfigView>::empty());
        while k < configs.len()
            invariant
                k <= configs.len(),
                all == configs_view(configs@),
                self@ == (ManagerView {
                    entries: init_entries(before.entries, all.take(k as int)),
                    ..before
                }),
                self.processes@.len() >= initial_len,
                initial_len == before.entries.len(),
            decreases configs.len() - k,
        {
            let ghost so_far = self@;
            let ghost next = all.take(k + 1);
            assert(next.drop_last() =~= all.take(k as int));
            assert(next.last() == configs@[k as int]@);
            match self.find(configs[k].id.as_str()) {
                Some(_) => {},
                None => {
                    let state = ProcessState::new(configs[k].clone());
                    self.processes.push(state);
                    assert(self@.entries =~= so_far.entries.push(state@));
                },
            }
            k += 1;
        }
        assert(all.take(configs@.len() as int) =~= all);
        proof {
            lemma_init_extends(before.entries, all);
            let entered = init_entries(before.entries, all);
            if entered.len() == before.entries.len() {
                assert(entered.take(entered.len() as int) =~= entered);
            }
        }
        if self.processes.len() != initial_len {
            self.notify();
        }
    }

    /// Asks for every workload to be started, in table order, and returns
    /// the launches to perform.
    pub fn start_all(&mut self) -> (actions: Vec<StartAction>)
        ensures
            final(self)@ == start_each(old(self)@, ids_of(old(self)@)),
            start_actions_view(actions@) == start_each_actions(old(self)@, ids_of(old(self)@)),
    {
        let ghost before = self@;
        let ids = self.ids();
        let ghost all = ids_of(before);
        let mut actions: Vec<StartAction> = Vec::new();
        let mut k: usize = 0;
        assert(start_actions_view(actions@) =~= Seq::<StartActionView>::empty());
        assert(all.take(0) =~= Seq::<Seq<char>>::empty());
        while k < ids.len()
            invariant
                k <= ids.len(),
                views(ids@) == all,
                self@ == start_each(before, all.take(k as int)),
                start_actions_view(actions@) == start_each_actions(before, all.take(k as int)),
            decreases ids.len() - k,
        {
            let ghost next = all.take(k + 1);
            assert(next.drop_last() =~= all.take(k as int));
            assert(next.last() == ids@[k as int]@);
            let ghost done = actions@;
            let action = self.start_process(ids[k].as_str());
            match action {
                StartAction::Nothing => {},
                _ => {
                    actions.push(action);
                    assert(start_actions_view(actions@) =~= start_actions_view(done).push(action@));
                },
            }
            k += 1;
        }
        assert(all.take(ids@.len() as int) =~= all);
        actions
    }

    /// Asks for every workload to be stopped, in table order, and returns
    /// the terminations to perform.
    pub fn stop_all(&mut self) -> (actions: Vec<StopAction>)
        ensures
            final(self)@ == stop_each(old(self)@, ids_of(old(self)@)),
            stop_actions_view(actions@) == stop_each_actions(old(self)@, ids_of(old(self)@)),
    {
        let ghost before = self@;
        let ids = self.ids();
        let ghost all = ids_of(before);
        let mut actions: Vec<StopAction> = Vec::new();
        let mut k: usize = 0;
        assert(stop_actions_view(actions@) =~= Seq::<StopActionView>::empty());
        assert(all.take(0) =~= Seq::<Seq<char>>::empty());
        while k < ids.len()
            invariant
                k <= ids.len(),
                views(ids@) == all,
                self@ == stop_each(before, all.take(k as int)),
                stop_actions_view(actions@) == stop_each_actions(before, all.take(k as int)),
            decreases ids.len() - k,
        {
            let ghost next = all.take(k + 1);
            assert(next.drop_last() =~= all.take(k as int));
            assert(next.last() == ids@[k as int]@);
            let ghost done = actions@;
            let action = self.stop_process(ids[k].as_str());
            match action {
                StopAction::Nothing => {},
                _ => {
                    actions.push(action);
                    assert(stop_actions_view(actions@) =~= stop_actions_view(done).push(action@));
                },
            }
            k += 1;
        }
        assert(all.take(ids@.len() as int) =~= all);
        actions
    }

    /// Brings every workload of the command kind to rest for shutdown:
    /// `Stopped`, without process or boundary. Containers are left as they
    /// are. Returns the processes that were alive, for the caller to tear
    /// down. One change is counted.
    pub fn stop_non_docker(&mut self) -> (orders: Vec<KillOrder>)
        ensures
            final(self)@ == stop_local_model(old(self)@),
            kill_orders_view(orders@) == local_kill_orders(old(self)@),
    {
        let ghost before = self@;
        let ghost pick = |e: ProcessStateView| local_kill_order(e);
        let mut orders: Vec<KillOrder> = Vec::new();
        let mut k: usize = 0;
        assert(kill_orders_view(orders@) =~= before.entries.take(0).filter_map(pick));
        while k < self.processes.len()
            invariant
                k <= self.processes.len(),
                self.processes@.len() == before.entries.len(),
                pick == |e: ProcessStateView| local_kill_order(e),
                kill_orders_view(orders@) == before.entries.take(k as int).filter_map(pick),
                self@.event_version == before.event_version,
                self@.error_version == before.error_version,
                self@.background_started == before.background_started,
                forall|j: int| 0 <= j < k ==> self@.entries[j] == quiesced(before.entries[j]),
                forall|j: int|
                    k <= j < before.entries.len() ==> self@.entries[j] == before.entries[j],
            decreases self.processes.len() - k,
        {
            let ghost so_far = self@;
            let ghost done = orders@;
            let ghost next = before.entries.take(k + 1);
            assert(next.drop_last() =~= before.entries.take(k as int));
            assert(next.last() == before.entries[k as int]);
            assert(so_far.entries[k as int] == before.entries[k as int]);
            let kind = self.config_at(k).process_type;
            match kind {
                ProcessType::Process => {
                    let child = self.processes[k].child;
                    let has_job = self.processes[k].job;
                    assert(so_far.entries[k as int] == self.processes@[k as int]@);
                    match child {
                        Some(pid) => {
                            let order = KillOrder {
                                id: self.config_at(k).id.clone(),
                                pid,
                                has_job,
                            };
                            orders.push(order);
                            assert(kill_orders_view(orders@) =~= kill_orders_view(done) + seq![
                                order@,
                            ]);
                        },
                        None => {},
                    }
                    self.set_status_at(k, ProcessStatus::Stopped);
                    self.clear_handles_at(k);
                },
                ProcessType::Docker => {},
            }
            k += 1;
        }
        assert(before.entries.take(before.entries.len() as int) =~= before.entries);
        assert(self@.entries =~= Seq::new(
            before.entries.len(),
            |i: int| quiesced(before.entries[i]),
        ));
        self.notify();
        orders
    }

    /// The name of the container to inspect for the workload `id`: there is
    /// one if the table holds the workload and it is a container.
    pub fn docker_container(&self, id: &str) -> (container: Option<String>)
        ensures
            match poll_target(self@, id@) {
                Some(name) => container is Some && container->0@ == name,
                None => container is None,
            },
    {
        match self.find(id) {
            Some(i) => {
                let config = self.config_at(i);
                match config.process_type {
                    ProcessType::Docker => Some(config.command.clone()),
                    ProcessType::Process => None,
                }
            },
            None => None,
        }
    }

    /// Takes what an inspection of the container behind the workload `id`
    /// found. The status becomes `Running` or `Stopped` accordingly, and one
    /// change is counted, only if that differs from the status the workload
    /// has; otherwise nothing changes. Nothing changes either if the table
    /// does not hold the workload or it is no container. Returns whether
    /// anything changed.
    pub fn refresh_docker_status(&mut self, id: &str, running: bool) -> (changed: bool)
        ensures
            final(self)@ == docker_poll_model(old(self)@, id@, running),
            changed == poll_changes(old(self)@, id@, running),
    {
        let ghost before = self@;
        match self.find(id) {
            Some(i) => {
                let kind = self.config_at(i).process_type;
                let same = match &self.processes[i].status {
                    ProcessStatus::Running => running,
                    ProcessStatus::Stopped => !running,
                    _ => false,
                };
                assert(before.entries[i as int] == self.processes@[i as int]@);
                match kind {
                    ProcessType::Docker => {
                        if same {
                            false
                        } else {
                            let next = if running {
                                ProcessStatus::Running
                            } else {
                                ProcessStatus::Stopped
                            };
                            self.set_status_at(i, next);
                            self.notify();
                            true
                        }
                    },
                    ProcessType::Process => false,
                }
            },
            None => false,
        }
    }

    /// Takes the outcome of the runtime's start call for the container
    /// `container` behind the workload `id`. A container that started leaves
    /// the workload `Running`; a start that the runtime rejected, or a
    /// runtime that could not be run, leaves it in `Error` with the
    /// diagnostic. The log says which. One change is counted in every case.
    /// A rejected start counts as an error while the table holds the
    /// workload; a runtime that could not be run counts as one always.
    pub fn docker_start_finished(&mut self, id: &str, container: &str, outcome: ToolOutcome)
        ensures
            final(self)@ == docker_start_model(old(self)@, id@, container@, outcome@),
    {
        let ghost before = self@;
        let found = self.find(id);
        match outcome {
            ToolOutcome::Succeeded => {
                match found {
                    Some(i) => {
                        self.set_status_at(i, ProcessStatus::Running);
                        self.push_log_at(i, framed("[Docker container '", container, "' started]"));
                        assert(self@.entries =~= before.entries.update(
                            i as int,
                            container_start_result(
                                before.entries[i as int],
                                container@,
                                outcome@,
                            ),
                        ));
                    },
                    None => {},
                }
            },
            ToolOutcome::Rejected(reason) => {
                match found {
                    Some(i) => {
                        let line = framed("[Failed to start: ", reason.as_str(), "]");
                        self.set_status_at(i, ProcessStatus::Error(reason));
                        self.push_log_at(i, line);
                        assert(self@.entries =~= before.entries.update(
                            i as int,
                            container_start_result(
                                before.entries[i as int],
                                container@,
                                outcome@,
                            ),
                        ));
                        self.bump_error();
                    },
                    None => {},
                }
            },
            ToolOutcome::Unavailable(reason) => {
                match found {
                    Some(i) => {
                        let line = framed("[Failed to start docker: ", reason.as_str(), "]");
                        self.set_status_at(i, ProcessStatus::Error(reason));
                        self.push_log_at(i, line);
                        assert(self@.entries =~= before.entries.update(
                            i as int,
                            container_start_result(
                                before.entries[i as int],
                                container@,
                                outcome@,
                            ),
                        ));
                    },
                    None => {},
                }
                self.bump_error();
            },
        }
        self.notify();
    }

    /// Takes a line of the container's log for the workload `id`. While the
    /// workload runs the line enters its log, counts as a change, and as an
    /// error if its text is alarming. Once the workload no longer runs, or
    /// has left the table, nothing changes and the follower is done. Returns
    /// whether the follower goes on.
    pub fn append_docker_log(&mut self, id: &str, line: String) -> (goes_on: bool)
        ensures
            final(self)@ == docker_log_model(old(self)@, id@, line@),
            goes_on == is_followed(old(self)@, id@),
    {
        match self.find(id) {
            Some(i) => {
                if !self.processes[i].status.is_running() {
                    return false;
                }
                let alarming = line_has_error(line.as_str());
                self.push_log_at(i, line);
                if alarming {
                    self.bump_error();
                }
                self.notify();
                true
            },
            None => false,
        }
    }

    /// Takes the outcome of the runtime's stop call for the container
    /// `container` behind the workload `id`. The workload is `Stopped`
    /// whatever the call reported, and its log says what it reported. One
    /// change is counted either way. A workload that was marked to leave the
    /// table leaves it now, which counts as one more change.
    pub fn docker_stop_finished(&mut self, id: &str, container: &str, outcome: ToolOutcome)
        ensures
            final(self)@ == docker_stop_model(old(self)@, id@, container@, outcome@),
    {
        let ghost before = self@;
        match self.find(id) {
            Some(i) => {
                let line = match &outcome {
                    ToolOutcome::Succeeded => framed(
                        "[Docker container '",
                        container,
                        "' stopped]",
                    ),
                    ToolOutcome::Rejected(reason) => framed("[Stop error: ", reason.as_str(), "]"),
                    ToolOutcome::Unavailable(reason) => framed(
                        "[Stop error: ",
                        reason.as_str(),
                        "]",
                    ),
                };
                self.set_status_at(i, ProcessStatus::Stopped);
                self.push_log_at(i, line);
                assert(self@.entries =~= before.entries.update(
                    i as int,
                    container_stop_result(before.entries[i as int], container@, outcome@),
                ));
            },
            None => {},
        }
        self.notify();
        self.settle_removal(id);
    }
}

} // verus!
