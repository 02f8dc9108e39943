//! What the supervisor knows of one workload while it runs: its status, its
//! bounded log and the handle of its live process.

use vstd::prelude::*;
use vstd::string::*;

use crate::config::{ProcessConfig, ProcessConfigView};
use crate::text::{decimal, push_decimal};

verus! {

/// How many lines a workload's log keeps.
pub const MAX_LOG_LINES: usize = 1000;

/// Where a workload stands.
#[derive(Debug, PartialEq, Eq)]
pub enum ProcessStatus {
    /// At rest: never started, ended, or stopped.
    Stopped,
    /// Confirmed alive by the last check.
    Running,
    /// A launch is under way.
    Starting,
    /// A termination is under way.
    Stopping,
    /// At rest after a failure, with what was reported.
    Error(String),
}

/// A status as plain values.
pub enum StatusView {
    Stopped,
    Running,
    Starting,
    Stopping,
    Error(Seq<char>),
}

impl View for ProcessStatus {
    type V = StatusView;

    open spec fn view(&self) -> StatusView {
        match self {
            ProcessStatus::Stopped => StatusView::Stopped,
            ProcessStatus::Running => StatusView::Running,
            ProcessStatus::Starting => StatusView::Starting,
            ProcessStatus::Stopping => StatusView::Stopping,
            ProcessStatus::Error(e) => StatusView::Error(e@),
        }
    }
}

impl Clone for ProcessStatus {
    fn clone(&self) -> (r: Self)
        ensures
            r == *self,
    {
        match self {
            ProcessStatus::Stopped => ProcessStatus::Stopped,
            ProcessStatus::Running => ProcessStatus::Running,
            ProcessStatus::Starting => ProcessStatus::Starting,
            ProcessStatus::Stopping => ProcessStatus::Stopping,
            ProcessStatus::Error(e) => ProcessStatus::Error(e.clone()),
        }
    }
}

/// The text shown for a status.
pub open spec fn status_label(s: StatusView) -> Seq<char> {
    match s {
        StatusView::Stopped => "Stopped"@,
        StatusView::Running => "Running"@,
        StatusView::Starting => "Starting"@,
        StatusView::Stopping => "Stopping"@,
        StatusView::Error(e) => "Error: "@ + e,
    }
}

impl ProcessStatus {
    /// The text shown for this status.
    pub fn to_string(&self) -> (s: String)
        ensures
            s@ == status_label(self@),
    {
        match self {
            ProcessStatus::Stopped => String::from_str("Stopped"),
            ProcessStatus::Running => String::from_str("Running"),
            ProcessStatus::Starting => String::from_str("Starting"),
            ProcessStatus::Stopping => String::from_str("Stopping"),
            ProcessStatus::Error(e) => String::from_str("Error: ").concat(e.as_str()),
        }
    }

    /// Whether the workload is confirmed alive.
    pub fn is_running(&self) -> (b: bool)
        ensures
            b == (self@ is Running),
    {
        match self {
            ProcessStatus::Running => true,
            _ => false,
        }
    }

    /// Whether the workload is at rest, stopped or failed, so that a start
    /// request acts on it.
    pub fn is_at_rest(&self) -> (b: bool)
        ensures
            b == (self@ is Stopped || self@ is Error),
    {
        match self {
            ProcessStatus::Stopped => true,
            ProcessStatus::Error(_) => true,
            _ => false,
        }
    }

    /// Whether a launch or a termination is under way.
    pub fn is_in_flight(&self) -> (b: bool)
        ensures
            b == (self@ is Starting || self@ is Stopping),
    {
        match self {
            ProcessStatus::Starting => true,
            ProcessStatus::Stopping => true,
            _ => false,
        }
    }
}

/// `body` between `before` and `after`.
pub fn framed(before: &str, body: &str, after: &str) -> (s: String)
    ensures
        s@ == before@ + body@ + after@,
{
    let mut s = String::from_str(before);
    s.append(body);
    s.append(after);
    s
}

/// The log line for a launch that gave the process `pid`.
pub open spec fn started_line(pid: u32) -> Seq<char> {
    "[Started with PID "@ + decimal(pid as nat) + "]"@
}

/// The log line for a launch that failed with `reason`.
pub open spec fn failed_line(reason: Seq<char>) -> Seq<char> {
    "[Failed to start: "@ + reason + "]"@
}

/// The log line for a container runtime that could not be run at all.
pub open spec fn runtime_missing_line(reason: Seq<char>) -> Seq<char> {
    "[Failed to start docker: "@ + reason + "]"@
}

/// The log line for a process that ended with `result`.
pub open spec fn exited_line(result: Seq<char>) -> Seq<char> {
    "[Process exited with: "@ + result + "]"@
}

/// The log line for a termination that reported `reason`.
pub open spec fn stop_error_line(reason: Seq<char>) -> Seq<char> {
    "[Stop error: "@ + reason + "]"@
}

/// The log line for a process that was terminated.
pub open spec fn stopped_line() -> Seq<char> {
    "[Process stopped]"@
}

/// The log line for the container `name` once started.
pub open spec fn container_started_line(name: Seq<char>) -> Seq<char> {
    "[Docker container '"@ + name + "' started]"@
}

/// The log line for the container `name` once stopped.
pub open spec fn container_stopped_line(name: Seq<char>) -> Seq<char> {
    "[Docker container '"@ + name + "' stopped]"@
}

/// A line of the error stream as it is stored.
pub open spec fn stderr_line(line: Seq<char>) -> Seq<char> {
    "[stderr] "@ + line
}

/// Writes the log line for a launch that gave the process `pid`.
pub fn make_started_line(pid: u32) -> (s: String)
    ensures
        s@ == started_line(pid),
{
    let mut s = String::from_str("[Started with PID ");
    push_decimal(&mut s, pid);
    s.append("]");
    s
}

/// `logs` with `line` added at the end, cut down to the last
/// [`MAX_LOG_LINES`] lines: the oldest lines leave first.
pub open spec fn appended(logs: Seq<Seq<char>>, line: Seq<char>) -> Seq<Seq<char>> {
    let all = logs.push(line);
    if all.len() > MAX_LOG_LINES {
        all.skip(all.len() - MAX_LOG_LINES)
    } else {
        all
    }
}

/// The contents of a list of lines.
pub open spec fn lines_view(logs: Seq<String>) -> Seq<Seq<char>> {
    Seq::new(logs.len(), |i: int| logs[i]@)
}

/// The runtime state of one workload.
#[derive(Debug)]
pub struct ProcessState {
    /// The configuration the workload was declared with.
    pub config: ProcessConfig,
    /// Where the workload stands.
    pub status: ProcessStatus,
    /// The last lines of its output and of what happened to it.
    pub logs: Vec<String>,
    /// The identifier of its live process, while there is one.
    pub child: Option<u32>,
    /// Whether its live process sits inside a termination boundary.
    pub job: bool,
    /// Whether the workload leaves the table once its termination is
    /// confirmed.
    pub pending_removal: bool,
}

/// A workload's runtime state as plain values.
pub struct ProcessStateView {
    pub config: ProcessConfigView,
    pub status: StatusView,
    pub logs: Seq<Seq<char>>,
    pub child: Option<u32>,
    pub job: bool,
    pub pending_removal: bool,
}

impl View for ProcessState {
    type V = ProcessStateView;

    open spec fn view(&self) -> ProcessStateView {
        ProcessStateView {
            config: self.config@,
            status: self.status@,
            logs: lines_view(self.logs@),
            child: self.child,
            job: self.job,
            pending_removal: self.pending_removal,
        }
    }
}

/// The state of a workload that was just declared with `config`: stopped,
/// with an empty log and no process.
pub open spec fn fresh_state(config: ProcessConfigView) -> ProcessStateView {
    ProcessStateView {
        config,
        status: StatusView::Stopped,
        logs: Seq::empty(),
        child: None,
        job: false,
        pending_removal: false,
    }
}

impl ProcessState {
    /// The state of a workload that was just declared with `config`.
    pub fn new(config: ProcessConfig) -> (r: Self)
        ensures
            r@ == fresh_state(config@),
            r.config == config,
    {
        let r = ProcessState {
            config,
            status: ProcessStatus::Stopped,
            logs: Vec::new(),
            child: None,
            job: false,
            pending_removal: false,
        };
        assert(lines_view(r.logs@) =~= Seq::<Seq<char>>::empty());
        r
    }

    /// Adds `line` to the log and drops the oldest lines beyond
    /// [`MAX_LOG_LINES`].
    pub fn push_log(&mut self, line: String)
        ensures
            final(self)@ == (ProcessStateView {
                logs: appended(old(self)@.logs, line@),
                ..old(self)@
            }),
            final(self)@.logs.len() <= MAX_LOG_LINES,
    {
        let ghost all = old(self)@.logs.push(line@);
        self.logs.push(line);
        assert(lines_view(self.logs@) =~= all);
        let ghost mut dropped: int = 0;
        while self.logs.len() > MAX_LOG_LINES
            invariant
                0 <= dropped,
                lines_view(self.logs@) == all.skip(dropped),
                dropped + self.logs@.len() == all.len(),
                dropped == 0 || self.logs@.len() >= MAX_LOG_LINES,
                self.config == old(self).config,
                self.status == old(self).status,
                self.child == old(self).child,
                self.job == old(self).job,
                self.pending_removal == old(self).pending_removal,
            decreases self.logs@.len(),
        {
            let ghost before = self.logs@;
            self.logs.remove(0);
            assert(lines_view(self.logs@) =~= lines_view(before).skip(1));
            assert(all.skip(dropped).skip(1) =~= all.skip(dropped + 1));
            proof {
                dropped = dropped + 1;
            }
        }
        assert(all.skip(0) =~= all);
    }

    /// Empties the log.
    pub fn clear_logs(&mut self)
        ensures
            final(self)@ == (ProcessStateView { logs: Seq::empty(), ..old(self)@ }),
    {
        self.logs.clear();
        assert(lines_view(self.logs@) =~= Seq::<Seq<char>>::empty());
    }
}

/// A log never holds more than [`MAX_LOG_LINES`] lines after a line was
/// added, and a full log gives up its oldest line for the new one.
pub proof fn law_log_is_bounded_fifo(logs: Seq<Seq<char>>, line: Seq<char>)
    ensures
        appended(logs, line).len() <= MAX_LOG_LINES,
        appended(logs, line).len() > 0,
        appended(logs, line).last() == line,
        logs.len() < MAX_LOG_LINES ==> appended(logs, line) == logs.push(line),
        logs.len() == MAX_LOG_LINES ==> appended(logs, line) == logs.skip(1).push(line),
{
    if logs.len() == MAX_LOG_LINES {
        assert(logs.push(line).skip(1) =~= logs.skip(1).push(line));
    }
}

} // verus!
