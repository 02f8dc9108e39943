//! What the engine asks its caller to do, and what the caller reports back.
//!
//! The engine decides; it neither spawns nor kills. A request to start or
//! stop a workload returns the work to be done outside, and the outcome of
//! that work comes back as a report.

use vstd::prelude::*;

use crate::model::{
    KillOrderView, StartActionView, StopActionView, ToolOutcomeView, WaitOutcomeView,
};

verus! {

/// What the caller has to do after a start request.
#[derive(Debug, PartialEq, Eq)]
pub enum StartAction {
    /// Nothing: the request did not act.
    Nothing,
    /// Split `command`, spawn it in `working_directory` and report how the
    /// launch went.
    Launch { id: String, command: String, working_directory: String },
    /// Ask the container runtime to start `container` and report the outcome.
    DockerStart { id: String, container: String },
}

impl View for StartAction {
    type V = StartActionView;

    open spec fn view(&self) -> StartActionView {
        match self {
            StartAction::Nothing => StartActionView::Nothing,
            StartAction::Launch { id, command, working_directory } => StartActionView::Launch {
                id: id@,
                command: command@,
                working_directory: working_directory@,
            },
            StartAction::DockerStart { id, container } => StartActionView::DockerStart {
                id: id@,
                container: container@,
            },
        }
    }
}

/// What the caller has to do after a stop request.
#[derive(Debug, PartialEq, Eq)]
pub enum StopAction {
    /// Nothing: the workload is at rest or unknown.
    Nothing,
    /// Tear down the process `pid`, with its boundary if `has_job`, wait for
    /// it and report the end of that.
    Kill { id: String, pid: u32, has_job: bool },
    /// Ask the container runtime to stop `container` and report the outcome.
    DockerStop { id: String, container: String },
}

impl View for StopAction {
    type V = StopActionView;

    open spec fn view(&self) -> StopActionView {
        match self {
            StopAction::Nothing => StopActionView::Nothing,
            StopAction::Kill { id, pid, has_job } => StopActionView::Kill {
                id: id@,
                pid: *pid,
                has_job: *has_job,
            },
            StopAction::DockerStop { id, container } => StopActionView::DockerStop {
                id: id@,
                container: container@,
            },
        }
    }
}

/// A process to tear down at shutdown.
#[derive(Debug, PartialEq, Eq)]
pub struct KillOrder {
    pub id: String,
    pub pid: u32,
    pub has_job: bool,
}

impl View for KillOrder {
    type V = KillOrderView;

    open spec fn view(&self) -> KillOrderView {
        KillOrderView { id: self.id@, pid: self.pid, has_job: self.has_job }
    }
}

/// What one look at a live process found.
#[derive(Debug, PartialEq, Eq)]
pub enum WaitOutcome {
    /// The process has not ended.
    StillRunning,
    /// The process ended; the text says how.
    Exited(String),
    /// The system could not tell; the text says why.
    Failed(String),
}

impl View for WaitOutcome {
    type V = WaitOutcomeView;

    open spec fn view(&self) -> WaitOutcomeView {
        match self {
            WaitOutcome::StillRunning => WaitOutcomeView::StillRunning,
            WaitOutcome::Exited(result) => WaitOutcomeView::Exited(result@),
            WaitOutcome::Failed(reason) => WaitOutcomeView::Failed(reason@),
        }
    }
}

/// How a call of the container runtime ended.
#[derive(Debug, PartialEq, Eq)]
pub enum ToolOutcome {
    /// The runtime did what was asked.
    Succeeded,
    /// The runtime ran and refused; the text is its diagnostic.
    Rejected(String),
    /// The runtime could not be run; the text says why.
    Unavailable(String),
}

impl View for ToolOutcome {
    type V = ToolOutcomeView;

    open spec fn view(&self) -> ToolOutcomeView {
        match self {
            ToolOutcome::Succeeded => ToolOutcomeView::Succeeded,
            ToolOutcome::Rejected(reason) => ToolOutcomeView::Rejected(reason@),
            ToolOutcome::Unavailable(reason) => ToolOutcomeView::Unavailable(reason@),
        }
    }
}

/// The contents of a text that may be missing.
pub open spec fn text_view(text: Option<String>) -> Option<Seq<char>> {
    match text {
        Some(t) => Some(t@),
        None => None,
    }
}

} // verus!
