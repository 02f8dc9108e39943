//! What holds of the engine whatever the workloads do.
//!
//! Each law is stated on the mathematical state machine of [`crate::model`],
//! which the operations of [`crate::manager::ProcessManager`] follow step by
//! step. A state is well formed if no identifier stands at two places of the
//! table, no log is longer than its bound, and the change-notification
//! channel holds the event counter's value; the engine starts out so and
//! every operation keeps it so.

use vstd::prelude::*;

use crate::config::{ProcessConfigView, ProcessType};
use crate::model::{
    add_model, append_output_model, begin_launch_model, bump, docker_log_model, docker_poll_model,
    docker_start_model, docker_stop_model, entry_of, has_entry, index_of, init_entries, init_model,
    initial, is_first_entry, kill_finished_model, launch_failed_model, launch_succeeded_model,
    lemma_index_of, logs_bounded, monitor_model, remove_model, settle, start_action, start_each,
    start_model, status_of, stop_action, stop_each, stop_local_model, stop_model, stop_requested,
    unique_ids, well_formed, with_entry, without_entry, ManagerView, StartActionView,
    StopActionView, ToolOutcomeView, WaitOutcomeView,
};
use crate::state::{appended, law_log_is_bounded_fifo, MAX_LOG_LINES, ProcessStateView, StatusView};

verus! {

/// An identifier that stands somewhere in the table has a first place.
pub proof fn lemma_some_entry_has_first(entries: Seq<ProcessStateView>, id: Seq<char>, i: int)
    requires
        0 <= i < entries.len(),
        entries[i].config.id == id,
    ensures
        has_entry(entries, id),
        index_of(entries, id) <= i,
    decreases i,
{
    if forall|j: int| 0 <= j < i ==> (#[trigger] entries[j]).config.id != id {
        lemma_index_of(entries, id, i);
    } else {
        let j = choose|j: int| 0 <= j < i && (#[trigger] entries[j]).config.id == id;
        lemma_some_entry_has_first(entries, id, j);
    }
}

/// Replacing a state by one with the same identifier and a bounded log keeps
/// the table well formed.
proof fn lemma_update_is_well_formed(entries: Seq<ProcessStateView>, i: int, e: ProcessStateView)
    requires
        unique_ids(entries),
        logs_bounded(entries),
        0 <= i < entries.len(),
        e.config.id == entries[i].config.id,
        e.logs.len() <= MAX_LOG_LINES,
    ensures
        unique_ids(entries.update(i, e)),
        logs_bounded(entries.update(i, e)),
{
    let updated = entries.update(i, e);
    assert forall|a: int, b: int| 0 <= a < b < updated.len() implies (
    #[trigger] updated[a]).config.id != (#[trigger] updated[b]).config.id by {
        assert(updated[a].config.id == entries[a].config.id);
        assert(updated[b].config.id == entries[b].config.id);
    }
    assert forall|a: int| 0 <= a < updated.len() implies (#[trigger] updated[a]).logs.len()
        <= MAX_LOG_LINES by {
        if a != i {
            assert(updated[a] == entries[a]);
        }
    }
}

/// Taking a state out keeps the table well formed.
proof fn lemma_remove_is_well_formed(entries: Seq<ProcessStateView>, i: int)
    requires
        unique_ids(entries),
        logs_bounded(entries),
        0 <= i < entries.len(),
    ensures
        unique_ids(entries.remove(i)),
        logs_bounded(entries.remove(i)),
        forall|j: int|
            0 <= j < entries.remove(i).len() ==> (#[trigger] entries.remove(i)[j]).config.id
                != entries[i].config.id,
{
    let rest = entries.remove(i);
    assert forall|a: int| 0 <= a < rest.len() implies (#[trigger] rest[a]) == entries[if a < i {
        a
    } else {
        a + 1
    }] by {}
    assert forall|a: int, b: int| 0 <= a < b < rest.len() implies (#[trigger] rest[a]).config.id
        != (#[trigger] rest[b]).config.id by {
        let a0 = if a < i {
            a
        } else {
            a + 1
        };
        let b0 = if b < i {
            b
        } else {
            b + 1
        };
        assert(rest[a] == entries[a0]);
        assert(rest[b] == entries[b0]);
    }
    assert forall|a: int| 0 <= a < rest.len() implies (#[trigger] rest[a]).logs.len()
        <= MAX_LOG_LINES by {
        let a0 = if a < i {
            a
        } else {
            a + 1
        };
        assert(rest[a] == entries[a0]);
    }
    assert forall|j: int| 0 <= j < rest.len() implies (#[trigger] rest[j]).config.id
        != entries[i].config.id by {
        let j0 = if j < i {
            j
        } else {
            j + 1
        };
        assert(rest[j] == entries[j0]);
        if j0 < i {
            assert(entries[j0].config.id != entries[i].config.id);
        } else {
            assert(entries[i].config.id != entries[j0].config.id);
        }
    }
}

/// Adding a state under an identifier that the table lacks keeps the table
/// well formed.
proof fn lemma_push_is_well_formed(entries: Seq<ProcessStateView>, e: ProcessStateView)
    requires
        unique_ids(entries),
        logs_bounded(entries),
        !has_entry(entries, e.config.id),
        e.logs.len() <= MAX_LOG_LINES,
    ensures
        unique_ids(entries.push(e)),
        logs_bounded(entries.push(e)),
{
    let pushed = entries.push(e);
    assert forall|a: int, b: int| 0 <= a < b < pushed.len() implies (
    #[trigger] pushed[a]).config.id != (#[trigger] pushed[b]).config.id by {
        assert(pushed[a] == entries[a]);
        if b < entries.len() {
            assert(pushed[b] == entries[b]);
        } else {
            if entries[a].config.id == e.config.id {
                lemma_some_entry_has_first(entries, e.config.id, a);
            }
        }
    }
    assert forall|a: int| 0 <= a < pushed.len() implies (#[trigger] pushed[a]).logs.len()
        <= MAX_LOG_LINES by {
        if a < entries.len() {
            assert(pushed[a] == entries[a]);
        }
    }
}

/// Replacing the state of a workload by one with the same identifier and a
/// bounded log keeps the engine well formed.
proof fn lemma_with_entry_is_well_formed(m: ManagerView, id: Seq<char>, e: ProcessStateView)
    requires
        well_formed(m),
        has_entry(m.entries, id),
        e.config.id == id,
        e.logs.len() <= MAX_LOG_LINES,
    ensures
        well_formed(with_entry(m, id, e)),
        has_entry(with_entry(m, id, e).entries, id),
        index_of(with_entry(m, id, e).entries, id) == index_of(m.entries, id),
        entry_of(with_entry(m, id, e), id) == e,
{
    let i = index_of(m.entries, id);
    lemma_update_is_well_formed(m.entries, i, e);
    crate::model::lemma_update_keeps_place(m.entries, id, i, e);
}

/// Letting a workload leave keeps the engine well formed, and the workload
/// is gone.
proof fn lemma_without_entry_is_well_formed(m: ManagerView, id: Seq<char>)
    requires
        well_formed(m),
        has_entry(m.entries, id),
    ensures
        well_formed(without_entry(m, id)),
        !has_entry(without_entry(m, id).entries, id),
{
    let i = index_of(m.entries, id);
    lemma_remove_is_well_formed(m.entries, i);
}

/// The settled engine is well formed.
proof fn lemma_settle_is_well_formed(m: ManagerView, id: Seq<char>)
    requires
        well_formed(m),
    ensures
        well_formed(settle(m, id)),
{
    if has_entry(m.entries, id) {
        lemma_without_entry_is_well_formed(m, id);
    }
}

/// A log that grew by one line is within the bound.
proof fn lemma_appended_is_bounded(logs: Seq<Seq<char>>, line: Seq<char>)
    ensures
        appended(logs, line).len() <= MAX_LOG_LINES,
{
    law_log_is_bounded_fifo(logs, line);
}

/// The engine starts out well formed.
pub proof fn law_initial_is_well_formed()
    ensures
        well_formed(initial()),
{
}

/// Table membership keeps the engine well formed: no identifier comes to
/// stand at two places, no log grows beyond its bound, and the channel
/// holds the event counter's value.
pub proof fn law_membership_keeps_well_formed(
    m: ManagerView,
    configs: Seq<ProcessConfigView>,
    c: ProcessConfigView,
    id: Seq<char>,
)
    requires
        well_formed(m),
    ensures
        well_formed(init_model(m, configs)),
        well_formed(add_model(m, c)),
        well_formed(remove_model(m, id)),
{
    lemma_init_is_well_formed(m.entries, configs);
    if has_entry(m.entries, c.id) {
        lemma_with_entry_is_well_formed(m, c.id, crate::state::fresh_state(c));
    } else {
        lemma_push_is_well_formed(m.entries, crate::state::fresh_state(c));
    }
    if has_entry(m.entries, id) {
        law_requests_keep_well_formed(m, id);
        let stopped = stop_model(m, id);
        lemma_with_entry_is_well_formed(m, id, stop_requested(entry_of(m, id)));
        let e = entry_of(stopped, id);
        lemma_without_entry_is_well_formed(stopped, id);
        lemma_with_entry_is_well_formed(
            stopped,
            id,
            ProcessStateView { pending_removal: true, ..e },
        );
    }
}

/// Entering configurations keeps the table well formed.
proof fn lemma_init_is_well_formed(entries: Seq<ProcessStateView>, configs: Seq<ProcessConfigView>)
    requires
        unique_ids(entries),
        logs_bounded(entries),
    ensures
        unique_ids(init_entries(entries, configs)),
        logs_bounded(init_entries(entries, configs)),
    decreases configs.len(),
{
    if configs.len() > 0 {
        lemma_init_is_well_formed(entries, configs.drop_last());
        let before = init_entries(entries, configs.drop_last());
        let c = configs.last();
        if !has_entry(before, c.id) {
            lemma_push_is_well_formed(before, crate::state::fresh_state(c));
        }
    }
}

/// Start and stop requests keep the engine well formed.
pub proof fn law_requests_keep_well_formed(m: ManagerView, id: Seq<char>)
    requires
        well_formed(m),
    ensures
        well_formed(start_model(m, id)),
        well_formed(stop_model(m, id)),
        well_formed(stop_local_model(m)),
{
    if has_entry(m.entries, id) {
        let e = entry_of(m, id);
        lemma_with_entry_is_well_formed(
            m,
            id,
            ProcessStateView { status: StatusView::Starting, logs: Seq::empty(), ..e },
        );
        lemma_with_entry_is_well_formed(m, id, stop_requested(e));
    }
    let quiet = stop_local_model(m).entries;
    assert forall|a: int, b: int| 0 <= a < b < quiet.len() implies (#[trigger] quiet[a]).config.id
        != (#[trigger] quiet[b]).config.id by {
        assert(quiet[a].config.id == m.entries[a].config.id);
        assert(quiet[b].config.id == m.entries[b].config.id);
    }
    assert forall|a: int| 0 <= a < quiet.len() implies (#[trigger] quiet[a]).logs.len()
        <= MAX_LOG_LINES by {
        assert(quiet[a].logs == m.entries[a].logs);
    }
}

/// Start requests and stop requests for any list of identifiers keep the
/// engine well formed.
pub proof fn law_requests_for_all_keep_well_formed(m: ManagerView, ids: Seq<Seq<char>>)
    requires
        well_formed(m),
    ensures
        well_formed(start_each(m, ids)),
        well_formed(stop_each(m, ids)),
    decreases ids.len(),
{
    if ids.len() > 0 {
        law_requests_for_all_keep_well_formed(m, ids.drop_last());
        law_requests_keep_well_formed(start_each(m, ids.drop_last()), ids.last());
        law_requests_keep_well_formed(stop_each(m, ids.drop_last()), ids.last());
    }
}

/// Whatever the launcher, the streamers and the monitor report, the engine
/// stays well formed.
pub proof fn law_process_reports_keep_well_formed(
    m: ManagerView,
    id: Seq<char>,
    text: Seq<char>,
    pid: u32,
    flag: bool,
    outcome: WaitOutcomeView,
    error: Option<Seq<char>>,
)
    requires
        well_formed(m),
    ensures
        well_formed(launch_failed_model(m, id, text)),
        well_formed(begin_launch_model(m, id, text)),
        well_formed(launch_succeeded_model(m, id, pid, flag)),
        well_formed(append_output_model(m, id, text, flag)),
        well_formed(monitor_model(m, id, outcome)),
        well_formed(kill_finished_model(m, id, error)),
{
    if has_entry(m.entries, id) {
        let e = entry_of(m, id);
        lemma_appended_is_bounded(e.logs, crate::state::failed_line(text));
        lemma_with_entry_is_well_formed(m, id, crate::model::failed(e, text));
        match crate::tokenizer::tokenize(text) {
            Ok(_) => {},
            Err(err) => {
                let reason = crate::tokenizer::error_message(err);
                lemma_appended_is_bounded(e.logs, crate::state::failed_line(reason));
                lemma_with_entry_is_well_formed(m, id, crate::model::failed(e, reason));
            },
        }
        lemma_appended_is_bounded(e.logs, crate::state::started_line(pid));
        lemma_with_entry_is_well_formed(
            m,
            id,
            ProcessStateView {
                status: StatusView::Running,
                logs: appended(e.logs, crate::state::started_line(pid)),
                child: Some(pid),
                job: flag,
                ..e
            },
        );
        let stored = crate::model::stored_line(text, flag);
        lemma_appended_is_bounded(e.logs, stored);
        lemma_with_entry_is_well_formed(
            m,
            id,
            ProcessStateView { logs: appended(e.logs, stored), ..e },
        );
        match outcome {
            WaitOutcomeView::StillRunning => {},
            WaitOutcomeView::Exited(result) => {
                lemma_appended_is_bounded(e.logs, crate::state::exited_line(result));
                lemma_with_entry_is_well_formed(
                    m,
                    id,
                    ProcessStateView {
                        status: StatusView::Stopped,
                        logs: appended(e.logs, crate::state::exited_line(result)),
                        child: None,
                        job: false,
                        ..e
                    },
                );
            },
            WaitOutcomeView::Failed(reason) => {
                lemma_with_entry_is_well_formed(
                    m,
                    id,
                    ProcessStateView {
                        status: StatusView::Error(reason),
                        child: None,
                        job: false,
                        ..e
                    },
                );
            },
        }
        let k = crate::model::killed(e, error);
        lemma_appended_is_bounded(
            match error {
                Some(reason) => appended(e.logs, crate::state::stop_error_line(reason)),
                None => e.logs,
            },
            crate::state::stopped_line(),
        );
        lemma_with_entry_is_well_formed(m, id, k);
        lemma_settle_is_well_formed(crate::model::event_bumped(with_entry(m, id, k)), id);
    } else {
        lemma_settle_is_well_formed(crate::model::event_bumped(m), id);
    }
}

/// Whatever the container runtime reports, the engine stays well formed.
pub proof fn law_container_reports_keep_well_formed(
    m: ManagerView,
    id: Seq<char>,
    container: Seq<char>,
    line: Seq<char>,
    running: bool,
    outcome: ToolOutcomeView,
)
    requires
        well_formed(m),
    ensures
        well_formed(docker_start_model(m, id, container, outcome)),
        well_formed(docker_log_model(m, id, line)),
        well_formed(docker_stop_model(m, id, container, outcome)),
        well_formed(docker_poll_model(m, id, running)),
{
    if has_entry(m.entries, id) {
        let e = entry_of(m, id);
        let started = crate::model::container_start_result(e, container, outcome);
        match outcome {
            ToolOutcomeView::Succeeded => {
                lemma_appended_is_bounded(e.logs, crate::state::container_started_line(container));
            },
            ToolOutcomeView::Rejected(reason) => {
                lemma_appended_is_bounded(e.logs, crate::state::failed_line(reason));
            },
            ToolOutcomeView::Unavailable(reason) => {
                lemma_appended_is_bounded(e.logs, crate::state::runtime_missing_line(reason));
            },
        }
        lemma_with_entry_is_well_formed(m, id, started);
        lemma_appended_is_bounded(e.logs, line);
        lemma_with_entry_is_well_formed(
            m,
            id,
            ProcessStateView { logs: appended(e.logs, line), ..e },
        );
        let stopped = crate::model::container_stop_result(e, container, outcome);
        match outcome {
            ToolOutcomeView::Succeeded => {
                lemma_appended_is_bounded(e.logs, crate::state::container_stopped_line(container));
            },
            ToolOutcomeView::Rejected(reason) => {
                lemma_appended_is_bounded(e.logs, crate::state::stop_error_line(reason));
            },
            ToolOutcomeView::Unavailable(reason) => {
                lemma_appended_is_bounded(e.logs, crate::state::stop_error_line(reason));
            },
        }
        lemma_with_entry_is_well_formed(m, id, stopped);
        lemma_settle_is_well_formed(crate::model::event_bumped(with_entry(m, id, stopped)), id);
        lemma_with_entry_is_well_formed(
            m,
            id,
            ProcessStateView { status: crate::model::polled_status(running), ..e },
        );
    } else {
        lemma_settle_is_well_formed(crate::model::event_bumped(m), id);
    }
}

/// A start request for a workload that runs changes nothing: the status
/// stays `Running`, the log stays as it is, no change is counted and nothing
/// is to be launched.
pub proof fn law_start_of_running_is_noop(m: ManagerView, id: Seq<char>)
    requires
        status_of(m, id) == Some(StatusView::Running),
    ensures
        start_model(m, id) == m,
        start_action(m, id) == StartActionView::Nothing,
{
}

/// A start request for a workload whose launch or termination is under way
/// changes nothing either, so no workload is launched twice at once.
pub proof fn law_start_in_flight_is_noop(m: ManagerView, id: Seq<char>)
    requires
        status_of(m, id) == Some(StatusView::Starting) || status_of(m, id) == Some(
            StatusView::Stopping,
        ),
    ensures
        start_model(m, id) == m,
        start_action(m, id) == StartActionView::Nothing,
{
}

/// A stop request for a command without a live process brings it straight
/// to `Stopped`: nothing is to be killed, the log and the configuration stay,
/// and one change is counted.
pub proof fn law_stop_without_process_is_direct(m: ManagerView, id: Seq<char>)
    requires
        has_entry(m.entries, id),
        entry_of(m, id).config.process_type == ProcessType::Process,
        entry_of(m, id).child is None,
    ensures
        stop_action(m, id) == StopActionView::Nothing,
        has_entry(stop_model(m, id).entries, id),
        entry_of(stop_model(m, id), id) == (ProcessStateView {
            status: StatusView::Stopped,
            job: false,
            ..entry_of(m, id)
        }),
        stop_model(m, id).event_version == bump(m.event_version),
        stop_model(m, id).error_version == m.error_version,
{
    let i = index_of(m.entries, id);
    crate::model::lemma_update_keeps_place(m.entries, id, i, stop_requested(entry_of(m, id)));
}

/// Removing a workload stops it first. Either the stop request brings it to
/// rest and it is gone at once, or it stays in the table, `Stopping` and
/// marked to leave, and is gone once its termination is reported, by the
/// process side or by the container side.
pub proof fn law_removal_waits_for_stop(
    m: ManagerView,
    id: Seq<char>,
    error: Option<Seq<char>>,
    container: Seq<char>,
    outcome: ToolOutcomeView,
)
    requires
        well_formed(m),
        has_entry(m.entries, id),
    ensures
        ({
            let left = remove_model(m, id);
            ||| !has_entry(left.entries, id)
            ||| {
                &&& status_of(left, id) == Some(StatusView::Stopping)
                &&& entry_of(left, id).pending_removal
                &&& !(stop_action(m, id) is Nothing)
                &&& !has_entry(kill_finished_model(left, id, error).entries, id)
                &&& !has_entry(docker_stop_model(left, id, container, outcome).entries, id)
            }
        }),
{
    let e = entry_of(m, id);
    let requested = stop_requested(e);
    law_requests_keep_well_formed(m, id);
    lemma_with_entry_is_well_formed(m, id, requested);
    let stopped = stop_model(m, id);
    assert(entry_of(stopped, id) == requested);
    if requested.status is Stopped {
        lemma_without_entry_is_well_formed(stopped, id);
    } else {
        let marked = ProcessStateView { pending_removal: true, ..requested };
        lemma_with_entry_is_well_formed(stopped, id, marked);
        let left = remove_model(m, id);
        assert(left == with_entry(stopped, id, marked));
        assert(entry_of(left, id) == marked);
        let k = crate::model::killed(marked, error);
        lemma_appended_is_bounded(
            match error {
                Some(reason) => appended(marked.logs, crate::state::stop_error_line(reason)),
                None => marked.logs,
            },
            crate::state::stopped_line(),
        );
        lemma_with_entry_is_well_formed(left, id, k);
        let after_kill = crate::model::event_bumped(with_entry(left, id, k));
        lemma_without_entry_is_well_formed(after_kill, id);
        let s = crate::model::container_stop_result(marked, container, outcome);
        match outcome {
            ToolOutcomeView::Succeeded => {
                lemma_appended_is_bounded(
                    marked.logs,
                    crate::state::container_stopped_line(container),
                );
            },
            ToolOutcomeView::Rejected(reason) => {
                lemma_appended_is_bounded(marked.logs, crate::state::stop_error_line(reason));
            },
            ToolOutcomeView::Unavailable(reason) => {
                lemma_appended_is_bounded(marked.logs, crate::state::stop_error_line(reason));
            },
        }
        lemma_with_entry_is_well_formed(left, id, s);
        let after_stop = crate::model::event_bumped(with_entry(left, id, s));
        lemma_without_entry_is_well_formed(after_stop, id);
    }
}

} // verus!
