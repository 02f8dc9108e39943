//! What is said to the container runtime and to the system's tree killer,
//! and what their answers mean.
//!
//! Both are command-line tools that the caller runs. The arguments are
//! always a list of separate words, never one line to be split again.

use vstd::prelude::*;
use vstd::string::*;

use crate::text::{chars_of, decimal, lower, push_decimal, string_of, trim, trim_bounds};
use crate::tokenizer::views;

verus! {

/// How long a restart waits between stopping and starting, in milliseconds.
pub const SETTLE_DELAY_MS: u64 = 500;

/// How long the monitor of a process waits between two looks, in
/// milliseconds.
pub const MONITOR_INTERVAL_MS: u64 = 500;

/// How long the container poll waits between two rounds, in milliseconds.
pub const CONTAINER_POLL_INTERVAL_MS: u64 = 750;

/// The arguments that start the container `name`.
pub open spec fn start_words(name: Seq<char>) -> Seq<Seq<char>> {
    seq!["start"@, name]
}

/// The arguments that stop the container `name`.
pub open spec fn stop_words(name: Seq<char>) -> Seq<Seq<char>> {
    seq!["stop"@, name]
}

/// The arguments that ask whether the container `name` runs.
pub open spec fn inspect_words(name: Seq<char>) -> Seq<Seq<char>> {
    seq!["inspect"@, "-f"@, "{{.State.Running}}"@, name]
}

/// The arguments that follow the log of the container `name`, beginning
/// with its last hundred lines.
pub open spec fn follow_words(name: Seq<char>) -> Seq<Seq<char>> {
    seq!["logs"@, "-f"@, "--tail"@, "100"@, name]
}

/// The arguments that kill the process `pid` with all its descendants.
pub open spec fn tree_kill_words(pid: u32) -> Seq<Seq<char>> {
    seq!["/PID"@, decimal(pid as nat), "/T"@, "/F"@]
}

/// Whether the answer to an inspection says that the container runs: it is
/// the word `true`, in any mix of upper and lower case, with any whitespace
/// around it.
pub open spec fn says_running(answer: Seq<char>) -> bool {
    lower(trim(answer)) == "true"@
}

/// What a failed tree kill reports, given what the tool wrote to its error
/// stream.
pub open spec fn tree_kill_failure(stderr: Seq<char>) -> Seq<char> {
    "taskkill failed: "@ + trim(stderr)
}

/// What a termination reports as its error. With a boundary around the
/// process, closing the boundary ends the whole tree, and a tree kill that
/// fails beside it is not an error. Without one, a failed tree kill is
/// reported, and the caller falls back to killing the process itself.
pub open spec fn teardown_error(had_job: bool, tree_kill_error: Option<Seq<char>>) -> Option<
    Seq<char>,
> {
    if had_job {
        None
    } else {
        tree_kill_error
    }
}

/// The name of the container runtime's program.
pub fn runtime_program() -> (s: String)
    ensures
        s@ == "docker"@,
{
    String::from_str("docker")
}

/// The arguments that start the container `name`.
pub fn start_arguments(name: &str) -> (r: Vec<String>)
    ensures
        views(r@) == start_words(name@),
{
    let mut r: Vec<String> = Vec::new();
    r.push(String::from_str("start"));
    r.push(String::from_str(name));
    assert(views(r@) =~= start_words(name@));
    r
}

/// The arguments that stop the container `name`.
pub fn stop_arguments(name: &str) -> (r: Vec<String>)
    ensures
        views(r@) == stop_words(name@),
{
    let mut r: Vec<String> = Vec::new();
    r.push(String::from_str("stop"));
    r.push(String::from_str(name));
    assert(views(r@) =~= stop_words(name@));
    r
}

/// The arguments that ask whether the container `name` runs.
pub fn inspect_arguments(name: &str) -> (r: Vec<String>)
    ensures
        views(r@) == inspect_words(name@),
{
    let mut r: Vec<String> = Vec::new();
    r.push(String::from_str("inspect"));
    r.push(String::from_str("-f"));
    r.push(String::from_str("{{.State.Running}}"));
    r.push(String::from_str(name));
    assert(views(r@) =~= inspect_words(name@));
    r
}

/// The arguments that follow the log of the container `name`, beginning
/// with its last hundred lines.
pub fn follow_arguments(name: &str) -> (r: Vec<String>)
    ensures
        views(r@) == follow_words(name@),
{
    let mut r: Vec<String> = Vec::new();
    r.push(String::from_str("logs"));
    r.push(String::from_str("-f"));
    r.push(String::from_str("--tail"));
    r.push(String::from_str("100"));
    r.push(String::from_str(name));
    assert(views(r@) =~= follow_words(name@));
    r
}

/// The arguments that kill the process `pid` with all its descendants.
pub fn tree_kill_arguments(pid: u32) -> (r: Vec<String>)
    ensures
        views(r@) == tree_kill_words(pid),
{
    let mut number = String::new();
    push_decimal(&mut number, pid);
    assert(number@ =~= decimal(pid as nat));
    let mut r: Vec<String> = Vec::new();
    r.push(String::from_str("/PID"));
    r.push(number);
    r.push(String::from_str("/T"));
    r.push(String::from_str("/F"));
    assert(views(r@) =~= tree_kill_words(pid));
    r
}

/// Whether the answer to an inspection says that the container runs.
/// Anything but the word `true` means that it does not.
pub fn inspect_says_running(answer: &str) -> (b: bool)
    ensures
        b == says_running(answer@),
{
    let v = chars_of(answer);
    let (a, end) = trim_bounds(&v, 0, v.len());
    assert(v@.subrange(0, v.len() as int) =~= v@);
    let ghost word = v@.subrange(a as int, end as int);
    proof {
        reveal_strlit("true");
    }
    if end - a != 4 {
        assert(lower(word).len() != "true"@.len());
        return false;
    }
    let t = crate::text::char_to_lower(v[a]);
    let r = crate::text::char_to_lower(v[a + 1]);
    let u = crate::text::char_to_lower(v[a + 2]);
    let e = crate::text::char_to_lower(v[a + 3]);
    let same = t == 't' && r == 'r' && u == 'u' && e == 'e';
    proof {
        let folded = lower(word);
        assert(folded[0] == t && folded[1] == r && folded[2] == u && folded[3] == e);
        if same {
            assert(folded =~= "true"@);
        }
    }
    same
}

/// What a failed tree kill reports, given what the tool wrote to its error
/// stream.
pub fn describe_tree_kill_failure(stderr: &str) -> (s: String)
    ensures
        s@ == tree_kill_failure(stderr@),
{
    let v = chars_of(stderr);
    let (a, end) = trim_bounds(&v, 0, v.len());
    assert(v@.subrange(0, v.len() as int) =~= v@);
    let detail = string_of(&v, a, end);
    String::from_str("taskkill failed: ").concat(detail.as_str())
}

/// What a termination reports as its error, given whether the process had a
/// boundary around it and what the tree kill reported. A result other than
/// `None` also tells the caller to kill the process itself.
pub fn report_teardown(had_job: bool, tree_kill_error: Option<String>) -> (r: Option<String>)
    ensures
        crate::events::text_view(r) == teardown_error(
            had_job,
            crate::events::text_view(tree_kill_error),
        ),
{
    if had_job {
        None
    } else {
        tree_kill_error
    }
}

} // verus!
