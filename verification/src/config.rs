//! The declared workloads: one configuration record per workload, and the
//! ordered collection of them that makes a stack.

use vstd::prelude::*;
use vstd::string::*;

use crate::text::str_eq;

verus! {

/// The kind of a workload.
#[derive(Debug, Clone, Copy, PartialEq, Eq, Structural)]
pub enum ProcessType {
    /// A command that the supervisor spawns itself.
    Process,
    /// A container that an outside runtime manages.
    Docker,
}

impl Default for ProcessType {
    fn default() -> (r: Self)
        ensures
            r == ProcessType::Process,
    {
        ProcessType::Process
    }
}

/// The name shown for a kind of workload.
pub open spec fn type_label(t: ProcessType) -> Seq<char> {
    match t {
        ProcessType::Process => "Process"@,
        ProcessType::Docker => "Docker"@,
    }
}

impl ProcessType {
    /// The name shown for this kind.
    pub fn to_string(&self) -> (s: String)
        ensures
            s@ == type_label(*self),
    {
        match self {
            ProcessType::Process => String::from_str("Process"),
            ProcessType::Docker => String::from_str("Docker"),
        }
    }
}

/// What is declared of one workload.
#[derive(Debug, PartialEq)]
pub struct ProcessConfig {
    /// Identifies the workload for as long as it exists.
    pub id: String,
    /// The name shown for it.
    pub name: String,
    /// The command line to run, or the container's name.
    pub command: String,
    /// Where a command runs; empty for the supervisor's own directory.
    pub working_directory: String,
    /// The kind of workload.
    pub process_type: ProcessType,
    /// Whether the workload is started when the supervisor comes up.
    pub auto_start: bool,
    /// Whether the workload is declared as restarted under management. The
    /// flag is carried and shown; nothing here acts on it.
    pub auto_restart: bool,
}

/// A workload's configuration as plain values.
pub struct ProcessConfigView {
    pub id: Seq<char>,
    pub name: Seq<char>,
    pub command: Seq<char>,
    pub working_directory: Seq<char>,
    pub process_type: ProcessType,
    pub auto_start: bool,
    pub auto_restart: bool,
}

impl View for ProcessConfig {
    type V = ProcessConfigView;

    open spec fn view(&self) -> ProcessConfigView {
        ProcessConfigView {
            id: self.id@,
            name: self.name@,
            command: self.command@,
            working_directory: self.working_directory@,
            process_type: self.process_type,
            auto_start: self.auto_start,
            auto_restart: self.auto_restart,
        }
    }
}

impl Clone for ProcessConfig {
    fn clone(&self) -> (r: Self)
        ensures
            r == *self,
    {
        ProcessConfig {
            id: self.id.clone(),
            name: self.name.clone(),
            command: self.command.clone(),
            working_directory: self.working_directory.clone(),
            process_type: self.process_type,
            auto_start: self.auto_start,
            auto_restart: self.auto_restart,
        }
    }
}

/// Whether `c` is a decimal digit or one of the letters `a` to `f`.
pub open spec fn is_lower_hex(c: char) -> bool {
    ('0' <= c && c <= '9') || ('a' <= c && c <= 'f')
}

/// The shape of a random identifier: 36 characters, hyphens at 8, 13, 18 and
/// 23, small hexadecimal digits elsewhere, the version digit `4` and a variant
/// digit from `8` to `b`.
pub open spec fn is_random_id(s: Seq<char>) -> bool {
    &&& s.len() == 36
    &&& forall|i: int|
        0 <= i < 36 ==> if i == 8 || i == 13 || i == 18 || i == 23 {
            #[trigger] s[i] == '-'
        } else {
            is_lower_hex(s[i])
        }
    &&& s[14] == '4'
    &&& (s[19] == '8' || s[19] == '9' || s[19] == 'a' || s[19] == 'b')
}

/// Draws a random version 4 UUID with `uuid::Uuid::new_v4` and writes it with
/// the crate's `Display`, which is the hyphenated form in small letters. The
/// contract claims that shape of every outcome and nothing of the digits
/// drawn. The call stops the program if the system's random source fails.
#[verifier::external_body]
fn fresh_id() -> (id: String)
    ensures
        is_random_id(id@),
{
    uuid::Uuid::new_v4().to_string()
}

impl ProcessConfig {
    /// A configuration with the identifier `id`, not started automatically
    /// and not under managed restart.
    pub fn with_id(
        id: String,
        name: String,
        command: String,
        working_directory: String,
        process_type: ProcessType,
    ) -> (r: Self)
        ensures
            r == (ProcessConfig {
                id,
                name,
                command,
                working_directory,
                process_type,
                auto_start: false,
                auto_restart: false,
            }),
    {
        ProcessConfig {
            id,
            name,
            command,
            working_directory,
            process_type,
            auto_start: false,
            auto_restart: false,
        }
    }

    /// A configuration under a fresh random identifier, not started
    /// automatically and not under managed restart.
    pub fn new(
        name: String,
        command: String,
        working_directory: String,
        process_type: ProcessType,
    ) -> (r: Self)
        ensures
            is_random_id(r.id@),
            r == (ProcessConfig {
                id: r.id,
                name,
                command,
                working_directory,
                process_type,
                auto_start: false,
                auto_restart: false,
            }),
    {
        ProcessConfig::with_id(fresh_id(), name, command, working_directory, process_type)
    }
}

/// A named stack of workload configurations, in the order in which they were
/// declared.
#[derive(Debug)]
pub struct AppConfig {
    /// The label that tells this stack from others.
    pub stack_name: String,
    /// The workloads of the stack.
    pub processes: Vec<ProcessConfig>,
}

/// The name of a stack that was given none.
pub fn default_stack_name() -> (s: String)
    ensures
        s@ == "My Stack"@,
{
    String::from_str("My Stack")
}

impl Default for AppConfig {
    fn default() -> (r: Self)
        ensures
            r.stack_name@ == "My Stack"@,
            r.processes@.len() == 0,
    {
        AppConfig { stack_name: default_stack_name(), processes: Vec::new() }
    }
}

impl Clone for AppConfig {
    fn clone(&self) -> (r: Self)
        ensures
            r.stack_name == self.stack_name,
            r.processes@ == self.processes@,
    {
        let mut processes: Vec<ProcessConfig> = Vec::new();
        let mut i: usize = 0;
        while i < self.processes.len()
            invariant
                i <= self.processes.len(),
                processes@ == self.processes@.take(i as int),
            decreases self.processes.len() - i,
        {
            processes.push(self.processes[i].clone());
            i += 1;
        }
        AppConfig { stack_name: self.stack_name.clone(), processes }
    }
}

/// Whether `i` is the first place in `s` whose configuration has the
/// identifier `id`.
pub open spec fn is_first_with_id(s: Seq<ProcessConfig>, id: Seq<char>, i: int) -> bool {
    &&& 0 <= i < s.len()
    &&& s[i].id@ == id
    &&& forall|j: int| 0 <= j < i ==> (#[trigger] s[j]).id@ != id
}

/// Whether no configuration in `s` has the identifier `id`.
pub open spec fn has_no_id(s: Seq<ProcessConfig>, id: Seq<char>) -> bool {
    forall|j: int| 0 <= j < s.len() ==> (#[trigger] s[j]).id@ != id
}

/// `s` without the configurations that have the identifier `id`.
pub open spec fn without_id(s: Seq<ProcessConfig>, id: Seq<char>) -> Seq<ProcessConfig> {
    s.filter(|p: ProcessConfig| p.id@ != id)
}

impl AppConfig {
    /// The first place at which a configuration has the identifier `id`.
    fn position_of(&self, id: &str) -> (r: Option<usize>)
        ensures
            match r {
                Some(i) => is_first_with_id(self.processes@, id@, i as int),
                None => has_no_id(self.processes@, id@),
            },
    {
        let mut i: usize = 0;
        while i < self.processes.len()
            invariant
                i <= self.processes.len(),
                forall|j: int| 0 <= j < i ==> (#[trigger] self.processes@[j]).id@ != id@,
            decreases self.processes.len() - i,
        {
            if str_eq(self.processes[i].id.as_str(), id) {
                return Some(i);
            }
            i += 1;
        }
        None
    }

    /// Adds `config` at the end of the stack.
    pub fn add_process(&mut self, config: ProcessConfig)
        ensures
            final(self).processes@ == old(self).processes@.push(config),
            final(self).stack_name == old(self).stack_name,
    {
        self.processes.push(config);
    }

    /// Removes every configuration that has the identifier `id`; the others
    /// keep their order.
    pub fn remove_process(&mut self, id: &str)
        ensures
            final(self).processes@ == without_id(old(self).processes@, id@),
            final(self).stack_name == old(self).stack_name,
    {
        let mut all: Vec<ProcessConfig> = Vec::new();
        std::mem::swap(&mut all, &mut self.processes);
        let ghost pred = |p: ProcessConfig| p.id@ != id@;
        proof {
            reveal(Seq::filter);
            assert(all@.take(0).filter(pred) =~= Seq::<ProcessConfig>::empty());
        }
        for p in it: all
            invariant
                it.seq() == old(self).processes@,
                pred == |p: ProcessConfig| p.id@ != id@,
                self.processes@ == it.seq().take(it.index() as int).filter(pred),
                self.stack_name == old(self).stack_name,
        {
            proof {
                reveal(Seq::filter);
                let next = it.seq().take(it.index() + 1);
                assert(next.drop_last() =~= it.seq().take(it.index() as int));
                assert(next.last() == p);
            }
            if !str_eq(p.id.as_str(), id) {
                self.processes.push(p);
            }
        }
        proof {
            let whole = old(self).processes@;
            assert(whole.take(whole.len() as int) =~= whole);
        }
    }

    /// The first configuration that has the identifier `id`, if there is one.
    pub fn get_process(&self, id: &str) -> (r: Option<&ProcessConfig>)
        ensures
            match r {
                Some(p) => exists|i: int|
                    is_first_with_id(self.processes@, id@, i) && *p == self.processes@[i],
                None => has_no_id(self.processes@, id@),
            },
    {
        match self.position_of(id) {
            Some(i) => Some(&self.processes[i]),
            None => None,
        }
    }

    /// Puts `updated` in the place of the first configuration that has the
    /// identifier `id`; without such a configuration nothing changes.
    pub fn update_process(&mut self, id: &str, updated: ProcessConfig)
        ensures
            final(self).stack_name == old(self).stack_name,
            has_no_id(old(self).processes@, id@) ==> final(self).processes@ == old(self).processes@,
            forall|i: int|
                is_first_with_id(old(self).processes@, id@, i) ==> final(self).processes@ == old(
                    self,
                ).processes@.update(i, updated),
    {
        match self.position_of(id) {
            Some(i) => {
                self.processes.set(i, updated);
            },
            None => {},
        }
    }
}

} // verus!
