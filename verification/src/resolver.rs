//! Finding the file behind a program name where a file's extension decides
//! whether and how it can be run.
//!
//! A name with a path separator is taken as it stands; a bare name is looked
//! up in a list of directories, in order. A name without a usable extension
//! is tried with each supported one, in a fixed order of priority. The
//! first candidate that is a regular file with a supported extension wins,
//! and its extension tells whether it runs directly or through the command
//! interpreter. What is on disk is not read here: the caller says for each
//! candidate whether it is a regular file.
//!
//! A program always runs with its arguments as a list of separate words. The
//! command line that can be written from them, with quotes where a word
//! needs them, is for showing only.

use vstd::prelude::*;
use vstd::string::*;

use crate::text::{
    char_is_whitespace, char_to_lower, chars_of, is_whitespace, lower, str_eq, string_of, trim,
    trim_bounds,
};
use crate::tokenizer::{join_words, views};

verus! {

/// A program file and how to run it.
#[derive(Debug, PartialEq, Eq)]
pub struct ResolvedProgram {
    /// The file to run.
    pub path: String,
    /// Whether the file is a script for the command interpreter.
    pub is_cmd_script: bool,
}

/// A resolved program as plain values.
pub struct ResolvedProgramView {
    pub path: Seq<char>,
    pub is_cmd_script: bool,
}

impl View for ResolvedProgram {
    type V = ResolvedProgramView;

    open spec fn view(&self) -> ResolvedProgramView {
        ResolvedProgramView { path: self.path@, is_cmd_script: self.is_cmd_script }
    }
}

/// Whether `c` separates the parts of a path.
pub open spec fn is_separator(c: char) -> bool {
    c == '\\' || c == '/'
}

/// Whether `s` holds a path separator.
pub open spec fn has_separator(s: Seq<char>) -> bool {
    exists|i: int| 0 <= i < s.len() && is_separator(#[trigger] s[i])
}

/// Where the extension of the path `s` begins: behind the last dot of the
/// last part, unless that dot opens the part or the part has none. The
/// result is 0 where there is no extension.
pub open spec fn extension_start(s: Seq<char>) -> int
    decreases s.len(),
{
    if s.len() == 0 || is_separator(s.last()) {
        0
    } else if s.last() == '.' {
        if s.len() == 1 || is_separator(s[s.len() - 2]) {
            0
        } else {
            s.len() as int
        }
    } else {
        extension_start(s.drop_last())
    }
}

/// The extension of the path `s`, without its dot.
pub open spec fn extension_of(s: Seq<char>) -> Option<Seq<char>> {
    let start = extension_start(s);
    if start > 0 {
        Some(s.skip(start))
    } else {
        None
    }
}

/// Whether files with the extension `ext` can be run.
pub open spec fn is_supported(ext: Seq<char>) -> bool {
    ext == "exe"@ || ext == "com"@ || ext == "cmd"@ || ext == "bat"@
}

/// Whether files with the extension `ext` are scripts for the command
/// interpreter.
pub open spec fn is_script(ext: Seq<char>) -> bool {
    ext == "cmd"@ || ext == "bat"@
}

/// The extensions that are tried on a name without one, in order of
/// priority, each with its dot.
pub open spec fn extensions() -> Seq<Seq<char>> {
    seq![".exe"@, ".com"@, ".cmd"@, ".bat"@]
}

/// `path` with each supported extension in turn.
pub open spec fn extended(path: Seq<char>) -> Seq<Seq<char>> {
    Seq::new(extensions().len(), |i: int| path + extensions()[i])
}

/// Whether the name `s` ends in a supported extension, in any mix of upper
/// and lower case.
pub open spec fn has_supported_extension(s: Seq<char>) -> bool {
    extension_of(s) is Some && is_supported(lower(extension_of(s)->0))
}

/// The file `name` inside the directory `dir`.
pub open spec fn joined(dir: Seq<char>, name: Seq<char>) -> Seq<char> {
    if dir.len() == 0 {
        name
    } else if is_separator(dir.last()) {
        dir + name
    } else {
        dir + seq!['\\'] + name
    }
}

/// The files to try for a name that holds a path separator: the name itself
/// if it has an extension, and the name with each supported extension if it
/// has none.
pub open spec fn direct_candidates(path: Seq<char>) -> Seq<Seq<char>> {
    if extension_of(path) is Some {
        seq![path]
    } else {
        extended(path)
    }
}

/// The files to try for the bare name `name` in the directory `dir`: the
/// name itself if it ends in a supported extension, and the name with each
/// supported extension if not.
pub open spec fn candidates_in_dir(dir: Seq<char>, name: Seq<char>) -> Seq<Seq<char>> {
    if has_supported_extension(name) {
        seq![joined(dir, name)]
    } else {
        extended(joined(dir, name))
    }
}

/// The files to try for the bare name `name` in each of `dirs`, in order.
pub open spec fn search_candidates(dirs: Seq<Seq<char>>, name: Seq<char>) -> Seq<Seq<char>>
    decreases dirs.len(),
{
    if dirs.len() == 0 {
        Seq::empty()
    } else {
        search_candidates(dirs.drop_last(), name) + candidates_in_dir(dirs.last(), name)
    }
}

/// The files to try for `program`, in order.
pub open spec fn candidates(program: Seq<char>, dirs: Seq<Seq<char>>) -> Seq<Seq<char>> {
    let name = trim(program);
    if has_separator(name) {
        direct_candidates(name)
    } else {
        search_candidates(dirs, name)
    }
}

/// What the file `path` is good for, given whether it is a regular file.
pub open spec fn classified(path: Seq<char>, is_file: bool) -> Option<ResolvedProgramView> {
    if is_file && has_supported_extension(path) {
        Some(
            ResolvedProgramView {
                path,
                is_cmd_script: is_script(lower(extension_of(path)->0)),
            },
        )
    } else {
        None
    }
}

/// Whether the candidate at `k` is a regular file; a candidate without an
/// answer counts as none.
pub open spec fn probe_at(probes: Seq<bool>, k: int) -> bool {
    0 <= k < probes.len() && probes[k]
}

/// The first usable candidate from place `k` on.
pub open spec fn first_usable(paths: Seq<Seq<char>>, probes: Seq<bool>, k: int) -> Option<
    ResolvedProgramView,
>
    decreases paths.len() - k,
{
    if k < 0 || k >= paths.len() {
        None
    } else {
        match classified(paths[k], probe_at(probes, k)) {
            Some(r) => Some(r),
            None => first_usable(paths, probes, k + 1),
        }
    }
}

/// What is reported when no candidate for `name` is usable.
pub open spec fn not_found_message(name: Seq<char>) -> Seq<char> {
    let hint = if !has_separator(name) {
        " (expected .exe/.com/.cmd/.bat on PATH)"@
    } else if extension_of(name) is Some {
        ""@
    } else {
        " (expected .exe/.com/.cmd/.bat)"@
    };
    "Program not found or not executable: "@ + name + hint
}

/// The program file for `program`, given the directories to search and, for
/// each candidate, whether it is a regular file.
pub open spec fn resolved(program: Seq<char>, dirs: Seq<Seq<char>>, probes: Seq<bool>) -> Result<
    ResolvedProgramView,
    Seq<char>,
> {
    let name = trim(program);
    if name.len() == 0 {
        Err("Command is empty"@)
    } else {
        match first_usable(candidates(program, dirs), probes, 0) {
            Some(r) => Ok(r),
            None => Err(not_found_message(name)),
        }
    }
}

/// The program and arguments to hand to the system for `program` with
/// `args`: a script goes to the command interpreter as its own argument,
/// followed by `args` one by one; anything else runs as it is.
pub open spec fn command_line(program: ResolvedProgramView, args: Seq<Seq<char>>) -> (
    Seq<char>,
    Seq<Seq<char>>,
) {
    if program.is_cmd_script {
        ("cmd"@, seq!["/C"@, program.path] + args)
    } else {
        (program.path, args)
    }
}

/// The extension starts behind a dot that is the last one of the last part
/// and does not open it.
proof fn lemma_extension_start(s: Seq<char>, d: int)
    requires
        0 < d < s.len(),
        s[d] == '.',
        !is_separator(s[d - 1]),
        forall|k: int| d < k < s.len() ==> s[k] != '.' && !is_separator(#[trigger] s[k]),
    ensures
        extension_start(s) == d + 1,
    decreases s.len() - d,
{
    if d + 1 < s.len() {
        let t = s.drop_last();
        assert forall|k: int| d < k < t.len() implies t[k] != '.' && !is_separator(
            #[trigger] t[k],
        ) by {
            assert(t[k] == s[k]);
        }
        assert(!is_separator(s[s.len() - 1]));
        lemma_extension_start(t, d);
    }
}

/// There is no extension where the last part has no dot behind its first
/// character.
proof fn lemma_no_extension(s: Seq<char>, from: int)
    requires
        0 <= from <= s.len(),
        from == 0 || is_separator(s[from - 1]) || (s[from - 1] == '.' && (from == 1
            || is_separator(s[from - 2]))),
        forall|k: int| from <= k < s.len() ==> s[k] != '.' && !is_separator(#[trigger] s[k]),
    ensures
        extension_start(s) == 0,
    decreases s.len() - from,
{
    if from < s.len() {
        let t = s.drop_last();
        assert forall|k: int| from <= k < t.len() implies t[k] != '.' && !is_separator(
            #[trigger] t[k],
        ) by {
            assert(t[k] == s[k]);
        }
        assert(!is_separator(s[s.len() - 1]));
        lemma_no_extension(t, from);
    }
}

/// Where the extension of `v` begins; 0 where there is none.
fn find_extension(v: &Vec<char>) -> (start: usize)
    ensures
        start == extension_start(v@),
        start <= v.len(),
{
    let n = v.len();
    let mut i: usize = n;
    while i > 0
        invariant
            i <= n,
            n == v.len(),
            forall|k: int| i <= k < n ==> v@[k] != '.' && !is_separator(#[trigger] v@[k]),
        decreases i,
    {
        let c = v[i - 1];
        if c == '\\' || c == '/' {
            proof {
                lemma_no_extension(v@, i as int);
            }
            return 0;
        }
        if c == '.' {
            if i == 1 {
                proof {
                    lemma_no_extension(v@, 1);
                }
                return 0;
            }
            let before = v[i - 2];
            if before == '\\' || before == '/' {
                proof {
                    lemma_no_extension(v@, i as int);
                }
                return 0;
            }
            proof {
                lemma_extension_start(v@, i - 1);
            }
            return i;
        }
        i -= 1;
    }
    proof {
        lemma_no_extension(v@, 0);
    }
    0
}

/// `v[from..]` folded to lower case.
fn lowered_tail(v: &Vec<char>, from: usize) -> (s: String)
    requires
        from <= v.len(),
    ensures
        s@ == lower(v@.skip(from as int)),
{
    let mut s = String::new();
    let mut i: usize = from;
    while i < v.len()
        invariant
            from <= i <= v.len(),
            s@ == lower(v@.subrange(from as int, i as int)),
        decreases v.len() - i,
    {
        s.push(char_to_lower(v[i]));
        assert(s@ =~= lower(v@.subrange(from as int, i + 1)));
        i += 1;
    }
    assert(v@.subrange(from as int, v.len() as int) =~= v@.skip(from as int));
    s
}

/// The extensions that are tried on a name without one, in order of
/// priority, each with its dot.
pub fn supported_extensions() -> (r: Vec<String>)
    ensures
        views(r@) == extensions(),
{
    let mut r: Vec<String> = Vec::new();
    r.push(String::from_str(".exe"));
    r.push(String::from_str(".com"));
    r.push(String::from_str(".cmd"));
    r.push(String::from_str(".bat"));
    assert(views(r@) =~= extensions());
    r
}

/// Whether files with the extension `ext`, given in small letters and
/// without its dot, can be run.
pub fn is_supported_extension(ext: &str) -> (b: bool)
    ensures
        b == is_supported(ext@),
{
    str_eq(ext, "exe") || str_eq(ext, "com") || str_eq(ext, "cmd") || str_eq(ext, "bat")
}

/// Whether `v` holds a path separator.
fn contains_separator(v: &Vec<char>) -> (b: bool)
    ensures
        b == has_separator(v@),
{
    let mut i: usize = 0;
    while i < v.len()
        invariant
            i <= v.len(),
            forall|k: int| 0 <= k < i ==> !is_separator(#[trigger] v@[k]),
        decreases v.len() - i,
    {
        if v[i] == '\\' || v[i] == '/' {
            return true;
        }
        i += 1;
    }
    false
}

/// Says what the file `path` is good for, given whether it is a regular
/// file: nothing unless it is one and ends in a supported extension; a
/// script for the command interpreter if the extension is `cmd` or `bat`;
/// a program to run directly otherwise.
pub fn resolve_path_candidate(path: &str, is_file: bool) -> (r: Option<ResolvedProgram>)
    ensures
        match classified(path@, is_file) {
            Some(p) => r is Some && r->0@ == p,
            None => r is None,
        },
{
    if !is_file {
        return None;
    }
    let v = chars_of(path);
    let start = find_extension(&v);
    if start == 0 {
        return None;
    }
    let ext = lowered_tail(&v, start);
    if !is_supported_extension(ext.as_str()) {
        return None;
    }
    let is_cmd_script = str_eq(ext.as_str(), "cmd") || str_eq(ext.as_str(), "bat");
    Some(ResolvedProgram { path: String::from_str(path), is_cmd_script })
}

/// Adds `path` with each supported extension to `out`.
fn push_extended(out: &mut Vec<String>, path: &str)
    ensures
        views(final(out)@) == views(old(out)@) + extended(path@),
{
    let exts = supported_extensions();
    let ghost start = views(out@);
    let mut i: usize = 0;
    assert(extended(path@).take(0) =~= Seq::<Seq<char>>::empty());
    assert(start + Seq::<Seq<char>>::empty() =~= start);
    while i < exts.len()
        invariant
            i <= exts.len(),
            views(exts@) == extensions(),
            views(out@) == start + extended(path@).take(i as int),
        decreases exts.len() - i,
    {
        let ghost before = out@;
        let candidate = String::from_str(path).concat(exts[i].as_str());
        assert(exts@[i as int]@ == views(exts@)[i as int]);
        out.push(candidate);
        assert(views(out@) =~= views(before).push(candidate@));
        assert(extended(path@).take(i + 1) =~= extended(path@).take(i as int).push(
            extended(path@)[i as int],
        ));
        assert(views(out@) =~= start + extended(path@).take(i + 1));
        i += 1;
    }
    assert(extended(path@).take(exts@.len() as int) =~= extended(path@));
}

/// The file `name` inside the directory `dir`.
fn join_path(dir: &str, name: &str) -> (r: String)
    ensures
        r@ == joined(dir@, name@),
{
    let d = chars_of(dir);
    if d.len() == 0 {
        return String::from_str(name);
    }
    let last = d[d.len() - 1];
    let mut r = String::from_str(dir);
    if !(last == '\\' || last == '/') {
        r.push('\\');
    }
    r.append(name);
    assert(r@ =~= joined(dir@, name@));
    r
}

/// The files to try for `program`, in order: for a name with a path
/// separator the name itself, or the name with each supported extension if
/// it has none; for a bare name, in each of `dirs` in order, the name itself
/// if it ends in a supported extension, or the name with each supported
/// extension if not. Whitespace around `program` does not count.
pub fn candidate_paths(program: &str, dirs: &Vec<String>) -> (r: Vec<String>)
    ensures
        views(r@) == candidates(program@, views(dirs@)),
{
    let v = chars_of(program);
    let (a, b) = trim_bounds(&v, 0, v.len());
    assert(v@.subrange(0, v.len() as int) =~= v@);
    let name = string_of(&v, a, b);
    let name_chars = chars_of(name.as_str());
    let mut out: Vec<String> = Vec::new();
    assert(views(out@) =~= Seq::<Seq<char>>::empty());
    let start = find_extension(&name_chars);
    if contains_separator(&name_chars) {
        if start > 0 {
            out.push(name);
            assert(views(out@) =~= seq![name@]);
        } else {
            push_extended(&mut out, name.as_str());
            assert(Seq::<Seq<char>>::empty() + extended(name@) =~= extended(name@));
        }
        return out;
    }
    let usable = if start > 0 {
        let ext = lowered_tail(&name_chars, start);
        is_supported_extension(ext.as_str())
    } else {
        false
    };
    let ghost all = views(dirs@);
    let mut i: usize = 0;
    assert(all.take(0) =~= Seq::<Seq<char>>::empty());
    while i < dirs.len()
        invariant
            i <= dirs.len(),
            all == views(dirs@),
            usable == has_supported_extension(name@),
            views(out@) == search_candidates(all.take(i as int), name@),
        decreases dirs.len() - i,
    {
        let ghost next = all.take(i + 1);
        assert(next.drop_last() =~= all.take(i as int));
        assert(next.last() == dirs@[i as int]@);
        let base = join_path(dirs[i].as_str(), name.as_str());
        if usable {
            let ghost old_out = out@;
            out.push(base);
            assert(views(out@) =~= views(old_out) + seq![base@]);
        } else {
            push_extended(&mut out, base.as_str());
        }
        i += 1;
    }
    assert(all.take(dirs@.len() as int) =~= all);
    out
}

/// Finds the program file for `program`. `dirs` are the directories to
/// search for a bare name, in order; `is_file` says for each of
/// [`candidate_paths`], in order, whether it is a regular file, and a
/// candidate without an answer counts as none. The first candidate that is a
/// regular file with a supported extension is the result. An empty name is
/// refused, and so is a name without a usable candidate.
pub fn resolve_program(program: &str, dirs: &Vec<String>, is_file: &Vec<bool>) -> (r: Result<
    ResolvedProgram,
    String,
>)
    ensures
        match resolved(program@, views(dirs@), is_file@) {
            Ok(p) => r is Ok && r->Ok_0@ == p,
            Err(message) => r is Err && r->Err_0@ == message,
        },
{
    let v = chars_of(program);
    let (a, b) = trim_bounds(&v, 0, v.len());
    assert(v@.subrange(0, v.len() as int) =~= v@);
    if a == b {
        return Err(String::from_str("Command is empty"));
    }
    let name = string_of(&v, a, b);
    let paths = candidate_paths(program, dirs);
    let ghost all = views(paths@);
    let mut k: usize = paths.len();
    let mut found: Option<ResolvedProgram> = None;
    while k > 0
        invariant
            k <= paths.len(),
            all == views(paths@),
            match first_usable(all, is_file@, k as int) {
                Some(p) => found is Some && found->0@ == p,
                None => found is None,
            },
        decreases k,
    {
        k -= 1;
        let probe = k < is_file.len() && is_file[k];
        assert(paths@[k as int]@ == all[k as int]);
        match resolve_path_candidate(paths[k].as_str(), probe) {
            Some(p) => {
                found = Some(p);
            },
            None => {},
        }
    }
    match found {
        Some(p) => Ok(p),
        None => {
            let name_chars = chars_of(name.as_str());
            let hint = if !contains_separator(&name_chars) {
                " (expected .exe/.com/.cmd/.bat on PATH)"
            } else if find_extension(&name_chars) > 0 {
                ""
            } else {
                " (expected .exe/.com/.cmd/.bat)"
            };
            let mut message = String::from_str("Program not found or not executable: ");
            message.append(name.as_str());
            message.append(hint);
            Err(message)
        },
    }
}

/// The program and arguments to hand to the system for `program` with
/// `args`. A script is handed to the command interpreter as one argument of
/// its own, followed by `args` one by one and unchanged: no command line is
/// put together and quoted again. Anything else runs as it is.
pub fn build_command(program: ResolvedProgram, args: Vec<String>) -> (r: (String, Vec<String>))
    ensures
        r.0@ == command_line(program@, views(args@)).0,
        views(r.1@) == command_line(program@, views(args@)).1,
{
    if program.is_cmd_script {
        let mut all: Vec<String> = Vec::new();
        all.push(String::from_str("/C"));
        all.push(program.path);
        assert(views(all@) =~= seq!["/C"@, program.path@]);
        let mut i: usize = 0;
        assert(views(args@).take(0) =~= Seq::<Seq<char>>::empty());
        while i < args.len()
            invariant
                i <= args.len(),
                views(all@) == seq!["/C"@, program.path@] + views(args@).take(i as int),
            decreases args.len() - i,
        {
            let ghost before = all@;
            all.push(args[i].clone());
            assert(views(all@) =~= views(before).push(args@[i as int]@));
            assert(views(args@).take(i + 1) =~= views(args@).take(i as int).push(
                args@[i as int]@,
            ));
            i += 1;
        }
        assert(views(args@).take(args@.len() as int) =~= views(args@));
        (String::from_str("cmd"), all)
    } else {
        (program.path, args)
    }
}

/// Whether the word `s` has to stand in quotes when it is shown: it holds
/// whitespace or a quote.
pub open spec fn needs_quotes(s: Seq<char>) -> bool {
    exists|i: int| 0 <= i < s.len() && (is_whitespace(#[trigger] s[i]) || s[i] == '"')
}

/// `s` with a backslash put before each quote.
pub open spec fn escaped(s: Seq<char>) -> Seq<char>
    decreases s.len(),
{
    if s.len() == 0 {
        Seq::empty()
    } else if s.last() == '"' {
        escaped(s.drop_last()) + seq!['\\', '"']
    } else {
        escaped(s.drop_last()).push(s.last())
    }
}

/// The word `s` as it is shown in a command line: as it is if it needs no
/// quotes; between quotes, with its own quotes escaped, if it does; and as a
/// pair of quotes if it is empty.
pub open spec fn quoted_word(s: Seq<char>) -> Seq<char> {
    if s.len() == 0 {
        seq!['"', '"']
    } else if !needs_quotes(s) {
        s
    } else {
        seq!['"'] + escaped(s) + seq!['"']
    }
}

/// The words of a command line as they are shown: the program first, then
/// the arguments.
pub open spec fn shown_words(program: Seq<char>, args: Seq<Seq<char>>) -> Seq<Seq<char>> {
    Seq::new(
        args.len() + 1,
        |i: int|
            if i == 0 {
                quoted_word(program)
            } else {
                quoted_word(args[i - 1])
            },
    )
}

/// Writes the word `arg` as it is shown in a command line.
pub fn quote_cmd_arg(arg: &str) -> (r: String)
    ensures
        r@ == quoted_word(arg@),
{
    let v = chars_of(arg);
    if v.len() == 0 {
        let mut r = String::new();
        r.push('"');
        r.push('"');
        assert(r@ =~= seq!['"', '"']);
        return r;
    }
    let mut i: usize = 0;
    let mut needed = false;
    while i < v.len()
        invariant
            i <= v.len(),
            needed == exists|k: int|
                0 <= k < i && (is_whitespace(#[trigger] v@[k]) || v@[k] == '"'),
        decreases v.len() - i,
    {
        if char_is_whitespace(v[i]) || v[i] == '"' {
            needed = true;
        }
        i += 1;
    }
    if !needed {
        return String::from_str(arg);
    }
    let mut r = String::new();
    r.push('"');
    let mut k: usize = 0;
    assert(v@.take(0) =~= Seq::<char>::empty());
    assert(r@ =~= seq!['"'] + escaped(v@.take(0)));
    while k < v.len()
        invariant
            k <= v.len(),
            r@ == seq!['"'] + escaped(v@.take(k as int)),
        decreases v.len() - k,
    {
        let ghost next = v@.take(k + 1);
        assert(next.drop_last() =~= v@.take(k as int));
        assert(next.last() == v@[k as int]);
        if v[k] == '"' {
            r.push('\\');
            r.push('"');
            assert(r@ =~= seq!['"'] + (escaped(v@.take(k as int)) + seq!['\\', '"']));
        } else {
            r.push(v[k]);
            assert(r@ =~= seq!['"'] + escaped(v@.take(k as int)).push(v@[k as int]));
        }
        k += 1;
    }
    assert(v@.take(v.len() as int) =~= v@);
    r.push('"');
    r
}

/// Writes a command line to show to a person: the program and its arguments
/// with one space between neighbours, each in quotes where it needs them.
/// The line is for reading. What is run is always the list of words itself.
pub fn build_cmdline(script_path: &str, args: &[String]) -> (r: String)
    ensures
        r@ == join_words(shown_words(script_path@, views(args@))),
{
    let ghost words = shown_words(script_path@, views(args@));
    let mut r = quote_cmd_arg(script_path);
    let mut i: usize = 0;
    assert(words.take(1) =~= seq![quoted_word(script_path@)]);
    while i < args.len()
        invariant
            i <= args.len(),
            words == shown_words(script_path@, views(args@)),
            r@ == join_words(words.take(i + 1)),
        decreases args.len() - i,
    {
        let ghost next = words.take(i + 2);
        assert(next.drop_last() =~= words.take(i + 1));
        assert(next.last() == quoted_word(args@[i as int]@));
        let word = quote_cmd_arg(args[i].as_str());
        r.push(' ');
        r.append(word.as_str());
        assert(r@ =~= join_words(words.take(i + 1)) + seq![' '] + word@);
        i += 1;
    }
    assert(words.take(words.len() as int) =~= words);
    r
}

} // verus!
