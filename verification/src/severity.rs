//! Telling alarming log lines from routine ones.
//!
//! Severity is not stored with a line: whoever shows a line derives it from
//! the text, with the markers listed here.

use vstd::prelude::*;
use vstd::string::*;

use crate::text::{
    chars_of, contains, contains_folded, has_prefix, lower, skip_whitespace, starts_with, trim,
    trim_bounds, trim_start,
};

verus! {

/// The tag that marks a line read from a workload's error stream.
pub open spec fn stderr_tag() -> Seq<char> {
    "[stderr]"@
}

/// What a line says once surrounding whitespace and a leading error-stream
/// tag are taken off.
pub open spec fn line_content(line: Seq<char>) -> Seq<char> {
    let trimmed = trim(line);
    if has_prefix(trimmed, stderr_tag()) {
        trim_start(trimmed.skip(stderr_tag().len() as int))
    } else {
        trimmed
    }
}

/// Whether `content`, folded to lower case, holds one of the severity
/// markers.
pub open spec fn has_marker(content: Seq<char>) -> bool {
    let folded = lower(content);
    contains(folded, "error"@) || contains(folded, "critical"@) || contains(folded, "fatal"@)
        || contains(folded, "panic"@) || contains(folded, "traceback"@) || contains(
        folded,
        "exception"@,
    )
}

/// Whether `line` counts as an error: its content holds, in any mix of upper
/// and lower case, one of `error`, `critical`, `fatal`, `panic`, `traceback`
/// and `exception`.
pub open spec fn is_error_line(line: Seq<char>) -> bool {
    has_marker(line_content(line))
}

/// Whether `line` counts as an error.
pub fn line_has_error(line: &str) -> (b: bool)
    ensures
        b == is_error_line(line@),
{
    let v = chars_of(line);
    let (a, end) = trim_bounds(&v, 0, v.len());
    let tag = chars_of("[stderr]");
    proof {
        reveal_strlit("[stderr]");
        assert(v@.subrange(0, v.len() as int) =~= v@);
    }
    let ghost trimmed = v@.subrange(a as int, end as int);
    let start = if starts_with(&v, a, end, &tag) {
        let from = a + 8;
        let r = skip_whitespace(&v, from, end);
        proof {
            let rest = v@.subrange(from as int, end as int);
            assert(trimmed.skip(8) =~= rest);
            assert(rest.skip(r - from) =~= v@.subrange(r as int, end as int));
        }
        r
    } else {
        a
    };
    assert(v@.subrange(start as int, end as int) == line_content(line@));
    let m0 = chars_of("error");
    if contains_folded(&v, start, end, &m0) {
        return true;
    }
    let m1 = chars_of("critical");
    if contains_folded(&v, start, end, &m1) {
        return true;
    }
    let m2 = chars_of("fatal");
    if contains_folded(&v, start, end, &m2) {
        return true;
    }
    let m3 = chars_of("panic");
    if contains_folded(&v, start, end, &m3) {
        return true;
    }
    let m4 = chars_of("traceback");
    if contains_folded(&v, start, end, &m4) {
        return true;
    }
    let m5 = chars_of("exception");
    contains_folded(&v, start, end, &m5)
}

} // verus!
