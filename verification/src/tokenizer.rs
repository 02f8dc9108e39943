//! Splitting a command line into a program and its arguments without a shell.
//!
//! Fields are separated by whitespace outside double quotes. A double quote
//! opens or closes a quoted stretch and is not part of the field; `\"` stands
//! for a literal quote; any other backslash is kept. The shell operators
//! `|`, `&`, `<` and `>` are refused outside quotes, since no shell is there
//! to honour them.

use vstd::prelude::*;
use vstd::string::*;

use crate::text::{
    char_is_whitespace, chars_of, is_whitespace, leading_ws, lemma_blank_is_all_whitespace,
    lemma_leading_ws_is_a_run, lemma_trailing_ws_is_a_run, trailing_ws, trim,
};

verus! {

/// Why a command line was refused.
#[derive(Debug, Clone, Copy, PartialEq, Eq, Structural)]
pub enum TokenizeError {
    /// The line holds no field at all.
    Empty,
    /// A shell operator stands outside quotes.
    UnsupportedOperator,
    /// A quoted stretch is still open at the end of the line.
    UnclosedQuote,
}

/// The text shown for `e`.
pub open spec fn error_message(e: TokenizeError) -> Seq<char> {
    match e {
        TokenizeError::Empty => "Command is empty"@,
        TokenizeError::UnsupportedOperator =>
            "Shell operators are not supported without a shell. Use a script or remove operators."@,
        TokenizeError::UnclosedQuote => "Unclosed quote in command"@,
    }
}

impl TokenizeError {
    /// The text shown for this error.
    pub fn message(&self) -> (s: String)
        ensures
            s@ == error_message(*self),
    {
        match self {
            TokenizeError::Empty => String::from_str("Command is empty"),
            TokenizeError::UnsupportedOperator => String::from_str(
                "Shell operators are not supported without a shell. Use a script or remove operators.",
            ),
            TokenizeError::UnclosedQuote => String::from_str("Unclosed quote in command"),
        }
    }
}

/// Whether `c` is one of the shell operators that are refused outside quotes.
pub open spec fn is_operator(c: char) -> bool {
    c == '|' || c == '&' || c == '<' || c == '>'
}

/// The tokenizer's state after some prefix of the line.
pub struct Scan {
    /// The fields completed so far.
    pub fields: Seq<Seq<char>>,
    /// The field under construction.
    pub current: Seq<char>,
    /// Whether a quoted stretch is open.
    pub in_quotes: bool,
    /// Whether an operator was met outside quotes.
    pub failed: bool,
}

/// The state before the first character.
pub open spec fn scan_start() -> Scan {
    Scan { fields: Seq::empty(), current: Seq::empty(), in_quotes: false, failed: false }
}

/// The state after the character at `i`, given the state `st` before it.
///
/// A quote that directly follows a backslash does nothing here: the backslash
/// before it has already put the literal quote into the field.
pub open spec fn scan_step(st: Scan, s: Seq<char>, i: int) -> Scan {
    let c = s[i];
    if st.failed {
        st
    } else if c == '"' {
        if i > 0 && s[i - 1] == '\\' {
            st
        } else {
            Scan { in_quotes: !st.in_quotes, ..st }
        }
    } else if !st.in_quotes && is_operator(c) {
        Scan { failed: true, ..st }
    } else if !st.in_quotes && is_whitespace(c) {
        if st.current.len() > 0 {
            Scan { fields: st.fields.push(st.current), current: Seq::empty(), ..st }
        } else {
            st
        }
    } else if c == '\\' && i + 1 < s.len() && s[i + 1] == '"' {
        Scan { current: st.current.push('"'), ..st }
    } else {
        Scan { current: st.current.push(c), ..st }
    }
}

/// The state after the first `n` characters of `s`.
pub open spec fn scan(s: Seq<char>, n: int) -> Scan
    decreases n,
{
    if n <= 0 {
        scan_start()
    } else {
        scan_step(scan(s, n - 1), s, n - 1)
    }
}

/// What a line gives that ends in the state `st`.
///
/// An operator outside quotes is reported before anything else; then a quote
/// left open; then a line without any field.
pub open spec fn finished(st: Scan) -> Result<Seq<Seq<char>>, TokenizeError> {
    if st.failed {
        Err(TokenizeError::UnsupportedOperator)
    } else if st.in_quotes {
        Err(TokenizeError::UnclosedQuote)
    } else {
        let fields = if st.current.len() > 0 {
            st.fields.push(st.current)
        } else {
            st.fields
        };
        if fields.len() == 0 {
            Err(TokenizeError::Empty)
        } else {
            Ok(fields)
        }
    }
}

/// The fields of the command line `s`, or the reason why it is refused.
pub open spec fn tokenize(s: Seq<char>) -> Result<Seq<Seq<char>>, TokenizeError> {
    finished(scan(s, s.len() as int))
}

/// The contents of a list of strings.
pub open spec fn views(v: Seq<String>) -> Seq<Seq<char>> {
    Seq::new(v.len(), |i: int| v[i]@)
}

/// Once an operator was met outside quotes, the scan stays failed.
pub proof fn lemma_failed_is_final(s: Seq<char>, m: int, n: int)
    requires
        0 <= m <= n,
        scan(s, m).failed,
    ensures
        scan(s, n).failed,
    decreases n - m,
{
    if m < n {
        lemma_failed_is_final(s, m, n - 1);
    }
}

/// Splits `command` into its fields.
pub fn tokenize_command(command: &str) -> (r: Result<Vec<String>, TokenizeError>)
    ensures
        match tokenize(command@) {
            Ok(fields) => r is Ok && views(r->Ok_0@) == fields,
            Err(e) => r == Err::<Vec<String>, TokenizeError>(e),
        },
{
    let chars = chars_of(command);
    let ghost s = command@;
    let n = chars.len();
    let mut fields: Vec<String> = Vec::new();
    let mut current = String::new();
    let mut in_quotes = false;
    let mut i: usize = 0;
    assert(views(fields@) =~= Seq::<Seq<char>>::empty());
    while i < n
        invariant
            s == command@,
            chars@ == s,
            n == s.len(),
            i <= n,
            scan(s, i as int) == (Scan {
                fields: views(fields@),
                current: current@,
                in_quotes,
                failed: false,
            }),
            i < n && s[i as int] == '"' ==> i == 0 || s[i - 1] != '\\',
        decreases n - i,
    {
        let c = chars[i];
        let ghost before = scan(s, i as int);
        assert(scan(s, i + 1) == scan_step(before, s, i as int));
        if c == '"' {
            in_quotes = !in_quotes;
            i += 1;
        } else if !in_quotes && (c == '|' || c == '&' || c == '<' || c == '>') {
            proof {
                lemma_failed_is_final(s, i + 1, n as int);
            }
            return Err(TokenizeError::UnsupportedOperator);
        } else if !in_quotes && char_is_whitespace(c) {
            if !current.as_str().is_empty() {
                let ghost old_fields = fields@;
                fields.push(current);
                assert(views(fields@) =~= views(old_fields).push(current@));
                current = String::new();
            }
            i += 1;
        } else if c == '\\' {
            if i + 1 < n && chars[i + 1] == '"' {
                current.push('"');
                assert(scan(s, i + 2) == scan_step(scan(s, i + 1), s, i + 1));
                i += 2;
            } else {
                current.push('\\');
                i += 1;
            }
        } else {
            current.push(c);
            i += 1;
        }
    }
    if in_quotes {
        return Err(TokenizeError::UnclosedQuote);
    }
    if !current.as_str().is_empty() {
        let ghost old_fields = fields@;
        fields.push(current);
        assert(views(fields@) =~= views(old_fields).push(current@));
    }
    if fields.len() == 0 {
        return Err(TokenizeError::Empty);
    }
    Ok(fields)
}

/// Splits `command` into the program, which is its first field, and the
/// arguments, which are the others; a refused line gives the error's text.
pub fn parse_command(command: &str) -> (r: Result<(String, Vec<String>), String>)
    ensures
        match tokenize(command@) {
            Ok(fields) => r is Ok && r->Ok_0.0@ == fields[0] && views(r->Ok_0.1@) == fields.skip(1),
            Err(e) => r is Err && r->Err_0@ == error_message(e),
        },
{
    match tokenize_command(command) {
        Ok(mut fields) => {
            let ghost all = fields@;
            let program = fields.remove(0);
            assert(views(fields@) =~= views(all).skip(1));
            Ok((program, fields))
        },
        Err(e) => Err(e.message()),
    }
}

/// Whether the quote at `j` opens or closes a quoted stretch: it does unless a
/// backslash stands directly before it.
pub open spec fn is_toggle(s: Seq<char>, j: int) -> bool {
    s[j] == '"' && (j == 0 || s[j - 1] != '\\')
}

/// How many quotes among the first `n` characters open or close a quoted
/// stretch.
pub open spec fn toggles(s: Seq<char>, n: int) -> nat
    decreases n,
{
    if n <= 0 {
        0
    } else if is_toggle(s, n - 1) {
        toggles(s, n - 1) + 1
    } else {
        toggles(s, n - 1)
    }
}

/// Whether position `i` of `s` lies inside a quoted stretch.
pub open spec fn quoted_at(s: Seq<char>, i: int) -> bool {
    toggles(s, i) % 2 == 1
}

/// Whether some shell operator of `s` stands outside quotes.
pub open spec fn has_unquoted_operator(s: Seq<char>) -> bool {
    exists|i: int| 0 <= i < s.len() && is_operator(#[trigger] s[i]) && !quoted_at(s, i)
}

/// Whether a quoted stretch of `s` is still open at its end.
pub open spec fn has_unterminated_quote(s: Seq<char>) -> bool {
    quoted_at(s, s.len() as int)
}

/// A word that needs no quoting: not empty, and free of whitespace, quotes
/// and shell operators.
pub open spec fn is_plain_word(w: Seq<char>) -> bool {
    w.len() > 0 && forall|k: int|
        0 <= k < w.len() ==> !is_whitespace(#[trigger] w[k]) && w[k] != '"' && !is_operator(w[k])
}

/// `words` written one after the other with one space between neighbours.
pub open spec fn join_words(words: Seq<Seq<char>>) -> Seq<char>
    decreases words.len(),
{
    if words.len() == 0 {
        Seq::empty()
    } else if words.len() == 1 {
        words[0]
    } else {
        join_words(words.drop_last()) + seq![' '] + words.last()
    }
}

/// As long as the scan has not failed, it is inside quotes exactly where an
/// odd number of quotes has toggled.
pub proof fn lemma_scan_quote_state(s: Seq<char>, n: int)
    requires
        0 <= n <= s.len(),
        !scan(s, n).failed,
    ensures
        scan(s, n).in_quotes == quoted_at(s, n),
    decreases n,
{
    if n > 0 {
        if scan(s, n - 1).failed {
            lemma_failed_is_final(s, n - 1, n);
        }
        lemma_scan_quote_state(s, n - 1);
    }
}

/// Without an operator outside quotes the scan never fails.
pub proof fn lemma_scan_never_fails(s: Seq<char>, n: int)
    requires
        0 <= n <= s.len(),
        !has_unquoted_operator(s),
    ensures
        !scan(s, n).failed,
    decreases n,
{
    if n > 0 {
        lemma_scan_never_fails(s, n - 1);
        lemma_scan_quote_state(s, n - 1);
        if scan(s, n).failed {
            assert(is_operator(s[n - 1]) && !quoted_at(s, n - 1));
        }
    }
}

/// A command line with a shell operator outside quotes is refused for that
/// operator, whatever else it holds.
pub proof fn law_unquoted_operator_is_refused(s: Seq<char>)
    requires
        has_unquoted_operator(s),
    ensures
        tokenize(s) == Err::<Seq<Seq<char>>, TokenizeError>(TokenizeError::UnsupportedOperator),
{
    let i = choose|i: int| 0 <= i < s.len() && is_operator(#[trigger] s[i]) && !quoted_at(s, i);
    if scan(s, i).failed {
        lemma_failed_is_final(s, i, s.len() as int);
    } else {
        lemma_scan_quote_state(s, i);
        assert(scan(s, i + 1) == scan_step(scan(s, i), s, i));
        lemma_failed_is_final(s, i + 1, s.len() as int);
    }
}

/// A command line whose last quoted stretch is never closed, and which has no
/// operator outside quotes, is refused for the open quote.
pub proof fn law_unterminated_quote_is_refused(s: Seq<char>)
    requires
        has_unterminated_quote(s),
        !has_unquoted_operator(s),
    ensures
        tokenize(s) == Err::<Seq<Seq<char>>, TokenizeError>(TokenizeError::UnclosedQuote),
{
    lemma_scan_never_fails(s, s.len() as int);
    lemma_scan_quote_state(s, s.len() as int);
}

/// On lines without any quote, the scan of a prefix does not depend on what
/// follows the prefix.
proof fn lemma_scan_prefix(a: Seq<char>, b: Seq<char>, n: int)
    requires
        0 <= n <= a.len(),
        n <= b.len(),
        a.take(n) == b.take(n),
        forall|k: int| 0 <= k < a.len() ==> a[k] != '"',
        forall|k: int| 0 <= k < b.len() ==> b[k] != '"',
    ensures
        scan(a, n) == scan(b, n),
    decreases n,
{
    if n > 0 {
        assert(a.take(n - 1) =~= a.take(n).take(n - 1));
        assert(b.take(n - 1) =~= b.take(n).take(n - 1));
        lemma_scan_prefix(a, b, n - 1);
        assert(a[n - 1] == a.take(n)[n - 1]);
        assert(b[n - 1] == b.take(n)[n - 1]);
    }
}

/// Scanning across characters that are neither whitespace, quotes nor
/// operators, outside quotes, adds them to the field under construction.
proof fn lemma_scan_word(s: Seq<char>, start: int, k: int)
    requires
        0 <= start,
        0 <= k,
        start + k <= s.len(),
        forall|j: int| 0 <= j < s.len() ==> s[j] != '"',
        forall|j: int|
            start <= j < start + k ==> !is_whitespace(#[trigger] s[j]) && !is_operator(s[j]),
        !scan(s, start).failed,
        !scan(s, start).in_quotes,
    ensures
        scan(s, start + k) == (Scan {
            current: scan(s, start).current + s.subrange(start, start + k),
            ..scan(s, start)
        }),
    decreases k,
{
    if k == 0 {
        assert(scan(s, start).current + s.subrange(start, start) =~= scan(s, start).current);
    } else {
        lemma_scan_word(s, start, k - 1);
        assert(scan(s, start + k) == scan_step(scan(s, start + k - 1), s, start + k - 1));
        assert(scan(s, start).current + s.subrange(start, start + k) =~= (scan(s, start).current
            + s.subrange(start, start + k - 1)).push(s[start + k - 1]));
    }
}

/// Plain words joined by spaces hold no quote.
proof fn lemma_join_has_no_quote(words: Seq<Seq<char>>)
    requires
        forall|i: int| 0 <= i < words.len() ==> is_plain_word(#[trigger] words[i]),
    ensures
        forall|k: int| 0 <= k < join_words(words).len() ==> join_words(words)[k] != '"',
    decreases words.len(),
{
    let s = join_words(words);
    if words.len() >= 2 {
        let front = words.drop_last();
        let p = join_words(front);
        let last = words.last();
        assert forall|i: int| 0 <= i < front.len() implies is_plain_word(#[trigger] front[i]) by {
            assert(front[i] == words[i]);
        }
        lemma_join_has_no_quote(front);
        assert(is_plain_word(words[words.len() - 1]));
        assert forall|k: int| 0 <= k < s.len() implies s[k] != '"' by {
            if k < p.len() {
                assert(s[k] == p[k]);
            } else if k == p.len() {
                assert(s[k] == ' ');
            } else {
                assert(s[k] == last[k - p.len() - 1]);
            }
        }
    } else if words.len() == 1 {
        assert(is_plain_word(words[0]));
    }
}

/// After plain words joined by spaces, all but the last are complete fields
/// and the last is under construction.
proof fn lemma_scan_joined_words(words: Seq<Seq<char>>)
    requires
        words.len() > 0,
        forall|i: int| 0 <= i < words.len() ==> is_plain_word(#[trigger] words[i]),
    ensures
        scan(join_words(words), join_words(words).len() as int) == (Scan {
            fields: words.drop_last(),
            current: words.last(),
            in_quotes: false,
            failed: false,
        }),
    decreases words.len(),
{
    let s = join_words(words);
    let last = words.last();
    assert(is_plain_word(words[words.len() - 1]));
    lemma_join_has_no_quote(words);
    if words.len() == 1 {
        lemma_scan_word(s, 0, s.len() as int);
        assert(s.subrange(0, s.len() as int) =~= s);
        assert(Seq::<char>::empty() + s =~= s);
        assert(words.drop_last() =~= Seq::<Seq<char>>::empty());
    } else {
        let front = words.drop_last();
        let p = join_words(front);
        let m = p.len() as int;
        lemma_scan_joined_words(front);
        lemma_join_has_no_quote(front);
        assert(s == p + seq![' '] + last);
        assert(s.take(m) =~= p.take(m));
        lemma_scan_prefix(s, p, m);
        assert(is_plain_word(front[front.len() - 1]));
        assert(s[m] == ' ');
        assert(scan(s, m + 1) == scan_step(scan(s, m), s, m));
        assert(front.drop_last().push(front.last()) =~= front);
        lemma_scan_word(s, m + 1, last.len() as int);
        assert(s.subrange(m + 1, m + 1 + last.len()) =~= last);
        assert(Seq::<char>::empty() + last =~= last);
    }
}

/// Words that need no quoting, written with one space between neighbours,
/// are split into exactly those words again.
pub proof fn law_plain_words_round_trip(words: Seq<Seq<char>>)
    requires
        words.len() > 0,
        forall|i: int| 0 <= i < words.len() ==> is_plain_word(#[trigger] words[i]),
    ensures
        tokenize(join_words(words)) == Ok::<Seq<Seq<char>>, TokenizeError>(words),
{
    lemma_scan_joined_words(words);
    assert(is_plain_word(words[words.len() - 1]));
    assert(words.drop_last().push(words.last()) =~= words);
}

/// A command line whose quotes are all closed and which has no operator
/// outside quotes is split into its fields, unless it holds no field at all.
pub proof fn law_balanced_line_is_split(s: Seq<char>)
    requires
        !has_unterminated_quote(s),
        !has_unquoted_operator(s),
    ensures
        tokenize(s) is Ok || tokenize(s) == Err::<Seq<Seq<char>>, TokenizeError>(
            TokenizeError::Empty,
        ),
        tokenize(s) is Ok ==> tokenize(s)->Ok_0.len() > 0,
{
    lemma_scan_never_fails(s, s.len() as int);
    lemma_scan_quote_state(s, s.len() as int);
}

/// Across whitespace alone the scan stays where it started.
proof fn lemma_scan_blank(s: Seq<char>, n: int)
    requires
        0 <= n <= s.len(),
        forall|k: int| 0 <= k < n ==> is_whitespace(#[trigger] s[k]),
    ensures
        scan(s, n) == scan_start(),
    decreases n,
{
    if n > 0 {
        lemma_scan_blank(s, n - 1);
        assert(is_whitespace(s[n - 1]));
    }
}

/// A command line that is empty once the whitespace around it is taken off
/// is refused as empty.
pub proof fn law_blank_line_is_refused(s: Seq<char>)
    requires
        trim(s).len() == 0,
    ensures
        tokenize(s) == Err::<Seq<Seq<char>>, TokenizeError>(TokenizeError::Empty),
{
    lemma_blank_is_all_whitespace(s);
    lemma_scan_blank(s, s.len() as int);
}

/// A stretch of a line that begins where the scan is at its start, not
/// behind a backslash, and ends not before a quote, is scanned as if it
/// stood alone.
proof fn lemma_scan_of_stretch(s: Seq<char>, a: int, b: int, k: int)
    requires
        0 <= a <= b <= s.len(),
        0 <= k <= b - a,
        scan(s, a) == scan_start(),
        a == 0 || s[a - 1] != '\\',
        b == s.len() || s[b] != '"',
    ensures
        scan(s.subrange(a, b), k) == scan(s, a + k),
    decreases k,
{
    if k > 0 {
        lemma_scan_of_stretch(s, a, b, k - 1);
        let u = s.subrange(a, b);
        assert(u[k - 1] == s[a + k - 1]);
        if k - 1 > 0 {
            assert(u[k - 2] == s[a + k - 2]);
        }
        if k < u.len() {
            assert(u[k] == s[a + k]);
        }
        assert(scan(u, k) == scan_step(scan(u, k - 1), u, k - 1));
        assert(scan(s, a + k) == scan_step(scan(s, a + k - 1), s, a + k - 1));
    }
}

/// Whitespace at the end of a line does not change what the line gives.
proof fn lemma_scan_of_trailing_blank(s: Seq<char>, b: int, n: int)
    requires
        0 <= b <= n <= s.len(),
        forall|k: int| b <= k < n ==> is_whitespace(#[trigger] s[k]),
    ensures
        finished(scan(s, n)) == finished(scan(s, b)),
    decreases n - b,
{
    if b < n {
        lemma_scan_of_trailing_blank(s, b, n - 1);
        assert(is_whitespace(s[n - 1]));
        let st = scan(s, n - 1);
        assert(scan(s, n) == scan_step(st, s, n - 1));
        if !st.failed && !st.in_quotes && st.current.len() > 0 {
            assert(st.fields.push(st.current).len() > 0);
        }
    }
}

/// Whitespace around a command line does not count: the line gives what it
/// gives without it.
pub proof fn law_surrounding_whitespace_is_ignored(s: Seq<char>)
    ensures
        tokenize(trim(s)) == tokenize(s),
{
    lemma_leading_ws_is_a_run(s);
    let a = leading_ws(s) as int;
    let rest = s.skip(a);
    lemma_trailing_ws_is_a_run(rest);
    let b = s.len() - trailing_ws(rest);
    assert(trim(s) =~= s.subrange(a, b));
    lemma_scan_blank(s, a);
    assert forall|k: int| b <= k < s.len() implies is_whitespace(#[trigger] s[k]) by {
        assert(s[k] == rest[k - a]);
    }
    if a > 0 {
        assert(is_whitespace(s[a - 1]));
    }
    if b < s.len() {
        assert(is_whitespace(s[b]));
    }
    lemma_scan_of_stretch(s, a, b, b - a);
    lemma_scan_of_trailing_blank(s, b, s.len() as int);
}

} // verus!
