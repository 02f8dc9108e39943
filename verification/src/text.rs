//! Character-level helpers on strings: whitespace, ASCII case folding,
//! trimming, prefix and substring tests, decimal rendering.

use vstd::prelude::*;
use vstd::string::*;



verus! {

/// `String::push` appends one character at the end of the string and leaves
/// the rest as it was.
pub assume_specification[ String::push ](s: &mut String, ch: char)
    ensures
        final(s)@ == old(s)@.push(ch),
;

/// Whether `c` carries the Unicode `White_Space` property.
pub open spec fn is_whitespace(c: char) -> bool {
    let n = c as u32;
    (0x09 <= n && n <= 0x0D) || n == 0x20 || n == 0x85 || n == 0xA0 || n == 0x1680 || (0x2000 <= n
        && n <= 0x200A) || n == 0x2028 || n == 0x2029 || n == 0x202F || n == 0x205F || n == 0x3000
}

/// Tests `c` for the Unicode `White_Space` property.
pub fn char_is_whitespace(c: char) -> (b: bool)
    ensures
        b == is_whitespace(c),
{
    let n: u32 = c as u32;
    (0x09 <= n && n <= 0x0D) || n == 0x20 || n == 0x85 || n == 0xA0 || n == 0x1680 || (0x2000 <= n
        && n <= 0x200A) || n == 0x2028 || n == 0x2029 || n == 0x202F || n == 0x205F || n == 0x3000
}

/// `c` with an ASCII capital letter replaced by its small letter.
pub open spec fn to_lower(c: char) -> char {
    if 'A' <= c && c <= 'Z' {
        ((c as u8) + 32) as u8 as char
    } else {
        c
    }
}

/// Folds an ASCII capital letter to its small letter; any other character is
/// returned as it is.
pub fn char_to_lower(c: char) -> (r: char)
    ensures
        r == to_lower(c),
{
    if 'A' <= c && c <= 'Z' {
        let b: u8 = c as u8;
        (b + 32) as char
    } else {
        c
    }
}

/// `s` with every character folded by [`to_lower`].
pub open spec fn lower(s: Seq<char>) -> Seq<char> {
    Seq::new(s.len(), |i: int| to_lower(s[i]))
}

/// How many whitespace characters `s` begins with.
pub open spec fn leading_ws(s: Seq<char>) -> nat
    decreases s.len(),
{
    if s.len() > 0 && is_whitespace(s[0]) {
        1 + leading_ws(s.skip(1))
    } else {
        0
    }
}

/// How many whitespace characters `s` ends with.
pub open spec fn trailing_ws(s: Seq<char>) -> nat
    decreases s.len(),
{
    if s.len() > 0 && is_whitespace(s.last()) {
        1 + trailing_ws(s.drop_last())
    } else {
        0
    }
}

/// `s` without its leading whitespace.
pub open spec fn trim_start(s: Seq<char>) -> Seq<char> {
    s.skip(leading_ws(s) as int)
}

/// `s` without its trailing whitespace.
pub open spec fn trim_end(s: Seq<char>) -> Seq<char> {
    s.take(s.len() - trailing_ws(s))
}

/// `s` without its leading and trailing whitespace.
pub open spec fn trim(s: Seq<char>) -> Seq<char> {
    trim_end(trim_start(s))
}

/// Whether `s` begins with `p`.
pub open spec fn has_prefix(s: Seq<char>, p: Seq<char>) -> bool {
    p.len() <= s.len() && s.take(p.len() as int) == p
}

/// Whether `needle` occurs in `hay` at offset `i`.
pub open spec fn occurs_at(hay: Seq<char>, needle: Seq<char>, i: int) -> bool {
    0 <= i && i + needle.len() <= hay.len() && hay.subrange(i, i + needle.len()) == needle
}

/// Whether `needle` occurs somewhere in `hay`.
pub open spec fn contains(hay: Seq<char>, needle: Seq<char>) -> bool {
    exists|i: int| occurs_at(hay, needle, i)
}

/// The decimal digit `d` as a character.
pub open spec fn digit(d: nat) -> char {
    if d == 0 {
        '0'
    } else if d == 1 {
        '1'
    } else if d == 2 {
        '2'
    } else if d == 3 {
        '3'
    } else if d == 4 {
        '4'
    } else if d == 5 {
        '5'
    } else if d == 6 {
        '6'
    } else if d == 7 {
        '7'
    } else if d == 8 {
        '8'
    } else {
        '9'
    }
}

/// `n` in decimal, most significant digit first, without leading zeros.
pub open spec fn decimal(n: nat) -> Seq<char>
    decreases n,
{
    if n < 10 {
        seq![digit(n)]
    } else {
        decimal(n / 10).push(digit(n % 10))
    }
}

/// The leading whitespace of `s` is the longest run of whitespace at its
/// start.
pub proof fn lemma_leading_ws(s: Seq<char>, n: int)
    requires
        0 <= n <= s.len(),
        forall|k: int| 0 <= k < n ==> is_whitespace(#[trigger] s[k]),
        n == s.len() || !is_whitespace(s[n]),
    ensures
        leading_ws(s) == n,
    decreases n,
{
    if n > 0 {
        let t = s.skip(1);
        assert forall|k: int| 0 <= k < n - 1 implies is_whitespace(#[trigger] t[k]) by {
            assert(t[k] == s[k + 1]);
        }
        lemma_leading_ws(t, n - 1);
    }
}

/// The trailing whitespace of `s` is the longest run of whitespace at its
/// end.
pub proof fn lemma_trailing_ws(s: Seq<char>, n: int)
    requires
        0 <= n <= s.len(),
        forall|k: int| s.len() - n <= k < s.len() ==> is_whitespace(#[trigger] s[k]),
        n == s.len() || !is_whitespace(s[s.len() - n - 1]),
    ensures
        trailing_ws(s) == n,
    decreases n,
{
    if n > 0 {
        let t = s.drop_last();
        assert forall|k: int| t.len() - (n - 1) <= k < t.len() implies is_whitespace(
            #[trigger] t[k],
        ) by {
            assert(t[k] == s[k]);
        }
        lemma_trailing_ws(t, n - 1);
    }
}

/// The characters of `s`, in order.
pub fn chars_of(s: &str) -> (v: Vec<char>)
    ensures
        v@ == s@,
{
    let mut v: Vec<char> = Vec::new();
    for c in it: s.chars()
        invariant
            v@ == it.seq().take(it.index() as int),
            it.seq() == s@,
    {
        v.push(c);
    }
    v
}

/// The string made of `v[from..to]`.
pub fn string_of(v: &Vec<char>, from: usize, to: usize) -> (s: String)
    requires
        from <= to <= v.len(),
    ensures
        s@ == v@.subrange(from as int, to as int),
{
    let mut s = String::new();
    let mut i: usize = from;
    while i < to
        invariant
            from <= i <= to <= v.len(),
            s@ == v@.subrange(from as int, i as int),
        decreases to - i,
    {
        s.push(v[i]);
        i += 1;
    }
    s
}

/// The first index at or after `from` that holds no whitespace, or `to`.
pub fn skip_whitespace(v: &Vec<char>, from: usize, to: usize) -> (r: usize)
    requires
        from <= to <= v.len(),
    ensures
        from <= r <= to,
        r == from + leading_ws(v@.subrange(from as int, to as int)),
{
    let mut i: usize = from;
    while i < to && char_is_whitespace(v[i])
        invariant
            from <= i <= to <= v.len(),
            forall|k: int| from <= k < i ==> is_whitespace(#[trigger] v@[k]),
        decreases to - i,
    {
        i += 1;
    }
    proof {
        lemma_leading_ws(v@.subrange(from as int, to as int), i - from);
    }
    i
}

/// The end of `v[from..to]` once its trailing whitespace is dropped.
pub fn skip_whitespace_back(v: &Vec<char>, from: usize, to: usize) -> (r: usize)
    requires
        from <= to <= v.len(),
    ensures
        from <= r <= to,
        r == to - trailing_ws(v@.subrange(from as int, to as int)),
{
    let mut i: usize = to;
    while i > from && char_is_whitespace(v[i - 1])
        invariant
            from <= i <= to <= v.len(),
            forall|k: int| i <= k < to ==> is_whitespace(#[trigger] v@[k]),
        decreases i,
    {
        i -= 1;
    }
    proof {
        lemma_trailing_ws(v@.subrange(from as int, to as int), to - i);
    }
    i
}

/// The bounds of `v[from..to]` trimmed at both ends.
pub fn trim_bounds(v: &Vec<char>, from: usize, to: usize) -> (r: (usize, usize))
    requires
        from <= to <= v.len(),
    ensures
        from <= r.0 <= r.1 <= to,
        v@.subrange(r.0 as int, r.1 as int) == trim(v@.subrange(from as int, to as int)),
{
    let a = skip_whitespace(v, from, to);
    let b = skip_whitespace_back(v, a, to);
    proof {
        let s = v@.subrange(from as int, to as int);
        assert(trim_start(s) == v@.subrange(a as int, to as int));
        assert(trim_end(v@.subrange(a as int, to as int)) == v@.subrange(a as int, b as int));
    }
    (a, b)
}

/// Whether `v[from..to]` begins with `p`.
pub fn starts_with(v: &Vec<char>, from: usize, to: usize, p: &Vec<char>) -> (b: bool)
    requires
        from <= to <= v.len(),
    ensures
        b == has_prefix(v@.subrange(from as int, to as int), p@),
{
    if p.len() > to - from {
        return false;
    }
    let ghost s = v@.subrange(from as int, to as int);
    let mut i: usize = 0;
    while i < p.len()
        invariant
            from <= to <= v.len(),
            p.len() <= to - from,
            i <= p.len(),
            s == v@.subrange(from as int, to as int),
            forall|k: int| 0 <= k < i ==> s[k] == p@[k],
        decreases p.len() - i,
    {
        if v[from + i] != p[i] {
            assert(s.take(p.len() as int)[i as int] != p@[i as int]);
            return false;
        }
        i += 1;
    }
    assert(s.take(p.len() as int) =~= p@);
    true
}

/// Whether `needle` occurs in `v[from..to]` once that range is folded to
/// lower case.
pub fn contains_folded(v: &Vec<char>, from: usize, to: usize, needle: &Vec<char>) -> (b: bool)
    requires
        from <= to <= v.len(),
    ensures
        b == contains(lower(v@.subrange(from as int, to as int)), needle@),
{
    let ghost hay = lower(v@.subrange(from as int, to as int));
    let n = needle.len();
    if n > to - from {
        assert forall|i: int| !occurs_at(hay, needle@, i) by {}
        return false;
    }
    let last: usize = to - from - n;
    let mut i: usize = 0;
    loop
        invariant
            from <= to <= v.len(),
            n == needle.len(),
            n <= to - from,
            last == to - from - n,
            i <= last,
            hay == lower(v@.subrange(from as int, to as int)),
            forall|k: int| 0 <= k < i ==> !occurs_at(hay, needle@, k),
        ensures
            forall|k: int| 0 <= k <= last ==> !occurs_at(hay, needle@, k),
        decreases last - i,
    {
        let mut j: usize = 0;
        let mut same = true;
        while j < n
            invariant_except_break
                same,
                forall|k: int| 0 <= k < j ==> hay[i + k] == needle@[k],
            invariant
                from <= to <= v.len(),
                n == needle.len(),
                n <= to - from,
                last == to - from - n,
                i <= last,
                j <= n,
                hay == lower(v@.subrange(from as int, to as int)),
            ensures
                same ==> j == n && forall|k: int| 0 <= k < n ==> hay[i + k] == needle@[k],
                !same ==> !occurs_at(hay, needle@, i as int),
            decreases n - j,
        {
            if char_to_lower(v[from + i + j]) != needle[j] {
                assert(hay.subrange(i as int, i + n)[j as int] != needle@[j as int]);
                same = false;
                break;
            }
            j += 1;
        }
        if same {
            assert(hay.subrange(i as int, i + n) =~= needle@);
            assert(occurs_at(hay, needle@, i as int));
            return true;
        }
        if i == last {
            break;
        }
        i += 1;
    }
    assert forall|k: int| !occurs_at(hay, needle@, k) by {}
    false
}

/// The decimal digit `d` as a character.
pub fn digit_char(d: u32) -> (c: char)
    requires
        d < 10,
    ensures
        c == digit(d as nat),
{
    if d == 0 {
        '0'
    } else if d == 1 {
        '1'
    } else if d == 2 {
        '2'
    } else if d == 3 {
        '3'
    } else if d == 4 {
        '4'
    } else if d == 5 {
        '5'
    } else if d == 6 {
        '6'
    } else if d == 7 {
        '7'
    } else if d == 8 {
        '8'
    } else {
        '9'
    }
}

/// Appends `n` in decimal to `s`.
pub fn push_decimal(s: &mut String, n: u32)
    ensures
        final(s)@ == old(s)@ + decimal(n as nat),
    decreases n,
{
    if n >= 10 {
        push_decimal(s, n / 10);
    }
    s.push(digit_char(n % 10));
}

/// Whether `a` and `b` hold the same characters.
pub fn str_eq(a: &str, b: &str) -> (r: bool)
    ensures
        r == (a@ == b@),
{
    let x = a.as_bytes();
    let y = b.as_bytes();
    proof {
        vstd::utf8::encode_utf8_decode_utf8(a@);
        vstd::utf8::encode_utf8_decode_utf8(b@);
    }
    if x.len() != y.len() {
        return false;
    }
    let mut i: usize = 0;
    while i < x.len()
        invariant
            x.len() == y.len(),
            i <= x.len(),
            x@ == a.spec_bytes(),
            y@ == b.spec_bytes(),
            forall|k: int| 0 <= k < i ==> x@[k] == y@[k],
        decreases x.len() - i,
    {
        if x[i] != y[i] {
            return false;
        }
        i += 1;
    }
    assert(x@ =~= y@);
    true
}

/// The leading whitespace of `s` lies within `s`, is whitespace throughout,
/// and ends before a character that is none.
pub proof fn lemma_leading_ws_is_a_run(s: Seq<char>)
    ensures
        leading_ws(s) <= s.len(),
        forall|k: int| 0 <= k < leading_ws(s) ==> is_whitespace(#[trigger] s[k]),
        leading_ws(s) < s.len() ==> !is_whitespace(s[leading_ws(s) as int]),
    decreases s.len(),
{
    if s.len() > 0 && is_whitespace(s[0]) {
        let t = s.skip(1);
        lemma_leading_ws_is_a_run(t);
        assert forall|k: int| 0 <= k < leading_ws(s) implies is_whitespace(#[trigger] s[k]) by {
            if k > 0 {
                assert(s[k] == t[k - 1]);
            }
        }
        if leading_ws(s) < s.len() {
            assert(s[leading_ws(s) as int] == t[leading_ws(t) as int]);
        }
    }
}

/// The trailing whitespace of `s` lies within `s` and is whitespace
/// throughout.
pub proof fn lemma_trailing_ws_is_a_run(s: Seq<char>)
    ensures
        trailing_ws(s) <= s.len(),
        forall|k: int| s.len() - trailing_ws(s) <= k < s.len() ==> is_whitespace(#[trigger] s[k]),
    decreases s.len(),
{
    if s.len() > 0 && is_whitespace(s.last()) {
        let t = s.drop_last();
        lemma_trailing_ws_is_a_run(t);
        assert forall|k: int| s.len() - trailing_ws(s) <= k < s.len() implies is_whitespace(
            #[trigger] s[k],
        ) by {
            if k < s.len() - 1 {
                assert(s[k] == t[k]);
            }
        }
    }
}

/// A string that trims to nothing holds whitespace only.
pub proof fn lemma_blank_is_all_whitespace(s: Seq<char>)
    requires
        trim(s).len() == 0,
    ensures
        forall|k: int| 0 <= k < s.len() ==> is_whitespace(#[trigger] s[k]),
{
    lemma_leading_ws_is_a_run(s);
    let t = trim_start(s);
    lemma_trailing_ws_is_a_run(t);
    if t.len() > 0 {
        assert(trailing_ws(t) == t.len());
        assert(is_whitespace(t[0]));
        assert(t[0] == s[leading_ws(s) as int]);
    }
}

} // verus!
