//! Text primitives over the character sequence of a string.

use vstd::prelude::*;
use vstd::string::StrSliceExecFns;
use vstd::utf8::{decode_utf8, valid_utf8};

verus! {

/// Whether `c` is a white-space character: one that Unicode marks as
/// `White_Space`.
pub open spec fn is_whitespace(c: char) -> bool {
    let u = c as u32;
    ||| 0x09 <= u <= 0x0D
    ||| u == 0x20
    ||| u == 0x85
    ||| u == 0xA0
    ||| u == 0x1680
    ||| 0x2000 <= u <= 0x200A
    ||| u == 0x2028
    ||| u == 0x2029
    ||| u == 0x202F
    ||| u == 0x205F
    ||| u == 0x3000
}

/// `s` without its trailing white space.
pub open spec fn trimmed_end(s: Seq<char>) -> Seq<char>
    decreases s.len(),
{
    if s.len() > 0 && is_whitespace(s.last()) {
        trimmed_end(s.drop_last())
    } else {
        s
    }
}

/// What trimming at the end leaves is the longest front part of `s` that
/// does not end in white space: all that is cut off is white space.
pub proof fn lemma_trimmed_end(s: Seq<char>)
    ensures
        trimmed_end(s).is_prefix_of(s),
        trimmed_end(s).len() > 0 ==> !is_whitespace(trimmed_end(s).last()),
        forall|i: int| trimmed_end(s).len() <= i < s.len() ==> is_whitespace(s[i]),
    decreases s.len(),
{
    if s.len() > 0 && is_whitespace(s.last()) {
        let front = s.drop_last();
        lemma_trimmed_end(front);
        assert forall|i: int| trimmed_end(s).len() <= i < s.len() implies is_whitespace(
            s[i],
        ) by {
            if i < front.len() {
                assert(s[i] == front[i]);
            }
        }
    }
}

/// `s` without its leading white space.
pub open spec fn trimmed_start(s: Seq<char>) -> Seq<char>
    decreases s.len(),
{
    if s.len() > 0 && is_whitespace(s.first()) {
        trimmed_start(s.drop_first())
    } else {
        s
    }
}

/// `s` without leading and trailing white space.
pub open spec fn trimmed(s: Seq<char>) -> Seq<char> {
    trimmed_end(trimmed_start(s))
}

/// Tests a character for white space.
pub fn is_space(c: char) -> (b: bool)
    ensures
        b == is_whitespace(c),
{
    let u: u32 = c as u32;
    (0x09 <= u && u <= 0x0D) || u == 0x20 || u == 0x85 || u == 0xA0 || u == 0x1680 || (0x2000 <= u
        && u <= 0x200A) || u == 0x2028 || u == 0x2029 || u == 0x202F || u == 0x205F || u == 0x3000
}

/// The characters of `s`, in order.
pub fn chars_of(s: &str) -> (v: Vec<char>)
    ensures
        v@ == s@,
{
    let mut v: Vec<char> = Vec::new();
    for c in it: s.chars()
        invariant
            it.seq() == s@,
            v@ == s@.take(it.index() as int),
    {
        v.push(c);
    }
    v
}

/// The length of `v` without its trailing white space.
fn trimmed_end_len(v: &Vec<char>) -> (n: usize)
    ensures
        n <= v@.len(),
        v@.take(n as int) == trimmed_end(v@),
{
    let mut n: usize = v.len();
    assert(v@.take(n as int) =~= v@);
    while n > 0 && is_space(v[n - 1])
        invariant
            n <= v@.len(),
            trimmed_end(v@.take(n as int)) == trimmed_end(v@),
        decreases n,
    {
        assert(v@.take(n as int).drop_last() =~= v@.take(n - 1));
        n = n - 1;
    }
    n
}

/// Removes trailing white space.
pub fn trim_end<'a>(s: &'a str) -> (r: &'a str)
    ensures
        r@ == trimmed_end(s@),
{
    let v = chars_of(s);
    let n = trimmed_end_len(&v);
    s.substring_char(0, n)
}

/// The number of leading white-space characters of `v`.
fn trimmed_start_skip(v: &Vec<char>) -> (n: usize)
    ensures
        n <= v@.len(),
        v@.skip(n as int) == trimmed_start(v@),
{
    let mut n: usize = 0;
    assert(v@.skip(0) =~= v@);
    while n < v.len() && is_space(v[n])
        invariant
            n <= v@.len(),
            trimmed_start(v@.skip(n as int)) == trimmed_start(v@),
        decreases v@.len() - n,
    {
        assert(v@.skip(n as int).drop_first() =~= v@.skip(n + 1));
        n = n + 1;
    }
    n
}

/// Removes leading and trailing white space.
pub fn trim<'a>(s: &'a str) -> (r: &'a str)
    ensures
        r@ == trimmed(s@),
{
    let v = chars_of(s);
    let from = trimmed_start_skip(&v);
    let rest = s.substring_char(from, v.len());
    trim_end(rest)
}

/// Whether `s` begins with `prefix`.
pub fn starts_with(s: &str, prefix: &str) -> (b: bool)
    ensures
        b == prefix@.is_prefix_of(s@),
{
    let v = chars_of(s);
    let p = chars_of(prefix);
    begins_at(&v, 0, &p)
}

/// Whether `pat` stands in `s` at position `at`.
pub open spec fn occurs_at(pat: Seq<char>, s: Seq<char>, at: int) -> bool {
    &&& 0 <= at
    &&& at + pat.len() <= s.len()
    &&& s.subrange(at, at + pat.len()) == pat
}

/// Whether `p` stands in `v` at position `at`.
fn begins_at(v: &Vec<char>, at: usize, p: &Vec<char>) -> (b: bool)
    requires
        at <= v@.len(),
    ensures
        b == occurs_at(p@, v@, at as int),
        at == 0 ==> b == p@.is_prefix_of(v@),
{
    if p.len() > v.len() - at {
        return false;
    }
    let mut k: usize = 0;
    while k < p.len()
        invariant
            at + p.len() <= v.len(),
            k <= p.len(),
            forall|j: int| 0 <= j < k ==> v@[at + j] == p@[j],
        decreases p@.len() - k,
    {
        if v[at + k] != p[k] {
            return false;
        }
        k = k + 1;
    }
    assert(v@.subrange(at as int, at + p@.len()) =~= p@);
    true
}

/// What follows `prefix` in `s`, if `s` begins with `prefix`.
pub open spec fn after_prefix(prefix: Seq<char>, s: Seq<char>) -> Option<Seq<char>> {
    if prefix.is_prefix_of(s) {
        Some(s.skip(prefix.len() as int))
    } else {
        None
    }
}

/// The part of `s` behind `prefix`, if `s` begins with `prefix`.
pub fn strip_prefix<'a>(s: &'a str, prefix: &str) -> (r: Option<&'a str>)
    ensures
        r.deep_view() == after_prefix(prefix@, s@),
{
    let v = chars_of(s);
    let p = chars_of(prefix);
    if begins_at(&v, 0, &p) {
        let rest = s.substring_char(p.len(), v.len());
        assert(rest@ =~= s@.skip(p@.len() as int));
        Some(rest)
    } else {
        None
    }
}

/// Whether two texts hold the same characters.
pub fn same(a: &str, b: &str) -> (r: bool)
    ensures
        r == (a@ == b@),
{
    let v = chars_of(a);
    let w = chars_of(b);
    let r = v.len() == w.len() && begins_at(&v, 0, &w);
    proof {
        if r {
            assert(v@.subrange(0, w@.len() as int) =~= v@);
        }
    }
    r
}

/// `s` after `pat` has been taken from its front as often as it stands there.
pub open spec fn without_leading(pat: Seq<char>, s: Seq<char>) -> Seq<char>
    decreases s.len(),
{
    if pat.len() > 0 && pat.is_prefix_of(s) {
        without_leading(pat, s.skip(pat.len() as int))
    } else {
        s
    }
}

/// Removes every leading repetition of `pat`.
pub fn trim_start_matches<'a>(s: &'a str, pat: &str) -> (r: &'a str)
    ensures
        r@ == without_leading(pat@, s@),
{
    let v = chars_of(s);
    let p = chars_of(pat);
    let mut from: usize = 0;
    assert(v@.skip(0) =~= v@);
    if p.len() > 0 {
        while begins_at(&v, from, &p)
            invariant
                from <= v.len(),
                p.len() > 0,
                without_leading(p@, v@.skip(from as int)) == without_leading(p@, v@),
            decreases v@.len() - from,
        {
            assert(v@.skip(from as int).skip(p@.len() as int) =~= v@.skip(from + p@.len()));
            from = from + p.len();
        }
        assert(v@.skip(from as int).len() >= p@.len() ==> v@.skip(from as int).subrange(
            0,
            p@.len() as int,
        ) =~= v@.subrange(from as int, from + p@.len()));
    }
    let rest = s.substring_char(from, v.len());
    rest
}

/// The position of the first `c` in `s`, or the length of `s`.
pub open spec fn first_of(c: char, s: Seq<char>) -> int
    decreases s.len(),
{
    if s.len() == 0 || s.first() == c {
        0
    } else {
        1 + first_of(c, s.drop_first())
    }
}

/// The position of the first `c` at or after `from`, or the length.
fn next_of(v: &Vec<char>, from: usize, c: char) -> (at: usize)
    requires
        from <= v.len(),
    ensures
        from <= at <= v.len(),
        at - from == first_of(c, v@.skip(from as int)),
{
    let mut at: usize = from;
    while at < v.len() && v[at] != c
        invariant
            from <= at <= v.len(),
            first_of(c, v@.skip(from as int)) == (at - from) + first_of(c, v@.skip(at as int)),
        decreases v.len() - at,
    {
        assert(v@.skip(at as int).drop_first() =~= v@.skip(at + 1));
        at = at + 1;
    }
    at
}

/// `line` without one carriage return at its end.
pub open spec fn without_return(line: Seq<char>) -> Seq<char> {
    if line.len() > 0 && line.last() == '\r' {
        line.drop_last()
    } else {
        line
    }
}

/// The lines of `s`. A line ends at a line feed, or at a carriage return
/// followed by a line feed; neither belongs to the line. What follows the last
/// line feed is a line only if it is not empty.
pub open spec fn lines_of(s: Seq<char>) -> Seq<Seq<char>>
    decreases s.len(),
{
    let at = first_of('\n', s);
    if s.len() == 0 {
        Seq::empty()
    } else if 0 <= at < s.len() {
        seq![without_return(s.take(at))] + lines_of(s.skip(at + 1))
    } else {
        seq![s]
    }
}

/// Splits `s` into its lines.
pub fn lines<'a>(s: &'a str) -> (r: Vec<&'a str>)
    ensures
        r.deep_view() == lines_of(s@),
{
    let v = chars_of(s);
    let mut out: Vec<&'a str> = Vec::new();
    let mut from: usize = 0;
    assert(v@.skip(0) =~= v@);
    while from < v.len()
        invariant
            from <= v.len(),
            v@ == s@,
            out.deep_view() + lines_of(v@.skip(from as int)) == lines_of(v@),
        decreases v.len() - from,
    {
        let at = next_of(&v, from, '\n');
        let ghost rest = v@.skip(from as int);
        if at < v.len() {
            let end = if at > from && v[at - 1] == '\r' {
                at - 1
            } else {
                at
            };
            let line = s.substring_char(from, end);
            assert(line@ =~= without_return(rest.take(at - from)));
            out.push(line);
            assert(rest.skip(at - from + 1) =~= v@.skip(at + 1));
            from = at + 1;
        } else {
            let line = s.substring_char(from, at);
            out.push(line);
            from = at;
        }
    }
    out
}

/// The pieces of `s` between the occurrences of `c`: one more than there are
/// occurrences.
pub open spec fn pieces(s: Seq<char>, c: char) -> Seq<Seq<char>>
    decreases s.len(),
{
    let at = first_of(c, s);
    if 0 <= at < s.len() {
        seq![s.take(at)] + pieces(s.skip(at + 1), c)
    } else {
        seq![s]
    }
}

/// Splits `s` at every `c`.
pub fn split<'a>(s: &'a str, c: char) -> (r: Vec<&'a str>)
    ensures
        r.deep_view() == pieces(s@, c),
{
    let v = chars_of(s);
    let mut out: Vec<&'a str> = Vec::new();
    let mut from: usize = 0;
    assert(v@.skip(0) =~= v@);
    loop
        invariant
            from <= v.len(),
            v@ == s@,
            out.deep_view() + pieces(v@.skip(from as int), c) == pieces(v@, c),
        decreases v.len() - from,
    {
        let at = next_of(&v, from, c);
        let ghost rest = v@.skip(from as int);
        let piece = s.substring_char(from, at);
        assert(piece@ =~= rest.take(at - from));
        out.push(piece);
        if at < v.len() {
            assert(rest.skip(at - from + 1) =~= v@.skip(at + 1));
            from = at + 1;
        } else {
            return out;
        }
    }
}

/// What stands in `s` before the first `c`, if `c` stands in `s`.
pub open spec fn before_first(s: Seq<char>, c: char) -> Option<Seq<char>> {
    let at = first_of(c, s);
    if 0 <= at < s.len() {
        Some(s.take(at))
    } else {
        None
    }
}

/// The part of `s` before the first `c`, if there is a `c`.
pub fn before<'a>(s: &'a str, c: char) -> (r: Option<&'a str>)
    ensures
        r.deep_view() == before_first(s@, c),
{
    let v = chars_of(s);
    assert(v@.skip(0) =~= v@);
    let at = next_of(&v, 0, c);
    if at < v.len() {
        Some(s.substring_char(0, at))
    } else {
        None
    }
}

/// The description of the error by which `bytes`, which are not UTF-8, are
/// refused as text.
pub uninterp spec fn utf8_error_text(bytes: Seq<u8>) -> Seq<char>;

/// Decodes bytes as UTF-8 text.
///
/// Calls `String::from_utf8`. The contract claims that well-formed UTF-8 is
/// accepted and gives the characters it encodes, and that anything else is
/// refused with an error whose description depends on the bytes alone.
#[verifier::external_body]
pub(crate) fn decode_text(bytes: Vec<u8>) -> (text: Result<String, String>)
    ensures
        match text {
            Ok(t) => valid_utf8(bytes@) && t@ == decode_utf8(bytes@),
            Err(e) => !valid_utf8(bytes@) && e@ == utf8_error_text(bytes@),
        },
{
    match String::from_utf8(bytes) {
        Ok(text) => Ok(text),
        Err(error) => Err(error.to_string()),
    }
}

} // verus!
