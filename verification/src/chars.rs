//! Character classes and line boundaries.
use vstd::prelude::*;
use vstd::slice::slice_index_get;

verus! {

/// What `char::is_whitespace` answers for `c`.
pub uninterp spec fn whitespace(c: char) -> bool;

/// What `char::is_alphanumeric` answers for `c`.
pub uninterp spec fn alphanumeric(c: char) -> bool;

/// Calls `char::is_whitespace`, which tells whether `c` has the Unicode property
/// `White_Space`. The answer depends on `c` alone; it is named, not spelt out.
#[verifier::external_body]
pub(crate) fn is_whitespace(c: char) -> (b: bool)
    ensures
        b == whitespace(c),
{
    c.is_whitespace()
}

/// Calls `char::is_alphanumeric`, which tells whether `c` is a letter or a digit in
/// Unicode's sense. The answer depends on `c` alone; it is named, not spelt out.
#[verifier::external_body]
pub(crate) fn is_alphanumeric(c: char) -> (b: bool)
    ensures
        b == alphanumeric(c),
{
    c.is_alphanumeric()
}

/// The characters that end a line: LF, VT, FF, CR, NEL, LS and PS.
pub open spec fn line_break(c: char) -> bool {
    c == '\n' || c == '\x0B' || c == '\x0C' || c == '\r' || c == '\u{0085}' || c == '\u{2028}'
        || c == '\u{2029}'
}

/// Whether a character ends a line.
pub fn is_newline(character: char) -> (b: bool)
    ensures
        b == line_break(character),
{
    character == '\n' || character == '\x0B' || character == '\x0C' || character == '\r'
        || character == '\u{0085}' || character == '\u{2028}' || character == '\u{2029}'
}

/// The number of line boundaries in `s` from index `i` on. A CR directly followed
/// by an LF is one boundary.
pub open spec fn newlines_from(s: Seq<char>, i: int) -> nat
    decreases s.len() - i,
{
    if i < 0 || i >= s.len() {
        0
    } else if !line_break(s[i]) {
        newlines_from(s, i + 1)
    } else if s[i] == '\r' && i + 1 < s.len() && s[i + 1] == '\n' {
        1 + newlines_from(s, i + 2)
    } else {
        1 + newlines_from(s, i + 1)
    }
}

/// The number of line boundaries in `s`.
pub open spec fn newlines(s: Seq<char>) -> nat {
    newlines_from(s, 0)
}

/// Counts the line boundaries in `s`.
pub fn count_newlines(s: &[char]) -> (n: usize)
    ensures
        n == newlines(s@),
{
    let mut n: usize = 0;
    let mut i: usize = 0;
    while i < s.len()
        invariant
            i <= s.len(),
            n <= i,
            n + newlines_from(s@, i as int) == newlines(s@),
        decreases s.len() - i,
    {
        let c = *slice_index_get(s, i);
        if is_newline(c) {
            if c == '\r' && i + 1 < s.len() && *slice_index_get(s, i + 1) == '\n' {
                i = i + 1;
            }
            n = n + 1;
        }
        i = i + 1;
    }
    n
}

} // verus!
