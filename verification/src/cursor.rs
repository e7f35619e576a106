//! Positions in the source text: character indices and the byte offsets they stand at.
use vstd::prelude::*;

verus! {

/// The number of bytes that a character takes in UTF-8.
pub open spec fn utf8_len(c: char) -> int {
    if (c as u32) < 0x80 {
        1
    } else if (c as u32) < 0x800 {
        2
    } else if (c as u32) < 0x10000 {
        3
    } else {
        4
    }
}

/// The byte offset at which the character with index `i` starts.
pub open spec fn byte_pos(s: Seq<char>, i: int) -> int
    decreases i,
{
    if i <= 0 {
        0
    } else {
        byte_pos(s, i - 1) + utf8_len(s[i - 1])
    }
}

/// The character with index `i`, if there is one.
pub open spec fn char_at(s: Seq<char>, i: int) -> Option<char> {
    if 0 <= i < s.len() {
        Some(s[i])
    } else {
        None
    }
}

/// True when the character with index `j` starts at byte offset `b`.
pub open spec fn starts_at(s: Seq<char>, j: int, b: int) -> bool {
    0 <= j < s.len() && byte_pos(s, j) == b
}

/// The character that starts at byte offset `b`, if one does.
pub open spec fn char_at_byte(s: Seq<char>, b: int) -> Option<char> {
    if exists|j: int| starts_at(s, j, b) {
        Some(s[choose|j: int| starts_at(s, j, b)])
    } else {
        None
    }
}

/// Byte offsets grow with the index, by at least one and at most four per character.
pub proof fn lemma_byte_pos_step(s: Seq<char>, i: int, j: int)
    requires
        0 <= i <= j,
    ensures
        j - i <= byte_pos(s, j) - byte_pos(s, i) <= 4 * (j - i),
    decreases j - i,
{
    if i < j {
        lemma_byte_pos_step(s, i, j - 1);
    }
}

/// The character found at index `j` is the one that starts at its byte offset.
pub proof fn lemma_char_at_byte_found(s: Seq<char>, j: int)
    requires
        0 <= j < s.len(),
    ensures
        char_at_byte(s, byte_pos(s, j)) == Some(s[j]),
{
    let b = byte_pos(s, j);
    assert(starts_at(s, j, b));
    let k = choose|k: int| starts_at(s, k, b);
    if k < j {
        lemma_byte_pos_step(s, k, j);
    } else if j < k {
        lemma_byte_pos_step(s, j, k);
    }
}

/// No character starts strictly between the starts of two neighbours, nor before
/// the first character or at or after the end.
pub proof fn lemma_char_at_byte_none(s: Seq<char>, j: int, b: int)
    requires
        0 <= j <= s.len(),
        (j == 0 || byte_pos(s, j - 1) < b) || b < 0,
        j == s.len() || b < byte_pos(s, j),
    ensures
        char_at_byte(s, b) == None::<char>,
{
    assert forall|k: int| !starts_at(s, k, b) by {
        if 0 <= k < s.len() {
            lemma_byte_pos_step(s, 0, k);
            if k < j {
                lemma_byte_pos_step(s, k, j - 1);
            } else {
                lemma_byte_pos_step(s, j, k);
            }
        }
    }
}

/// The number of bytes that `c` takes in UTF-8.
pub fn char_len(c: char) -> (n: usize)
    ensures
        n == utf8_len(c),
{
    let v: u32 = c as u32;
    if v < 0x80 {
        1
    } else if v < 0x800 {
        2
    } else if v < 0x10000 {
        3
    } else {
        4
    }
}

} // verus!
