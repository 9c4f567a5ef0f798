//! Facts about offsets, lines and runs that the reader's proofs rest on.

use crate::grammar::{inline_len, trivia_len};
use crate::text::{byte_off, is_inline_space, is_space, line_end, line_no, line_start, next_line};
use vstd::prelude::*;

verus! {

/// Byte offsets grow with the index, by at most four bytes a character.
pub proof fn lemma_byte_off_mono(s: Seq<char>, i: int, j: int)
    requires
        0 <= i <= j,
    ensures
        0 <= byte_off(s, i) <= byte_off(s, j) <= byte_off(s, i) + 4 * (j - i),
    decreases j,
{
    if j > 0 && i < j {
        lemma_byte_off_mono(s, i, j - 1);
    } else if j > 0 {
        lemma_byte_off_mono(s, 0, j - 1);
        lemma_byte_off_mono(s, j - 1, j - 1);
    }
}

/// A position lies on or after the start of its line, and no line number
/// exceeds the number of characters before it by more than one.
pub proof fn lemma_line_bounds(s: Seq<char>, pos: int)
    requires
        0 <= pos,
    ensures
        0 <= line_start(s, pos) <= pos,
        1 <= line_no(s, pos) <= pos + 1,
    decreases pos,
{
    if pos > 0 {
        lemma_line_bounds(s, pos - 1);
    }
}

/// The end of a line lies between the position and the end of the text, and
/// no line break stands before it.
pub proof fn lemma_line_end(s: Seq<char>, pos: int)
    requires
        0 <= pos <= s.len(),
    ensures
        pos <= line_end(s, pos) <= s.len(),
        pos <= next_line(s, pos) <= s.len(),
        line_end(s, pos) < s.len() ==> s[line_end(s, pos)] == '\n',
        forall|i: int| pos <= i < line_end(s, pos) ==> s[i] != '\n',
    decreases s.len() - pos,
{
    if pos < s.len() && s[pos] != '\n' {
        lemma_line_end(s, pos + 1);
    }
}

/// A run of whitespace without line breaks that ends at `q` has length `q - p`.
pub proof fn lemma_inline_run(s: Seq<char>, p: int, q: int)
    requires
        0 <= p <= q <= s.len(),
        forall|i: int| p <= i < q ==> is_inline_space(#[trigger] s[i]),
        q < s.len() ==> !is_inline_space(s[q]),
    ensures
        inline_len(s, p) == q - p,
    decreases q - p,
{
    if p < q {
        lemma_inline_run(s, p + 1, q);
    }
}

/// A run of whitespace from `p` to `q` is passed over as trivia.
pub proof fn lemma_space_run(s: Seq<char>, p: int, q: int)
    requires
        0 <= p <= q <= s.len(),
        forall|i: int| p <= i < q ==> is_space(#[trigger] s[i]),
    ensures
        trivia_len(s, p, false) == q - p + trivia_len(s, q, false),
    decreases q - p,
{
    if p < q {
        lemma_space_run(s, p + 1, q);
    }
}

/// A comment is passed over as trivia through the end of its line.
pub proof fn lemma_comment_run(s: Seq<char>, p: int)
    requires
        0 <= p <= s.len(),
    ensures
        trivia_len(s, p, true) == next_line(s, p) - p + trivia_len(s, next_line(s, p), false),
    decreases s.len() - p,
{
    if p < s.len() && s[p] != '\n' {
        lemma_comment_run(s, p + 1);
    }
}

} // verus!
