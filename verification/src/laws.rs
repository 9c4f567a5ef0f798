//! What holds of every text: which lines yield a statement, which yield
//! nothing, that a statement never leaves its line, that every step moves
//! the reader forward, and that the outcome depends on the text alone.

use crate::config_parser::ConfigParser;
use crate::diag::ConfigErr;
use crate::grammar::{
    common_len, dotdot, inline_len, items_at, left, name_len, next_at, num_len, starts_with,
    statement_at, trivia_len, tuple_at, value_at, Parsed, Step,
};
use crate::lemmas::{lemma_comment_run, lemma_line_end};
use crate::text::{is_digit, is_inline_space, is_space, line_end, next_line};
use crate::value::ConfigParam;
use vstd::prelude::*;

verus! {

/// The start of the `i`-th line after the one that starts at `a`.
pub open spec fn line_at(s: Seq<char>, a: int, i: nat) -> int
    decreases i,
{
    if i == 0 {
        a
    } else {
        next_line(s, line_at(s, a, (i - 1) as nat))
    }
}

/// The `i`-th step of a reader that starts at `pos`, counted from 0, and
/// where the reader stands after it.
pub open spec fn nth_step(s: Seq<char>, pos: int, i: nat) -> (Step, int)
    decreases i,
{
    if i == 0 {
        next_at(s, pos)
    } else {
        next_at(s, nth_step(s, pos, (i - 1) as nat).1)
    }
}

/// The line that starts at `a` is blank or holds only a comment.
pub open spec fn trivial_line(s: Seq<char>, a: int) -> bool {
    let p = a + inline_len(s, a);
    p >= s.len() || s[p] == '\n' || s[p] == '#'
}

/// Where the first character of the line that starts at `a` stands that is
/// no whitespace.
pub open spec fn first_mark(s: Seq<char>, a: int) -> int {
    a + inline_len(s, a)
}

/// The line that starts at `a` holds one statement and, around it, nothing
/// but whitespace.
pub open spec fn statement_line(s: Seq<char>, a: int) -> bool {
    let b = first_mark(s, a);
    &&& 0 <= a <= b < s.len()
    &&& s[b] != '#'
    &&& statement_at(s, b) is Good
    &&& {
        let e = b + statement_at(s, b)->Good_used;
        e + inline_len(s, e) == line_end(s, a)
    }
}

/// The statement that the line at `a` holds, as a step.
pub open spec fn statement_of(s: Seq<char>, a: int) -> Step {
    let b = first_mark(s, a);
    Step::Statement { name: statement_at(s, b)->Good_val.0, val: statement_at(s, b)->Good_val.1 }
}

/// Two answers are the same: both the end, or statements with the same name
/// and value, or diagnostics with the same content.
pub open spec fn same_answer(
    a: Option<Result<ConfigParam, ConfigErr>>,
    b: Option<Result<ConfigParam, ConfigErr>>,
) -> bool {
    match (a, b) {
        (None, None) => true,
        (Some(Ok(x)), Some(Ok(y))) => x@ == y@,
        (Some(Err(x)), Some(Err(y))) => x@ == y@,
        _ => false,
    }
}

/// Whitespace within a line is passed as trivia, and the line does not end in it.
proof fn lemma_inline_is_trivia(s: Seq<char>, a: int)
    requires
        0 <= a <= s.len(),
    ensures
        trivia_len(s, a, false) == inline_len(s, a) + trivia_len(s, a + inline_len(s, a), false),
        a + inline_len(s, a) <= s.len(),
        line_end(s, a) == line_end(s, a + inline_len(s, a)),
    decreases s.len() - a,
{
    if a < s.len() && is_inline_space(s[a]) {
        lemma_inline_is_trivia(s, a + 1);
    }
}

/// A blank or comment line is passed whole.
proof fn lemma_trivial_line(s: Seq<char>, a: int)
    requires
        0 <= a <= s.len(),
        trivial_line(s, a),
    ensures
        next_at(s, a) == next_at(s, next_line(s, a)),
        a <= next_line(s, a) <= s.len(),
{
    lemma_inline_is_trivia(s, a);
    lemma_line_end(s, a);
    let p = a + inline_len(s, a);
    if p < s.len() && s[p] == '#' {
        lemma_comment_run(s, p + 1);
        lemma_line_end(s, p + 1);
    }
}

/// Blank lines and lines that hold only a comment yield nothing: a reader at
/// the start of `k` such lines does what a reader at the line after them
/// does, and where the text ends with them it reports the end.
pub proof fn lemma_trivial_lines_yield_nothing(s: Seq<char>, a: int, k: nat)
    requires
        0 <= a <= s.len(),
        forall|i: nat| i < k ==> trivial_line(s, #[trigger] line_at(s, a, i)),
    ensures
        a <= line_at(s, a, k) <= s.len(),
        next_at(s, a) == next_at(s, line_at(s, a, k)),
        line_at(s, a, k) == s.len() ==> next_at(s, a).0 == Step::End,
    decreases k,
{
    if k > 0 {
        let j = (k - 1) as nat;
        lemma_trivial_lines_yield_nothing(s, a, j);
        assert(trivial_line(s, line_at(s, a, j)));
        lemma_trivial_line(s, line_at(s, a, j));
    }
}

/// The reader yields the statement of a line that holds one, and goes on
/// from the next line.
pub proof fn lemma_statement_line(s: Seq<char>, a: int)
    requires
        statement_line(s, a),
    ensures
        next_at(s, a).0 == statement_of(s, a),
        next_at(s, next_at(s, a).1) == next_at(s, next_line(s, a)),
        a <= next_line(s, a) <= s.len(),
{
    let b = first_mark(s, a);
    let e = b + statement_at(s, b)->Good_used;
    lemma_line_end(s, a);
    lemma_inline_is_trivia(s, a);
    lemma_inline_is_trivia(s, e);
}

proof fn lemma_steps_follow_lines(s: Seq<char>, a: int, k: nat, i: nat)
    requires
        0 <= a <= s.len(),
        forall|j: nat| j < k ==> statement_line(s, #[trigger] line_at(s, a, j)),
        i < k,
    ensures
        nth_step(s, a, i).0 == statement_of(s, line_at(s, a, i)),
        next_at(s, nth_step(s, a, i).1) == next_at(s, line_at(s, a, i + 1)),
        0 <= line_at(s, a, i + 1) <= s.len(),
    decreases i,
{
    assert(statement_line(s, line_at(s, a, i)));
    lemma_statement_line(s, line_at(s, a, i));
    if i > 0 {
        lemma_steps_follow_lines(s, a, k, (i - 1) as nat);
    }
}

/// A text of `k` lines, each of which holds one statement and nothing else,
/// yields exactly these `k` statements, in the order of the lines, and then
/// the end.
pub proof fn lemma_one_statement_per_line(s: Seq<char>, a: int, k: nat)
    requires
        0 <= a <= s.len(),
        forall|j: nat| j < k ==> statement_line(s, #[trigger] line_at(s, a, j)),
        line_at(s, a, k) == s.len(),
    ensures
        forall|i: nat|
            i < k ==> (#[trigger] nth_step(s, a, i)).0 == statement_of(s, line_at(s, a, i)),
        nth_step(s, a, k).0 == Step::End,
{
    assert forall|i: nat| i < k implies (#[trigger] nth_step(s, a, i)).0 == statement_of(
        s,
        line_at(s, a, i),
    ) by {
        lemma_steps_follow_lines(s, a, k, i);
    }
    if k > 0 {
        lemma_steps_follow_lines(s, a, k, (k - 1) as nat);
    }
}

/// The outcome depends on the text and the position alone: two readers over
/// the same text at the same position give the same answer and stand at the
/// same position afterwards. So two fresh readers over one text give the same
/// sequence of statements and diagnostics.
pub proof fn lemma_same_text_same_answers(
    a: ConfigParser,
    a_after: ConfigParser,
    a_answer: Option<Result<ConfigParam, ConfigErr>>,
    b: ConfigParser,
    b_after: ConfigParser,
    b_answer: Option<Result<ConfigParam, ConfigErr>>,
)
    requires
        a.wf(),
        b.wf(),
        a.source() == b.source(),
        a.pos() == b.pos(),
        a_after.moved(&a, next_at(a.source(), a.pos()).1),
        ConfigParser::reports(a_answer, a.source(), next_at(a.source(), a.pos()).0),
        b_after.moved(&b, next_at(b.source(), b.pos()).1),
        ConfigParser::reports(b_answer, b.source(), next_at(b.source(), b.pos()).0),
    ensures
        same_answer(a_answer, b_answer),
        a_after.source() == b_after.source(),
        a_after.pos() == b_after.pos(),
{
}

/// No line break stands from `a` up to `b`.
pub open spec fn no_break(s: Seq<char>, a: int, b: int) -> bool {
    forall|i: int| a <= i < b ==> #[trigger] s[i] != '\n'
}

/// What was read from `pos` on, up to the end of the value or to the fault,
/// lies within the text and holds no line break.
pub open spec fn on_line<T>(s: Seq<char>, pos: int, p: Parsed<T>) -> bool {
    let end = match p {
        Parsed::Good { used, .. } => pos + used,
        Parsed::Bad(f) => f.at,
    };
    pos <= end <= s.len() && no_break(s, pos, end)
}

proof fn lemma_same_line(s: Seq<char>, a: int, b: int)
    requires
        0 <= a <= b <= s.len(),
        no_break(s, a, b),
    ensures
        line_end(s, a) == line_end(s, b),
    decreases b - a,
{
    if a < b {
        lemma_same_line(s, a + 1, b);
    }
}

proof fn lemma_inline_on_line(s: Seq<char>, a: int)
    requires
        0 <= a <= s.len(),
    ensures
        a + inline_len(s, a) <= s.len(),
        no_break(s, a, a + inline_len(s, a)),
    decreases s.len() - a,
{
    if a < s.len() && is_inline_space(s[a]) {
        lemma_inline_on_line(s, a + 1);
    }
}

proof fn lemma_num_on_line(s: Seq<char>, a: int, seen_dot: bool)
    requires
        0 <= a <= s.len(),
    ensures
        a + num_len(s, a, seen_dot) <= s.len(),
        no_break(s, a, a + num_len(s, a, seen_dot)),
    decreases s.len() - a,
{
    if num_len(s, a, seen_dot) > 0 {
        lemma_num_on_line(s, a + 1, seen_dot || s[a] == '.');
    }
}

proof fn lemma_name_on_line(s: Seq<char>, a: int)
    requires
        0 <= a <= s.len(),
    ensures
        a + name_len(s, a) <= s.len(),
        no_break(s, a, a + name_len(s, a)),
    decreases s.len() - a,
{
    if name_len(s, a) > 0 {
        assert(!is_space(s[a]));
        lemma_name_on_line(s, a + 1);
    }
}

proof fn lemma_literal_on_line(s: Seq<char>, pos: int, lit: Seq<char>)
    requires
        starts_with(s, pos, lit),
        forall|j: int| 0 <= j < lit.len() ==> #[trigger] lit[j] != '\n',
    ensures
        pos + lit.len() <= s.len(),
        no_break(s, pos, pos + lit.len()),
{
    assert forall|i: int| pos <= i < pos + lit.len() implies #[trigger] s[i] != '\n' by {
        let j = i - pos;
        assert(s[pos + j] == lit[j]);
    }
}

proof fn lemma_number_on_line(s: Seq<char>, pos: int)
    requires
        0 <= pos < s.len(),
        is_digit(s[pos]) || s[pos] == '.',
    ensures
        on_line(s, pos, value_at(s, pos)),
{
    let e = pos + num_len(s, pos, false);
    lemma_num_on_line(s, pos, false);
    lemma_inline_on_line(s, e);
    let p = e + inline_len(s, e);
    if dotdot(s, p) {
        lemma_inline_on_line(s, p + 2);
        let q = p + 2 + inline_len(s, p + 2);
        lemma_num_on_line(s, q, false);
    }
}

proof fn lemma_word_on_line(s: Seq<char>, pos: int)
    requires
        0 <= pos < s.len(),
        !(is_digit(s[pos]) || s[pos] == '.'),
        s[pos] != '(',
    ensures
        on_line(s, pos, value_at(s, pos)),
{
    let t = seq!['t', 'r', 'u', 'e'];
    let f = seq!['f', 'a', 'l', 's', 'e'];
    let n = seq!['N', 'i', 'l'];
    let m = seq!['n', 'i', 'l'];
    if starts_with(s, pos, t) {
        lemma_literal_on_line(s, pos, t);
    } else if starts_with(s, pos, f) {
        lemma_literal_on_line(s, pos, f);
    } else if starts_with(s, pos, n) {
        lemma_literal_on_line(s, pos, n);
    } else if starts_with(s, pos, m) {
        lemma_literal_on_line(s, pos, m);
    }
}

/// A value, and what was read of one that fails, lies on one line.
pub proof fn lemma_value_on_line(s: Seq<char>, pos: int)
    requires
        0 <= pos <= s.len(),
    ensures
        on_line(s, pos, value_at(s, pos)),
    decreases left(s, pos), 2int,
{
    if pos < s.len() {
        if is_digit(s[pos]) || s[pos] == '.' {
            lemma_number_on_line(s, pos);
        } else if s[pos] == '(' {
            lemma_tuple_on_line(s, pos);
            match tuple_at(s, pos) {
                Parsed::Bad(f) => {},
                Parsed::Good { val, used } => {
                    lemma_inline_on_line(s, pos + used);
                    let p = pos + used + inline_len(s, pos + used);
                    if dotdot(s, p) {
                        lemma_inline_on_line(s, p + 2);
                        let q = p + 2 + inline_len(s, p + 2);
                        lemma_tuple_on_line(s, q);
                    }
                },
            }
        } else {
            lemma_word_on_line(s, pos);
        }
    }
}

/// A tuple, and what was read of one that fails, lies on one line.
pub proof fn lemma_tuple_on_line(s: Seq<char>, pos: int)
    requires
        0 <= pos <= s.len(),
    ensures
        on_line(s, pos, tuple_at(s, pos)),
    decreases left(s, pos), 1int,
{
    if pos < s.len() && s[pos] == '(' {
        lemma_items_on_line(s, pos + 1);
    }
}

/// The elements of a tuple, and what was read of them before a fault, lie on one line.
pub proof fn lemma_items_on_line(s: Seq<char>, pos: int)
    requires
        0 <= pos <= s.len(),
    ensures
        on_line(s, pos, items_at(s, pos)),
    decreases left(s, pos), 3int,
{
    lemma_inline_on_line(s, pos);
    let p = pos + inline_len(s, pos);
    lemma_value_on_line(s, p);
    match value_at(s, p) {
        Parsed::Bad(f) => {},
        Parsed::Good { val, used } => {
            lemma_inline_on_line(s, p + used);
            let q = p + used + inline_len(s, p + used);
            if q < s.len() && s[q] == ',' {
                lemma_items_on_line(s, q + 1);
            }
        },
    }
}

/// A statement, and what was read of one that fails, lies on one line.
pub proof fn lemma_statement_on_line(s: Seq<char>, pos: int)
    requires
        0 <= pos <= s.len(),
    ensures
        on_line(s, pos, statement_at(s, pos)),
{
    lemma_name_on_line(s, pos);
    let n = name_len(s, pos);
    if n > 0 {
        lemma_inline_on_line(s, pos + n);
        let p = pos + n + inline_len(s, pos + n);
        let tok = seq![':', ':'];
        reveal_with_fuel(common_len, 3);
        if common_len(s, p, tok, 0) == 2 {
            lemma_inline_on_line(s, p + 2);
            lemma_value_on_line(s, p + 2 + inline_len(s, p + 2));
        }
    }
}

/// One bad line costs one statement and no more: a statement that fails is
/// given up with the line on which it began, and the reader goes on from the
/// start of the next line. A statement that is read ends on the line on which
/// it began.
pub proof fn lemma_step_stays_on_line(s: Seq<char>, pos: int)
    requires
        0 <= pos <= s.len(),
    ensures
        ({
            let begin = pos + trivia_len(s, pos, false);
            match next_at(s, pos).0 {
                Step::End => next_at(s, pos).1 == s.len(),
                Step::Statement { .. } => begin < next_at(s, pos).1 <= line_end(s, begin),
                Step::Failure(f) => begin <= f.at <= line_end(s, begin) && next_at(s, pos).1
                    == next_line(s, begin),
            }
        }),
{
    lemma_trivia_within(s, pos, false);
    let begin = pos + trivia_len(s, pos, false);
    if begin < s.len() {
        lemma_statement_on_line(s, begin);
        lemma_line_end(s, begin);
        match statement_at(s, begin) {
            Parsed::Good { val, used } => {
                lemma_same_line(s, begin, begin + used);
                lemma_line_end(s, begin + used);
                lemma_name_on_line(s, begin);
            },
            Parsed::Bad(f) => {
                lemma_same_line(s, begin, f.at);
                lemma_line_end(s, f.at);
            },
        }
    }
}

/// Every step but the end moves the reader forward, so that asking for
/// statements until the end comes to an end.
pub proof fn lemma_step_advances(s: Seq<char>, pos: int)
    requires
        0 <= pos <= s.len(),
    ensures
        pos <= next_at(s, pos).1 <= s.len(),
        !(next_at(s, pos).0 is End) ==> pos < next_at(s, pos).1,
{
    lemma_step_stays_on_line(s, pos);
    lemma_trivia_within(s, pos, false);
    lemma_line_end(s, pos + trivia_len(s, pos, false));
}

proof fn lemma_trivia_within(s: Seq<char>, pos: int, in_comment: bool)
    requires
        0 <= pos <= s.len(),
    ensures
        pos + trivia_len(s, pos, in_comment) <= s.len(),
    decreases s.len() - pos,
{
    if pos < s.len() {
        if in_comment {
            lemma_trivia_within(s, pos + 1, s[pos] != '\n');
        } else if is_space(s[pos]) {
            lemma_trivia_within(s, pos + 1, false);
        } else if s[pos] == '#' {
            lemma_trivia_within(s, pos + 1, true);
        }
    }
}

} // verus!
