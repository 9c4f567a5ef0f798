//! The grammar of the configuration language, as functions on a sequence of
//! characters and an index into it.
//!
//! A reader that succeeds reports the value and the number of characters it
//! used; one that fails reports a [`Fault`]. Inside a statement no line break
//! is ever passed, so a fault lies on the line on which the statement began.

use crate::text::{is_digit, is_inline_space, is_name_end, is_space, next_line};
use crate::value::Val;
use vstd::prelude::*;

verus! {

/// What went wrong with a statement.
#[derive(Clone, Copy, Debug, PartialEq, Eq, Structural)]
pub enum ErrKind {
    /// A delimiter or the end of the text stands where a name should begin.
    MissingVariableName,
    /// The `::` after the name is absent or incomplete.
    MissingAssignmentOperator,
    /// No value begins where one is due.
    MissingValue,
    /// A tuple does not open with `(`, or an element is followed by neither `,` nor `)`.
    MalformedTuple,
}

/// A failed read: its kind, the text that names what was expected, and the
/// index of the offending character (the length of the text at its end).
pub struct Fault {
    pub kind: ErrKind,
    pub what: Seq<char>,
    pub at: int,
}

/// The outcome of reading one syntactic unit.
pub enum Parsed<T> {
    Good { val: T, used: nat },
    Bad(Fault),
}

/// `tok` between back quotes, as messages show a token.
pub open spec fn quoted(tok: Seq<char>) -> Seq<char> {
    "`"@ + tok + "`"@
}

/// Whether the characters from `pos` on begin with `lit`.
pub open spec fn starts_with(s: Seq<char>, pos: int, lit: Seq<char>) -> bool {
    &&& 0 <= pos
    &&& pos + lit.len() <= s.len()
    &&& forall|j: int| 0 <= j < lit.len() ==> s[pos + j] == #[trigger] lit[j]
}

/// The number of leading characters of `tok`, from its index `k` on, that
/// stand in `s` from `pos + k` on, added to `k`.
pub open spec fn common_len(s: Seq<char>, pos: int, tok: Seq<char>, k: int) -> int
    decreases tok.len() - k,
{
    if 0 <= k < tok.len() && 0 <= pos + k < s.len() && s[pos + k] == tok[k] {
        common_len(s, pos, tok, k + 1)
    } else {
        k
    }
}

/// The length of the run of whitespace other than line breaks at `pos`.
pub open spec fn inline_len(s: Seq<char>, pos: int) -> nat
    decreases s.len() - pos,
{
    if 0 <= pos < s.len() && is_inline_space(s[pos]) {
        1 + inline_len(s, pos + 1)
    } else {
        0
    }
}

/// The length of the run of name characters at `pos`.
pub open spec fn name_len(s: Seq<char>, pos: int) -> nat
    decreases s.len() - pos,
{
    if 0 <= pos < s.len() && !is_name_end(s[pos]) {
        1 + name_len(s, pos + 1)
    } else {
        0
    }
}

/// Whether the range operator `..` stands at `pos`.
pub open spec fn dotdot(s: Seq<char>, pos: int) -> bool {
    0 <= pos && pos + 1 < s.len() && s[pos] == '.' && s[pos + 1] == '.'
}

/// The length of the number literal at `pos`: digits with at most one `.`
/// among them (`seen_dot` says that it was met already), ending before a `..`.
pub open spec fn num_len(s: Seq<char>, pos: int, seen_dot: bool) -> nat
    decreases s.len() - pos,
{
    if 0 <= pos < s.len() && (is_digit(s[pos]) || (s[pos] == '.' && !seen_dot)) && !dotdot(
        s,
        pos,
    ) {
        1 + num_len(s, pos + 1, seen_dot || s[pos] == '.')
    } else {
        0
    }
}

/// The length of the whitespace and comments at `pos`; `in_comment` says that
/// `pos` lies inside a comment, which runs to the next line break.
pub open spec fn trivia_len(s: Seq<char>, pos: int, in_comment: bool) -> nat
    decreases s.len() - pos,
{
    if !(0 <= pos < s.len()) {
        0
    } else if in_comment {
        1 + trivia_len(s, pos + 1, s[pos] != '\n')
    } else if is_space(s[pos]) {
        1 + trivia_len(s, pos + 1, false)
    } else if s[pos] == '#' {
        1 + trivia_len(s, pos + 1, true)
    } else {
        0
    }
}

/// A variable name: the longest run of name characters, which must not be empty.
pub open spec fn name_at(s: Seq<char>, pos: int) -> Parsed<Seq<char>> {
    let n = name_len(s, pos);
    if n == 0 {
        Parsed::Bad(Fault { kind: ErrKind::MissingVariableName, what: "`variable name`"@, at: pos })
    } else {
        Parsed::Good { val: s.subrange(pos, pos + n), used: n }
    }
}

/// The token `tok`, character by character; a fault of kind `kind` lies at
/// the first character that differs.
pub open spec fn token_at(s: Seq<char>, pos: int, tok: Seq<char>, kind: ErrKind) -> Parsed<()> {
    let m = common_len(s, pos, tok, 0);
    if m == tok.len() {
        Parsed::Good { val: (), used: tok.len() }
    } else {
        Parsed::Bad(Fault { kind, what: quoted(tok), at: pos + m })
    }
}

/// The number of characters from `pos` to the end of `s`.
pub open spec fn left(s: Seq<char>, pos: int) -> nat {
    if pos <= s.len() {
        (s.len() - pos) as nat
    } else {
        0
    }
}

/// The number literal at `pos`, as its text.
pub open spec fn number_at(s: Seq<char>, pos: int) -> Val {
    Val::Num(s.subrange(pos, pos + num_len(s, pos, false)))
}

/// A value: a number or a tuple, each with an optional range tail of its own
/// kind, or one of the literals `true`, `false`, `nil`, `Nil`.
pub open spec fn value_at(s: Seq<char>, pos: int) -> Parsed<Val>
    decreases left(s, pos), 2int,
{
    if !(0 <= pos < s.len()) {
        Parsed::Bad(Fault { kind: ErrKind::MissingValue, what: "value"@, at: pos })
    } else if is_digit(s[pos]) || s[pos] == '.' {
        let e = pos + num_len(s, pos, false);
        let p = e + inline_len(s, e);
        if dotdot(s, p) {
            let q = p + 2 + inline_len(s, p + 2);
            Parsed::Good {
                val: Val::Range(Box::new(number_at(s, pos)), Box::new(number_at(s, q))),
                used: (q + num_len(s, q, false) - pos) as nat,
            }
        } else {
            Parsed::Good { val: number_at(s, pos), used: (p - pos) as nat }
        }
    } else if s[pos] == '(' {
        match tuple_at(s, pos) {
            Parsed::Bad(f) => Parsed::Bad(f),
            Parsed::Good { val: first, used } => {
                let p = pos + used + inline_len(s, pos + used);
                if dotdot(s, p) {
                    let q = p + 2 + inline_len(s, p + 2);
                    match tuple_at(s, q) {
                        Parsed::Bad(f) => Parsed::Bad(f),
                        Parsed::Good { val: last, used: more } => Parsed::Good {
                            val: Val::Range(Box::new(first), Box::new(last)),
                            used: (q + more - pos) as nat,
                        },
                    }
                } else {
                    Parsed::Good { val: first, used: (p - pos) as nat }
                }
            },
        }
    } else if starts_with(s, pos, seq!['t', 'r', 'u', 'e']) {
        Parsed::Good { val: Val::Bool(true), used: 4 }
    } else if starts_with(s, pos, seq!['f', 'a', 'l', 's', 'e']) {
        Parsed::Good { val: Val::Bool(false), used: 5 }
    } else if starts_with(s, pos, seq!['N', 'i', 'l']) || starts_with(s, pos, seq!['n', 'i', 'l']) {
        Parsed::Good { val: Val::Nil, used: 3 }
    } else {
        Parsed::Bad(Fault { kind: ErrKind::MissingValue, what: "value"@, at: pos })
    }
}

/// A tuple: `(`, its elements, `)`.
pub open spec fn tuple_at(s: Seq<char>, pos: int) -> Parsed<Val>
    decreases left(s, pos), 1int,
{
    if !(0 <= pos < s.len() && s[pos] == '(') {
        Parsed::Bad(Fault { kind: ErrKind::MalformedTuple, what: quoted(seq!['(']), at: pos })
    } else {
        match items_at(s, pos + 1) {
            Parsed::Bad(f) => Parsed::Bad(f),
            Parsed::Good { val: items, used } => Parsed::Good {
                val: Val::Tuple(items),
                used: used + 1,
            },
        }
    }
}

/// The elements of a tuple from `pos` on, through the closing `)`: values
/// separated by `,`, with whitespace around each.
pub open spec fn items_at(s: Seq<char>, pos: int) -> Parsed<Seq<Val>>
    decreases left(s, pos), 3int,
{
    let p = pos + inline_len(s, pos);
    match value_at(s, p) {
        Parsed::Bad(f) => Parsed::Bad(f),
        Parsed::Good { val: item, used } => {
            let q = p + used + inline_len(s, p + used);
            if 0 <= q < s.len() && s[q] == ')' {
                Parsed::Good { val: seq![item], used: (q + 1 - pos) as nat }
            } else if 0 <= q < s.len() && s[q] == ',' {
                match items_at(s, q + 1) {
                    Parsed::Bad(f) => Parsed::Bad(f),
                    Parsed::Good { val: rest, used: more } => Parsed::Good {
                        val: seq![item] + rest,
                        used: (q + 1 + more - pos) as nat,
                    },
                }
            } else {
                Parsed::Bad(
                    Fault { kind: ErrKind::MalformedTuple, what: "`,` or `)`"@, at: q },
                )
            }
        },
    }
}

/// A statement: a name, `::`, a value, with whitespace around the operator.
pub open spec fn statement_at(s: Seq<char>, pos: int) -> Parsed<(Seq<char>, Val)> {
    match name_at(s, pos) {
        Parsed::Bad(f) => Parsed::Bad(f),
        Parsed::Good { val: name, used } => {
            let p = pos + used + inline_len(s, pos + used);
            match token_at(s, p, seq![':', ':'], ErrKind::MissingAssignmentOperator) {
                Parsed::Bad(f) => Parsed::Bad(f),
                Parsed::Good { .. } => {
                    let q = p + 2 + inline_len(s, p + 2);
                    match value_at(s, q) {
                        Parsed::Bad(f) => Parsed::Bad(f),
                        Parsed::Good { val, used: more } => Parsed::Good {
                            val: (name, val),
                            used: (q + more - pos) as nat,
                        },
                    }
                },
            }
        },
    }
}

/// What one request for the next statement yields.
pub enum Step {
    /// Nothing but whitespace and comments is left.
    End,
    /// A statement.
    Statement { name: Seq<char>, val: Val },
    /// A fault; the rest of its line is given up.
    Failure(Fault),
}

/// The next step from `pos`, and where reading stands after it.
pub open spec fn next_at(s: Seq<char>, pos: int) -> (Step, int) {
    let p = pos + trivia_len(s, pos, false);
    if p >= s.len() {
        (Step::End, p)
    } else {
        match statement_at(s, p) {
            Parsed::Good { val, used } => (Step::Statement { name: val.0, val: val.1 }, p + used),
            Parsed::Bad(f) => (Step::Failure(f), next_line(s, f.at)),
        }
    }
}

} // verus!
