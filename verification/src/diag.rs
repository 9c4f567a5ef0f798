//! Diagnostics: what a failed statement reports, and how it is shown.

use crate::grammar::{ErrKind, Fault};
use crate::text::{
    byte_off, decimal, line_end, line_no, line_start, push_decimal, push_decimal_pad, push_repeat,
    repeat,
};
use vstd::prelude::*;
use vstd::string::*;

verus! {

/// The mathematical form of a diagnostic.
pub struct Diag {
    /// The one-line message.
    pub msg: Seq<char>,
    pub kind: ErrKind,
    /// The number of the line of the offending character, from 1.
    pub line: int,
    /// The byte offset at which that line starts.
    pub line_start: int,
    /// The byte offset of the offending character; `None` at the end of the text.
    pub offset: Option<int>,
    /// The text of the line, without its line break.
    pub excerpt: Seq<char>,
    /// The number of characters from the start of the line through the offending one.
    pub carets: int,
}

/// The message for the fault `f` in the text `s`. The column counts bytes from
/// the start of the line.
pub open spec fn message(s: Seq<char>, f: Fault) -> Seq<char> {
    let line = line_no(s, f.at) as nat;
    let column = (byte_off(s, f.at) - byte_off(s, line_start(s, f.at))) as nat;
    if f.kind == ErrKind::MissingValue && f.at >= s.len() {
        "error on line: "@ + decimal(line) + ". Expected value but found end of line."@
    } else {
        "error on line: "@ + decimal(line) + ", column: "@ + decimal(column) + ". Expected "@
            + f.what + "."@
    }
}

/// The diagnostic for the fault `f` in the text `s`.
pub open spec fn diag_of(s: Seq<char>, f: Fault) -> Diag {
    Diag {
        msg: message(s, f),
        kind: f.kind,
        line: line_no(s, f.at),
        line_start: byte_off(s, line_start(s, f.at)),
        offset: if f.at < s.len() {
            Some(byte_off(s, f.at))
        } else {
            None
        },
        excerpt: s.subrange(line_start(s, f.at), line_end(s, f.at)),
        carets: f.at - line_start(s, f.at) + 1,
    }
}

/// The text shown for `d`: the message; the line number, ` | ` and the line;
/// and, under the line, one caret for each character up to the offending one.
pub open spec fn rendered(d: Diag) -> Seq<char> {
    d.msg + "\n"@ + decimal(d.line as nat) + " | "@ + d.excerpt + "\n"@ + repeat(
        ' ',
        decimal(d.line as nat).len() as int + 3,
    ) + repeat('^', d.carets) + "\n"@
}

/// A diagnostic: the message, where the offending character stands, and the
/// text of its line, kept so that the diagnostic can be shown without the
/// text it came from.
#[derive(Debug, Clone)]
pub struct ConfigErr {
    pub(crate) msg: String,
    pub(crate) kind: ErrKind,
    pub(crate) line: usize,
    pub(crate) line_to_idx: usize,
    pub(crate) idx: Option<usize>,
    pub(crate) excerpt: String,
    pub(crate) carets: usize,
}

impl View for ConfigErr {
    type V = Diag;

    open(crate) spec fn view(&self) -> Diag {
        Diag {
            msg: self.msg@,
            kind: self.kind,
            line: self.line as int,
            line_start: self.line_to_idx as int,
            offset: match self.idx {
                Some(i) => Some(i as int),
                None => None,
            },
            excerpt: self.excerpt@,
            carets: self.carets as int,
        }
    }
}

impl ConfigErr {
    pub fn kind(&self) -> (k: ErrKind)
        ensures
            k == self@.kind,
    {
        self.kind
    }

    pub fn message(&self) -> (m: String)
        ensures
            m@ == self@.msg,
    {
        self.msg.clone()
    }

    pub fn line(&self) -> (n: usize)
        ensures
            n == self@.line,
    {
        self.line
    }

    pub fn line_offset(&self) -> (n: usize)
        ensures
            n == self@.line_start,
    {
        self.line_to_idx
    }

    pub fn offset(&self) -> (o: Option<usize>)
        ensures
            o is Some <==> self@.offset is Some,
            o is Some ==> o->0 == self@.offset->0,
    {
        self.idx
    }

    /// The diagnostic as text.
    pub fn to_string(&self) -> (out: String)
        ensures
            out@ == rendered(self@),
    {
        let mut out = self.msg.clone();
        out.push('\n');
        push_decimal(&mut out, self.line);
        out.append(" | ");
        out.append(self.excerpt.as_str());
        out.push('\n');
        let ghost before = out@;
        push_decimal_pad(&mut out, ' ', self.line);
        push_repeat(&mut out, ' ', 3);
        proof {
            let w = decimal(self.line as nat).len() as int;
            assert(repeat(' ', w) + repeat(' ', 3) =~= repeat(' ', w + 3));
            assert(out@ =~= before + repeat(' ', w + 3));
            reveal_strlit("\n");
            assert(before =~= self.msg@ + "\n"@ + decimal(self.line as nat) + " | "@
                + self.excerpt@ + "\n"@);
        }
        push_repeat(&mut out, '^', self.carets);
        out.push('\n');
        proof {
            reveal_strlit("\n");
            assert(out@ =~= rendered(self@));
        }
        out
    }
}

} // verus!
