//! The reader: a cursor over the text and the routines that read statements.

use crate::diag::{diag_of, ConfigErr, Diag};
use crate::grammar::{
    common_len, dotdot, inline_len, items_at, left, name_at, name_len, next_at, num_len, number_at,
    starts_with, token_at, trivia_len, tuple_at, value_at, ErrKind, Fault, Parsed, Step,
};
use crate::lemmas::{
    lemma_byte_off_mono, lemma_comment_run, lemma_inline_run, lemma_line_bounds, lemma_line_end,
    lemma_space_run,
};
use crate::text::{
    byte_off, chars_of, ends_name, is_decimal_digit, is_inline_whitespace, is_whitespace, line_end,
    line_no, line_start, next_line, push_decimal, push_range, utf8_width,
};
use crate::value::{models, ConfigParam, ConfigVal, Val};
use vstd::prelude::*;
use vstd::string::*;

verus! {

/// A reader over one text. It only moves forward.
#[derive(Debug, Clone)]
pub struct ConfigParser {
    pub(crate) chars: Vec<char>,
    pub(crate) pos: usize,
    pub(crate) idx: usize,
    pub(crate) line: usize,
    pub(crate) line_pos: usize,
    pub(crate) line_to_idx: usize,
}

impl ConfigParser {
    /// The text that is read.
    pub open(crate) spec fn source(&self) -> Seq<char> {
        self.chars@
    }

    /// The index of the next character.
    pub open(crate) spec fn pos(&self) -> int {
        self.pos as int
    }

    /// The line number, the start of the line and the byte offsets agree with
    /// the position: the line number is one more than the line breaks passed,
    /// and the line starts just after the last of them.
    pub open(crate) spec fn wf(&self) -> bool {
        let s = self.chars@;
        &&& 4 * s.len() < usize::MAX
        &&& self.pos <= s.len()
        &&& self.idx == byte_off(s, self.pos as int)
        &&& self.line == line_no(s, self.pos as int)
        &&& self.line_pos == line_start(s, self.pos as int)
        &&& self.line_to_idx == byte_off(s, self.line_pos as int)
    }

    /// The next character with its byte offset, or `None` at the end of the text.
    pub open spec fn upcoming(&self) -> Option<(usize, char)> {
        if self.pos() < self.source().len() {
            Some((byte_off(self.source(), self.pos()) as usize, self.source()[self.pos()]))
        } else {
            None
        }
    }

    /// The reader moved to `pos` over the same text.
    pub open spec fn moved(&self, before: &ConfigParser, pos: int) -> bool {
        &&& self.wf()
        &&& self.source() == before.source()
        &&& self.pos() == pos
    }

    /// A reader at the start of `slurp_config`.
    pub fn new(slurp_config: &str) -> (p: ConfigParser)
        requires
            4 * slurp_config@.len() < usize::MAX,
        ensures
            p.wf(),
            p.source() == slurp_config@,
            p.pos() == 0,
    {
        ConfigParser {
            chars: chars_of(slurp_config),
            pos: 0,
            idx: 0,
            line: 1,
            line_pos: 0,
            line_to_idx: 0,
        }
    }

    /// A reader at the start of `slurp_config`, unless the text is too long
    /// for its byte offsets to be kept.
    pub fn try_new(slurp_config: &str) -> (r: Option<ConfigParser>)
        ensures
            r is Some <==> 4 * slurp_config@.len() < usize::MAX,
            r is Some ==> r->0.wf() && r->0.source() == slurp_config@ && r->0.pos() == 0,
    {
        let chars = chars_of(slurp_config);
        if chars.len() <= (usize::MAX - 1) / 4 {
            Some(ConfigParser { chars, pos: 0, idx: 0, line: 1, line_pos: 0, line_to_idx: 0 })
        } else {
            None
        }
    }

    /// The number of the line that the cursor is on, from 1.
    pub fn line(&self) -> (n: usize)
        requires
            self.wf(),
        ensures
            n == line_no(self.source(), self.pos()),
    {
        self.line
    }

    /// The byte offset at which the cursor's line starts.
    pub fn line_offset(&self) -> (n: usize)
        requires
            self.wf(),
        ensures
            n == byte_off(self.source(), line_start(self.source(), self.pos())),
    {
        self.line_to_idx
    }

    /// The byte offset of the cursor.
    pub fn offset(&self) -> (n: usize)
        requires
            self.wf(),
        ensures
            n == byte_off(self.source(), self.pos()),
    {
        self.idx
    }

    /// The next character and its byte offset, if any is left.
    pub fn peek(&self) -> (r: Option<(usize, char)>)
        requires
            self.wf(),
        ensures
            r == self.upcoming(),
    {
        if self.pos < self.chars.len() {
            Some((self.idx, self.chars[self.pos]))
        } else {
            None
        }
    }

    /// Takes the next character, if any is left, and returns it with its byte offset.
    pub fn advance(&mut self) -> (r: Option<(usize, char)>)
        requires
            old(self).wf(),
        ensures
            r == old(self).upcoming(),
            old(self).pos() < old(self).source().len() ==> final(self).moved(
                old(self),
                old(self).pos() + 1,
            ),
            old(self).pos() >= old(self).source().len() ==> final(self).moved(
                old(self),
                old(self).pos(),
            ),
    {
        if self.pos < self.chars.len() {
            let c = self.chars[self.pos];
            let at = self.idx;
            proof {
                lemma_byte_off_mono(self.chars@, 0, self.pos as int + 1);
                lemma_line_bounds(self.chars@, self.pos as int);
            }
            self.pos = self.pos + 1;
            self.idx = self.idx + utf8_width(c);
            if c == '\n' {
                self.line = self.line + 1;
                self.line_pos = self.pos;
                self.line_to_idx = self.idx;
            }
            Some((at, c))
        } else {
            None
        }
    }

    /// Passes the rest of the line, its line break included.
    pub fn to_new_line(&mut self)
        requires
            old(self).wf(),
        ensures
            final(self).moved(old(self), next_line(old(self).source(), old(self).pos())),
    {
        proof {
            lemma_line_end(self.chars@, self.pos as int);
        }
        loop
            invariant_except_break
                self.wf(),
                self.chars@ == old(self).chars@,
                old(self).pos <= self.pos,
                line_end(self.chars@, self.pos as int) == line_end(
                    old(self).chars@,
                    old(self).pos as int,
                ),
            ensures
                final(self).moved(old(self), next_line(old(self).source(), old(self).pos())),
            decreases self.chars.len() - self.pos,
        {
            match self.advance() {
                Some((_, ch)) => {
                    if ch == '\n' {
                        break;
                    }
                },
                None => {
                    break;
                },
            }
        }
    }

    /// Passes characters for as long as `f` accepts them.
    pub fn skip<F: Fn(char) -> bool>(&mut self, f: F)
        requires
            old(self).wf(),
            forall|c: char| #[trigger] f.requires((c,)),
        ensures
            final(self).wf(),
            final(self).source() == old(self).source(),
            old(self).pos() <= final(self).pos() <= old(self).source().len(),
            forall|i: int|
                old(self).pos() <= i < final(self).pos() ==> f.ensures(
                    (#[trigger] old(self).source()[i],),
                    true,
                ),
            final(self).pos() < old(self).source().len() ==> f.ensures(
                (old(self).source()[final(self).pos()],),
                false,
            ),
    {
        while self.pos < self.chars.len()
            invariant_except_break
                self.wf(),
                self.chars@ == old(self).chars@,
                old(self).pos <= self.pos <= self.chars.len(),
                forall|c: char| #[trigger] f.requires((c,)),
                forall|i: int|
                    old(self).pos <= i < self.pos ==> f.ensures(
                        (#[trigger] old(self).chars@[i],),
                        true,
                    ),
            ensures
                self.wf(),
                self.chars@ == old(self).chars@,
                old(self).pos <= self.pos <= self.chars.len(),
                forall|i: int|
                    old(self).pos <= i < self.pos ==> f.ensures(
                        (#[trigger] old(self).chars@[i],),
                        true,
                    ),
                self.pos < self.chars.len() ==> f.ensures((self.chars@[self.pos as int],), false),
            decreases self.chars.len() - self.pos,
        {
            if !f(self.chars[self.pos]) {
                break;
            }
            let _ = self.advance();
        }
    }

    /// Passes `n` characters, or all that are left if they are fewer.
    pub fn skip_n(&mut self, n: usize)
        requires
            old(self).wf(),
        ensures
            final(self).moved(
                old(self),
                if old(self).pos() + n <= old(self).source().len() {
                    old(self).pos() + n
                } else {
                    old(self).source().len() as int
                },
            ),
    {
        let mut k: usize = 0;
        while k < n && self.pos < self.chars.len()
            invariant
                self.wf(),
                self.chars@ == old(self).chars@,
                k <= n,
                self.pos == old(self).pos + k,
            decreases n - k,
        {
            let _ = self.advance();
            k = k + 1;
        }
    }

    /// Whether the text from the cursor on begins with `maybe`. The cursor stays.
    pub fn maybe(&self, maybe: &str) -> (r: bool)
        requires
            self.wf(),
        ensures
            r == starts_with(self.source(), self.pos(), maybe@),
    {
        let lit = chars_of(maybe);
        if lit.len() > self.chars.len() - self.pos {
            return false;
        }
        let mut k: usize = 0;
        while k < lit.len()
            invariant
                self.wf(),
                lit@ == maybe@,
                k <= lit.len(),
                self.pos + lit.len() <= self.chars.len(),
                forall|j: int| 0 <= j < k ==> self.chars@[self.pos + j] == #[trigger] lit@[j],
            decreases lit.len() - k,
        {
            if self.chars[self.pos + k] != lit[k] {
                return false;
            }
            k = k + 1;
        }
        true
    }

    /// The reader moved as the outcome `p` says, and `r` is that outcome: the
    /// value, or the diagnostic for its fault, with the cursor on the
    /// offending character.
    pub open spec fn agrees<T: View>(
        &self,
        before: &ConfigParser,
        r: Result<T, ConfigErr>,
        p: Parsed<T::V>,
    ) -> bool {
        match p {
            Parsed::Good { val, used } => r is Ok && r->Ok_0@ == val && self.moved(
                before,
                before.pos() + used,
            ),
            Parsed::Bad(f) => r is Err && r->Err_0@ == diag_of(before.source(), f) && self.moved(
                before,
                f.at,
            ),
        }
    }

    /// A diagnostic of kind `kind` with the message `msg` for the character
    /// under the cursor, with the text of its line.
    pub fn make_err(&self, kind: ErrKind, msg: String) -> (e: ConfigErr)
        requires
            self.wf(),
        ensures
            e@ == (Diag {
                msg: msg@,
                ..diag_of(self.source(), Fault { kind, what: Seq::empty(), at: self.pos() })
            }),
    {
        proof {
            lemma_line_bounds(self.chars@, self.pos as int);
        }
        let mut end = self.pos;
        while end < self.chars.len() && self.chars[end] != '\n'
            invariant
                self.pos <= end <= self.chars.len(),
                line_end(self.chars@, end as int) == line_end(self.chars@, self.pos as int),
            decreases self.chars.len() - end,
        {
            end = end + 1;
        }
        let mut excerpt = String::new();
        push_range(&mut excerpt, &self.chars, self.line_pos, end);
        assert(excerpt@ =~= self.chars@.subrange(self.line_pos as int, end as int));
        ConfigErr {
            msg,
            kind,
            line: self.line,
            line_to_idx: self.line_to_idx,
            idx: if self.pos < self.chars.len() {
                Some(self.idx)
            } else {
                None
            },
            excerpt,
            carets: self.pos - self.line_pos + 1,
        }
    }

    /// The diagnostic for a fault of kind `kind` at the cursor, where `what` was expected.
    pub fn error_at(&self, kind: ErrKind, what: &str) -> (e: ConfigErr)
        requires
            self.wf(),
        ensures
            e@ == diag_of(self.source(), Fault { kind, what: what@, at: self.pos() }),
    {
        proof {
            lemma_line_bounds(self.chars@, self.pos as int);
            lemma_byte_off_mono(self.chars@, self.line_pos as int, self.pos as int);
        }
        let mut msg = String::from_str("error on line: ");
        push_decimal(&mut msg, self.line);
        let at_end = match kind {
            ErrKind::MissingValue => self.pos >= self.chars.len(),
            _ => false,
        };
        if at_end {
            msg.append(". Expected value but found end of line.");
        } else {
            msg.append(", column: ");
            push_decimal(&mut msg, self.idx - self.line_to_idx);
            msg.append(". Expected ");
            msg.append(what);
            msg.append(".");
        }
        self.make_err(kind, msg)
    }

    /// Reads the token `need`; a fault has the kind `kind`.
    pub fn need(&mut self, need: &str, kind: ErrKind) -> (r: Result<(), ConfigErr>)
        requires
            old(self).wf(),
        ensures
            final(self).agrees(old(self), r, token_at(old(self).source(), old(self).pos(), need@, kind)),
    {
        let tok = chars_of(need);
        let mut k: usize = 0;
        while k < tok.len()
            invariant
                self.wf(),
                self.chars@ == old(self).chars@,
                tok@ == need@,
                k <= tok.len(),
                self.pos == old(self).pos + k,
                common_len(self.chars@, old(self).pos as int, tok@, 0) == common_len(
                    self.chars@,
                    old(self).pos as int,
                    tok@,
                    k as int,
                ),
            decreases tok.len() - k,
        {
            if self.pos < self.chars.len() && self.chars[self.pos] == tok[k] {
                let _ = self.advance();
                k = k + 1;
            } else {
                let mut what = String::from_str("`");
                what.append(need);
                what.append("`");
                return Err(self.error_at(kind, what.as_str()));
            }
        }
        Ok(())
    }

    /// Passes whitespace, but no line break.
    pub fn skip_inline(&mut self)
        requires
            old(self).wf(),
        ensures
            final(self).moved(
                old(self),
                old(self).pos() + inline_len(old(self).source(), old(self).pos()),
            ),
    {
        self.skip(is_inline_whitespace);
        proof {
            lemma_inline_run(self.chars@, old(self).pos as int, self.pos as int);
        }
    }

    /// Reads a variable name.
    pub fn parse_variable(&mut self) -> (r: Result<String, ConfigErr>)
        requires
            old(self).wf(),
        ensures
            final(self).agrees(old(self), r, name_at(old(self).source(), old(self).pos())),
    {
        let start = self.pos;
        while self.pos < self.chars.len() && !ends_name(self.chars[self.pos])
            invariant
                self.wf(),
                self.chars@ == old(self).chars@,
                start == old(self).pos,
                start <= self.pos,
                name_len(self.chars@, start as int) == self.pos - start + name_len(
                    self.chars@,
                    self.pos as int,
                ),
            decreases self.chars.len() - self.pos,
        {
            let _ = self.advance();
        }
        if self.pos == start {
            Err(self.error_at(ErrKind::MissingVariableName, "`variable name`"))
        } else {
            let mut name = String::new();
            push_range(&mut name, &self.chars, start, self.pos);
            assert(name@ =~= self.chars@.subrange(start as int, self.pos as int));
            Ok(name)
        }
    }

    /// Reads a number literal, which may be empty.
    pub fn parse_num(&mut self) -> (r: ConfigVal)
        requires
            old(self).wf(),
        ensures
            r@ == number_at(old(self).source(), old(self).pos()),
            final(self).moved(
                old(self),
                old(self).pos() + num_len(old(self).source(), old(self).pos(), false),
            ),
    {
        let start = self.pos;
        let mut seen_dot = false;
        while self.pos < self.chars.len()
            invariant_except_break
                self.wf(),
                self.chars@ == old(self).chars@,
                start == old(self).pos,
                start <= self.pos,
                num_len(self.chars@, start as int, false) == self.pos - start + num_len(
                    self.chars@,
                    self.pos as int,
                    seen_dot,
                ),
            ensures
                self.wf(),
                self.chars@ == old(self).chars@,
                start == old(self).pos,
                start <= self.pos,
                num_len(self.chars@, start as int, false) == self.pos - start,
            decreases self.chars.len() - self.pos,
        {
            let ch = self.chars[self.pos];
            let range_ahead = self.at_range();
            if (!is_decimal_digit(ch) && ch != '.') || (ch == '.' && seen_dot) || range_ahead {
                break;
            }
            if ch == '.' {
                seen_dot = true;
            }
            let _ = self.advance();
        }
        let mut num = String::new();
        push_range(&mut num, &self.chars, start, self.pos);
        assert(num@ =~= self.chars@.subrange(start as int, self.pos as int));
        ConfigVal::Num(num)
    }

    /// Whether the range operator `..` stands at the cursor.
    pub fn at_range(&self) -> (r: bool)
        requires
            self.wf(),
        ensures
            r == dotdot(self.source(), self.pos()),
    {
        let r = self.maybe("..");
        proof {
            reveal_strlit("..");
            if r {
                assert(".."@[0] == '.' && ".."@[1] == '.');
            }
        }
        r
    }

    /// Reads a tuple: `(`, values separated by `,`, and `)`.
    pub fn parse_tuple(&mut self) -> (r: Result<ConfigVal, ConfigErr>)
        requires
            old(self).wf(),
        ensures
            final(self).agrees(old(self), r, tuple_at(old(self).source(), old(self).pos())),
        decreases left(old(self).source(), old(self).pos()), 1int,
    {
        let ghost s = self.chars@;
        let ghost start = self.pos as int;
        proof {
            reveal_strlit("(");
            assert("("@ =~= seq!['(']);
            reveal_with_fuel(common_len, 3);
        }
        match self.need("(", ErrKind::MalformedTuple) {
            Err(e) => {
                return Err(e);
            },
            Ok(()) => {},
        }
        let mut tuple: Vec<ConfigVal> = Vec::with_capacity(3);
        let ghost first = start + 1;
        assert(models(tuple@) + items_at(s, first)->Good_val =~= items_at(s, first)->Good_val);
        loop
            invariant_except_break
                self.wf(),
                self.chars@ == s,
                s == old(self).chars@,
                start == old(self).pos,
                0 <= start < s.len(),
                s[start] == '(',
                first == start + 1,
                first <= self.pos <= s.len(),
                match items_at(s, self.pos as int) {
                    Parsed::Good { val: rest, used } => items_at(s, first) == (Parsed::Good {
                        val: models(tuple@) + rest,
                        used: (self.pos - first + used) as nat,
                    }),
                    Parsed::Bad(f) => items_at(s, first) == Parsed::<Seq<Val>>::Bad(f),
                },
            ensures
                self.wf(),
                self.chars@ == s,
                first <= self.pos <= s.len(),
                items_at(s, first) == (Parsed::Good {
                    val: models(tuple@),
                    used: (self.pos - first) as nat,
                }),
            decreases s.len() - self.pos,
        {
            let ghost from = self.pos as int;
            let ghost before = tuple@;
            self.skip_inline();
            match self.parse_value() {
                Err(e) => {
                    return Err(e);
                },
                Ok(val) => {
                    tuple.push(val);
                },
            }
            self.skip_inline();
            let ghost q = self.pos as int;
            let ghost item = tuple@[tuple@.len() - 1].model();
            proof {
                assert(models(tuple@) =~= models(before) + seq![item]);
            }
            match self.peek() {
                Some((_, ')')) => {
                    let _ = self.advance();
                    proof {
                        assert(models(before) + seq![item] =~= models(tuple@));
                    }
                    break;
                },
                Some((_, ',')) => {
                    let _ = self.advance();
                    proof {
                        match items_at(s, q + 1) {
                            Parsed::Good { val: rest, used } => {
                                assert(models(before) + (seq![item] + rest) =~= models(tuple@)
                                    + rest);
                            },
                            Parsed::Bad(f) => {},
                        }
                    }
                },
                _ => {
                    return Err(self.error_at(ErrKind::MalformedTuple, "`,` or `)`"));
                },
            }
        }
        proof {
            let items = ConfigVal::Tuple(tuple).model()->Tuple_0;
            assert(items =~= models(tuple@));
        }
        Ok(ConfigVal::Tuple(tuple))
    }

    /// Reads a value. After a number or a tuple, a `..` and a second one of
    /// the same kind make a range.
    pub fn parse_value(&mut self) -> (r: Result<ConfigVal, ConfigErr>)
        requires
            old(self).wf(),
        ensures
            final(self).agrees(old(self), r, value_at(old(self).source(), old(self).pos())),
        decreases left(old(self).source(), old(self).pos()), 2int,
    {
        proof {
            reveal_strlit("true");
            reveal_strlit("false");
            reveal_strlit("Nil");
            reveal_strlit("nil");
            assert("true"@ =~= seq!['t', 'r', 'u', 'e']);
            assert("false"@ =~= seq!['f', 'a', 'l', 's', 'e']);
            assert("Nil"@ =~= seq!['N', 'i', 'l']);
            assert("nil"@ =~= seq!['n', 'i', 'l']);
        }
        match self.peek() {
            None => Err(self.error_at(ErrKind::MissingValue, "value")),
            Some((_, ch)) => {
                if is_decimal_digit(ch) || ch == '.' {
                    let num = self.parse_num();
                    self.skip_inline();
                    if self.at_range() {
                        self.skip_n(2);
                        self.skip_inline();
                        let num_last = self.parse_num();
                        Ok(ConfigVal::Range(Box::new(num), Box::new(num_last)))
                    } else {
                        Ok(num)
                    }
                } else if ch == '(' {
                    let tuple = match self.parse_tuple() {
                        Ok(tuple) => tuple,
                        Err(e) => {
                            return Err(e);
                        },
                    };
                    self.skip_inline();
                    if self.at_range() {
                        self.skip_n(2);
                        self.skip_inline();
                        match self.parse_tuple() {
                            Ok(tuple_last) => Ok(
                                ConfigVal::Range(Box::new(tuple), Box::new(tuple_last)),
                            ),
                            Err(e) => Err(e),
                        }
                    } else {
                        Ok(tuple)
                    }
                } else if self.maybe("true") {
                    self.skip_n(4);
                    Ok(ConfigVal::Bool(true))
                } else if self.maybe("false") {
                    self.skip_n(5);
                    Ok(ConfigVal::Bool(false))
                } else if (ch == 'N' && self.maybe("Nil")) || (ch == 'n' && self.maybe("nil")) {
                    self.skip_n(3);
                    Ok(ConfigVal::Nil)
                } else {
                    Err(self.error_at(ErrKind::MissingValue, "value"))
                }
            },
        }
    }

    /// What `r` must be for the step `step` in the text `s`.
    pub open spec fn reports(
        r: Option<Result<ConfigParam, ConfigErr>>,
        s: Seq<char>,
        step: Step,
    ) -> bool {
        match step {
            Step::End => r is None,
            Step::Statement { name, val } => r is Some && r->0 is Ok && r->0->Ok_0@ == (name, val),
            Step::Failure(f) => r is Some && r->0 is Err && r->0->Err_0@ == diag_of(s, f),
        }
    }

    /// Reads the next statement. Whitespace and comments before it are
    /// passed. After a fault the rest of its line is given up, so that the
    /// next call begins on the following line. `None` means that the text is
    /// used up.
    pub fn parse(&mut self) -> (r: Option<Result<ConfigParam, ConfigErr>>)
        requires
            old(self).wf(),
        ensures
            final(self).moved(old(self), next_at(old(self).source(), old(self).pos()).1),
            Self::reports(r, old(self).source(), next_at(old(self).source(), old(self).pos()).0),
    {
        let ghost s = self.chars@;
        loop
            invariant
                self.wf(),
                self.chars@ == s,
                s == old(self).chars@,
                old(self).pos <= self.pos,
                self.pos + trivia_len(s, self.pos as int, false) == old(self).pos + trivia_len(
                    s,
                    old(self).pos as int,
                    false,
                ),
            decreases s.len() - self.pos,
        {
            let ghost from = self.pos as int;
            self.skip(is_whitespace);
            proof {
                lemma_space_run(s, from, self.pos as int);
            }
            let ghost p = self.pos as int;
            match self.peek() {
                None => {
                    return None;
                },
                Some((_, '#')) => {
                    proof {
                        lemma_comment_run(s, p + 1);
                        lemma_line_end(s, p + 1);
                    }
                    self.to_new_line();
                },
                Some(_) => {
                    proof {
                        reveal_strlit("::");
                        assert("::"@ =~= seq![':', ':']);
                    }
                    let name = match self.parse_variable() {
                        Ok(name) => name,
                        Err(e) => {
                            self.to_new_line();
                            return Some(Err(e));
                        },
                    };
                    self.skip_inline();
                    match self.need("::", ErrKind::MissingAssignmentOperator) {
                        Err(e) => {
                            self.to_new_line();
                            return Some(Err(e));
                        },
                        Ok(()) => {},
                    }
                    self.skip_inline();
                    return Some(
                        match self.parse_value() {
                            Ok(val) => Ok(ConfigParam { name, val }),
                            Err(e) => {
                                self.to_new_line();
                                Err(e)
                            },
                        },
                    );
                },
            }
        }
    }
}

} // verus!
