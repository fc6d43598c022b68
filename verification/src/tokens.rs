//! The consume operations the grammar is written in: each recognizes one
//! kind of run or literal at the cursor and either succeeds, advancing past
//! exactly what it recognized, or fails at the cursor without moving.

use vstd::prelude::*;

use crate::cursor::{
    cur, lit_at, outcome_wf, progressed, spec_consume_lit, Cursor, Outcome, Range,
};
use crate::lexical::{
    is_attr_value_byte, is_char_data, is_digit, is_hex_digit, is_name_continue, is_name_start,
    is_ncname_continue, is_ncname_start, is_space, lemma_run_len_is, lemma_until_len_is,
    outcome_of_run, run_len, until_len,
};

verus! {

/// The classes of byte runs the classifier recognizes.
#[derive(Clone, Copy, Debug)]
pub enum ByteClass {
    Space,
    Digit,
    HexDigit,
    NcnameContinue,
    NameContinue,
    CharData,
    AttrValue(u8),
}

/// The predicate a byte class stands for.
pub open spec fn class_spec(cl: ByteClass) -> spec_fn(u8) -> bool {
    match cl {
        ByteClass::Space => |b: u8| is_space(b),
        ByteClass::Digit => |b: u8| is_digit(b),
        ByteClass::HexDigit => |b: u8| is_hex_digit(b),
        ByteClass::NcnameContinue => |b: u8| is_ncname_continue(b),
        ByteClass::NameContinue => |b: u8| is_name_continue(b),
        ByteClass::CharData => |b: u8| is_char_data(b),
        ByteClass::AttrValue(quote) => |b: u8| is_attr_value_byte(b, quote),
    }
}

fn in_class(b: u8, cl: ByteClass) -> (r: bool)
    ensures
        r == class_spec(cl)(b),
{
    match cl {
        ByteClass::Space => b == (' ' as u8) || b == 9 || b == 13 || b == 10,
        ByteClass::Digit => ('0' as u8) <= b && b <= ('9' as u8),
        ByteClass::HexDigit => (('0' as u8) <= b && b <= ('9' as u8)) || (('a' as u8) <= b && b
            <= ('f' as u8)) || (('A' as u8) <= b && b <= ('F' as u8)),
        ByteClass::NcnameContinue => (('a' as u8) <= b && b <= ('z' as u8)) || (('A' as u8) <= b
            && b <= ('Z' as u8)) || b == ('_' as u8) || b >= 128 || (('0' as u8) <= b && b
            <= ('9' as u8)) || b == ('-' as u8) || b == ('.' as u8),
        ByteClass::NameContinue => (('a' as u8) <= b && b <= ('z' as u8)) || (('A' as u8) <= b && b
            <= ('Z' as u8)) || b == ('_' as u8) || b >= 128 || (('0' as u8) <= b && b
            <= ('9' as u8)) || b == ('-' as u8) || b == ('.' as u8) || b == (':' as u8),
        ByteClass::CharData => b != ('<' as u8) && b != ('&' as u8),
        ByteClass::AttrValue(quote) => b != quote && b != ('<' as u8) && b != ('&' as u8),
    }
}

/// Consume the longest nonempty run of bytes of class `cl`.
pub fn consume_class_run(input: &[u8], c: Cursor, cl: ByteClass) -> (r: Outcome<Range>)
    requires
        c.offset <= input@.len(),
    ensures
        r == outcome_of_run(c, run_len(input@, c.offset as int, class_spec(cl))),
        outcome_wf(input@, c, r),
        progressed(c, r),
{
    let ilen = input.len();
    let mut j: usize = c.offset;
    while j < ilen && in_class(input[j], cl)
        invariant
            c.offset <= j <= input@.len(),
            ilen == input@.len(),
            forall|k: int| c.offset <= k < j ==> class_spec(cl)(input@[k]),
        decreases input@.len() - j,
    {
        j += 1;
    }
    proof {
        lemma_run_len_is(input@, c.offset as int, class_spec(cl), j - c.offset);
    }
    if j == c.offset {
        Outcome::Failure { at: c }
    } else {
        Outcome::Success { value: Range { start: c.offset, end: j }, next: Cursor { offset: j } }
    }
}

/// `lit` occurs in the input at `off`.
pub fn lit_matches(input: &[u8], off: usize, lit: &[u8]) -> (r: bool)
    requires
        off <= input@.len(),
    ensures
        r == lit_at(input@, off as int, lit@),
{
    let ilen = input.len();
    if lit.len() > ilen - off {
        return false;
    }
    let mut i: usize = 0;
    while i < lit.len()
        invariant
            0 <= i <= lit@.len(),
            off + lit@.len() <= input@.len(),
            input@.len() <= usize::MAX,
            forall|j: int| 0 <= j < i ==> input@[off + j] == lit@[j],
        decreases lit@.len() - i,
    {
        if input[off + i] != lit[i] {
            assert(input@.subrange(off as int, off + lit@.len()) != lit@) by {
                assert(input@.subrange(off as int, off + lit@.len())[i as int] != lit@[i as int]);
            }
            return false;
        }
        i += 1;
    }
    assert(input@.subrange(off as int, off + lit@.len()) =~= lit@);
    true
}

/// Consume the longest nonempty run of bytes in which `delim` does not occur.
pub fn consume_until(input: &[u8], c: Cursor, delim: &[u8]) -> (r: Outcome<Range>)
    requires
        c.offset <= input@.len(),
    ensures
        r == outcome_of_run(c, until_len(input@, c.offset as int, delim@)),
        outcome_wf(input@, c, r),
        progressed(c, r),
{
    let ilen = input.len();
    let mut j: usize = c.offset;
    while j < ilen && !lit_matches(input, j, delim)
        invariant
            c.offset <= j <= input@.len(),
            ilen == input@.len(),
            forall|k: int| c.offset <= k < j ==> !lit_at(input@, k, delim@),
        decreases input@.len() - j,
    {
        j += 1;
    }
    proof {
        lemma_until_len_is(input@, c.offset as int, delim@, j - c.offset);
    }
    if j == c.offset {
        Outcome::Failure { at: c }
    } else {
        Outcome::Success { value: Range { start: c.offset, end: j }, next: Cursor { offset: j } }
    }
}

/// The length of an NCName at `off`: a starting byte, then continuation
/// bytes; zero when no NCName starts there.
pub open spec fn ncname_len(input: Seq<u8>, off: int) -> int {
    if 0 <= off < input.len() && is_ncname_start(input[off]) {
        1 + run_len(input, off + 1, |b: u8| is_ncname_continue(b))
    } else {
        0
    }
}

/// The length of a full name (an NCName that may also contain colons).
pub open spec fn name_len(input: Seq<u8>, off: int) -> int {
    if 0 <= off < input.len() && is_name_start(input[off]) {
        1 + run_len(input, off + 1, |b: u8| is_name_continue(b))
    } else {
        0
    }
}

pub open spec fn spec_consume_space(input: Seq<u8>, c: Cursor) -> Outcome<Range> {
    outcome_of_run(c, run_len(input, c.offset as int, |b: u8| is_space(b)))
}

pub open spec fn spec_consume_decimal_chars(input: Seq<u8>, c: Cursor) -> Outcome<Range> {
    outcome_of_run(c, run_len(input, c.offset as int, |b: u8| is_digit(b)))
}

pub open spec fn spec_consume_hex_chars(input: Seq<u8>, c: Cursor) -> Outcome<Range> {
    outcome_of_run(c, run_len(input, c.offset as int, |b: u8| is_hex_digit(b)))
}

pub open spec fn spec_consume_char_data(input: Seq<u8>, c: Cursor) -> Outcome<Range> {
    outcome_of_run(c, run_len(input, c.offset as int, |b: u8| is_char_data(b)))
}

pub open spec fn spec_consume_attribute_value(input: Seq<u8>, c: Cursor, quote: u8) -> Outcome<
    Range,
> {
    outcome_of_run(c, run_len(input, c.offset as int, |b: u8| is_attr_value_byte(b, quote)))
}

pub open spec fn cdata_delim() -> Seq<u8> {
    seq![(']' as u8), (']' as u8), ('>' as u8)]
}

pub open spec fn comment_delim() -> Seq<u8> {
    seq![('-' as u8), ('-' as u8)]
}

pub open spec fn pi_delim() -> Seq<u8> {
    seq![('?' as u8), ('>' as u8)]
}

pub open spec fn spec_consume_cdata(input: Seq<u8>, c: Cursor) -> Outcome<Range> {
    outcome_of_run(c, until_len(input, c.offset as int, cdata_delim()))
}

pub open spec fn spec_consume_comment(input: Seq<u8>, c: Cursor) -> Outcome<Range> {
    outcome_of_run(c, until_len(input, c.offset as int, comment_delim()))
}

pub open spec fn spec_consume_pi_value(input: Seq<u8>, c: Cursor) -> Outcome<Range> {
    outcome_of_run(c, until_len(input, c.offset as int, pi_delim()))
}

pub open spec fn spec_consume_ncname(input: Seq<u8>, c: Cursor) -> Outcome<Range> {
    outcome_of_run(c, ncname_len(input, c.offset as int))
}

pub open spec fn spec_consume_name(input: Seq<u8>, c: Cursor) -> Outcome<Range> {
    outcome_of_run(c, name_len(input, c.offset as int))
}

/// A start tag opens here: a `<` not followed by `!`, `?` or `/`.  Only the
/// `<` itself is consumed.
pub open spec fn spec_consume_start_tag(input: Seq<u8>, c: Cursor) -> Outcome<Range> {
    let off = c.offset as int;
    if off < input.len() && input[off] == ('<' as u8) && (off + 1 == input.len() || (input[off + 1]
        != ('!' as u8) && input[off + 1] != ('?' as u8) && input[off + 1] != ('/' as u8))) {
        outcome_of_run(c, 1)
    } else {
        Outcome::Failure { at: c }
    }
}

/// A possibly prefixed name, both parts given as ranges of the input: the
/// `prefix:local` of a tag or attribute, or a bare local name.
#[derive(Clone, Copy, Debug, PartialEq, Eq, Structural)]
pub struct PrefixedName {
    pub prefix: Option<Range>,
    pub local_part: Range,
}

/// A prefixed name is an NCName, optionally followed by a colon and a second
/// NCName; when the colon is not followed by an NCName, only the first
/// NCName is consumed and the name is unprefixed.
pub open spec fn spec_consume_prefixed_name(input: Seq<u8>, c: Cursor) -> Outcome<PrefixedName> {
    match spec_consume_ncname(input, c) {
        Outcome::Success { value: first, next: c1 } => {
            let bare = Outcome::Success::<PrefixedName> {
                value: PrefixedName { prefix: None, local_part: first },
                next: c1,
            };
            match spec_consume_lit(input, c1, seq![(':' as u8)]) {
                Outcome::Success { value: _, next: c2 } => {
                    match spec_consume_ncname(input, c2) {
                        Outcome::Success { value: local, next: c3 } => Outcome::Success {
                            value: PrefixedName { prefix: Some(first), local_part: local },
                            next: c3,
                        },
                        _ => bare,
                    }
                },
                _ => bare,
            }
        },
        _ => Outcome::Failure { at: c },
    }
}

/// The public consume operations of the parser, implemented by `Cursor`.
pub trait XmlParseExt: Sized {
    /// The absolute input offset this value stands at.
    spec fn pos(&self) -> int;

    fn consume_space(&self, input: &[u8]) -> (r: Outcome<Range>)
        requires
            0 <= self.pos() <= input@.len(),
        ensures
            r == spec_consume_space(input@, cur(self.pos())),
            outcome_wf(input@, cur(self.pos()), r),
            progressed(cur(self.pos()), r),
    ;

    fn consume_decimal_chars(&self, input: &[u8]) -> (r: Outcome<Range>)
        requires
            0 <= self.pos() <= input@.len(),
        ensures
            r == spec_consume_decimal_chars(input@, cur(self.pos())),
            outcome_wf(input@, cur(self.pos()), r),
            progressed(cur(self.pos()), r),
    ;

    fn consume_ncname(&self, input: &[u8]) -> (r: Outcome<Range>)
        requires
            0 <= self.pos() <= input@.len(),
        ensures
            r == spec_consume_ncname(input@, cur(self.pos())),
            outcome_wf(input@, cur(self.pos()), r),
            progressed(cur(self.pos()), r),
    ;

    fn consume_prefixed_name(&self, input: &[u8]) -> (r: Outcome<PrefixedName>)
        requires
            0 <= self.pos() <= input@.len(),
        ensures
            r == spec_consume_prefixed_name(input@, cur(self.pos())),
            outcome_wf(input@, cur(self.pos()), r),
            progressed(cur(self.pos()), r),
    ;
}

impl XmlParseExt for Cursor {
    open spec fn pos(&self) -> int {
        self.offset as int
    }

    fn consume_space(&self, input: &[u8]) -> (r: Outcome<Range>) {
        consume_class_run(input, *self, ByteClass::Space)
    }

    fn consume_decimal_chars(&self, input: &[u8]) -> (r: Outcome<Range>) {
        consume_class_run(input, *self, ByteClass::Digit)
    }

    fn consume_ncname(&self, input: &[u8]) -> (r: Outcome<Range>) {
        if self.offset < input.len() {
            let b = input[self.offset];
            let starts = (('a' as u8) <= b && b <= ('z' as u8)) || (('A' as u8) <= b && b
                <= ('Z' as u8)) || b == ('_' as u8) || b >= 128;
            if starts {
                let after = Cursor { offset: self.offset + 1 };
                match consume_class_run(input, after, ByteClass::NcnameContinue) {
                    Outcome::Success { value, next } => Outcome::Success {
                        value: Range { start: self.offset, end: value.end },
                        next,
                    },
                    _ => Outcome::Success {
                        value: Range { start: self.offset, end: after.offset },
                        next: after,
                    },
                }
            } else {
                Outcome::Failure { at: *self }
            }
        } else {
            Outcome::Failure { at: *self }
        }
    }

    fn consume_prefixed_name(&self, input: &[u8]) -> (r: Outcome<PrefixedName>) {
        match self.consume_ncname(input) {
            Outcome::Success { value: first, next: c1 } => {
                let colon = [(':' as u8)];
                assert(colon@ =~= seq![(':' as u8)]);
                match crate::cursor::consume_lit(input, c1, colon.as_slice()) {
                    Outcome::Success { value: _, next: c2 } => {
                        match c2.consume_ncname(input) {
                            Outcome::Success { value: local, next: c3 } => Outcome::Success {
                                value: PrefixedName { prefix: Some(first), local_part: local },
                                next: c3,
                            },
                            _ => Outcome::Success {
                                value: PrefixedName { prefix: None, local_part: first },
                                next: c1,
                            },
                        }
                    },
                    _ => Outcome::Success {
                        value: PrefixedName { prefix: None, local_part: first },
                        next: c1,
                    },
                }
            },
            _ => Outcome::Failure { at: *self },
        }
    }
}

impl Cursor {
    pub fn consume_hex_chars(&self, input: &[u8]) -> (r: Outcome<Range>)
        requires
            self.offset <= input@.len(),
        ensures
            r == spec_consume_hex_chars(input@, *self),
            outcome_wf(input@, *self, r),
            progressed(*self, r),
    {
        consume_class_run(input, *self, ByteClass::HexDigit)
    }

    pub fn consume_char_data(&self, input: &[u8]) -> (r: Outcome<Range>)
        requires
            self.offset <= input@.len(),
        ensures
            r == spec_consume_char_data(input@, *self),
            outcome_wf(input@, *self, r),
            progressed(*self, r),
    {
        consume_class_run(input, *self, ByteClass::CharData)
    }

    pub fn consume_attribute_value(&self, input: &[u8], quote: u8) -> (r: Outcome<Range>)
        requires
            self.offset <= input@.len(),
        ensures
            r == spec_consume_attribute_value(input@, *self, quote),
            outcome_wf(input@, *self, r),
            progressed(*self, r),
    {
        consume_class_run(input, *self, ByteClass::AttrValue(quote))
    }

    pub fn consume_cdata(&self, input: &[u8]) -> (r: Outcome<Range>)
        requires
            self.offset <= input@.len(),
        ensures
            r == spec_consume_cdata(input@, *self),
            outcome_wf(input@, *self, r),
            progressed(*self, r),
    {
        let delim = [(']' as u8), (']' as u8), ('>' as u8)];
        assert(delim@ =~= cdata_delim());
        consume_until(input, *self, delim.as_slice())
    }

    pub fn consume_comment(&self, input: &[u8]) -> (r: Outcome<Range>)
        requires
            self.offset <= input@.len(),
        ensures
            r == spec_consume_comment(input@, *self),
            outcome_wf(input@, *self, r),
            progressed(*self, r),
    {
        let delim = [('-' as u8), ('-' as u8)];
        assert(delim@ =~= comment_delim());
        consume_until(input, *self, delim.as_slice())
    }

    pub fn consume_pi_value(&self, input: &[u8]) -> (r: Outcome<Range>)
        requires
            self.offset <= input@.len(),
        ensures
            r == spec_consume_pi_value(input@, *self),
            outcome_wf(input@, *self, r),
            progressed(*self, r),
    {
        let delim = [('?' as u8), ('>' as u8)];
        assert(delim@ =~= pi_delim());
        consume_until(input, *self, delim.as_slice())
    }

    pub fn consume_name(&self, input: &[u8]) -> (r: Outcome<Range>)
        requires
            self.offset <= input@.len(),
        ensures
            r == spec_consume_name(input@, *self),
            outcome_wf(input@, *self, r),
            progressed(*self, r),
    {
        if self.offset < input.len() {
            let b = input[self.offset];
            let starts = (('a' as u8) <= b && b <= ('z' as u8)) || (('A' as u8) <= b && b
                <= ('Z' as u8)) || b == ('_' as u8) || b >= 128 || b == (':' as u8);
            if starts {
                let after = Cursor { offset: self.offset + 1 };
                match consume_class_run(input, after, ByteClass::NameContinue) {
                    Outcome::Success { value, next } => Outcome::Success {
                        value: Range { start: self.offset, end: value.end },
                        next,
                    },
                    _ => Outcome::Success {
                        value: Range { start: self.offset, end: after.offset },
                        next: after,
                    },
                }
            } else {
                Outcome::Failure { at: *self }
            }
        } else {
            Outcome::Failure { at: *self }
        }
    }

    pub fn consume_start_tag(&self, input: &[u8]) -> (r: Outcome<Range>)
        requires
            self.offset <= input@.len(),
        ensures
            r == spec_consume_start_tag(input@, *self),
            outcome_wf(input@, *self, r),
            progressed(*self, r),
    {
        if self.offset < input.len() && input[self.offset] == ('<' as u8) {
            let opens = if self.offset + 1 == input.len() {
                true
            } else {
                let b = input[self.offset + 1];
                b != ('!' as u8) && b != ('?' as u8) && b != ('/' as u8)
            };
            if opens {
                let after = Cursor { offset: self.offset + 1 };
                Outcome::Success { value: Range { start: self.offset, end: after.offset }, next: after }
            } else {
                Outcome::Failure { at: *self }
            }
        } else {
            Outcome::Failure { at: *self }
        }
    }
}

} // verus!
