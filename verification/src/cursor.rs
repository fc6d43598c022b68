//! The cursor and outcome algebra that the grammar layer is built from.
//!
//! A `Cursor` is a position in the input; all consume operations are pure:
//! they take the input and a cursor and return a fresh cursor inside an
//! `Outcome`, never mutating anything.  When two alternatives both fail, the
//! failure at the greater offset is the most interesting one and is kept.

use vstd::prelude::*;

verus! {

/// A position in the input text.  The remaining input is the suffix of the
/// parsed text that starts at `offset`; it is always passed alongside the
/// cursor rather than stored, so cursors are plain comparable values.
#[derive(Clone, Copy, Debug, PartialEq, Eq, Structural)]
pub struct Cursor {
    pub offset: usize,
}

/// A half-open byte range `start..end` of the input.
#[derive(Clone, Copy, Debug, PartialEq, Eq, Structural)]
pub struct Range {
    pub start: usize,
    pub end: usize,
}

/// The three-way result of a parse step: success, failure at a position, or
/// a partial success (a prefix of repetitions matched, then one failed).
#[derive(Clone, Copy, Debug)]
pub enum Outcome<T> {
    Success { value: T, next: Cursor },
    Failure { at: Cursor },
    Partial { value: T, failed_at: Cursor, next: Cursor },
}

/// The cursor at absolute offset `o` (meaningful while `o` fits in `usize`).
pub open spec fn cur(o: int) -> Cursor {
    Cursor { offset: o as usize }
}

/// The bytes of the input that `r` designates; empty if `r` is not a valid
/// range of the input.
pub open spec fn bytes_of(input: Seq<u8>, r: Range) -> Seq<u8> {
    if r.start <= r.end <= input.len() {
        input.subrange(r.start as int, r.end as int)
    } else {
        Seq::empty()
    }
}

/// `lit` occurs in `input` starting at offset `off`.
pub open spec fn lit_at(input: Seq<u8>, off: int, lit: Seq<u8>) -> bool {
    &&& 0 <= off
    &&& off + lit.len() <= input.len()
    &&& input.subrange(off, off + lit.len()) == lit
}

/// Of two failures, the one at the greater offset; the left one when the
/// offsets are equal, which keeps alternation deterministic.
pub open spec fn best_failure(a: Cursor, b: Cursor) -> Cursor {
    if b.offset > a.offset {
        b
    } else {
        a
    }
}

/// Pick the more interesting of two failures.
pub fn best_failure_exec(a: Cursor, b: Cursor) -> (r: Cursor)
    ensures
        r == best_failure(a, b),
{
    if b.offset > a.offset {
        b
    } else {
        a
    }
}

/// The most-interesting-failure policy: of competing failures the one at the
/// greatest offset is reported.  The choice depends only on the offsets, is
/// commutative and associative in them, and prefers the left alternative on a
/// tie.
pub proof fn lemma_most_interesting_failure(a: Cursor, b: Cursor, c: Cursor)
    ensures
        a.offset != b.offset ==> best_failure(a, b).offset == if a.offset > b.offset {
            a.offset
        } else {
            b.offset
        },
        a.offset == b.offset ==> best_failure(a, b) == a,
        best_failure(a, b).offset == best_failure(b, a).offset,
        best_failure(a, best_failure(b, c)).offset == best_failure(best_failure(a, b), c).offset,
{
}

/// Every cursor an outcome carries lies between the starting cursor and the
/// end of the input: no operation moves backwards or past the end.
pub open spec fn outcome_wf<T>(input: Seq<u8>, c: Cursor, o: Outcome<T>) -> bool {
    match o {
        Outcome::Success { next, .. } => c.offset <= next.offset <= input.len(),
        Outcome::Failure { at } => c.offset <= at.offset <= input.len(),
        Outcome::Partial { failed_at, next, .. } => c.offset <= next.offset <= input.len()
            && c.offset <= failed_at.offset <= input.len(),
    }
}

/// On success the cursor has strictly advanced.
pub open spec fn progressed<T>(c: Cursor, o: Outcome<T>) -> bool {
    match o {
        Outcome::Success { next, .. } => next.offset > c.offset,
        _ => true,
    }
}

/// What it means to consume `lit` at `c`: on success the cursor advances by
/// exactly the literal's length; otherwise the failure stays at `c`.
pub open spec fn spec_consume_lit(input: Seq<u8>, c: Cursor, lit: Seq<u8>) -> Outcome<Range> {
    if lit_at(input, c.offset as int, lit) {
        Outcome::Success {
            value: Range { start: c.offset, end: cur(c.offset + lit.len()).offset },
            next: cur(c.offset + lit.len()),
        }
    } else {
        Outcome::Failure { at: c }
    }
}

/// Consume exactly the bytes of `lit` at `c`.
pub fn consume_lit(input: &[u8], c: Cursor, lit: &[u8]) -> (r: Outcome<Range>)
    requires
        c.offset <= input@.len(),
    ensures
        r == spec_consume_lit(input@, c, lit@),
        outcome_wf(input@, c, r),
        lit@.len() > 0 ==> progressed(c, r),
{
    let ilen = input.len();
    if lit.len() <= ilen - c.offset {
        let mut i: usize = 0;
        while i < lit.len()
            invariant
                0 <= i <= lit@.len(),
                c.offset + lit@.len() <= input@.len(),
                input@.len() <= usize::MAX,
                forall|j: int| 0 <= j < i ==> input@[c.offset + j] == lit@[j],
            decreases lit@.len() - i,
        {
            if input[c.offset + i] != lit[i] {
                assert(input@.subrange(
                    c.offset as int,
                    c.offset + lit@.len(),
                ) != lit@) by {
                    assert(input@.subrange(c.offset as int, c.offset + lit@.len())[i as int]
                        != lit@[i as int]);
                }
                return Outcome::Failure { at: c };
            }
            i += 1;
        }
        assert(input@.subrange(c.offset as int, c.offset + lit@.len()) =~= lit@);
        let next = Cursor { offset: c.offset + lit.len() };
        Outcome::Success { value: Range { start: c.offset, end: next.offset }, next }
    } else {
        Outcome::Failure { at: c }
    }
}

} // verus!
