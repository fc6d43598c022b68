//! Lexical classification of raw byte runs: where a space run, a name, an
//! attribute value, character data, or a delimited body (comment, CDATA,
//! processing-instruction value) ends.
//!
//! Every classifier recognizes the longest matching run and fails (rather
//! than succeeding emptily) when the run is empty, so a successful consume
//! always makes progress.

use vstd::prelude::*;

use crate::cursor::{cur, lit_at, Cursor, Outcome, Range};

verus! {

pub open spec fn is_space(b: u8) -> bool {
    b == (' ' as u8) || b == 9 || b == 13 || b == 10
}

pub open spec fn is_digit(b: u8) -> bool {
    ('0' as u8) <= b <= ('9' as u8)
}

pub open spec fn is_hex_digit(b: u8) -> bool {
    is_digit(b) || ('a' as u8) <= b <= ('f' as u8) || ('A' as u8) <= b <= ('F' as u8)
}

pub open spec fn is_alpha(b: u8) -> bool {
    ('a' as u8) <= b <= ('z' as u8) || ('A' as u8) <= b <= ('Z' as u8)
}

/// A byte that may start an NCName: a letter, an underscore, or any byte of a
/// multi-byte encoded character.
pub open spec fn is_ncname_start(b: u8) -> bool {
    is_alpha(b) || b == ('_' as u8) || b >= 128
}

/// A byte that may continue an NCName.
pub open spec fn is_ncname_continue(b: u8) -> bool {
    is_ncname_start(b) || is_digit(b) || b == ('-' as u8) || b == ('.' as u8)
}

/// A byte that may start a full (possibly prefixed) name.
pub open spec fn is_name_start(b: u8) -> bool {
    is_ncname_start(b) || b == (':' as u8)
}

/// A byte that may continue a full name.
pub open spec fn is_name_continue(b: u8) -> bool {
    is_ncname_continue(b) || b == (':' as u8)
}

/// A byte of character data: anything but the markup starters `<` and `&`.
pub open spec fn is_char_data(b: u8) -> bool {
    b != ('<' as u8) && b != ('&' as u8)
}

/// A byte of a quoted attribute value under `quote`: anything but the
/// closing quote and the markup starters.
pub open spec fn is_attr_value_byte(b: u8, quote: u8) -> bool {
    b != quote && b != ('<' as u8) && b != ('&' as u8)
}

/// The length of the longest run of bytes satisfying `p` from `off`.
pub open spec fn run_len(input: Seq<u8>, off: int, p: spec_fn(u8) -> bool) -> int
    decreases input.len() - off when 0 <= off <= input.len()
{
    if off < input.len() && p(input[off]) {
        1 + run_len(input, off + 1, p)
    } else {
        0
    }
}

pub proof fn lemma_run_len_is(input: Seq<u8>, off: int, p: spec_fn(u8) -> bool, n: int)
    requires
        0 <= off,
        0 <= n,
        off + n <= input.len(),
        forall|j: int| off <= j < off + n ==> p(input[j]),
        off + n == input.len() || !p(input[off + n]),
    ensures
        run_len(input, off, p) == n,
    decreases n,
{
    if n > 0 {
        assert(p(input[off]));
        lemma_run_len_is(input, off + 1, p, n - 1);
    }
}

/// The length of the longest prefix from `off` in which the delimiter does
/// not occur; the run also ends at the end of the input.
pub open spec fn until_len(input: Seq<u8>, off: int, delim: Seq<u8>) -> int
    decreases input.len() - off when 0 <= off <= input.len()
{
    if off < input.len() && !lit_at(input, off, delim) {
        1 + until_len(input, off + 1, delim)
    } else {
        0
    }
}

pub proof fn lemma_until_len_is(input: Seq<u8>, off: int, delim: Seq<u8>, n: int)
    requires
        0 <= off,
        0 <= n,
        off + n <= input.len(),
        forall|j: int| off <= j < off + n ==> !lit_at(input, j, delim),
        off + n == input.len() || lit_at(input, off + n, delim),
    ensures
        until_len(input, off, delim) == n,
    decreases n,
{
    if n > 0 {
        lemma_until_len_is(input, off + 1, delim, n - 1);
    }
}

/// A nonempty run turned into an outcome: the matched range on success, a
/// failure exactly at `c` when the run is empty.
pub open spec fn outcome_of_run(c: Cursor, n: int) -> Outcome<Range> {
    if n == 0 {
        Outcome::Failure { at: c }
    } else {
        Outcome::Success {
            value: Range { start: c.offset, end: cur(c.offset + n).offset },
            next: cur(c.offset + n),
        }
    }
}

} // verus!
