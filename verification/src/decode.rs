//! Decoding of character and entity references into bytes.
//!
//! The five predefined entities expand to their literal characters; numeric
//! references denote a code point, written out in its multi-byte encoding.
//! Anything else is a fatal encoding error.

use vstd::prelude::*;

use crate::cursor::{bytes_of, Range};
use crate::error::ParseError;
use crate::events::Reference;
use crate::lexical::is_digit;

verus! {

broadcast use {crate::seqext::lemma_seq_concat_empty, crate::seqext::lemma_seq_push_is_concat,
    crate::seqext::lemma_seq_concat_assoc};

pub open spec fn name_amp() -> Seq<u8> {
    seq![('a' as u8), ('m' as u8), ('p' as u8)]
}

pub open spec fn name_lt() -> Seq<u8> {
    seq![('l' as u8), ('t' as u8)]
}

pub open spec fn name_gt() -> Seq<u8> {
    seq![('g' as u8), ('t' as u8)]
}

pub open spec fn name_apos() -> Seq<u8> {
    seq![('a' as u8), ('p' as u8), ('o' as u8), ('s' as u8)]
}

pub open spec fn name_quot() -> Seq<u8> {
    seq![('q' as u8), ('u' as u8), ('o' as u8), ('t' as u8)]
}

/// What a predefined entity expands to; anything else has no expansion.
pub open spec fn entity_expansion(name: Seq<u8>) -> Option<Seq<u8>> {
    if name == name_amp() {
        Some(seq![('&' as u8)])
    } else if name == name_lt() {
        Some(seq![('<' as u8)])
    } else if name == name_gt() {
        Some(seq![('>' as u8)])
    } else if name == name_apos() {
        Some(seq![('\'' as u8)])
    } else if name == name_quot() {
        Some(seq![('"' as u8)])
    } else {
        None
    }
}

/// The numeric value of one digit byte; non-digits count as zero.
pub open spec fn digit_value(b: u8) -> int {
    if is_digit(b) {
        b - ('0' as u8)
    } else if ('a' as u8) <= b <= ('f' as u8) {
        b - ('a' as u8) + 10
    } else if ('A' as u8) <= b <= ('F' as u8) {
        b - ('A' as u8) + 10
    } else {
        0
    }
}

/// The value of a digit string read in the given base, most significant
/// digit first.
pub open spec fn digits_value(s: Seq<u8>, base: int) -> int
    decreases s.len(),
{
    if s.len() == 0 {
        0
    } else {
        digits_value(s.drop_last(), base) * base + digit_value(s.last())
    }
}

pub proof fn lemma_digits_value_nonneg(s: Seq<u8>, base: int)
    requires
        base >= 1,
    ensures
        digits_value(s, base) >= 0,
    decreases s.len(),
{
    if s.len() > 0 {
        lemma_digits_value_nonneg(s.drop_last(), base);
    }
}

/// Once a prefix of the digits already exceeds a bound, the whole string
/// does too: appending digits never shrinks the value.
pub proof fn lemma_digits_value_monotone(s: Seq<u8>, base: int, n: int)
    requires
        base >= 2,
        0 <= n <= s.len(),
    ensures
        digits_value(s, base) >= digits_value(s.take(n), base),
    decreases s.len() - n,
{
    if n < s.len() {
        lemma_digits_value_monotone(s, base, n + 1);
        let t = s.take(n + 1);
        assert(t.drop_last() =~= s.take(n));
        lemma_digits_value_nonneg(s.take(n), base);
        assert(digits_value(t, base) == digits_value(s.take(n), base) * base + digit_value(
            t.last(),
        ));
        assert(digits_value(s.take(n), base) * base >= digits_value(s.take(n), base)) by (
        nonlinear_arith)
            requires
                base >= 2,
                digits_value(s.take(n), base) >= 0,
        ;
    } else {
        assert(s.take(n) =~= s);
    }
}

/// A code point a character can have: in range and not a surrogate.
pub open spec fn valid_code_point(v: int) -> bool {
    0 <= v <= 0x10FFFF && !(0xD800 <= v <= 0xDFFF)
}

/// The encoded bytes of a valid code point, shortest form.
pub open spec fn utf8_encode(v: int) -> Seq<u8> {
    if v < 0x80 {
        seq![v as u8]
    } else if v < 0x800 {
        seq![(0xC0 + v / 64) as u8, (0x80 + v % 64) as u8]
    } else if v < 0x10000 {
        seq![(0xE0 + v / 4096) as u8, (0x80 + (v / 64) % 64) as u8, (0x80 + v % 64) as u8]
    } else {
        seq![
            (0xF0 + v / 262144) as u8,
            (0x80 + (v / 4096) % 64) as u8,
            (0x80 + (v / 64) % 64) as u8,
            (0x80 + v % 64) as u8,
        ]
    }
}

/// Write the encoded bytes of `v` into a fresh vector.
fn utf8_encode_exec(v: u32) -> (r: Vec<u8>)
    requires
        valid_code_point(v as int),
    ensures
        r@ == utf8_encode(v as int),
{
    let mut out: Vec<u8> = Vec::new();
    if v < 0x80 {
        out.push(v as u8);
        assert(out@ =~= utf8_encode(v as int));
    } else if v < 0x800 {
        out.push((0xC0 + v / 64) as u8);
        out.push((0x80 + v % 64) as u8);
        assert(out@ =~= utf8_encode(v as int));
    } else if v < 0x10000 {
        out.push((0xE0 + v / 4096) as u8);
        out.push((0x80 + (v / 64) % 64) as u8);
        out.push((0x80 + v % 64) as u8);
        assert(out@ =~= utf8_encode(v as int));
    } else {
        out.push((0xF0 + v / 262144) as u8);
        out.push((0x80 + (v / 4096) % 64) as u8);
        out.push((0x80 + (v / 64) % 64) as u8);
        out.push((0x80 + v % 64) as u8);
        assert(out@ =~= utf8_encode(v as int));
    }
    out
}

/// What a numeric reference with these digits decodes to: the encoded code
/// point, or an encoding error when the value denotes no character.
pub open spec fn spec_decode_char_ref(digits: Seq<u8>, base: int) -> Result<Seq<u8>, ParseError> {
    let v = digits_value(digits, base);
    if valid_code_point(v) {
        Ok(utf8_encode(v))
    } else {
        Err(ParseError::InvalidCharacterReference)
    }
}

/// Decode the digit bytes of a numeric character reference.
fn decode_char_ref(digits: &Vec<u8>, base: u32) -> (r: Result<Vec<u8>, ParseError>)
    requires
        base == 10 || base == 16,
    ensures
        match (r, spec_decode_char_ref(digits@, base as int)) {
            (Ok(v), Ok(s)) => v@ == s,
            (Err(e1), Err(e2)) => e1 == e2,
            _ => false,
        },
{
    let ghost b = base as int;
    let mut acc: u32 = 0;
    let mut i: usize = 0;
    proof {
        assert(digits@.take(0) =~= Seq::<u8>::empty());
    }
    while i < digits.len()
        invariant
            0 <= i <= digits@.len(),
            base == 10 || base == 16,
            b == base as int,
            acc as int == digits_value(digits@.take(i as int), b),
            acc <= 0x10FFFF,
        decreases digits@.len() - i,
    {
        let d = digits[i];
        let dv: u32 = if ('0' as u8) <= d && d <= ('9' as u8) {
            (d - ('0' as u8)) as u32
        } else if ('a' as u8) <= d && d <= ('f' as u8) {
            (d - ('a' as u8)) as u32 + 10
        } else if ('A' as u8) <= d && d <= ('F' as u8) {
            (d - ('A' as u8)) as u32 + 10
        } else {
            0
        };
        assert(dv as int == digit_value(d));
        let next: u32 = acc * base + dv;
        proof {
            assert(digits@.take(i + 1).drop_last() =~= digits@.take(i as int));
            assert(digits@.take(i + 1).last() == digits@[i as int]);
        }
        if next > 0x10FFFF {
            proof {
                lemma_digits_value_monotone(digits@, b, i + 1);
                lemma_digits_value_nonneg(digits@, b);
            }
            return Err(ParseError::InvalidCharacterReference);
        }
        acc = next;
        i += 1;
    }
    proof {
        assert(digits@.take(digits@.len() as int) =~= digits@);
    }
    if (0xD800 <= acc && acc <= 0xDFFF) {
        Err(ParseError::InvalidCharacterReference)
    } else {
        Ok(utf8_encode_exec(acc))
    }
}

/// What a reference decodes to, given the input it indexes into.  An entity
/// decodes if and only if it is one of the five predefined names; a numeric
/// reference decodes if and only if its value is a character's code point.
pub open spec fn spec_decode_reference(input: Seq<u8>, r: Reference) -> Result<Seq<u8>, ParseError> {
    match r {
        Reference::EntityReference(rng) => match entity_expansion(bytes_of(input, rng)) {
            Some(s) => Ok(s),
            None => Err(ParseError::UnknownEntity),
        },
        Reference::DecimalCharReference(rng) => spec_decode_char_ref(bytes_of(input, rng), 10),
        Reference::HexCharReference(rng) => spec_decode_char_ref(bytes_of(input, rng), 16),
    }
}

/// Copy the bytes a range designates; empty when the range is not a valid
/// range of the input.
pub fn range_bytes(input: &[u8], r: Range) -> (v: Vec<u8>)
    ensures
        v@ == bytes_of(input@, r),
{
    let mut out: Vec<u8> = Vec::new();
    if r.start <= r.end && r.end <= input.len() {
        let mut i: usize = r.start;
        while i < r.end
            invariant
                r.start <= i <= r.end <= input@.len(),
                out@ == input@.subrange(r.start as int, i as int),
            decreases r.end - i,
        {
            out.push(input[i]);
            proof {
                assert(input@.subrange(r.start as int, i + 1) =~= input@.subrange(
                    r.start as int,
                    i as int,
                ).push(input@[i as int]));
            }
            i += 1;
        }
        proof {
            assert(out@ =~= bytes_of(input@, r));
        }
    } else {
        proof {
            assert(out@ =~= bytes_of(input@, r));
        }
    }
    out
}

/// The bytes are letter-for-letter those of `lit`.
pub fn bytes_equal(a: &Vec<u8>, b: &[u8]) -> (r: bool)
    ensures
        r == (a@ == b@),
{
    if a.len() != b.len() {
        assert(a@.len() != b@.len());
        return false;
    }
    let mut i: usize = 0;
    while i < a.len()
        invariant
            0 <= i <= a@.len(),
            a@.len() == b@.len(),
            forall|j: int| 0 <= j < i ==> a@[j] == b@[j],
        decreases a@.len() - i,
    {
        if a[i] != b[i] {
            return false;
        }
        i += 1;
    }
    proof {
        assert(a@ =~= b@);
    }
    true
}

/// Decode one reference against the input it points into.
pub fn decode_reference(input: &[u8], r: Reference) -> (res: Result<Vec<u8>, ParseError>)
    ensures
        match (res, spec_decode_reference(input@, r)) {
            (Ok(v), Ok(s)) => v@ == s,
            (Err(e1), Err(e2)) => e1 == e2,
            _ => false,
        },
{
    match r {
        Reference::EntityReference(rng) => {
            let name = range_bytes(input, rng);
            let amp = [('a' as u8), ('m' as u8), ('p' as u8)];
            let lt = [('l' as u8), ('t' as u8)];
            let gt = [('g' as u8), ('t' as u8)];
            let apos = [('a' as u8), ('p' as u8), ('o' as u8), ('s' as u8)];
            let quot = [('q' as u8), ('u' as u8), ('o' as u8), ('t' as u8)];
            proof {
                assert(amp@ =~= name_amp());
                assert(lt@ =~= name_lt());
                assert(gt@ =~= name_gt());
                assert(apos@ =~= name_apos());
                assert(quot@ =~= name_quot());
            }
            if bytes_equal(&name, amp.as_slice()) {
                let mut v: Vec<u8> = Vec::new();
                v.push('&' as u8);
                assert(v@ =~= seq![('&' as u8)]);
                Ok(v)
            } else if bytes_equal(&name, lt.as_slice()) {
                let mut v: Vec<u8> = Vec::new();
                v.push('<' as u8);
                assert(v@ =~= seq![('<' as u8)]);
                Ok(v)
            } else if bytes_equal(&name, gt.as_slice()) {
                let mut v: Vec<u8> = Vec::new();
                v.push('>' as u8);
                assert(v@ =~= seq![('>' as u8)]);
                Ok(v)
            } else if bytes_equal(&name, apos.as_slice()) {
                let mut v: Vec<u8> = Vec::new();
                v.push('\'' as u8);
                assert(v@ =~= seq![('\'' as u8)]);
                Ok(v)
            } else if bytes_equal(&name, quot.as_slice()) {
                let mut v: Vec<u8> = Vec::new();
                v.push('"' as u8);
                assert(v@ =~= seq![('"' as u8)]);
                Ok(v)
            } else {
                Err(ParseError::UnknownEntity)
            }
        },
        Reference::DecimalCharReference(rng) => {
            let digits = range_bytes(input, rng);
            decode_char_ref(&digits, 10)
        },
        Reference::HexCharReference(rng) => {
            let digits = range_bytes(input, rng);
            decode_char_ref(&digits, 16)
        },
    }
}

} // verus!
