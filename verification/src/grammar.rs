//! The grammar layer: one function per XML production, each built from the
//! consume operations and mirrored by a specification function that states
//! exactly which outcome it returns and which events it records.
//!
//! Alternation tries the right branch from the same starting cursor only
//! after the left has failed; when both fail, the failure at the greater
//! offset wins.  Zero-or-more repetition keeps the parsed prefix together
//! with the failure that ended it, so a following mandatory production can
//! report the more interesting of the two failures.

use vstd::prelude::*;
use vstd::string::StringSliceAdditionalSpecFns;

use crate::cursor::{
    best_failure, consume_lit, outcome_wf, progressed, spec_consume_lit, Cursor, Outcome, Range,
};
use crate::dom::{Document, DocumentModel};
use crate::error::ParseError;
use crate::events::{AttributeValue, Event, Reference};
use crate::hydrate::{hydrate, spec_hydrate};
use crate::tokens::{
    spec_consume_attribute_value, spec_consume_cdata, spec_consume_char_data,
    spec_consume_comment, spec_consume_decimal_chars, spec_consume_hex_chars, spec_consume_name,
    spec_consume_pi_value, spec_consume_space, spec_consume_prefixed_name,
    spec_consume_start_tag, PrefixedName, XmlParseExt,
};

verus! {

broadcast use {
    crate::seqext::lemma_seq_concat_empty,
    crate::seqext::lemma_seq_push_is_concat,
    crate::seqext::lemma_seq_concat_assoc,
};

/// The position of a non-successful outcome: where the parse gave up.
pub open spec fn spec_fail_at<T>(o: Outcome<T>) -> Cursor {
    match o {
        Outcome::Success { next, .. } => next,
        Outcome::Failure { at } => at,
        Outcome::Partial { failed_at, .. } => failed_at,
    }
}

fn outcome_fail_at<T>(o: &Outcome<T>) -> (r: Cursor)
    ensures
        r == spec_fail_at(*o),
{
    match o {
        Outcome::Success { next, .. } => *next,
        Outcome::Failure { at } => *at,
        Outcome::Partial { failed_at, .. } => *failed_at,
    }
}

pub open spec fn lit1(a: u8) -> Seq<u8> {
    seq![a]
}

pub open spec fn lit2(a: u8, b: u8) -> Seq<u8> {
    seq![a, b]
}

pub open spec fn lit3(a: u8, b: u8, c: u8) -> Seq<u8> {
    seq![a, b, c]
}

pub open spec fn lit4(a: u8, b: u8, c: u8, d: u8) -> Seq<u8> {
    seq![a, b, c, d]
}

pub open spec fn lit5(a: u8, b: u8, c: u8, d: u8, e: u8) -> Seq<u8> {
    seq![a, b, c, d, e]
}

/// The opening of a CDATA section.
pub open spec fn cdata_open() -> Seq<u8> {
    seq![
        ('<' as u8),
        ('!' as u8),
        ('[' as u8),
        ('C' as u8),
        ('D' as u8),
        ('A' as u8),
        ('T' as u8),
        ('A' as u8),
        ('[' as u8),
    ]
}

fn consume_lit1(input: &[u8], c: Cursor, a: u8) -> (r: Outcome<Range>)
    requires
        c.offset <= input@.len(),
    ensures
        r == spec_consume_lit(input@, c, lit1(a)),
        outcome_wf(input@, c, r),
        progressed(c, r),
{
    let arr = [a];
    assert(arr@ =~= lit1(a));
    consume_lit(input, c, arr.as_slice())
}

fn consume_lit2(input: &[u8], c: Cursor, a: u8, b: u8) -> (r: Outcome<Range>)
    requires
        c.offset <= input@.len(),
    ensures
        r == spec_consume_lit(input@, c, lit2(a, b)),
        outcome_wf(input@, c, r),
        progressed(c, r),
{
    let arr = [a, b];
    assert(arr@ =~= lit2(a, b));
    consume_lit(input, c, arr.as_slice())
}

fn consume_lit3(input: &[u8], c: Cursor, a: u8, b: u8, d: u8) -> (r: Outcome<Range>)
    requires
        c.offset <= input@.len(),
    ensures
        r == spec_consume_lit(input@, c, lit3(a, b, d)),
        outcome_wf(input@, c, r),
        progressed(c, r),
{
    let arr = [a, b, d];
    assert(arr@ =~= lit3(a, b, d));
    consume_lit(input, c, arr.as_slice())
}

fn consume_lit4(input: &[u8], c: Cursor, a: u8, b: u8, d: u8, e: u8) -> (r: Outcome<Range>)
    requires
        c.offset <= input@.len(),
    ensures
        r == spec_consume_lit(input@, c, lit4(a, b, d, e)),
        outcome_wf(input@, c, r),
        progressed(c, r),
{
    let arr = [a, b, d, e];
    assert(arr@ =~= lit4(a, b, d, e));
    consume_lit(input, c, arr.as_slice())
}

fn consume_lit5(input: &[u8], c: Cursor, a: u8, b: u8, d: u8, e: u8, f: u8) -> (r: Outcome<Range>)
    requires
        c.offset <= input@.len(),
    ensures
        r == spec_consume_lit(input@, c, lit5(a, b, d, e, f)),
        outcome_wf(input@, c, r),
        progressed(c, r),
{
    let arr = [a, b, d, e, f];
    assert(arr@ =~= lit5(a, b, d, e, f));
    consume_lit(input, c, arr.as_slice())
}

fn consume_cdata_open(input: &[u8], c: Cursor) -> (r: Outcome<Range>)
    requires
        c.offset <= input@.len(),
    ensures
        r == spec_consume_lit(input@, c, cdata_open()),
        outcome_wf(input@, c, r),
        progressed(c, r),
{
    let arr = [
        ('<' as u8),
        ('!' as u8),
        ('[' as u8),
        ('C' as u8),
        ('D' as u8),
        ('A' as u8),
        ('T' as u8),
        ('A' as u8),
        ('[' as u8),
    ];
    assert(arr@ =~= cdata_open());
    consume_lit(input, c, arr.as_slice())
}

/// The cursor after optional whitespace.
pub open spec fn spec_after_opt_space(input: Seq<u8>, c: Cursor) -> Cursor {
    match spec_consume_space(input, c) {
        Outcome::Success { next, .. } => next,
        _ => c,
    }
}

fn after_opt_space(input: &[u8], c: Cursor) -> (r: Cursor)
    requires
        c.offset <= input@.len(),
    ensures
        r == spec_after_opt_space(input@, c),
        c.offset <= r.offset <= input@.len(),
{
    match c.consume_space(input) {
        Outcome::Success { next, .. } => next,
        _ => c,
    }
}

/// Optional whitespace, an equals sign, optional whitespace.
pub open spec fn spec_parse_eq(input: Seq<u8>, c: Cursor) -> Outcome<()> {
    let c0 = spec_after_opt_space(input, c);
    match spec_consume_lit(input, c0, lit1(('=' as u8))) {
        Outcome::Success { next: c1, .. } => Outcome::Success {
            value: (),
            next: spec_after_opt_space(input, c1),
        },
        o => Outcome::Failure { at: spec_fail_at(o) },
    }
}

/// `1.` followed by decimal digits; the value is the whole matched range.
pub open spec fn spec_parse_version_num(input: Seq<u8>, c: Cursor) -> Outcome<Range> {
    match spec_consume_lit(input, c, lit2(('1' as u8), ('.' as u8))) {
        Outcome::Success { next: c1, .. } => {
            match spec_consume_decimal_chars(input, c1) {
                Outcome::Success { value: digits, next: c2 } => Outcome::Success {
                    value: Range { start: c.offset, end: digits.end },
                    next: c2,
                },
                o => Outcome::Failure { at: spec_fail_at(o) },
            }
        },
        o => Outcome::Failure { at: spec_fail_at(o) },
    }
}

/// A version number bracketed by the given quote byte.
pub open spec fn spec_parse_one_quoted_version(input: Seq<u8>, c: Cursor, quote: u8) -> Outcome<
    Range,
> {
    match spec_consume_lit(input, c, lit1(quote)) {
        Outcome::Success { next: c1, .. } => {
            match spec_parse_version_num(input, c1) {
                Outcome::Success { value, next: c2 } => {
                    match spec_consume_lit(input, c2, lit1(quote)) {
                        Outcome::Success { next: c3, .. } => Outcome::Success { value, next: c3 },
                        o => Outcome::Failure { at: spec_fail_at(o) },
                    }
                },
                o => Outcome::Failure { at: spec_fail_at(o) },
            }
        },
        o => Outcome::Failure { at: spec_fail_at(o) },
    }
}

/// A quoted version number, under either quote style; of two failures the
/// one at the greater offset is kept.
pub open spec fn spec_parse_quoted_version(input: Seq<u8>, c: Cursor) -> Outcome<Range> {
    let first = spec_parse_one_quoted_version(input, c, ('\'' as u8));
    match first {
        Outcome::Failure { at: a1 } => {
            match spec_parse_one_quoted_version(input, c, ('"' as u8)) {
                Outcome::Failure { at: a2 } => Outcome::Failure { at: best_failure(a1, a2) },
                o => o,
            }
        },
        o => o,
    }
}

/// ` version = "1.d+" `.
pub open spec fn spec_parse_version_info(input: Seq<u8>, c: Cursor) -> Outcome<Range> {
    match spec_consume_space(input, c) {
        Outcome::Success { next: c1, .. } => {
            match spec_consume_lit(
                input,
                c1,
                seq![
                    ('v' as u8),
                    ('e' as u8),
                    ('r' as u8),
                    ('s' as u8),
                    ('i' as u8),
                    ('o' as u8),
                    ('n' as u8),
                ],
            ) {
                Outcome::Success { next: c2, .. } => {
                    match spec_parse_eq(input, c2) {
                        Outcome::Success { next: c3, .. } => spec_parse_quoted_version(input, c3),
                        o => Outcome::Failure { at: spec_fail_at(o) },
                    }
                },
                o => Outcome::Failure { at: spec_fail_at(o) },
            }
        },
        o => Outcome::Failure { at: spec_fail_at(o) },
    }
}

/// `<?xml version="1.d+" ?>`.
pub open spec fn spec_parse_xml_declaration(input: Seq<u8>, c: Cursor) -> Outcome<()> {
    match spec_consume_lit(
        input,
        c,
        lit5(('<' as u8), ('?' as u8), ('x' as u8), ('m' as u8), ('l' as u8)),
    ) {
        Outcome::Success { next: c1, .. } => {
            match spec_parse_version_info(input, c1) {
                Outcome::Success { next: c2, .. } => {
                    let c3 = spec_after_opt_space(input, c2);
                    match spec_consume_lit(input, c3, lit2(('?' as u8), ('>' as u8))) {
                        Outcome::Success { next: c4, .. } => Outcome::Success {
                            value: (),
                            next: c4,
                        },
                        o => Outcome::Failure { at: spec_fail_at(o) },
                    }
                },
                o => Outcome::Failure { at: spec_fail_at(o) },
            }
        },
        o => Outcome::Failure { at: spec_fail_at(o) },
    }
}

/// `&name;`.
pub open spec fn spec_parse_entity_ref(input: Seq<u8>, c: Cursor) -> Outcome<Reference> {
    match spec_consume_lit(input, c, lit1(('&' as u8))) {
        Outcome::Success { next: c1, .. } => {
            match spec_consume_name(input, c1) {
                Outcome::Success { value: name, next: c2 } => {
                    match spec_consume_lit(input, c2, lit1((';' as u8))) {
                        Outcome::Success { next: c3, .. } => Outcome::Success {
                            value: Reference::EntityReference(name),
                            next: c3,
                        },
                        o => Outcome::Failure { at: spec_fail_at(o) },
                    }
                },
                o => Outcome::Failure { at: spec_fail_at(o) },
            }
        },
        o => Outcome::Failure { at: spec_fail_at(o) },
    }
}

/// `&#digits;`.
pub open spec fn spec_parse_decimal_char_ref(input: Seq<u8>, c: Cursor) -> Outcome<Reference> {
    match spec_consume_lit(input, c, lit2(('&' as u8), ('#' as u8))) {
        Outcome::Success { next: c1, .. } => {
            match spec_consume_decimal_chars(input, c1) {
                Outcome::Success { value: digits, next: c2 } => {
                    match spec_consume_lit(input, c2, lit1((';' as u8))) {
                        Outcome::Success { next: c3, .. } => Outcome::Success {
                            value: Reference::DecimalCharReference(digits),
                            next: c3,
                        },
                        o => Outcome::Failure { at: spec_fail_at(o) },
                    }
                },
                o => Outcome::Failure { at: spec_fail_at(o) },
            }
        },
        o => Outcome::Failure { at: spec_fail_at(o) },
    }
}

/// `&#xdigits;`.
pub open spec fn spec_parse_hex_char_ref(input: Seq<u8>, c: Cursor) -> Outcome<Reference> {
    match spec_consume_lit(input, c, lit3(('&' as u8), ('#' as u8), ('x' as u8))) {
        Outcome::Success { next: c1, .. } => {
            match spec_consume_hex_chars(input, c1) {
                Outcome::Success { value: digits, next: c2 } => {
                    match spec_consume_lit(input, c2, lit1((';' as u8))) {
                        Outcome::Success { next: c3, .. } => Outcome::Success {
                            value: Reference::HexCharReference(digits),
                            next: c3,
                        },
                        o => Outcome::Failure { at: spec_fail_at(o) },
                    }
                },
                o => Outcome::Failure { at: spec_fail_at(o) },
            }
        },
        o => Outcome::Failure { at: spec_fail_at(o) },
    }
}

/// An entity reference, a decimal character reference, or a hexadecimal
/// character reference, tried in that order.
pub open spec fn spec_parse_reference(input: Seq<u8>, c: Cursor) -> Outcome<Reference> {
    match spec_parse_entity_ref(input, c) {
        Outcome::Failure { at: a1 } => {
            match spec_parse_decimal_char_ref(input, c) {
                Outcome::Failure { at: a2 } => {
                    match spec_parse_hex_char_ref(input, c) {
                        Outcome::Failure { at: a3 } => Outcome::Failure {
                            at: best_failure(best_failure(a1, a2), a3),
                        },
                        o => o,
                    }
                },
                o => o,
            }
        },
        o => o,
    }
}

/// `</name >`, returning the name written in the closing tag.
pub open spec fn spec_parse_element_end(input: Seq<u8>, c: Cursor) -> Outcome<PrefixedName> {
    match spec_consume_lit(input, c, lit2(('<' as u8), ('/' as u8))) {
        Outcome::Success { next: c1, .. } => {
            match spec_consume_prefixed_name(input, c1) {
                Outcome::Success { value: name, next: c2 } => {
                    let c3 = spec_after_opt_space(input, c2);
                    match spec_consume_lit(input, c3, lit1(('>' as u8))) {
                        Outcome::Success { next: c4, .. } => Outcome::Success {
                            value: name,
                            next: c4,
                        },
                        o => Outcome::Failure { at: spec_fail_at(o) },
                    }
                },
                o => Outcome::Failure { at: spec_fail_at(o) },
            }
        },
        o => Outcome::Failure { at: spec_fail_at(o) },
    }
}

/// `/>`.
pub open spec fn spec_parse_empty_element_tail(input: Seq<u8>, c: Cursor) -> Outcome<()> {
    match spec_consume_lit(input, c, lit2(('/' as u8), ('>' as u8))) {
        Outcome::Success { next: c1, .. } => Outcome::Success { value: (), next: c1 },
        o => Outcome::Failure { at: spec_fail_at(o) },
    }
}

/// A space then a processing-instruction value run.
pub open spec fn spec_parse_pi_value(input: Seq<u8>, c: Cursor) -> Outcome<Range> {
    match spec_consume_space(input, c) {
        Outcome::Success { next: c1, .. } => spec_consume_pi_value(input, c1),
        o => Outcome::Failure { at: spec_fail_at(o) },
    }
}

/// `<!-- body -->`; reports the body as a comment event.
pub open spec fn spec_parse_comment(input: Seq<u8>, c: Cursor) -> (Outcome<()>, Seq<Event>) {
    match spec_consume_lit(input, c, lit4(('<' as u8), ('!' as u8), ('-' as u8), ('-' as u8))) {
        Outcome::Success { next: c1, .. } => {
            match spec_consume_comment(input, c1) {
                Outcome::Success { value: text, next: c2 } => {
                    match spec_consume_lit(input, c2, lit3(('-' as u8), ('-' as u8), ('>' as u8))) {
                        Outcome::Success { next: c3, .. } => (
                            Outcome::Success { value: (), next: c3 },
                            seq![Event::Comment { text }],
                        ),
                        o => (Outcome::Failure { at: spec_fail_at(o) }, Seq::empty()),
                    }
                },
                o => (Outcome::Failure { at: spec_fail_at(o) }, Seq::empty()),
            }
        },
        o => (Outcome::Failure { at: spec_fail_at(o) }, Seq::empty()),
    }
}

/// `<?target value?>`; the target must be a name and the value, if any, is
/// separated from it by whitespace.
pub open spec fn spec_parse_pi(input: Seq<u8>, c: Cursor) -> (Outcome<()>, Seq<Event>) {
    match spec_consume_lit(input, c, lit2(('<' as u8), ('?' as u8))) {
        Outcome::Success { next: c1, .. } => {
            match spec_consume_name(input, c1) {
                Outcome::Success { value: target, next: c2 } => {
                    let (value, c3) = match spec_parse_pi_value(input, c2) {
                        Outcome::Success { value: v, next } => (Some(v), next),
                        _ => (None, c2),
                    };
                    match spec_consume_lit(input, c3, lit2(('?' as u8), ('>' as u8))) {
                        Outcome::Success { next: c4, .. } => (
                            Outcome::Success { value: (), next: c4 },
                            seq![Event::ProcessingInstruction { target, value }],
                        ),
                        o => (Outcome::Failure { at: spec_fail_at(o) }, Seq::empty()),
                    }
                },
                o => (Outcome::Failure { at: spec_fail_at(o) }, Seq::empty()),
            }
        },
        o => (Outcome::Failure { at: spec_fail_at(o) }, Seq::empty()),
    }
}

/// `<![CDATA[ body ]]>`; the body is reported verbatim as text.
pub open spec fn spec_parse_cdata(input: Seq<u8>, c: Cursor) -> (Outcome<()>, Seq<Event>) {
    match spec_consume_lit(input, c, cdata_open()) {
        Outcome::Success { next: c1, .. } => {
            match spec_consume_cdata(input, c1) {
                Outcome::Success { value: text, next: c2 } => {
                    match spec_consume_lit(input, c2, lit3((']' as u8), (']' as u8), ('>' as u8))) {
                        Outcome::Success { next: c3, .. } => (
                            Outcome::Success { value: (), next: c3 },
                            seq![Event::Text { text }],
                        ),
                        o => (Outcome::Failure { at: spec_fail_at(o) }, Seq::empty()),
                    }
                },
                o => (Outcome::Failure { at: spec_fail_at(o) }, Seq::empty()),
            }
        },
        o => (Outcome::Failure { at: spec_fail_at(o) }, Seq::empty()),
    }
}

/// A nonempty run of character data, reported as text.
pub open spec fn spec_parse_char_data(input: Seq<u8>, c: Cursor) -> (Outcome<()>, Seq<Event>) {
    match spec_consume_char_data(input, c) {
        Outcome::Success { value: text, next: c1 } => (
            Outcome::Success { value: (), next: c1 },
            seq![Event::Text { text }],
        ),
        o => (Outcome::Failure { at: spec_fail_at(o) }, Seq::empty()),
    }
}

/// A reference in element content, reported as a content-reference event.
pub open spec fn spec_parse_content_reference(input: Seq<u8>, c: Cursor) -> (
    Outcome<()>,
    Seq<Event>,
) {
    match spec_parse_reference(input, c) {
        Outcome::Success { value: reference, next: c1 } => (
            Outcome::Success { value: (), next: c1 },
            seq![Event::ContentReference { reference }],
        ),
        o => (Outcome::Failure { at: spec_fail_at(o) }, Seq::empty()),
    }
}

/// A comment, a processing instruction, or whitespace.
#[verifier::opaque]
pub open spec fn spec_parse_misc(input: Seq<u8>, c: Cursor) -> (Outcome<()>, Seq<Event>) {
    let (o1, e1) = spec_parse_comment(input, c);
    match o1 {
        Outcome::Failure { at: a1 } => {
            let (o2, e2) = spec_parse_pi(input, c);
            match o2 {
                Outcome::Failure { at: a2 } => {
                    match spec_consume_space(input, c) {
                        Outcome::Success { next: c1, .. } => (
                            Outcome::Success { value: (), next: c1 },
                            e1 + e2,
                        ),
                        o => (
                            Outcome::Failure {
                                at: best_failure(best_failure(a1, a2), spec_fail_at(o)),
                            },
                            e1 + e2,
                        ),
                    }
                },
                _ => (o2, e1 + e2),
            }
        },
        _ => (o1, e1),
    }
}

/// Zero or more misc items: the prefix that matched, together with the
/// failure that ended the repetition.
#[verifier::opaque]
pub open spec fn spec_parse_miscs(input: Seq<u8>, c: Cursor) -> (Outcome<()>, Seq<Event>)
    decreases input.len() - c.offset when 0 <= c.offset <= input.len()
{
    let (o, e) = spec_parse_misc(input, c);
    match o {
        Outcome::Success { next, .. } => {
            if c.offset < next.offset <= input.len() {
                let (o2, e2) = spec_parse_miscs(input, next);
                (o2, e + e2)
            } else {
                (Outcome::Partial { value: (), failed_at: next, next }, e)
            }
        },
        o2 => (
            Outcome::Partial { value: (), failed_at: spec_fail_at(o2), next: c },
            e,
        ),
    }
}

/// An optional XML declaration followed by zero or more misc items.
#[verifier::opaque]
pub open spec fn spec_parse_prolog(input: Seq<u8>, c: Cursor) -> (Outcome<()>, Seq<Event>) {
    let c0 = match spec_parse_xml_declaration(input, c) {
        Outcome::Success { next, .. } => next,
        _ => c,
    };
    spec_parse_miscs(input, c0)
}

/// A literal run inside a quoted attribute value, reported as a fragment.
pub open spec fn spec_parse_attribute_literal(input: Seq<u8>, c: Cursor, quote: u8) -> (
    Outcome<()>,
    Seq<Event>,
) {
    match spec_consume_attribute_value(input, c, quote) {
        Outcome::Success { value, next: c1 } => (
            Outcome::Success { value: (), next: c1 },
            seq![Event::AttributeValuePart { value: AttributeValue::LiteralAttributeValue(value) }],
        ),
        o => (Outcome::Failure { at: spec_fail_at(o) }, Seq::empty()),
    }
}

/// A reference inside a quoted attribute value, reported as a fragment.
pub open spec fn spec_parse_attribute_reference(input: Seq<u8>, c: Cursor) -> (
    Outcome<()>,
    Seq<Event>,
) {
    match spec_parse_reference(input, c) {
        Outcome::Success { value, next: c1 } => (
            Outcome::Success { value: (), next: c1 },
            seq![
                Event::AttributeValuePart { value: AttributeValue::ReferenceAttributeValue(value) },
            ],
        ),
        o => (Outcome::Failure { at: spec_fail_at(o) }, Seq::empty()),
    }
}

/// One fragment of an attribute value: a literal run, or else a reference.
pub open spec fn spec_parse_attribute_value_item(input: Seq<u8>, c: Cursor, quote: u8) -> (
    Outcome<()>,
    Seq<Event>,
) {
    let (o1, e1) = spec_parse_attribute_literal(input, c, quote);
    match o1 {
        Outcome::Failure { at: a1 } => {
            let (o2, e2) = spec_parse_attribute_reference(input, c);
            match o2 {
                Outcome::Failure { at: a2 } => (
                    Outcome::Failure { at: best_failure(a1, a2) },
                    e1 + e2,
                ),
                _ => (o2, e1 + e2),
            }
        },
        _ => (o1, e1),
    }
}

/// Zero or more attribute-value fragments.
#[verifier::opaque]
pub open spec fn spec_parse_attribute_values(input: Seq<u8>, c: Cursor, quote: u8) -> (
    Outcome<()>,
    Seq<Event>,
)
    decreases input.len() - c.offset when 0 <= c.offset <= input.len()
{
    let (o, e) = spec_parse_attribute_value_item(input, c, quote);
    match o {
        Outcome::Success { next, .. } => {
            if c.offset < next.offset <= input.len() {
                let (o2, e2) = spec_parse_attribute_values(input, next, quote);
                (o2, e + e2)
            } else {
                (Outcome::Partial { value: (), failed_at: next, next }, e)
            }
        },
        o2 => (
            Outcome::Partial { value: (), failed_at: spec_fail_at(o2), next: c },
            e,
        ),
    }
}

/// Attribute-value fragments bracketed by the given quote byte; when the
/// closing quote is missing, the more interesting of the fragment failure
/// and the quote failure is reported.
#[verifier::opaque]
pub open spec fn spec_parse_one_quoted_attribute_value(input: Seq<u8>, c: Cursor, quote: u8) -> (
    Outcome<()>,
    Seq<Event>,
) {
    match spec_consume_lit(input, c, lit1(quote)) {
        Outcome::Success { next: c1, .. } => {
            if c.offset < c1.offset <= input.len() {
                let (o, e) = spec_parse_attribute_values(input, c1, quote);
                match o {
                    Outcome::Partial { failed_at, next: c2, .. } => {
                        match spec_consume_lit(input, c2, lit1(quote)) {
                            Outcome::Success { next: c3, .. } => (
                                Outcome::Success { value: (), next: c3 },
                                e,
                            ),
                            o2 => (
                                Outcome::Failure {
                                    at: best_failure(failed_at, spec_fail_at(o2)),
                                },
                                e,
                            ),
                        }
                    },
                    Outcome::Success { next: c2, .. } => {
                        match spec_consume_lit(input, c2, lit1(quote)) {
                            Outcome::Success { next: c3, .. } => (
                                Outcome::Success { value: (), next: c3 },
                                e,
                            ),
                            o2 => (Outcome::Failure { at: spec_fail_at(o2) }, e),
                        }
                    },
                    Outcome::Failure { at } => (Outcome::Failure { at }, e),
                }
            } else {
                (Outcome::Failure { at: c }, Seq::empty())
            }
        },
        o => (Outcome::Failure { at: spec_fail_at(o) }, Seq::empty()),
    }
}

/// A quoted attribute value, under either quote style.
#[verifier::opaque]
pub open spec fn spec_parse_quoted_attribute_value(input: Seq<u8>, c: Cursor) -> (
    Outcome<()>,
    Seq<Event>,
) {
    let (o1, e1) = spec_parse_one_quoted_attribute_value(input, c, ('\'' as u8));
    match o1 {
        Outcome::Failure { at: a1 } => {
            let (o2, e2) = spec_parse_one_quoted_attribute_value(input, c, ('"' as u8));
            match o2 {
                Outcome::Failure { at: a2 } => (
                    Outcome::Failure { at: best_failure(a1, a2) },
                    e1 + e2,
                ),
                _ => (o2, e1 + e2),
            }
        },
        _ => (o1, e1),
    }
}

/// One attribute: whitespace, a name, `=`, and a quoted value.  The name is
/// reported before the value fragments, the end of the attribute after them.
#[verifier::opaque]
pub open spec fn spec_parse_attribute(input: Seq<u8>, c: Cursor) -> (Outcome<()>, Seq<Event>) {
    match spec_consume_space(input, c) {
        Outcome::Success { next: c1, .. } => {
            match spec_consume_prefixed_name(input, c1) {
                Outcome::Success { value: name, next: c2 } => {
                    let start_ev = seq![Event::AttributeStart { name }];
                    match spec_parse_eq(input, c2) {
                        Outcome::Success { next: c3, .. } => {
                            if c.offset <= c3.offset <= input.len() {
                                let (o, e) = spec_parse_quoted_attribute_value(input, c3);
                                match o {
                                    Outcome::Success { next: c4, .. } => (
                                        Outcome::Success { value: (), next: c4 },
                                        start_ev + e + seq![Event::AttributeEnd { name }],
                                    ),
                                    o2 => (
                                        Outcome::Failure { at: spec_fail_at(o2) },
                                        start_ev + e,
                                    ),
                                }
                            } else {
                                (Outcome::Failure { at: c }, start_ev)
                            }
                        },
                        o2 => (Outcome::Failure { at: spec_fail_at(o2) }, start_ev),
                    }
                },
                o2 => (Outcome::Failure { at: spec_fail_at(o2) }, Seq::empty()),
            }
        },
        o2 => (Outcome::Failure { at: spec_fail_at(o2) }, Seq::empty()),
    }
}

/// Zero or more attributes.
#[verifier::opaque]
pub open spec fn spec_parse_attributes(input: Seq<u8>, c: Cursor) -> (Outcome<()>, Seq<Event>)
    decreases input.len() - c.offset when 0 <= c.offset <= input.len()
{
    let (o, e) = spec_parse_attribute(input, c);
    match o {
        Outcome::Success { next, .. } => {
            if c.offset < next.offset <= input.len() {
                let (o2, e2) = spec_parse_attributes(input, next);
                (o2, e + e2)
            } else {
                (Outcome::Partial { value: (), failed_at: next, next }, e)
            }
        },
        o2 => (
            Outcome::Partial { value: (), failed_at: spec_fail_at(o2), next: c },
            e,
        ),
    }
}

/// One element: `<name`, attributes, then either `/>` or `>` content and a
/// closing tag.  The closing event carries the name the closing tag wrote,
/// or the opening name again for a self-closing element.
#[verifier::opaque]
pub open spec fn spec_parse_element(input: Seq<u8>, c: Cursor) -> (Outcome<()>, Seq<Event>)
    decreases input.len() - c.offset, 0int when 0 <= c.offset <= input.len()
{
    match spec_consume_start_tag(input, c) {
        Outcome::Success { next: c1, .. } => {
            if c.offset < c1.offset <= input.len() {
                match spec_consume_prefixed_name(input, c1) {
                    Outcome::Success { value: name, next: c2 } => {
                        let head = seq![Event::ElementStart { name }, Event::AttributesStart];
                        if c.offset < c2.offset <= input.len() {
                            let (oa, ea) = spec_parse_attributes(input, c2);
                            match oa {
                                Outcome::Partial { failed_at, next: c3, .. } => {
                                    if c.offset < c3.offset <= input.len() {
                                        let (ot, et) = spec_parse_element_close(
                                            input,
                                            c3,
                                            failed_at,
                                            name,
                                        );
                                        (ot, head + ea + seq![Event::AttributesEnd] + et)
                                    } else {
                                        (
                                            Outcome::Failure { at: c },
                                            head + ea + seq![Event::AttributesEnd],
                                        )
                                    }
                                },
                                oa2 => (
                                    Outcome::Failure { at: spec_fail_at(oa2) },
                                    head + ea + seq![Event::AttributesEnd],
                                ),
                            }
                        } else {
                            (Outcome::Failure { at: c }, head)
                        }
                    },
                    o2 => (Outcome::Failure { at: spec_fail_at(o2) }, Seq::empty()),
                }
            } else {
                (Outcome::Failure { at: c }, Seq::empty())
            }
        },
        o => (Outcome::Failure { at: spec_fail_at(o) }, Seq::empty()),
    }
}

/// After an element's attribute list: optional whitespace, then either the
/// self-closing tail or the content-and-closing-tag tail; the saved failure
/// of the attribute list competes with the tail failures.
#[verifier::opaque]
pub open spec fn spec_parse_element_close(
    input: Seq<u8>,
    c: Cursor,
    saved: Cursor,
    name: PrefixedName,
) -> (Outcome<()>, Seq<Event>)
    decreases input.len() - c.offset, 5int when 0 <= c.offset <= input.len()
{
    let c4 = spec_after_opt_space(input, c);
    match spec_parse_empty_element_tail(input, c4) {
        Outcome::Success { next: c5, .. } => (
            Outcome::Success { value: (), next: c5 },
            seq![Event::ElementEnd { name }],
        ),
        o2 => {
            let a_empty = spec_fail_at(o2);
            if c.offset <= c4.offset <= input.len() {
                let (ot, et) = spec_parse_non_empty_element_tail(input, c4);
                match ot {
                    Outcome::Success { value: end_name, next: c5 } => (
                        Outcome::Success { value: (), next: c5 },
                        et + seq![Event::ElementEnd { name: end_name }],
                    ),
                    ot2 => (
                        Outcome::Failure {
                            at: best_failure(saved, best_failure(a_empty, spec_fail_at(ot2))),
                        },
                        et,
                    ),
                }
            } else {
                (Outcome::Failure { at: c }, Seq::empty())
            }
        },
    }
}

/// `>`, content, and the closing tag, whose name is the value.
#[verifier::opaque]
pub open spec fn spec_parse_non_empty_element_tail(input: Seq<u8>, c: Cursor) -> (
    Outcome<PrefixedName>,
    Seq<Event>,
)
    decreases input.len() - c.offset, 4int when 0 <= c.offset <= input.len()
{
    match spec_consume_lit(input, c, lit1(('>' as u8))) {
        Outcome::Success { next: c1, .. } => {
            if c.offset < c1.offset <= input.len() {
                let (oc, ec) = spec_parse_content(input, c1);
                match oc {
                    Outcome::Partial { failed_at, next: c2, .. } => {
                        match spec_parse_element_end(input, c2) {
                            Outcome::Success { value: end_name, next: c3 } => (
                                Outcome::Success { value: end_name, next: c3 },
                                ec,
                            ),
                            o2 => (
                                Outcome::Failure {
                                    at: best_failure(failed_at, spec_fail_at(o2)),
                                },
                                ec,
                            ),
                        }
                    },
                    Outcome::Success { next: c2, .. } => {
                        match spec_parse_element_end(input, c2) {
                            Outcome::Success { value: end_name, next: c3 } => (
                                Outcome::Success { value: end_name, next: c3 },
                                ec,
                            ),
                            o2 => (Outcome::Failure { at: spec_fail_at(o2) }, ec),
                        }
                    },
                    Outcome::Failure { at } => (Outcome::Failure { at }, ec),
                }
            } else {
                (Outcome::Failure { at: c }, Seq::empty())
            }
        },
        o => (Outcome::Failure { at: spec_fail_at(o) }, Seq::empty()),
    }
}

/// Element content: optional character data, then zero or more content items.
#[verifier::opaque]
pub open spec fn spec_parse_content(input: Seq<u8>, c: Cursor) -> (Outcome<()>, Seq<Event>)
    decreases input.len() - c.offset, 3int when 0 <= c.offset <= input.len()
{
    let (o0, e0) = spec_parse_char_data(input, c);
    let c0 = match o0 {
        Outcome::Success { next, .. } => next,
        _ => c,
    };
    if c.offset <= c0.offset <= input.len() {
        let (o1, e1) = spec_parse_content_items(input, c0);
        (o1, e0 + e1)
    } else {
        (Outcome::Failure { at: c }, e0)
    }
}

/// Zero or more content items.
#[verifier::opaque]
pub open spec fn spec_parse_content_items(input: Seq<u8>, c: Cursor) -> (Outcome<()>, Seq<Event>)
    decreases input.len() - c.offset, 2int when 0 <= c.offset <= input.len()
{
    let (o, e) = spec_parse_rest_of_content(input, c);
    match o {
        Outcome::Success { next, .. } => {
            if c.offset < next.offset <= input.len() {
                let (o2, e2) = spec_parse_content_items(input, next);
                (o2, e + e2)
            } else {
                (Outcome::Partial { value: (), failed_at: next, next }, e)
            }
        },
        o2 => (
            Outcome::Partial { value: (), failed_at: spec_fail_at(o2), next: c },
            e,
        ),
    }
}

/// One content item: a child element, a CDATA section, a reference, a
/// comment, or a processing instruction, optionally followed by character
/// data.
#[verifier::opaque]
pub open spec fn spec_parse_rest_of_content(input: Seq<u8>, c: Cursor) -> (Outcome<()>, Seq<Event>)
    decreases input.len() - c.offset, 1int when 0 <= c.offset <= input.len()
{
    let (o1, e1) = spec_parse_element(input, c);
    let (alt, evs) = match o1 {
        Outcome::Failure { at: a1 } => {
            let (o2, e2) = spec_parse_cdata(input, c);
            match o2 {
                Outcome::Failure { at: a2 } => {
                    let (o3, e3) = spec_parse_content_reference(input, c);
                    match o3 {
                        Outcome::Failure { at: a3 } => {
                            let (o4, e4) = spec_parse_comment(input, c);
                            match o4 {
                                Outcome::Failure { at: a4 } => {
                                    let (o5, e5) = spec_parse_pi(input, c);
                                    match o5 {
                                        Outcome::Failure { at: a5 } => (
                                            Outcome::Failure {
                                                at: best_failure(
                                                    best_failure(
                                                        best_failure(best_failure(a1, a2), a3),
                                                        a4,
                                                    ),
                                                    a5,
                                                ),
                                            },
                                            e1 + e2 + e3 + e4 + e5,
                                        ),
                                        _ => (o5, e1 + e2 + e3 + e4 + e5),
                                    }
                                },
                                _ => (o4, e1 + e2 + e3 + e4),
                            }
                        },
                        _ => (o3, e1 + e2 + e3),
                    }
                },
                _ => (o2, e1 + e2),
            }
        },
        _ => (o1, e1),
    };
    match alt {
        Outcome::Success { next: ca, .. } => {
            if c.offset <= ca.offset <= input.len() {
                let (od, ed) = spec_parse_char_data(input, ca);
                match od {
                    Outcome::Success { next: cb, .. } => (
                        Outcome::Success { value: (), next: cb },
                        evs + ed,
                    ),
                    _ => (Outcome::Success { value: (), next: ca }, evs + ed),
                }
            } else {
                (Outcome::Failure { at: c }, evs)
            }
        },
        o => (o, evs),
    }
}

/// The whole document: a prolog, the root element, and trailing misc items.
#[verifier::opaque]
pub open spec fn spec_parse_document(input: Seq<u8>, c: Cursor) -> (Outcome<()>, Seq<Event>) {
    let (op, ep) = spec_parse_prolog(input, c);
    let (saved, c1) = match op {
        Outcome::Partial { failed_at, next, .. } => (Some(failed_at), next),
        Outcome::Success { next, .. } => (None, next),
        Outcome::Failure { at } => (Some(at), c),
    };
    if c.offset <= c1.offset <= input.len() {
        let (oe, ee) = spec_parse_element(input, c1);
        match oe {
            Outcome::Success { next: c2, .. } => {
                if c1.offset <= c2.offset <= input.len() {
                    let (om, em) = spec_parse_miscs(input, c2);
                    let c3 = match om {
                        Outcome::Partial { next, .. } => next,
                        Outcome::Success { next, .. } => next,
                        _ => c2,
                    };
                    (Outcome::Success { value: (), next: c3 }, ep + ee + em)
                } else {
                    (Outcome::Failure { at: c1 }, ep + ee)
                }
            },
            oe2 => {
                let a = spec_fail_at(oe2);
                let worst = match saved {
                    Some(s) => best_failure(s, a),
                    None => a,
                };
                (Outcome::Failure { at: worst }, ep + ee)
            },
        }
    } else {
        (Outcome::Failure { at: c }, ep)
    }
}

/// The parsing engine.  All grammar productions are methods of it; `parse`
/// runs the document production and hydrates the recorded events.
pub struct Parser;

impl Parser {
    pub fn new() -> (r: Parser) {
        Parser
    }

    fn parse_eq(&self, input: &[u8], c: Cursor) -> (r: Outcome<()>)
        requires
            c.offset <= input@.len(),
        ensures
            r == spec_parse_eq(input@, c),
            outcome_wf(input@, c, r),
    {
        let c0 = after_opt_space(input, c);
        match consume_lit1(input, c0, ('=' as u8)) {
            Outcome::Success { next: c1, .. } => Outcome::Success {
                value: (),
                next: after_opt_space(input, c1),
            },
            o => Outcome::Failure { at: outcome_fail_at(&o) },
        }
    }

    fn parse_version_num(&self, input: &[u8], c: Cursor) -> (r: Outcome<Range>)
        requires
            c.offset <= input@.len(),
        ensures
            r == spec_parse_version_num(input@, c),
            outcome_wf(input@, c, r),
    {
        match consume_lit2(input, c, ('1' as u8), ('.' as u8)) {
            Outcome::Success { next: c1, .. } => {
                match c1.consume_decimal_chars(input) {
                    Outcome::Success { value: digits, next: c2 } => Outcome::Success {
                        value: Range { start: c.offset, end: digits.end },
                        next: c2,
                    },
                    o => Outcome::Failure { at: outcome_fail_at(&o) },
                }
            },
            o => Outcome::Failure { at: outcome_fail_at(&o) },
        }
    }

    fn parse_one_quoted_version(&self, input: &[u8], c: Cursor, quote: u8) -> (r: Outcome<Range>)
        requires
            c.offset <= input@.len(),
        ensures
            r == spec_parse_one_quoted_version(input@, c, quote),
            outcome_wf(input@, c, r),
    {
        match consume_lit1(input, c, quote) {
            Outcome::Success { next: c1, .. } => {
                match self.parse_version_num(input, c1) {
                    Outcome::Success { value, next: c2 } => {
                        match consume_lit1(input, c2, quote) {
                            Outcome::Success { next: c3, .. } => Outcome::Success {
                                value,
                                next: c3,
                            },
                            o => Outcome::Failure { at: outcome_fail_at(&o) },
                        }
                    },
                    o => Outcome::Failure { at: outcome_fail_at(&o) },
                }
            },
            o => Outcome::Failure { at: outcome_fail_at(&o) },
        }
    }

    fn parse_quoted_version(&self, input: &[u8], c: Cursor) -> (r: Outcome<Range>)
        requires
            c.offset <= input@.len(),
        ensures
            r == spec_parse_quoted_version(input@, c),
            outcome_wf(input@, c, r),
    {
        match self.parse_one_quoted_version(input, c, ('\'' as u8)) {
            Outcome::Failure { at: a1 } => {
                match self.parse_one_quoted_version(input, c, ('"' as u8)) {
                    Outcome::Failure { at: a2 } => Outcome::Failure {
                        at: crate::cursor::best_failure_exec(a1, a2),
                    },
                    o => o,
                }
            },
            o => o,
        }
    }

    fn parse_version_info(&self, input: &[u8], c: Cursor) -> (r: Outcome<Range>)
        requires
            c.offset <= input@.len(),
        ensures
            r == spec_parse_version_info(input@, c),
            outcome_wf(input@, c, r),
    {
        match c.consume_space(input) {
            Outcome::Success { next: c1, .. } => {
                let word = [
                    ('v' as u8),
                    ('e' as u8),
                    ('r' as u8),
                    ('s' as u8),
                    ('i' as u8),
                    ('o' as u8),
                    ('n' as u8),
                ];
                assert(word@ =~= seq![
                    ('v' as u8),
                    ('e' as u8),
                    ('r' as u8),
                    ('s' as u8),
                    ('i' as u8),
                    ('o' as u8),
                    ('n' as u8),
                ]);
                match consume_lit(input, c1, word.as_slice()) {
                    Outcome::Success { next: c2, .. } => {
                        match self.parse_eq(input, c2) {
                            Outcome::Success { next: c3, .. } => self.parse_quoted_version(
                                input,
                                c3,
                            ),
                            o => Outcome::Failure { at: outcome_fail_at(&o) },
                        }
                    },
                    o => Outcome::Failure { at: outcome_fail_at(&o) },
                }
            },
            o => Outcome::Failure { at: outcome_fail_at(&o) },
        }
    }

    fn parse_xml_declaration(&self, input: &[u8], c: Cursor) -> (r: Outcome<()>)
        requires
            c.offset <= input@.len(),
        ensures
            r == spec_parse_xml_declaration(input@, c),
            outcome_wf(input@, c, r),
    {
        match consume_lit5(input, c, ('<' as u8), ('?' as u8), ('x' as u8), ('m' as u8), (
        'l' as u8)) {
            Outcome::Success { next: c1, .. } => {
                match self.parse_version_info(input, c1) {
                    Outcome::Success { next: c2, .. } => {
                        let c3 = after_opt_space(input, c2);
                        match consume_lit2(input, c3, ('?' as u8), ('>' as u8)) {
                            Outcome::Success { next: c4, .. } => Outcome::Success {
                                value: (),
                                next: c4,
                            },
                            o => Outcome::Failure { at: outcome_fail_at(&o) },
                        }
                    },
                    o => Outcome::Failure { at: outcome_fail_at(&o) },
                }
            },
            o => Outcome::Failure { at: outcome_fail_at(&o) },
        }
    }

    fn parse_entity_ref(&self, input: &[u8], c: Cursor) -> (r: Outcome<Reference>)
        requires
            c.offset <= input@.len(),
        ensures
            r == spec_parse_entity_ref(input@, c),
            outcome_wf(input@, c, r),
            progressed(c, r),
    {
        match consume_lit1(input, c, ('&' as u8)) {
            Outcome::Success { next: c1, .. } => {
                match c1.consume_name(input) {
                    Outcome::Success { value: name, next: c2 } => {
                        match consume_lit1(input, c2, (';' as u8)) {
                            Outcome::Success { next: c3, .. } => Outcome::Success {
                                value: Reference::EntityReference(name),
                                next: c3,
                            },
                            o => Outcome::Failure { at: outcome_fail_at(&o) },
                        }
                    },
                    o => Outcome::Failure { at: outcome_fail_at(&o) },
                }
            },
            o => Outcome::Failure { at: outcome_fail_at(&o) },
        }
    }

    fn parse_decimal_char_ref(&self, input: &[u8], c: Cursor) -> (r: Outcome<Reference>)
        requires
            c.offset <= input@.len(),
        ensures
            r == spec_parse_decimal_char_ref(input@, c),
            outcome_wf(input@, c, r),
            progressed(c, r),
    {
        match consume_lit2(input, c, ('&' as u8), ('#' as u8)) {
            Outcome::Success { next: c1, .. } => {
                match c1.consume_decimal_chars(input) {
                    Outcome::Success { value: digits, next: c2 } => {
                        match consume_lit1(input, c2, (';' as u8)) {
                            Outcome::Success { next: c3, .. } => Outcome::Success {
                                value: Reference::DecimalCharReference(digits),
                                next: c3,
                            },
                            o => Outcome::Failure { at: outcome_fail_at(&o) },
                        }
                    },
                    o => Outcome::Failure { at: outcome_fail_at(&o) },
                }
            },
            o => Outcome::Failure { at: outcome_fail_at(&o) },
        }
    }

    fn parse_hex_char_ref(&self, input: &[u8], c: Cursor) -> (r: Outcome<Reference>)
        requires
            c.offset <= input@.len(),
        ensures
            r == spec_parse_hex_char_ref(input@, c),
            outcome_wf(input@, c, r),
            progressed(c, r),
    {
        match consume_lit3(input, c, ('&' as u8), ('#' as u8), ('x' as u8)) {
            Outcome::Success { next: c1, .. } => {
                match c1.consume_hex_chars(input) {
                    Outcome::Success { value: digits, next: c2 } => {
                        match consume_lit1(input, c2, (';' as u8)) {
                            Outcome::Success { next: c3, .. } => Outcome::Success {
                                value: Reference::HexCharReference(digits),
                                next: c3,
                            },
                            o => Outcome::Failure { at: outcome_fail_at(&o) },
                        }
                    },
                    o => Outcome::Failure { at: outcome_fail_at(&o) },
                }
            },
            o => Outcome::Failure { at: outcome_fail_at(&o) },
        }
    }

    fn parse_reference(&self, input: &[u8], c: Cursor) -> (r: Outcome<Reference>)
        requires
            c.offset <= input@.len(),
        ensures
            r == spec_parse_reference(input@, c),
            outcome_wf(input@, c, r),
            progressed(c, r),
    {
        match self.parse_entity_ref(input, c) {
            Outcome::Failure { at: a1 } => {
                match self.parse_decimal_char_ref(input, c) {
                    Outcome::Failure { at: a2 } => {
                        match self.parse_hex_char_ref(input, c) {
                            Outcome::Failure { at: a3 } => Outcome::Failure {
                                at: crate::cursor::best_failure_exec(
                                    crate::cursor::best_failure_exec(a1, a2),
                                    a3,
                                ),
                            },
                            o => o,
                        }
                    },
                    o => o,
                }
            },
            o => o,
        }
    }

    fn parse_element_end(&self, input: &[u8], c: Cursor) -> (r: Outcome<PrefixedName>)
        requires
            c.offset <= input@.len(),
        ensures
            r == spec_parse_element_end(input@, c),
            outcome_wf(input@, c, r),
            progressed(c, r),
    {
        match consume_lit2(input, c, ('<' as u8), ('/' as u8)) {
            Outcome::Success { next: c1, .. } => {
                match c1.consume_prefixed_name(input) {
                    Outcome::Success { value: name, next: c2 } => {
                        let c3 = after_opt_space(input, c2);
                        match consume_lit1(input, c3, ('>' as u8)) {
                            Outcome::Success { next: c4, .. } => Outcome::Success {
                                value: name,
                                next: c4,
                            },
                            o => Outcome::Failure { at: outcome_fail_at(&o) },
                        }
                    },
                    o => Outcome::Failure { at: outcome_fail_at(&o) },
                }
            },
            o => Outcome::Failure { at: outcome_fail_at(&o) },
        }
    }

    fn parse_empty_element_tail(&self, input: &[u8], c: Cursor) -> (r: Outcome<()>)
        requires
            c.offset <= input@.len(),
        ensures
            r == spec_parse_empty_element_tail(input@, c),
            outcome_wf(input@, c, r),
            progressed(c, r),
    {
        match consume_lit2(input, c, ('/' as u8), ('>' as u8)) {
            Outcome::Success { next: c1, .. } => Outcome::Success { value: (), next: c1 },
            o => Outcome::Failure { at: outcome_fail_at(&o) },
        }
    }

    fn parse_pi_value(&self, input: &[u8], c: Cursor) -> (r: Outcome<Range>)
        requires
            c.offset <= input@.len(),
        ensures
            r == spec_parse_pi_value(input@, c),
            outcome_wf(input@, c, r),
    {
        match c.consume_space(input) {
            Outcome::Success { next: c1, .. } => c1.consume_pi_value(input),
            o => Outcome::Failure { at: outcome_fail_at(&o) },
        }
    }

    fn parse_comment(&self, input: &[u8], c: Cursor, log: &mut Vec<Event>) -> (r: Outcome<()>)
        requires
            c.offset <= input@.len(),
        ensures
            ({
                let (o, evs) = spec_parse_comment(input@, c);
                r == o && final(log)@ == old(log)@ + evs
            }),
            outcome_wf(input@, c, r),
            progressed(c, r),
    {
        match consume_lit4(input, c, ('<' as u8), ('!' as u8), ('-' as u8), ('-' as u8)) {
            Outcome::Success { next: c1, .. } => {
                match c1.consume_comment(input) {
                    Outcome::Success { value: text, next: c2 } => {
                        match consume_lit3(input, c2, ('-' as u8), ('-' as u8), ('>' as u8)) {
                            Outcome::Success { next: c3, .. } => {
                                log.push(Event::Comment { text });
                                Outcome::Success { value: (), next: c3 }
                            },
                            o => Outcome::Failure { at: outcome_fail_at(&o) },
                        }
                    },
                    o => Outcome::Failure { at: outcome_fail_at(&o) },
                }
            },
            o => Outcome::Failure { at: outcome_fail_at(&o) },
        }
    }

    fn parse_pi(&self, input: &[u8], c: Cursor, log: &mut Vec<Event>) -> (r: Outcome<()>)
        requires
            c.offset <= input@.len(),
        ensures
            ({
                let (o, evs) = spec_parse_pi(input@, c);
                r == o && final(log)@ == old(log)@ + evs
            }),
            outcome_wf(input@, c, r),
            progressed(c, r),
    {
        match consume_lit2(input, c, ('<' as u8), ('?' as u8)) {
            Outcome::Success { next: c1, .. } => {
                match c1.consume_name(input) {
                    Outcome::Success { value: target, next: c2 } => {
                        let (value, c3) = match self.parse_pi_value(input, c2) {
                            Outcome::Success { value: v, next } => (Some(v), next),
                            _ => (None, c2),
                        };
                        match consume_lit2(input, c3, ('?' as u8), ('>' as u8)) {
                            Outcome::Success { next: c4, .. } => {
                                log.push(Event::ProcessingInstruction { target, value });
                                Outcome::Success { value: (), next: c4 }
                            },
                            o => Outcome::Failure { at: outcome_fail_at(&o) },
                        }
                    },
                    o => Outcome::Failure { at: outcome_fail_at(&o) },
                }
            },
            o => Outcome::Failure { at: outcome_fail_at(&o) },
        }
    }

    fn parse_cdata(&self, input: &[u8], c: Cursor, log: &mut Vec<Event>) -> (r: Outcome<()>)
        requires
            c.offset <= input@.len(),
        ensures
            ({
                let (o, evs) = spec_parse_cdata(input@, c);
                r == o && final(log)@ == old(log)@ + evs
            }),
            outcome_wf(input@, c, r),
            progressed(c, r),
    {
        match consume_cdata_open(input, c) {
            Outcome::Success { next: c1, .. } => {
                match c1.consume_cdata(input) {
                    Outcome::Success { value: text, next: c2 } => {
                        match consume_lit3(input, c2, (']' as u8), (']' as u8), ('>' as u8)) {
                            Outcome::Success { next: c3, .. } => {
                                log.push(Event::Text { text });
                                Outcome::Success { value: (), next: c3 }
                            },
                            o => Outcome::Failure { at: outcome_fail_at(&o) },
                        }
                    },
                    o => Outcome::Failure { at: outcome_fail_at(&o) },
                }
            },
            o => Outcome::Failure { at: outcome_fail_at(&o) },
        }
    }

    fn parse_char_data(&self, input: &[u8], c: Cursor, log: &mut Vec<Event>) -> (r: Outcome<()>)
        requires
            c.offset <= input@.len(),
        ensures
            ({
                let (o, evs) = spec_parse_char_data(input@, c);
                r == o && final(log)@ == old(log)@ + evs
            }),
            outcome_wf(input@, c, r),
            progressed(c, r),
    {
        match c.consume_char_data(input) {
            Outcome::Success { value: text, next: c1 } => {
                log.push(Event::Text { text });
                Outcome::Success { value: (), next: c1 }
            },
            o => Outcome::Failure { at: outcome_fail_at(&o) },
        }
    }

    fn parse_content_reference(&self, input: &[u8], c: Cursor, log: &mut Vec<Event>) -> (r:
        Outcome<()>)
        requires
            c.offset <= input@.len(),
        ensures
            ({
                let (o, evs) = spec_parse_content_reference(input@, c);
                r == o && final(log)@ == old(log)@ + evs
            }),
            outcome_wf(input@, c, r),
            progressed(c, r),
    {
        match self.parse_reference(input, c) {
            Outcome::Success { value: reference, next: c1 } => {
                log.push(Event::ContentReference { reference });
                Outcome::Success { value: (), next: c1 }
            },
            o => Outcome::Failure { at: outcome_fail_at(&o) },
        }
    }

    #[verifier::spinoff_prover]
    fn parse_misc(&self, input: &[u8], c: Cursor, log: &mut Vec<Event>) -> (r: Outcome<()>)
        requires
            c.offset <= input@.len(),
        ensures
            ({
                let (o, evs) = spec_parse_misc(input@, c);
                r == o && final(log)@ == old(log)@ + evs
            }),
            outcome_wf(input@, c, r),
            progressed(c, r),
    {
        proof {
            reveal(spec_parse_misc);
        }
        match self.parse_comment(input, c, log) {
            Outcome::Failure { at: a1 } => {
                match self.parse_pi(input, c, log) {
                    Outcome::Failure { at: a2 } => {
                        match c.consume_space(input) {
                            Outcome::Success { next: c1, .. } => Outcome::Success {
                                value: (),
                                next: c1,
                            },
                            o => Outcome::Failure {
                                at: crate::cursor::best_failure_exec(
                                    crate::cursor::best_failure_exec(a1, a2),
                                    outcome_fail_at(&o),
                                ),
                            },
                        }
                    },
                    o => o,
                }
            },
            o => o,
        }
    }

    fn parse_miscs(&self, input: &[u8], c: Cursor, log: &mut Vec<Event>) -> (r: Outcome<()>)
        requires
            c.offset <= input@.len(),
        ensures
            ({
                let (o, evs) = spec_parse_miscs(input@, c);
                r == o && final(log)@ == old(log)@ + evs
            }),
            outcome_wf(input@, c, r),
        decreases input@.len() - c.offset,
    {
        proof {
            reveal(spec_parse_miscs);
        }
        match self.parse_misc(input, c, log) {
            Outcome::Success { next, .. } => self.parse_miscs(input, next, log),
            o => Outcome::Partial { value: (), failed_at: outcome_fail_at(&o), next: c },
        }
    }

    fn parse_prolog(&self, input: &[u8], c: Cursor, log: &mut Vec<Event>) -> (r: Outcome<()>)
        requires
            c.offset <= input@.len(),
        ensures
            ({
                let (o, evs) = spec_parse_prolog(input@, c);
                r == o && final(log)@ == old(log)@ + evs
            }),
            outcome_wf(input@, c, r),
    {
        proof {
            reveal(spec_parse_prolog);
        }
        let c0 = match self.parse_xml_declaration(input, c) {
            Outcome::Success { next, .. } => next,
            _ => c,
        };
        self.parse_miscs(input, c0, log)
    }

    fn parse_attribute_literal(&self, input: &[u8], c: Cursor, quote: u8, log: &mut Vec<Event>)
        -> (r: Outcome<()>)
        requires
            c.offset <= input@.len(),
        ensures
            ({
                let (o, evs) = spec_parse_attribute_literal(input@, c, quote);
                r == o && final(log)@ == old(log)@ + evs
            }),
            outcome_wf(input@, c, r),
            progressed(c, r),
    {
        match c.consume_attribute_value(input, quote) {
            Outcome::Success { value, next: c1 } => {
                log.push(
                    Event::AttributeValuePart {
                        value: AttributeValue::LiteralAttributeValue(value),
                    },
                );
                Outcome::Success { value: (), next: c1 }
            },
            o => Outcome::Failure { at: outcome_fail_at(&o) },
        }
    }

    fn parse_attribute_reference(&self, input: &[u8], c: Cursor, log: &mut Vec<Event>) -> (r:
        Outcome<()>)
        requires
            c.offset <= input@.len(),
        ensures
            ({
                let (o, evs) = spec_parse_attribute_reference(input@, c);
                r == o && final(log)@ == old(log)@ + evs
            }),
            outcome_wf(input@, c, r),
            progressed(c, r),
    {
        match self.parse_reference(input, c) {
            Outcome::Success { value, next: c1 } => {
                log.push(
                    Event::AttributeValuePart {
                        value: AttributeValue::ReferenceAttributeValue(value),
                    },
                );
                Outcome::Success { value: (), next: c1 }
            },
            o => Outcome::Failure { at: outcome_fail_at(&o) },
        }
    }

    fn parse_attribute_value_item(&self, input: &[u8], c: Cursor, quote: u8, log: &mut Vec<Event>)
        -> (r: Outcome<()>)
        requires
            c.offset <= input@.len(),
        ensures
            ({
                let (o, evs) = spec_parse_attribute_value_item(input@, c, quote);
                r == o && final(log)@ == old(log)@ + evs
            }),
            outcome_wf(input@, c, r),
            progressed(c, r),
    {
        match self.parse_attribute_literal(input, c, quote, log) {
            Outcome::Failure { at: a1 } => {
                match self.parse_attribute_reference(input, c, log) {
                    Outcome::Failure { at: a2 } => Outcome::Failure {
                        at: crate::cursor::best_failure_exec(a1, a2),
                    },
                    o => o,
                }
            },
            o => o,
        }
    }

    fn parse_attribute_values(&self, input: &[u8], c: Cursor, quote: u8, log: &mut Vec<Event>)
        -> (r: Outcome<()>)
        requires
            c.offset <= input@.len(),
        ensures
            ({
                let (o, evs) = spec_parse_attribute_values(input@, c, quote);
                r == o && final(log)@ == old(log)@ + evs
            }),
            outcome_wf(input@, c, r),
        decreases input@.len() - c.offset,
    {
        proof {
            reveal(spec_parse_attribute_values);
        }
        match self.parse_attribute_value_item(input, c, quote, log) {
            Outcome::Success { next, .. } => self.parse_attribute_values(input, next, quote, log),
            o => Outcome::Partial { value: (), failed_at: outcome_fail_at(&o), next: c },
        }
    }

    fn parse_one_quoted_value(&self, input: &[u8], c: Cursor, quote: u8, log: &mut Vec<Event>)
        -> (r: Outcome<()>)
        requires
            c.offset <= input@.len(),
        ensures
            ({
                let (o, evs) = spec_parse_one_quoted_attribute_value(input@, c, quote);
                r == o && final(log)@ == old(log)@ + evs
            }),
            outcome_wf(input@, c, r),
    {
        proof {
            reveal(spec_parse_one_quoted_attribute_value);
        }
        match consume_lit1(input, c, quote) {
            Outcome::Success { next: c1, .. } => {
                match self.parse_attribute_values(input, c1, quote, log) {
                    Outcome::Partial { failed_at, next: c2, .. } => {
                        match consume_lit1(input, c2, quote) {
                            Outcome::Success { next: c3, .. } => Outcome::Success {
                                value: (),
                                next: c3,
                            },
                            o2 => Outcome::Failure {
                                at: crate::cursor::best_failure_exec(
                                    failed_at,
                                    outcome_fail_at(&o2),
                                ),
                            },
                        }
                    },
                    Outcome::Success { next: c2, .. } => {
                        match consume_lit1(input, c2, quote) {
                            Outcome::Success { next: c3, .. } => Outcome::Success {
                                value: (),
                                next: c3,
                            },
                            o2 => Outcome::Failure { at: outcome_fail_at(&o2) },
                        }
                    },
                    Outcome::Failure { at } => Outcome::Failure { at },
                }
            },
            o => Outcome::Failure { at: outcome_fail_at(&o) },
        }
    }

    fn parse_quoted_value(&self, input: &[u8], c: Cursor, log: &mut Vec<Event>) -> (r: Outcome<()>)
        requires
            c.offset <= input@.len(),
        ensures
            ({
                let (o, evs) = spec_parse_quoted_attribute_value(input@, c);
                r == o && final(log)@ == old(log)@ + evs
            }),
            outcome_wf(input@, c, r),
    {
        proof {
            reveal(spec_parse_quoted_attribute_value);
        }
        match self.parse_one_quoted_value(input, c, ('\'' as u8), log) {
            Outcome::Failure { at: a1 } => {
                match self.parse_one_quoted_value(input, c, ('"' as u8), log) {
                    Outcome::Failure { at: a2 } => Outcome::Failure {
                        at: crate::cursor::best_failure_exec(a1, a2),
                    },
                    o => o,
                }
            },
            o => o,
        }
    }

    #[verifier::spinoff_prover]
    fn parse_attribute(&self, input: &[u8], c: Cursor, log: &mut Vec<Event>) -> (r: Outcome<()>)
        requires
            c.offset <= input@.len(),
        ensures
            ({
                let (o, evs) = spec_parse_attribute(input@, c);
                r == o && final(log)@ == old(log)@ + evs
            }),
            outcome_wf(input@, c, r),
            progressed(c, r),
    {
        proof {
            reveal(spec_parse_attribute);
        }
        match c.consume_space(input) {
            Outcome::Success { next: c1, .. } => {
                match c1.consume_prefixed_name(input) {
                    Outcome::Success { value: name, next: c2 } => {
                        log.push(Event::AttributeStart { name });
                        match self.parse_eq(input, c2) {
                            Outcome::Success { next: c3, .. } => {
                                match self.parse_quoted_value(input, c3, log) {
                                    Outcome::Success { next: c4, .. } => {
                                        log.push(Event::AttributeEnd { name });
                                        Outcome::Success { value: (), next: c4 }
                                    },
                                    o2 => Outcome::Failure { at: outcome_fail_at(&o2) },
                                }
                            },
                            o2 => Outcome::Failure { at: outcome_fail_at(&o2) },
                        }
                    },
                    o2 => Outcome::Failure { at: outcome_fail_at(&o2) },
                }
            },
            o2 => Outcome::Failure { at: outcome_fail_at(&o2) },
        }
    }

    fn parse_attributes(&self, input: &[u8], c: Cursor, log: &mut Vec<Event>) -> (r: Outcome<()>)
        requires
            c.offset <= input@.len(),
        ensures
            ({
                let (o, evs) = spec_parse_attributes(input@, c);
                r == o && final(log)@ == old(log)@ + evs
            }),
            outcome_wf(input@, c, r),
        decreases input@.len() - c.offset,
    {
        proof {
            reveal(spec_parse_attributes);
        }
        match self.parse_attribute(input, c, log) {
            Outcome::Success { next, .. } => self.parse_attributes(input, next, log),
            o => Outcome::Partial { value: (), failed_at: outcome_fail_at(&o), next: c },
        }
    }

    #[verifier::spinoff_prover]
    fn parse_element(&self, input: &[u8], c: Cursor, log: &mut Vec<Event>) -> (r: Outcome<()>)
        requires
            c.offset <= input@.len(),
        ensures
            ({
                let (o, evs) = spec_parse_element(input@, c);
                r == o && final(log)@ == old(log)@ + evs
            }),
            outcome_wf(input@, c, r),
            progressed(c, r),
        decreases input@.len() - c.offset, 0int,
    {
        proof {
            reveal(spec_parse_element);
        }
        match c.consume_start_tag(input) {
            Outcome::Success { next: c1, .. } => {
                match c1.consume_prefixed_name(input) {
                    Outcome::Success { value: name, next: c2 } => {
                        log.push(Event::ElementStart { name });
                        log.push(Event::AttributesStart);
                        match self.parse_attributes(input, c2, log) {
                            Outcome::Partial { failed_at, next: c3, .. } => {
                                log.push(Event::AttributesEnd);
                                self.parse_element_close(input, c3, failed_at, name, log)
                            },
                            oa2 => {
                                log.push(Event::AttributesEnd);
                                Outcome::Failure { at: outcome_fail_at(&oa2) }
                            },
                        }
                    },
                    o2 => Outcome::Failure { at: outcome_fail_at(&o2) },
                }
            },
            o => Outcome::Failure { at: outcome_fail_at(&o) },
        }
    }

    #[verifier::spinoff_prover]
    fn parse_element_close(
        &self,
        input: &[u8],
        c: Cursor,
        saved: Cursor,
        name: PrefixedName,
        log: &mut Vec<Event>,
    ) -> (r: Outcome<()>)
        requires
            c.offset <= input@.len(),
            saved.offset <= input@.len(),
        ensures
            ({
                let (o, evs) = spec_parse_element_close(input@, c, saved, name);
                r == o && final(log)@ == old(log)@ + evs
            }),
            outcome_wf(input@, c, r),
        decreases input@.len() - c.offset, 5int,
    {
        proof {
            reveal(spec_parse_element_close);
        }
        let c4 = after_opt_space(input, c);
        match self.parse_empty_element_tail(input, c4) {
            Outcome::Success { next: c5, .. } => {
                log.push(Event::ElementEnd { name });
                Outcome::Success { value: (), next: c5 }
            },
            o2 => {
                let a_empty = outcome_fail_at(&o2);
                match self.parse_non_empty_element_tail(input, c4, log) {
                    Outcome::Success { value: end_name, next: c5 } => {
                        log.push(Event::ElementEnd { name: end_name });
                        Outcome::Success { value: (), next: c5 }
                    },
                    ot2 => Outcome::Failure {
                        at: crate::cursor::best_failure_exec(
                            saved,
                            crate::cursor::best_failure_exec(a_empty, outcome_fail_at(&ot2)),
                        ),
                    },
                }
            },
        }
    }

    #[verifier::spinoff_prover]
    fn parse_non_empty_element_tail(&self, input: &[u8], c: Cursor, log: &mut Vec<Event>) -> (r:
        Outcome<PrefixedName>)
        requires
            c.offset <= input@.len(),
        ensures
            ({
                let (o, evs) = spec_parse_non_empty_element_tail(input@, c);
                r == o && final(log)@ == old(log)@ + evs
            }),
            outcome_wf(input@, c, r),
        decreases input@.len() - c.offset, 4int,
    {
        proof {
            reveal(spec_parse_non_empty_element_tail);
        }
        match consume_lit1(input, c, ('>' as u8)) {
            Outcome::Success { next: c1, .. } => {
                match self.parse_content(input, c1, log) {
                    Outcome::Partial { failed_at, next: c2, .. } => {
                        match self.parse_element_end(input, c2) {
                            Outcome::Success { value: end_name, next: c3 } => Outcome::Success {
                                value: end_name,
                                next: c3,
                            },
                            o2 => Outcome::Failure {
                                at: crate::cursor::best_failure_exec(
                                    failed_at,
                                    outcome_fail_at(&o2),
                                ),
                            },
                        }
                    },
                    Outcome::Success { next: c2, .. } => {
                        match self.parse_element_end(input, c2) {
                            Outcome::Success { value: end_name, next: c3 } => Outcome::Success {
                                value: end_name,
                                next: c3,
                            },
                            o2 => Outcome::Failure { at: outcome_fail_at(&o2) },
                        }
                    },
                    Outcome::Failure { at } => Outcome::Failure { at },
                }
            },
            o => Outcome::Failure { at: outcome_fail_at(&o) },
        }
    }

    #[verifier::spinoff_prover]
    fn parse_content(&self, input: &[u8], c: Cursor, log: &mut Vec<Event>) -> (r: Outcome<()>)
        requires
            c.offset <= input@.len(),
        ensures
            ({
                let (o, evs) = spec_parse_content(input@, c);
                r == o && final(log)@ == old(log)@ + evs
            }),
            outcome_wf(input@, c, r),
        decreases input@.len() - c.offset, 3int,
    {
        proof {
            reveal(spec_parse_content);
        }
        let c0 = match self.parse_char_data(input, c, log) {
            Outcome::Success { next, .. } => next,
            _ => c,
        };
        self.parse_content_items(input, c0, log)
    }

    #[verifier::spinoff_prover]
    fn parse_content_items(&self, input: &[u8], c: Cursor, log: &mut Vec<Event>) -> (r: Outcome<
        (),
    >)
        requires
            c.offset <= input@.len(),
        ensures
            ({
                let (o, evs) = spec_parse_content_items(input@, c);
                r == o && final(log)@ == old(log)@ + evs
            }),
            outcome_wf(input@, c, r),
        decreases input@.len() - c.offset, 2int,
    {
        proof {
            reveal(spec_parse_content_items);
        }
        match self.parse_rest_of_content(input, c, log) {
            Outcome::Success { next, .. } => self.parse_content_items(input, next, log),
            o => Outcome::Partial { value: (), failed_at: outcome_fail_at(&o), next: c },
        }
    }

    #[verifier::spinoff_prover]
    fn parse_rest_of_content(&self, input: &[u8], c: Cursor, log: &mut Vec<Event>) -> (r: Outcome<
        (),
    >)
        requires
            c.offset <= input@.len(),
        ensures
            ({
                let (o, evs) = spec_parse_rest_of_content(input@, c);
                r == o && final(log)@ == old(log)@ + evs
            }),
            outcome_wf(input@, c, r),
            progressed(c, r),
        decreases input@.len() - c.offset, 1int,
    {
        proof {
            reveal(spec_parse_rest_of_content);
        }
        let alt = match self.parse_element(input, c, log) {
            Outcome::Failure { at: a1 } => {
                match self.parse_cdata(input, c, log) {
                    Outcome::Failure { at: a2 } => {
                        match self.parse_content_reference(input, c, log) {
                            Outcome::Failure { at: a3 } => {
                                match self.parse_comment(input, c, log) {
                                    Outcome::Failure { at: a4 } => {
                                        match self.parse_pi(input, c, log) {
                                            Outcome::Failure { at: a5 } => Outcome::Failure {
                                                at: crate::cursor::best_failure_exec(
                                                    crate::cursor::best_failure_exec(
                                                        crate::cursor::best_failure_exec(
                                                            crate::cursor::best_failure_exec(
                                                                a1,
                                                                a2,
                                                            ),
                                                            a3,
                                                        ),
                                                        a4,
                                                    ),
                                                    a5,
                                                ),
                                            },
                                            o => o,
                                        }
                                    },
                                    o => o,
                                }
                            },
                            o => o,
                        }
                    },
                    o => o,
                }
            },
            o => o,
        };
        match alt {
            Outcome::Success { next: ca, .. } => {
                match self.parse_char_data(input, ca, log) {
                    Outcome::Success { next: cb, .. } => Outcome::Success {
                        value: (),
                        next: cb,
                    },
                    _ => Outcome::Success { value: (), next: ca },
                }
            },
            o => o,
        }
    }

    #[verifier::spinoff_prover]
    fn parse_document(&self, input: &[u8], c: Cursor, log: &mut Vec<Event>) -> (r: Outcome<()>)
        requires
            c.offset <= input@.len(),
        ensures
            ({
                let (o, evs) = spec_parse_document(input@, c);
                r == o && final(log)@ == old(log)@ + evs
            }),
            outcome_wf(input@, c, r),
    {
        proof {
            reveal(spec_parse_document);
        }
        let (saved, c1) = match self.parse_prolog(input, c, log) {
            Outcome::Partial { failed_at, next, .. } => (Some(failed_at), next),
            Outcome::Success { next, .. } => (None, next),
            Outcome::Failure { at } => (Some(at), c),
        };
        match self.parse_element(input, c1, log) {
            Outcome::Success { next: c2, .. } => {
                let c3 = match self.parse_miscs(input, c2, log) {
                    Outcome::Partial { next, .. } => next,
                    Outcome::Success { next, .. } => next,
                    _ => c2,
                };
                Outcome::Success { value: (), next: c3 }
            },
            oe2 => {
                let a = outcome_fail_at(&oe2);
                let worst = match saved {
                    Some(s) => crate::cursor::best_failure_exec(s, a),
                    None => a,
                };
                Outcome::Failure { at: worst }
            },
        }
    }
}


/// What parsing a whole input yields: the hydrated document of the
/// recorded events when the document production matches, and otherwise the
/// offset of the most interesting failure.
pub open spec fn spec_parse_result(input: Seq<u8>) -> Result<DocumentModel, ParseError> {
    let (o, evs) = spec_parse_document(input, Cursor { offset: 0 });
    match o {
        Outcome::Success { .. } => spec_hydrate(input, evs),
        Outcome::Partial { failed_at, .. } => Err(ParseError::Failure { offset: failed_at.offset }),
        Outcome::Failure { at } => Err(ParseError::Failure { offset: at.offset }),
    }
}

/// Parsing is a function of the input alone: two parses of the same text
/// yield structurally equal documents, or the same error.
pub proof fn lemma_parse_deterministic(
    input: Seq<u8>,
    r1: Result<DocumentModel, ParseError>,
    r2: Result<DocumentModel, ParseError>,
)
    requires
        r1 == spec_parse_result(input),
        r2 == spec_parse_result(input),
    ensures
        r1 == r2,
{
}

impl Parser {
    /// Parse a complete XML document.  Success yields the hydrated,
    /// namespace-resolved tree, whether or not trailing input remains;
    /// failure yields the most interesting failure offset, or the fatal
    /// semantic error the hydration met first.
    pub fn parse(&self, xml: &str) -> (r: Result<Document, ParseError>)
        ensures
            match (r, spec_parse_result(xml.spec_bytes())) {
                (Ok(d), Ok(m)) => d@ == m,
                (Err(e1), Err(e2)) => e1 == e2,
                _ => false,
            },
    {
        let input: &[u8] = xml.as_bytes();
        let mut log: Vec<Event> = Vec::new();
        let c = Cursor { offset: 0 };
        match self.parse_document(input, c, &mut log) {
            Outcome::Success { .. } => {
                proof {
                    let (o, evs) = spec_parse_document(input@, c);
                    assert(log@ =~= evs);
                }
                hydrate(input, &log)
            },
            Outcome::Partial { failed_at, .. } => Err(
                ParseError::Failure { offset: failed_at.offset },
            ),
            Outcome::Failure { at } => Err(ParseError::Failure { offset: at.offset }),
        }
    }
}

} // verus!
