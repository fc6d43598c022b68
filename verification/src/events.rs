//! The event protocol between the grammar layer and the tree builder.
//!
//! As productions match, the grammar records structural events in order.  A
//! consumer that folds over the recorded events can build any representation
//! of the document; the hydrator builds the namespace-resolved tree.

use vstd::prelude::*;

use crate::cursor::Range;
use crate::tokens::PrefixedName;

verus! {

/// A character or entity reference, its payload given as a range of the
/// input: the `name` of `&name;`, the digits of `&#digits;` or `&#xdigits;`.
#[derive(Clone, Copy, Debug, PartialEq, Eq, Structural)]
pub enum Reference {
    EntityReference(Range),
    DecimalCharReference(Range),
    HexCharReference(Range),
}

/// One fragment of a quoted attribute value: a literal run or a reference.
#[derive(Clone, Copy, Debug, PartialEq, Eq, Structural)]
pub enum AttributeValue {
    ReferenceAttributeValue(Reference),
    LiteralAttributeValue(Range),
}

/// One structural event.  For each element the grammar reports, in order:
/// `ElementStart`, `AttributesStart`, per attribute `AttributeStart` /
/// `AttributeValuePart`(s) / `AttributeEnd`, `AttributesEnd`, the child
/// events, and `ElementEnd` carrying the name written in the closing tag
/// (the opening name again for a self-closing element).
#[derive(Clone, Copy, Debug, PartialEq, Eq, Structural)]
pub enum Event {
    ElementStart { name: PrefixedName },
    ElementEnd { name: PrefixedName },
    Comment { text: Range },
    ProcessingInstruction { target: Range, value: Option<Range> },
    Text { text: Range },
    ContentReference { reference: Reference },
    AttributesStart,
    AttributesEnd,
    AttributeStart { name: PrefixedName },
    AttributeValuePart { value: AttributeValue },
    AttributeEnd { name: PrefixedName },
}

} // verus!
