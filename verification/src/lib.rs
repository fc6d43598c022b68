//! A recursive-descent parser for a practical subset of XML 1.0 that turns a
//! text document into a namespace-aware tree of nodes.
//!
//! The parse is driven by a backtracking cursor algebra; when several
//! alternatives fail, the failure at the greatest input offset is reported.
//! Structural events found by the grammar are recorded and then hydrated into
//! the tree, resolving namespace prefixes lexically.

pub mod cursor;
pub mod decode;
pub mod dom;
pub mod error;
pub mod events;
pub mod grammar;
pub mod hydrate;
pub mod lexical;
pub mod seqext;
pub mod tokens;

pub use cursor::{Cursor, Outcome, Range};
pub use dom::{Attribute, Document, Element, Namespace, Node, QName};
pub use error::ParseError;
pub use grammar::Parser;
pub use tokens::{PrefixedName, XmlParseExt};

