//! A parser for the D★Mark markup language.
//!
//! D★Mark documents are plain text: block elements start with `#name` at the
//! beginning of a line, hold an optional bracketed attribute list and inline
//! content, and own nested blocks through two-space indentation. Inline
//! elements (`%name{...}`) and escape sequences (`%%`, `%}`, `%#`) live inside
//! running text. Parsing either yields the ordered tree of nodes or fails fast
//! with the kind and exact source position of the first violation.

use vstd::prelude::*;

pub mod grammar;
pub mod model;
pub mod parser;
pub mod translator;
pub mod util;

pub use parser::{Parser, Pos};
pub use translator::Translator;
pub use util::FilterableResult;

verus! {

/// An element of a document: a name, an attribute list, and ordered children.
///
/// Attribute pairs appear in the order their keys first appear in the source;
/// a repeated key overwrites the earlier value in place.
#[derive(Debug, PartialEq)]
pub struct ElementNode {
    pub name: String,
    pub attributes: Vec<(String, String)>,
    pub children: Vec<Node>,
}

/// A run of text inside a document.
#[derive(Debug, PartialEq)]
pub struct StringNode {
    pub content: String,
}

/// A node of the parsed document tree.
#[derive(Debug, PartialEq)]
pub enum Node {
    Element(ElementNode),
    String(StringNode),
}

/// The kind of the first grammar violation found in the input.
#[derive(Debug, PartialEq, Eq, Structural, Clone, Copy)]
pub enum Error {
    /// An unexpected end-of-file was encountered.
    UnexpectedEOF,

    /// An unexpected end-of-line was encountered.
    UnexpectedEOL,

    /// A `%` inside an attribute value was not followed by `%`, `]` or `,`.
    UnexpectedEscapeSequence,

    /// An unexpected right brace, }, was encountered.
    UnexpectedRightBrace,

    /// A block header was followed by something other than a space, a
    /// newline or the end of the input.
    UnexpectedContentAfterBlockName,

    /// Expected a left brace, {, but none was found.
    ExpectedLeftBrace,

    /// Expected a right brace, }, but none was found.
    ExpectedRightBrace,

    /// Expected a hash (#), but none was found.
    ExpectedHash,

    /// Expected a space, but none was found.
    ExpectedSpace,

    /// Expected a name char, but none was found.
    InvalidCharInName,
}

/// A parse failure together with the position at which it was raised and up
/// to two lines of surrounding source text for display: the line before the
/// failure line, if any, and the failure line itself.
#[derive(Debug)]
pub struct ErrorWithContext {
    pub error: Error,
    pub pos: Pos,
    pub line0: Option<String>,
    pub line1: Option<String>,
}

} // verus!
