//! The metadata parser: a total function from JSON text to table metadata or
//! a precise structural error, with fully qualified error paths.

pub mod metadata;
pub mod partition_spec;
pub mod schema;
pub mod snapshot;
pub mod util;

use vstd::prelude::*;

verus! {

/// Why a document was rejected. Parsing is all-or-nothing: any failure
/// returns one of these and no partial metadata value is ever visible.
#[derive(Debug)]
pub enum ParserError {
    /// The text is not well-formed JSON; carries the decoder's message.
    InvalidJson(String),
    /// A required field is absent or of the wrong JSON kind; carries the
    /// fully qualified field path.
    MissingRequiredField(String),
    /// A field holds a value of the wrong type, or a number outside the
    /// target width; carries the field path or property key.
    InvalidFieldType(String),
    /// A partition transform name the registry does not resolve.
    InvalidPartitionTransform(String),
    /// A `format-version` other than the single supported one.
    UnsupportedFormatVersion(u32),
}

/// The mathematical model of a [`ParserError`].
pub enum ParserErrorView {
    InvalidJson(Seq<char>),
    MissingRequiredField(Seq<char>),
    InvalidFieldType(Seq<char>),
    InvalidPartitionTransform(Seq<char>),
    UnsupportedFormatVersion(u32),
}

impl View for ParserError {
    type V = ParserErrorView;

    open spec fn view(&self) -> ParserErrorView {
        match self {
            ParserError::InvalidJson(m) => ParserErrorView::InvalidJson(m@),
            ParserError::MissingRequiredField(p) => ParserErrorView::MissingRequiredField(p@),
            ParserError::InvalidFieldType(p) => ParserErrorView::InvalidFieldType(p@),
            ParserError::InvalidPartitionTransform(n) => ParserErrorView::InvalidPartitionTransform(
                n@,
            ),
            ParserError::UnsupportedFormatVersion(v) => ParserErrorView::UnsupportedFormatVersion(
                *v,
            ),
        }
    }
}

} // verus!
