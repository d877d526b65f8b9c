use vstd::prelude::*;
use crate::base::ParseError;

verus! {

/// Why laying out a scene failed.
#[derive(Debug, Clone, Copy, PartialEq, Eq, Structural)]
pub enum RsmlError {
    /// A value in a style or catalogue could not be read.
    Parse(ParseError),
    /// An item names an object or group that the catalogue does not hold.
    MissingCatalogueEntry,
    /// A `cube` container still has an `auto` axis after sizes were taken from children.
    CubeSizeError,
    /// A size needed for placement is not a length on every axis.
    UnresolvedSize,
    /// Placement inside a `cube` container is not supported.
    UnsupportedDisplay,
    /// The document's root element is not `rsml`.
    InvalidStructure,
    /// The document has no `head` element under its root.
    MissingHead,
    /// The document has no `body` element under its root.
    MissingBody,
}

} // verus!
