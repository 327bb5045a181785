//! The taxonomy of decode failures. Every failure is fatal to the whole
//! decode: the caller receives one terminal error and no partial tree.

use vstd::prelude::*;

verus! {

/// A terminal decoding failure.
#[derive(Clone, Copy, Debug, PartialEq, Eq, Structural)]
pub enum ParseError {
    /// The input slice was exhausted before a requested read completed.
    InsufficientData,
    /// The element type tag or element size does not match the fixed
    /// expectation for the dispatched type key.
    FormatMismatch,
    /// A text payload is not valid UTF-8.
    InvalidText,
    /// A grouping record's nested sub-buffer was not fully consumed by its
    /// children. The sequence decoder only terminates on an exhausted
    /// buffer, so this outcome is provably never produced; the variant
    /// documents the container's exactness requirement.
    TrailingData,
    /// The type key has no table entry and its tag is not the custom marker.
    UnknownBlockType,
}

} // verus!
