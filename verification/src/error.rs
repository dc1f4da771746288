//! The ways a schema can be refused.

use vstd::prelude::*;

verus! {

/// Why a schema was refused. Field positions count from zero in declaration
/// order of the schema that was handed in.
#[derive(Clone, Copy, Debug, PartialEq, Eq, Structural)]
pub enum LayoutError {
    /// The target is not a struct with named fields.
    ShapeMismatch,
    /// The struct is not declared strictly packed.
    MissingPackingAttribute,
    /// The offset annotation of this field is not `offset = <integer literal>`
    /// with a value that fits the host's `usize`.
    InvalidOffsetLiteral { field: usize },
    /// This field is an optional wrapper around something other than a
    /// reference.
    UnsupportedOptionalPayload { field: usize },
    /// The size of this field, or the offset of its end, went below zero or
    /// above `usize::MAX` when it was evaluated.
    NegativeOrOverflowingPadding { field: usize },
    /// The size of this field depends on a type whose concrete size the host
    /// did not supply.
    UnknownTypeSize { field: usize },
}

} // verus!
