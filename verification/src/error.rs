//! The errors of this crate.

use vstd::prelude::*;

verus! {

/// The ways in which an operation of this crate rejects its input.
#[derive(Debug, Clone, Copy, PartialEq, Eq, Structural)]
pub enum TrussError {
    /// A matrix was asked for with no rows, no columns, or rows of unequal
    /// length; or a member does not name exactly two nodes.
    InvalidShape,
    /// The operands of an arithmetic operation do not fit together.
    ShapeMismatch,
    /// A member names a node that the structure does not have.
    UnknownNode,
    /// The same node identifier occurs twice where it may occur once.
    DuplicateNode,
}

} // verus!
