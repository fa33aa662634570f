//! Why a construct could not be lowered.

use vstd::prelude::*;

verus! {

/// The two ways in which lowering stops.
#[derive(Debug, Clone, Copy, PartialEq, Eq, Structural)]
pub enum LowerError {
    /// The construct has no lowering yet: a comparison, a negation, a float,
    /// array or non-empty struct argument, a returned value that is too wide.
    Unimplemented,
    /// The input breaks what type checking guarantees: a component that the
    /// base's type does not have, an operand that has no type.
    InvariantViolation,
}

} // verus!
