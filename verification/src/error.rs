use vstd::prelude::*;

verus! {

/// Why a matrix could not be built or combined.
#[derive(Clone, Copy, Debug, PartialEq, Eq, Structural)]
pub enum MatrixError {
    /// The shapes involved do not fit together: rows of unequal length,
    /// summands of different shapes, or factors whose inner sizes differ.
    ShapeMismatch,
}

} // verus!
