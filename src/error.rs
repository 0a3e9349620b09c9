use vstd::prelude::*;

verus! {

/// What can go wrong when a network is configured, run or rebuilt.
#[derive(Debug, Clone, Copy, PartialEq, Eq, Structural)]
pub enum NetError {
    /// A layer was appended whose input count differs from the neuron count of the
    /// layer before it.
    ConfigurationError { expected: usize, got: usize },
    /// The network has no layers yet, so it cannot be run or trained.
    InvalidState,
    /// Two matrices, or a matrix and a sample, do not have compatible shapes.
    DimensionMismatch,
    /// A cell was asked for outside the matrix.
    OutOfBounds,
    /// A stored network could not be rebuilt from its parts.
    ParseError,
}

} // verus!
