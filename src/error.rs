use vstd::prelude::*;
use crate::shape::Shape;

verus! {

/// The ways an operation on layers and networks can be refused.
#[derive(Clone, Copy, Debug, PartialEq, Eq, Structural)]
pub enum Error {
    /// Two operands have shapes that the requested operation cannot combine.
    /// `layer` names the layer whose operation was refused, where there is one.
    DimensionMismatch { layer: Option<usize>, expected: Shape, found: Shape },
    /// A replacement of a layer's parameters did not keep their shapes.
    MismatchedDimensions { expected: Shape, found: Shape },
}

} // verus!
