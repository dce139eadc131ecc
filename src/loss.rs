use vstd::prelude::*;
use crate::error::Error;
use crate::shape::Shape;

verus! {

/// A loss function comparing a network's output with a target.
#[derive(Clone, Copy, Debug, PartialEq, Eq, Structural)]
pub enum Loss {
    /// the mean of the squared differences, `mean((output - target)^2)`,
    /// whose gradient is `2 * (output - target) / n`
    MSE,
}

impl Loss {
    /// Checks that an output and a target can be compared: they must have the
    /// same shape. Nothing is truncated or broadcast.
    pub fn check_operands(&self, output: Shape, target: Shape) -> (r: Result<(), Error>)
        ensures
            r is Ok <==> output == target,
            r is Err ==> r->Err_0 == (Error::DimensionMismatch { layer: None, expected: output, found: target }),
    {
        if output != target {
            return Err(Error::DimensionMismatch { layer: None, expected: output, found: target });
        }
        Ok(())
    }
}

} // verus!
