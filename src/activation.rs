use vstd::prelude::*;
use crate::jacobian::{array3_from_diags, array3_from_pairs, cube, entry, map_entries, rectangular};

verus! {

/// The nonlinearity applied to a layer's pre-activation values.
///
/// `S` is the scalar type of the leaky slope.
#[derive(Clone, Copy, Debug, PartialEq)]
pub enum Activation<S> {
    /// `max(0, z)`
    ReLU,
    /// the identity, `z`
    Linear,
    /// `1 / (1 + e^-z)`
    Sigmoid,
    /// `z` where `z > 0`, else `slope * z`
    LeakyReLU(S),
    /// each sample normalised to a probability distribution
    Softmax,
    /// `(e^2z - 1) / (e^2z + 1)`
    Tanh,
}

impl<S> Activation<S> {
    /// Whether the activation acts on each entry on its own, so that its
    /// per-sample Jacobian is diagonal.
    pub open spec fn spec_is_elementwise(&self) -> bool {
        !(self is Softmax)
    }

    pub fn is_elementwise(&self) -> (r: bool)
        ensures
            r == self.spec_is_elementwise(),
    {
        match self {
            Activation::Softmax => false,
            _ => true,
        }
    }

    /// The per-sample Jacobian tensor of the activation, one `dim` by `dim`
    /// matrix per sample, laid out from the scalar formulas the caller gives.
    ///
    /// For an activation that acts entry by entry, `samples` holds the inputs
    /// `z`, `slope_at(z)` is the derivative at `z`, and the result is diagonal:
    /// every entry off the diagonal is exactly `zero`. For softmax, `samples`
    /// holds the outputs `s` and entry `(i, j)` of a sample is what
    /// `pair(s_i, s_j, i == j)` gives, that is `s_i - s_i * s_j` on the
    /// diagonal and `-s_i * s_j` off it: the matrix `diag(s) - s * s^T`.
    pub fn jacobian<T: Copy, FD: Fn(T) -> T, FP: Fn(T, T, bool) -> T>(
        &self,
        samples: &Vec<Vec<T>>,
        dim: usize,
        zero: T,
        slope_at: FD,
        pair: FP,
    ) -> (r: Vec<Vec<Vec<T>>>)
        requires
            rectangular(samples@, dim as nat),
            forall|x: T| #[trigger] slope_at.requires((x,)),
            forall|x: T, y: T, d: bool| #[trigger] pair.requires((x, y, d)),
        ensures
            cube(r@, samples@.len(), dim as nat),
            self.spec_is_elementwise() ==> forall|b: int, i: int, j: int|
                0 <= b < samples@.len() && 0 <= i < dim && 0 <= j < dim && i != j
                    ==> #[trigger] entry(r@, b, i, j) == zero,
            self.spec_is_elementwise() ==> forall|b: int, i: int|
                0 <= b < samples@.len() && 0 <= i < dim
                    ==> slope_at.ensures((samples@[b]@[i],), #[trigger] entry(r@, b, i, i)),
            !self.spec_is_elementwise() ==> forall|b: int, i: int, j: int|
                0 <= b < samples@.len() && 0 <= i < dim && 0 <= j < dim ==> pair.ensures(
                    (samples@[b]@[i], samples@[b]@[j], i == j),
                    #[trigger] entry(r@, b, i, j),
                ),
    {
        if self.is_elementwise() {
            let diags = map_entries(samples, dim, slope_at);
            let r = array3_from_diags(&diags, dim, zero);
            proof {
                assert forall|b: int, i: int|
                    0 <= b < samples@.len() && 0 <= i < dim implies slope_at.ensures(
                        (samples@[b]@[i],),
                        #[trigger] entry(r@, b, i, i),
                    ) by {
                    assert(entry(r@, b, i, i) == diags@[b]@[i]);
                }
            }
            r
        } else {
            array3_from_pairs(samples, dim, pair)
        }
    }
}

impl<S> Default for Activation<S> {
    /// A layer without an explicit activation is a plain affine map.
    fn default() -> (r: Activation<S>)
        ensures
            r is Linear,
    {
        Activation::Linear
    }
}

} // verus!
