use vstd::prelude::*;

verus! {

/// The extent of a two-dimensional array: `rows` by `cols`.
///
/// Batch tensors are laid out with one row per feature and one column per
/// sample; a weight matrix has one row per output feature and one column per
/// input feature.
#[derive(Clone, Copy, Debug, PartialEq, Eq, Structural)]
pub struct Shape {
    pub rows: usize,
    pub cols: usize,
}

impl Shape {
    pub fn new(rows: usize, cols: usize) -> (r: Shape)
        ensures
            r.rows == rows,
            r.cols == cols,
    {
        Shape { rows, cols }
    }

    /// The shape of a column vector of `n` entries.
    pub open spec fn column_spec(n: usize) -> Shape {
        Shape { rows: n, cols: 1 }
    }

    /// The shape of a column vector of `n` entries.
    pub fn column(n: usize) -> (r: Shape)
        ensures
            r == Shape::column_spec(n),
    {
        Shape { rows: n, cols: 1 }
    }

    /// The shape of the transposed array.
    pub fn transposed(&self) -> (r: Shape)
        ensures
            r.rows == self.cols,
            r.cols == self.rows,
    {
        Shape { rows: self.cols, cols: self.rows }
    }
}

} // verus!
