use vstd::prelude::*;
use crate::activation::Activation;
use crate::error::Error;
use crate::shape::Shape;

verus! {

/// What the most recent forward pass left in a layer: its pre-activation
/// `z = W * input + B`, its activation `a`, and the number of samples.
pub struct Cache<M> {
    pub z: M,
    pub a: M,
    pub batch: usize,
}

/// One affine transform followed by an activation.
///
/// `M` is the caller's matrix type and `S` its scalar type. The layer keeps
/// the shape of its weight matrix, `output_dim` by `input_dim`; its bias is a
/// column of `output_dim` entries.
pub struct Layer<M, S> {
    w: M,
    b: M,
    w_shape: Shape,
    activation: Activation<S>,
    cache: Option<Cache<M>>,
}

impl<M, S> Layer<M, S> {
    pub closed spec fn weights(&self) -> M {
        self.w
    }

    pub closed spec fn bias(&self) -> M {
        self.b
    }

    pub closed spec fn weight_shape(&self) -> Shape {
        self.w_shape
    }

    pub open spec fn bias_shape(&self) -> Shape {
        Shape { rows: self.weight_shape().rows, cols: 1 }
    }

    pub open spec fn input_dim(&self) -> usize {
        self.weight_shape().cols
    }

    pub open spec fn output_dim(&self) -> usize {
        self.weight_shape().rows
    }

    pub closed spec fn act(&self) -> Activation<S> {
        self.activation
    }

    pub closed spec fn cached(&self) -> Option<Cache<M>> {
        self.cache
    }

    /// Builds a layer from its weight matrix and bias column, whose shapes
    /// are given beside them. The dimensions are read off the weight matrix;
    /// the bias must be a column with one entry per row of the weights.
    pub fn from_parameters(parameters: (M, M), shapes: (Shape, Shape)) -> (r: Result<Layer<M, S>, Error>)
        ensures
            shapes.1 == Shape::column_spec(shapes.0.rows) <==> r is Ok,
            r is Ok ==> {
                let l = r->Ok_0;
                &&& l.weights() == parameters.0
                &&& l.bias() == parameters.1
                &&& l.weight_shape() == shapes.0
                &&& l.act() is Linear
                &&& l.cached() is None
            },
            r is Err ==> r->Err_0 == (Error::DimensionMismatch {
                layer: None,
                expected: Shape::column_spec(shapes.0.rows),
                found: shapes.1,
            }),
    {
        let (w_shape, b_shape) = shapes;
        let expected = Shape::column(w_shape.rows);
        if b_shape != expected {
            return Err(Error::DimensionMismatch { layer: None, expected, found: b_shape });
        }
        let (w, b) = parameters;
        Ok(Layer { w, b, w_shape, activation: Activation::Linear, cache: None })
    }

    /// The weight matrix and the bias column.
    pub fn get_parameters(&self) -> (r: (&M, &M))
        ensures
            *r.0 == self.weights(),
            *r.1 == self.bias(),
    {
        (&self.w, &self.b)
    }

    pub fn get_weight_shape(&self) -> (r: Shape)
        ensures
            r == self.weight_shape(),
    {
        self.w_shape
    }

    pub fn get_bias_shape(&self) -> (r: Shape)
        ensures
            r == self.bias_shape(),
    {
        Shape::column(self.w_shape.rows)
    }

    /// Replaces the weights and the bias. The shapes of a layer never change:
    /// a replacement whose weight shape, or else whose bias shape, differs from
    /// the current one is refused, and the layer is left as it was.
    pub fn set_parameters(&mut self, parameters: (M, M), shapes: (Shape, Shape)) -> (r: Result<(), Error>)
        ensures
            r is Ok <==> (shapes.0 == old(self).weight_shape() && shapes.1 == old(self).bias_shape()),
            r is Ok ==> {
                &&& final(self).weights() == parameters.0
                &&& final(self).bias() == parameters.1
                &&& final(self).weight_shape() == old(self).weight_shape()
                &&& final(self).act() == old(self).act()
                &&& final(self).cached() == old(self).cached()
            },
            r is Err ==> *final(self) == *old(self),
            shapes.0 != old(self).weight_shape() ==> r == Err::<(), Error>(
                Error::MismatchedDimensions { expected: old(self).weight_shape(), found: shapes.0 },
            ),
            shapes.0 == old(self).weight_shape() && shapes.1 != old(self).bias_shape() ==> r == Err::<(), Error>(
                Error::MismatchedDimensions { expected: old(self).bias_shape(), found: shapes.1 },
            ),
    {
        let (w_shape, b_shape) = shapes;
        if w_shape != self.w_shape {
            return Err(Error::MismatchedDimensions { expected: self.w_shape, found: w_shape });
        }
        let expected = Shape::column(self.w_shape.rows);
        if b_shape != expected {
            return Err(Error::MismatchedDimensions { expected, found: b_shape });
        }
        let (w, b) = parameters;
        self.w = w;
        self.b = b;
        Ok(())
    }

    /// Attaches an activation to the layer, in place of the current one.
    pub fn activation(self, a: Activation<S>) -> (r: Layer<M, S>)
        ensures
            r.act() == a,
            r.weights() == self.weights(),
            r.bias() == self.bias(),
            r.weight_shape() == self.weight_shape(),
            r.cached() == self.cached(),
    {
        let mut l = self;
        l.activation = a;
        l
    }

    pub fn get_activation(&self) -> (r: &Activation<S>)
        ensures
            *r == self.act(),
    {
        &self.activation
    }

    /// The pre-activation and activation of the most recent forward pass.
    pub fn get_cache(&self) -> (r: Option<&Cache<M>>)
        ensures
            r matches Some(c) <==> self.cached() is Some,
            r matches Some(c) ==> *c == self.cached()->Some_0,
    {
        match &self.cache {
            Some(c) => Some(c),
            None => None,
        }
    }

    /// Passes a batch of `input_shape.cols` samples, one per column, through
    /// the layer. `kernel` computes `(z, a)` from the weights, the bias, the
    /// activation and the input, where `z = W * input + B` and `a` is the
    /// activation of `z`. A batch whose feature count differs from the layer's
    /// input dimension is refused before `kernel` runs, and the layer is left
    /// as it was.
    pub fn forward<F: Fn(&M, &M, &Activation<S>, &M) -> (M, M)>(
        &mut self,
        input: &M,
        input_shape: Shape,
        kernel: &F,
    ) -> (r: Result<(), Error>)
        requires
            forall|w: &M, b: &M, a: &Activation<S>, x: &M| #[trigger] kernel.requires((w, b, a, x)),
        ensures
            r is Ok <==> input_shape.rows == old(self).input_dim(),
            r is Err ==> *final(self) == *old(self) && r->Err_0 == (Error::DimensionMismatch {
                layer: None,
                expected: Shape { rows: old(self).input_dim(), cols: input_shape.cols },
                found: input_shape,
            }),
            r is Ok ==> forwarded(*old(self), *final(self), *input, input_shape.cols, *kernel),
    {
        if input_shape.rows != self.w_shape.cols {
            return Err(Error::DimensionMismatch {
                layer: None,
                expected: Shape { rows: self.w_shape.cols, cols: input_shape.cols },
                found: input_shape,
            });
        }
        let (z, a) = kernel(&self.w, &self.b, &self.activation, input);
        self.cache = Some(Cache { z, a, batch: input_shape.cols });
        Ok(())
    }
}

/// `after` is `before` with the cache of a forward pass of `batch` samples of
/// `input`, computed by `kernel`.
pub open spec fn forwarded<M, S, F: Fn(&M, &M, &Activation<S>, &M) -> (M, M)>(
    before: Layer<M, S>,
    after: Layer<M, S>,
    input: M,
    batch: usize,
    kernel: F,
) -> bool {
    &&& after.weights() == before.weights()
    &&& after.bias() == before.bias()
    &&& after.weight_shape() == before.weight_shape()
    &&& after.act() == before.act()
    &&& after.cached() is Some
    &&& after.cached()->Some_0.batch == batch
    &&& kernel.ensures(
        (&before.weights(), &before.bias(), &before.act(), &input),
        (after.cached()->Some_0.z, after.cached()->Some_0.a),
    )
}

/// Each layer's output dimension is the next layer's input dimension.
pub open spec fn chained<M, S>(ls: Seq<Layer<M, S>>) -> bool {
    forall|k: int| 0 <= k < ls.len() - 1 ==> #[trigger] ls[k].output_dim() == ls[k + 1].input_dim()
}

/// What layer `k` of `ls` consumes in a pass over `input`: `input` itself for
/// the first layer, the cached activation of the layer before it otherwise.
pub open spec fn layer_input<M, S>(ls: Seq<Layer<M, S>>, k: int, input: M) -> M {
    if k == 0 {
        input
    } else {
        ls[k - 1].cached()->Some_0.a
    }
}

/// An ordered sequence of layers trained by gradient descent at rate `lr`.
///
/// Layers are chained as they are added: a layer whose input dimension is not
/// the output dimension of the layer before it is refused by `add_layer`, so
/// that no pass can meet a mismatch between two layers.
pub struct NeuralNetworkBuilder<M, S> {
    layers: Vec<Layer<M, S>>,
    lr: S,
}

impl<M, S> NeuralNetworkBuilder<M, S> {
    pub closed spec fn layers(&self) -> Seq<Layer<M, S>> {
        self.layers@
    }

    pub closed spec fn rate(&self) -> S {
        self.lr
    }

    pub open spec fn wf(&self) -> bool {
        chained(self.layers())
    }

    /// An empty network with learning rate `lr`.
    pub fn new(lr: S) -> (r: NeuralNetworkBuilder<M, S>)
        ensures
            r.wf(),
            r.layers() == Seq::<Layer<M, S>>::empty(),
            r.rate() == lr,
    {
        NeuralNetworkBuilder { layers: Vec::new(), lr }
    }

    /// Appends a layer. It is refused unless its input dimension is the output
    /// dimension of the current last layer: its weight matrix must then have
    /// one column per output of that layer.
    pub fn add_layer(self, layer: Layer<M, S>) -> (r: Result<NeuralNetworkBuilder<M, S>, Error>)
        requires
            self.wf(),
        ensures
            r is Ok <==> (self.layers().len() == 0 || self.layers().last().output_dim() == layer.input_dim()),
            r is Ok ==> {
                let n = r->Ok_0;
                &&& n.wf()
                &&& n.layers() == self.layers().push(layer)
                &&& n.rate() == self.rate()
            },
            r is Err ==> r->Err_0 == (Error::DimensionMismatch {
                layer: Some(self.layers().len() as usize),
                expected: Shape {
                    rows: layer.output_dim(),
                    cols: self.layers().last().output_dim(),
                },
                found: layer.weight_shape(),
            }),
    {
        let mut n = self;
        let len = n.layers.len();
        if len > 0 {
            let prev_out = n.layers[len - 1].w_shape.rows;
            if prev_out != layer.w_shape.cols {
                return Err(Error::DimensionMismatch {
                    layer: Some(len),
                    expected: Shape { rows: layer.w_shape.rows, cols: prev_out },
                    found: layer.w_shape,
                });
            }
        }
        n.layers.push(layer);
        proof {
            assert(n.layers@.drop_last() == self.layers@);
        }
        Ok(n)
    }

    /// Sets the learning rate.
    pub fn learning_rate(self, lr: S) -> (r: NeuralNetworkBuilder<M, S>)
        ensures
            r.layers() == self.layers(),
            r.rate() == lr,
    {
        let mut n = self;
        n.lr = lr;
        n
    }

    pub fn get_learning_rate(&self) -> (r: &S)
        ensures
            *r == self.rate(),
    {
        &self.lr
    }

    pub fn len(&self) -> (r: usize)
        ensures
            r == self.layers().len(),
    {
        self.layers.len()
    }

    pub fn layer(&self, k: usize) -> (r: &Layer<M, S>)
        requires
            k < self.layers().len(),
        ensures
            *r == self.layers()[k as int],
    {
        &self.layers[k]
    }

    /// The activation of the last layer from the most recent forward pass.
    pub fn output(&self) -> (r: Option<&M>)
        ensures
            r is Some <==> (self.layers().len() > 0 && self.layers().last().cached() is Some),
            r is Some ==> *r->Some_0 == self.layers().last().cached()->Some_0.a,
    {
        let len = self.layers.len();
        if len == 0 {
            return None;
        }
        match &self.layers[len - 1].cache {
            Some(c) => Some(&c.a),
            None => None,
        }
    }

    /// Passes a batch of `input_shape.cols` samples through the layers in
    /// order: the first layer consumes `input`, each later one the activation
    /// that the layer before it has just cached. `kernel` computes a layer's
    /// `(z, a)` as in `Layer::forward`. A batch whose feature count differs
    /// from the first layer's input dimension is refused before any layer
    /// changes.
    pub fn forward<F: Fn(&M, &M, &Activation<S>, &M) -> (M, M)>(
        &mut self,
        input: &M,
        input_shape: Shape,
        kernel: &F,
    ) -> (r: Result<(), Error>)
        requires
            old(self).wf(),
            forall|w: &M, b: &M, a: &Activation<S>, x: &M| #[trigger] kernel.requires((w, b, a, x)),
        ensures
            final(self).wf(),
            final(self).rate() == old(self).rate(),
            final(self).layers().len() == old(self).layers().len(),
            r is Ok <==> (old(self).layers().len() == 0 || input_shape.rows == old(self).layers()[0].input_dim()),
            r is Err ==> *final(self) == *old(self) && r->Err_0 == (Error::DimensionMismatch {
                layer: Some(0),
                expected: Shape { rows: old(self).layers()[0].input_dim(), cols: input_shape.cols },
                found: input_shape,
            }),
            r is Ok ==> forall|k: int|
                0 <= k < old(self).layers().len() ==> forwarded(
                    #[trigger] old(self).layers()[k],
                    final(self).layers()[k],
                    layer_input(final(self).layers(), k, *input),
                    input_shape.cols,
                    *kernel,
                ),
    {
        let len = self.layers.len();
        if len == 0 {
            return Ok(());
        }
        if input_shape.rows != self.layers[0].w_shape.cols {
            return Err(Error::DimensionMismatch {
                layer: Some(0),
                expected: Shape { rows: self.layers[0].w_shape.cols, cols: input_shape.cols },
                found: input_shape,
            });
        }
        let ghost before = self.layers@;
        let mut k: usize = 0;
        while k < len
            invariant
                len == before.len(),
                self.layers@.len() == len,
                self.lr == old(self).lr,
                before == old(self).layers@,
                chained(before),
                forall|w: &M, b: &M, a: &Activation<S>, x: &M| #[trigger] kernel.requires((w, b, a, x)),
                forall|j: int|
                    0 <= j < k ==> forwarded(
                        #[trigger] before[j],
                        self.layers@[j],
                        layer_input(self.layers@, j, *input),
                        input_shape.cols,
                        *kernel,
                    ),
                forall|j: int| k <= j < len ==> #[trigger] self.layers@[j] == before[j],
            decreases len - k,
        {
            let (z, a) = if k == 0 {
                let l = &self.layers[0];
                kernel(&l.w, &l.b, &l.activation, input)
            } else {
                proof {
                    assert(forwarded(before[k - 1], self.layers@[k - 1], layer_input(self.layers@, k - 1, *input), input_shape.cols, *kernel));
                }
                let prev = self.layers[k - 1].cache.as_ref().unwrap();
                let l = &self.layers[k];
                kernel(&l.w, &l.b, &l.activation, &prev.a)
            };
            let ghost mid = self.layers@;
            self.layers[k].cache = Some(Cache { z, a, batch: input_shape.cols });
            proof {
                assert forall|j: int|
                    0 <= j <= k implies forwarded(
                        #[trigger] before[j],
                        self.layers@[j],
                        layer_input(self.layers@, j, *input),
                        input_shape.cols,
                        *kernel,
                    ) by {
                    if j > 0 {
                        assert(self.layers@[j - 1] == mid[j - 1]);
                    }
                    if j < k {
                        assert(self.layers@[j] == mid[j]);
                    }
                }
            }
            k = k + 1;
        }
        proof {
            assert forall|j: int| 0 <= j < len - 1 implies #[trigger] self.layers@[j].output_dim()
                == self.layers@[j + 1].input_dim() by {
                assert(forwarded(before[j], self.layers@[j], layer_input(self.layers@, j, *input), input_shape.cols, *kernel));
                assert(forwarded(before[j + 1], self.layers@[j + 1], layer_input(self.layers@, j + 1, *input), input_shape.cols, *kernel));
                assert(before[j].output_dim() == before[j + 1].input_dim());
            }
        }
        Ok(())
    }

    /// One backward pass over the batch that the most recent forward pass
    /// evaluated, followed by a gradient-descent step on every layer. It
    /// returns the gradient of the loss with respect to each layer's
    /// pre-activation (`dz`), in the order visited: from the output layer
    /// back to the first.
    ///
    /// The kernels are the numeric steps:
    /// - `output_delta(activation, z, a, target)`: the output layer's `dz`,
    ///   the activation's Jacobian at `z` applied to the loss gradient at `a`;
    /// - `hidden_delta(activation, z, w_next, dz_next)`: a hidden layer's `dz`,
    ///   the activation's Jacobian at `z` applied to `w_next^T * dz_next`;
    /// - `update(w, b, dz, layer_input, lr)`: the new weights and bias,
    ///   `w - lr * dz * layer_input^T` and `b - lr * rowsum(dz)`.
    ///
    /// `w_next` is always the next layer's weight matrix as it was before this
    /// pass, though that layer has been updated by then. Every shape is checked
    /// before any layer changes: the input against the first layer, each
    /// layer's cache against the batch, and the target against the output.
    pub fn backprop<
        FO: Fn(&Activation<S>, &M, &M, &M) -> M,
        FH: Fn(&Activation<S>, &M, &M, &M) -> M,
        FU: Fn(&M, &M, &M, &M, &S) -> (M, M),
    >(
        &mut self,
        input: &M,
        input_shape: Shape,
        target: &M,
        target_shape: Shape,
        output_delta: &FO,
        hidden_delta: &FH,
        update: &FU,
    ) -> (r: Result<Vec<M>, Error>)
        requires
            old(self).wf(),
            forall|a: &Activation<S>, z: &M, y: &M, t: &M| #[trigger] output_delta.requires((a, z, y, t)),
            forall|a: &Activation<S>, z: &M, w: &M, d: &M| #[trigger] hidden_delta.requires((a, z, w, d)),
            forall|w: &M, b: &M, d: &M, x: &M, lr: &S| #[trigger] update.requires((w, b, d, x, lr)),
        ensures
            final(self).wf(),
            final(self).rate() == old(self).rate(),
            r is Err <==> backprop_error(old(self).layers(), input_shape, target_shape) is Some,
            r is Err ==> *final(self) == *old(self)
                && r->Err_0 == backprop_error(old(self).layers(), input_shape, target_shape)->Some_0,
            r is Ok ==> backpropagated(
                old(self).layers(),
                final(self).layers(),
                r->Ok_0@,
                *input,
                *target,
                old(self).rate(),
                *output_delta,
                *hidden_delta,
                *update,
            ),
    {
        let len = self.layers.len();
        if len == 0 {
            return Ok(Vec::new());
        }
        let cols = input_shape.cols;
        if input_shape.rows != self.layers[0].w_shape.cols {
            return Err(Error::DimensionMismatch {
                layer: Some(0),
                expected: Shape { rows: self.layers[0].w_shape.cols, cols },
                found: input_shape,
            });
        }
        let ghost ls = self.layers@;
        let mut k: usize = 0;
        while k < len
            invariant
                k <= len,
                len == ls.len(),
                ls == self.layers@,
                *self == *old(self),
                chained(ls),
                len > 0,
                cols == input_shape.cols,
                input_shape.rows == ls[0].input_dim(),
                first_stale(ls, cols, 0) == first_stale(ls, cols, k as int),
                forall|j: int| 0 <= j < k ==> fresh(#[trigger] ls[j], cols),
            decreases len - k,
        {
            let l = &self.layers[k];
            let rows = l.w_shape.rows;
            proof {
                if !fresh(ls[k as int], cols) {
                    assert(first_stale(ls, cols, k as int) == k);
                } else {
                    assert(first_stale(ls, cols, k as int) == first_stale(ls, cols, k + 1));
                }
            }
            match &l.cache {
                Some(c) => {
                    if c.batch != cols {
                        return Err(Error::DimensionMismatch {
                            layer: Some(k),
                            expected: Shape { rows, cols },
                            found: Shape { rows, cols: c.batch },
                        });
                    }
                },
                None => {
                    return Err(Error::DimensionMismatch {
                        layer: Some(k),
                        expected: Shape { rows, cols },
                        found: Shape { rows, cols: 0 },
                    });
                },
            }
            k = k + 1;
        }
        let expected = Shape { rows: self.layers[len - 1].w_shape.rows, cols };
        if target_shape != expected {
            return Err(Error::DimensionMismatch {
                layer: Some(len - 1),
                expected,
                found: target_shape,
            });
        }
        let mut deltas: Vec<M> = Vec::new();
        let mut next_w: Option<M> = None;
        let mut n: usize = len;
        while n > 0
            invariant
                n <= len,
                len == ls.len(),
                ls == old(self).layers@,
                self.lr == old(self).lr,
                self.layers@.len() == len,
                chained(ls),
                forall|j: int| 0 <= j < len ==> fresh(#[trigger] ls[j], cols),
                forall|a: &Activation<S>, z: &M, y: &M, t: &M| #[trigger] output_delta.requires((a, z, y, t)),
                forall|a: &Activation<S>, z: &M, w: &M, d: &M| #[trigger] hidden_delta.requires((a, z, w, d)),
                forall|w: &M, b: &M, d: &M, x: &M, lr: &S| #[trigger] update.requires((w, b, d, x, lr)),
                deltas@.len() == len - n,
                forall|j: int| 0 <= j < n ==> #[trigger] self.layers@[j] == ls[j],
                forall|j: int| n <= j < len ==> kept_except_parameters(#[trigger] ls[j], self.layers@[j]),
                forall|j: int|
                    n <= j < len ==> update.ensures(
                        (&ls[j].weights(), &ls[j].bias(), &delta(deltas@, len as int, j), &layer_input(ls, j, *input), &self.lr),
                        (#[trigger] self.layers@[j].weights(), self.layers@[j].bias()),
                    ),
                n < len ==> output_delta.ensures(
                    (&ls.last().act(), &ls.last().cached()->Some_0.z, &ls.last().cached()->Some_0.a, target),
                    delta(deltas@, len as int, len - 1),
                ),
                forall|j: int|
                    n <= j < len - 1 ==> hidden_delta.ensures(
                        (&ls[j].act(), &ls[j].cached()->Some_0.z, &ls[j + 1].weights(), &delta(deltas@, len as int, j + 1)),
                        #[trigger] delta(deltas@, len as int, j),
                    ),
                n < len ==> next_w == Some(ls[n as int].weights()),
            decreases n,
        {
            let m = n - 1;
            let dz = if m == len - 1 {
                let l = &self.layers[m];
                let c = l.cache.as_ref().unwrap();
                output_delta(&l.activation, &c.z, &c.a, target)
            } else {
                let l = &self.layers[m];
                let c = l.cache.as_ref().unwrap();
                let w_next = next_w.as_ref().unwrap();
                let d_next = &deltas[deltas.len() - 1];
                hidden_delta(&l.activation, &c.z, w_next, d_next)
            };
            let (mut nw, nb) = if m == 0 {
                let l = &self.layers[0];
                update(&l.w, &l.b, &dz, input, &self.lr)
            } else {
                let c = self.layers[m - 1].cache.as_ref().unwrap();
                let l = &self.layers[m];
                update(&l.w, &l.b, &dz, &c.a, &self.lr)
            };
            let ghost mid = self.layers@;
            let ghost prev_deltas = deltas@;
            self.layers[m].b = nb;
            std::mem::swap(&mut self.layers[m].w, &mut nw);
            next_w = Some(nw);
            deltas.push(dz);
            proof {
                assert forall|j: int| 0 <= j < m implies #[trigger] self.layers@[j] == ls[j] by {
                    assert(self.layers@[j] == mid[j]);
                }
                assert forall|j: int| n <= j < len implies #[trigger] self.layers@[j] == mid[j] by {}
                assert forall|j: int| m < j < len implies delta(deltas@, len as int, j) == delta(prev_deltas, len as int, j) by {}
                assert forall|j: int|
                    m <= j < len - 1 implies hidden_delta.ensures(
                        (&ls[j].act(), &ls[j].cached()->Some_0.z, &ls[j + 1].weights(), &delta(deltas@, len as int, j + 1)),
                        #[trigger] delta(deltas@, len as int, j),
                    ) by {
                    assert(delta(deltas@, len as int, j + 1) == delta(prev_deltas, len as int, j + 1));
                    if j > m {
                        assert(delta(deltas@, len as int, j) == delta(prev_deltas, len as int, j));
                    }
                }
            }
            n = m;
        }
        proof {
            assert forall|j: int| 0 <= j < len - 1 implies #[trigger] self.layers@[j].output_dim()
                == self.layers@[j + 1].input_dim() by {
                assert(kept_except_parameters(ls[j], self.layers@[j]));
                assert(kept_except_parameters(ls[j + 1], self.layers@[j + 1]));
                assert(ls[j].output_dim() == ls[j + 1].input_dim());
            }
        }
        Ok(deltas)
    }
}

/// `after` keeps the activation, the shapes and the cache of `before`.
pub open spec fn kept_except_parameters<M, S>(before: Layer<M, S>, after: Layer<M, S>) -> bool {
    &&& after.act() == before.act()
    &&& after.weight_shape() == before.weight_shape()
    &&& after.cached() == before.cached()
}

/// The layer's cache is from a forward pass of `batch` samples.
pub open spec fn fresh<M, S>(l: Layer<M, S>, batch: usize) -> bool {
    l.cached() is Some && l.cached()->Some_0.batch == batch
}

/// The number of samples in the layer's cache, zero where it has none.
pub open spec fn cached_batch<M, S>(l: Layer<M, S>) -> usize {
    if l.cached() is Some {
        l.cached()->Some_0.batch
    } else {
        0
    }
}

/// The first layer from `k` on whose cache is not from a pass of `batch`
/// samples; `ls.len()` where there is none.
pub open spec fn first_stale<M, S>(ls: Seq<Layer<M, S>>, batch: usize, k: int) -> int
    decreases ls.len() - k,
{
    if k < 0 || k >= ls.len() {
        ls.len() as int
    } else if !fresh(ls[k], batch) {
        k
    } else {
        first_stale(ls, batch, k + 1)
    }
}

/// The error with which a backward pass over `ls` is refused, if any: an
/// input that does not fit the first layer, else the first layer whose cache
/// is not from a pass of this batch, else a target that does not fit the
/// output layer.
pub open spec fn backprop_error<M, S>(ls: Seq<Layer<M, S>>, input_shape: Shape, target_shape: Shape) -> Option<Error> {
    let cols = input_shape.cols;
    let i = first_stale(ls, cols, 0);
    if ls.len() == 0 {
        None
    } else if input_shape.rows != ls[0].input_dim() {
        Some(Error::DimensionMismatch {
            layer: Some(0),
            expected: Shape { rows: ls[0].input_dim(), cols },
            found: input_shape,
        })
    } else if i < ls.len() {
        Some(Error::DimensionMismatch {
            layer: Some(i as usize),
            expected: Shape { rows: ls[i].output_dim(), cols },
            found: Shape { rows: ls[i].output_dim(), cols: cached_batch(ls[i]) },
        })
    } else if target_shape != (Shape { rows: ls.last().output_dim(), cols }) {
        Some(Error::DimensionMismatch {
            layer: Some((ls.len() - 1) as usize),
            expected: Shape { rows: ls.last().output_dim(), cols },
            found: target_shape,
        })
    } else {
        None
    }
}

/// The `dz` of layer `k` of `n` in a sequence listed from the output layer back.
pub open spec fn delta<M>(d: Seq<M>, n: int, k: int) -> M {
    d[n - 1 - k]
}

/// `after` is `before` after one backward pass over `input` and `target`
/// with the deltas `d` (listed from the output layer back) and rate `lr`.
pub open spec fn backpropagated<M, S, FO, FH, FU>(
    before: Seq<Layer<M, S>>,
    after: Seq<Layer<M, S>>,
    d: Seq<M>,
    input: M,
    target: M,
    lr: S,
    output_delta: FO,
    hidden_delta: FH,
    update: FU,
) -> bool where
    FO: Fn(&Activation<S>, &M, &M, &M) -> M,
    FH: Fn(&Activation<S>, &M, &M, &M) -> M,
    FU: Fn(&M, &M, &M, &M, &S) -> (M, M),
 {
    let n = before.len() as int;
    &&& after.len() == n
    &&& d.len() == n
    &&& forall|k: int| 0 <= k < n ==> kept_except_parameters(#[trigger] before[k], after[k])
    &&& n > 0 ==> output_delta.ensures(
        (&before.last().act(), &before.last().cached()->Some_0.z, &before.last().cached()->Some_0.a, &target),
        delta(d, n, n - 1),
    )
    &&& forall|k: int|
        0 <= k < n - 1 ==> hidden_delta.ensures(
            (&before[k].act(), &before[k].cached()->Some_0.z, &before[k + 1].weights(), &delta(d, n, k + 1)),
            #[trigger] delta(d, n, k),
        )
    &&& forall|k: int|
        0 <= k < n ==> update.ensures(
            (&before[k].weights(), &before[k].bias(), &delta(d, n, k), &layer_input(before, k, input), &lr),
            (#[trigger] after[k].weights(), after[k].bias()),
        )
}

} // verus!
