use vstd::prelude::*;
use crate::activations::Activation;
use crate::layers::{check_layers, check_samples, check_shapes, samples_fit, shapes_fit, valid_layers};
use crate::matrix::{
    column_of, combined_cells, copy_values, inner, lemma_cell_index, lemma_single_column, mapped_cells, offset,
    outer_cells, row_of,
    scaled_cells, Matrix, MatrixError,
};
use crate::scalar::{deterministic, outcome, run, total, ScalarOp};

verus! {

/// A fully-connected feed-forward network: `weights[i]` carries the values
/// of layer `i` to layer `i + 1`, where `biases[i]` is added to them.
///
/// The element type is the scalar the caller computes with.
#[derive(Clone, Debug)]
pub struct Network<T> {
    pub layers: Vec<usize>,
    pub weights: Vec<Matrix<T>>,
    pub biases: Vec<Matrix<T>>,
    pub activation: Activation,
    pub learning_rate: T,
}

/// Why a network could not be built.
#[derive(Clone, Copy, Debug, PartialEq, Eq, Structural)]
pub enum NetworkError {
    /// Fewer than two layers, or an empty one.
    InvalidLayers,
    /// A weight matrix would hold more cells than a `usize` counts.
    TooLarge,
    /// The weights or biases do not have the shapes the layers give them.
    ShapeMismatch,
}

/// The number of weights between layer `i` and layer `i + 1`.
pub open spec fn transition_cells(layers: Seq<usize>, i: int) -> int {
    layers[i + 1] * layers[i]
}

/// Every weight matrix of a network with these layers can be held.
pub open spec fn cells_fit(layers: Seq<usize>) -> bool {
    forall|i: int| 0 <= i < layers.len() - 1 ==> #[trigger] transition_cells(layers, i) <= usize::MAX
}

impl<T> Network<T> {
    /// The layers describe a network and the weights and biases fit them.
    pub open spec fn wf(&self) -> bool {
        valid_layers(self.layers@) && shapes_fit(self.layers@, self.weights@, self.biases@)
    }

    /// Two networks with the same layers, activation, learning rate, weights
    /// and biases.
    pub open spec fn same_as(&self, other: &Network<T>) -> bool {
        &&& self.layers@ == other.layers@
        &&& self.activation == other.activation
        &&& self.learning_rate == other.learning_rate
        &&& self.weights@.len() == other.weights@.len()
        &&& self.biases@.len() == other.biases@.len()
        &&& forall|i: int|
            0 <= i < self.weights@.len() ==> (#[trigger] self.weights@[i]).same_as(&other.weights@[i])
        &&& forall|i: int|
            0 <= i < self.biases@.len() ==> (#[trigger] self.biases@[i]).same_as(&other.biases@[i])
    }

    /// A network from its stored parts, provided they are consistent.
    pub fn from_parts(
        layers: Vec<usize>,
        weights: Vec<Matrix<T>>,
        biases: Vec<Matrix<T>>,
        activation: Activation,
        learning_rate: T,
    ) -> (r: Result<Network<T>, NetworkError>)
        ensures
            r is Ok <==> valid_layers(layers@) && shapes_fit(layers@, weights@, biases@),
            r matches Err(e) ==> e == (if !valid_layers(layers@) {
                NetworkError::InvalidLayers
            } else {
                NetworkError::ShapeMismatch
            }),
            r matches Ok(n) ==> {
                &&& n.layers == layers
                &&& n.weights == weights
                &&& n.biases == biases
                &&& n.activation == activation
                &&& n.learning_rate == learning_rate
            },
    {
        if !check_layers(&layers) {
            return Err(NetworkError::InvalidLayers);
        }
        if !check_shapes(&layers, &weights, &biases) {
            return Err(NetworkError::ShapeMismatch);
        }
        Ok(Network { layers, weights, biases, activation, learning_rate })
    }
}

impl<T: Copy> Network<T> {
    /// A network over `layers` whose weights and biases are successive values
    /// of `draw`.
    pub fn new<F: Fn() -> T>(layers: Vec<usize>, activation: Activation, learning_rate: T, draw: F) -> (r: Result<Network<T>, NetworkError>)
        requires
            draw.requires(()),
        ensures
            r is Ok <==> valid_layers(layers@) && cells_fit(layers@),
            r matches Err(e) ==> e == (if !valid_layers(layers@) {
                NetworkError::InvalidLayers
            } else {
                NetworkError::TooLarge
            }),
            r matches Ok(n) ==> {
                &&& n.wf()
                &&& n.layers@ == layers@
                &&& n.activation == activation
                &&& n.learning_rate == learning_rate
                &&& forall|i: int, k: int|
                    0 <= i < n.weights@.len() && 0 <= k < n.weights@[i].data@.len() ==> draw.ensures(
                        (),
                        #[trigger] n.weights@[i].data@[k],
                    )
                &&& forall|i: int, k: int|
                    0 <= i < n.biases@.len() && 0 <= k < n.biases@[i].data@.len() ==> draw.ensures(
                        (),
                        #[trigger] n.biases@[i].data@[k],
                    )
            },
    {
        if !check_layers(&layers) {
            return Err(NetworkError::InvalidLayers);
        }
        let count = layers.len() - 1;
        let mut weights: Vec<Matrix<T>> = Vec::new();
        let mut biases: Vec<Matrix<T>> = Vec::new();
        let mut i: usize = 0;
        while i < count
            invariant
                valid_layers(layers@),
                count == layers@.len() - 1,
                draw.requires(()),
                i <= count,
                weights@.len() == i,
                biases@.len() == i,
                forall|k: int| 0 <= k < i ==> #[trigger] transition_cells(layers@, k) <= usize::MAX,
                forall|k: int|
                    0 <= k < i ==> {
                        &&& (#[trigger] weights@[k]).wf()
                        &&& weights@[k].rows == layers@[k + 1]
                        &&& weights@[k].cols == layers@[k]
                    },
                forall|k: int|
                    0 <= k < i ==> {
                        &&& (#[trigger] biases@[k]).wf()
                        &&& biases@[k].rows == layers@[k + 1]
                        &&& biases@[k].cols == 1
                    },
                forall|k: int, q: int|
                    0 <= k < i && 0 <= q < weights@[k].data@.len() ==> draw.ensures(
                        (),
                        #[trigger] weights@[k].data@[q],
                    ),
                forall|k: int, q: int|
                    0 <= k < i && 0 <= q < biases@[k].data@.len() ==> draw.ensures(
                        (),
                        #[trigger] biases@[k].data@[q],
                    ),
            decreases count - i,
        {
            let rows = layers[i + 1];
            let cols = layers[i];
            if rows.checked_mul(cols).is_none() {
                assert(transition_cells(layers@, i as int) > usize::MAX);
                return Err(NetworkError::TooLarge);
            }
            assert(rows * 1 == rows);
            let w = Matrix::generate(rows, cols, &draw);
            let b = Matrix::generate(rows, 1, &draw);
            weights.push(w);
            biases.push(b);
            i = i + 1;
        }
        Ok(Network { layers, weights, biases, activation, learning_rate })
    }

    /// A copy that shares nothing with this network.
    pub fn deep_copy(&self) -> (r: Network<T>)
        ensures
            r.same_as(self),
    {
        Network {
            layers: copy_values(&self.layers),
            weights: copy_matrices(&self.weights),
            biases: copy_matrices(&self.biases),
            activation: self.activation,
            learning_rate: self.learning_rate,
        }
    }
}

/// The values of layer `i` for `input` of a network with these layers,
/// weight cells, bias cells and activation, given the scalar operations `f`:
/// layer 0 is the input, and each further layer is the activation of its
/// weights times the layer before, plus its biases.
pub open spec fn layer_output<T, F: Fn(ScalarOp, T, T) -> T>(
    f: F,
    zero: T,
    layers: Seq<usize>,
    ws: Seq<Seq<T>>,
    bs: Seq<Seq<T>>,
    activation: Activation,
    input: Seq<T>,
    i: nat,
) -> Seq<T>
    decreases i,
{
    if i == 0 {
        input
    } else {
        let prev = layer_output(f, zero, layers, ws, bs, activation, input, (i - 1) as nat);
        let pre = Seq::new(
            layers[i as int] as nat,
            |r: int| inner(f, zero, row_of(ws[i - 1], layers[i - 1] as int, r), prev),
        );
        let sum = combined_cells(f, ScalarOp::Add, pre, bs[i - 1]);
        mapped_cells(f, ScalarOp::Activate(activation), sum)
    }
}

/// One backward step through the transition from a layer of `cols` values
/// (`below`) to one of `rows` values (`above`), with weight cells `w`, bias
/// cells `b` and the error `err` at the upper layer: the updated weights and
/// biases, and the error carried down to the lower layer.
pub open spec fn update_step<T, F: Fn(ScalarOp, T, T) -> T>(
    f: F,
    zero: T,
    activation: Activation,
    rate: T,
    rows: int,
    cols: int,
    below: Seq<T>,
    above: Seq<T>,
    w: Seq<T>,
    b: Seq<T>,
    err: Seq<T>,
) -> (Seq<T>, Seq<T>, Seq<T>) {
    let slope = mapped_cells(f, ScalarOp::Derivative(activation), above);
    let gradient = combined_cells(f, ScalarOp::Multiply, err, slope);
    let w2 = combined_cells(f, ScalarOp::Add, w, scaled_cells(f, rate, outer_cells(f, zero, gradient, below)));
    let b2 = combined_cells(f, ScalarOp::Add, b, scaled_cells(f, rate, gradient));
    let e2 = Seq::new(cols as nat, |c: int| inner(f, zero, column_of(w2, rows, cols, c), gradient));
    (w2, b2, e2)
}

/// The weight and bias cells after backward steps through transitions
/// `i - 1` down to `0`, starting from the error `err` at layer `i`, with
/// `outs` the values of every layer from the forward pass.
pub open spec fn backward<T, F: Fn(ScalarOp, T, T) -> T>(
    f: F,
    zero: T,
    activation: Activation,
    rate: T,
    layers: Seq<usize>,
    outs: Seq<Seq<T>>,
    ws: Seq<Seq<T>>,
    bs: Seq<Seq<T>>,
    err: Seq<T>,
    i: nat,
) -> (Seq<Seq<T>>, Seq<Seq<T>>)
    decreases i,
{
    if i == 0 {
        (ws, bs)
    } else {
        let k = i - 1;
        let s = update_step(
            f,
            zero,
            activation,
            rate,
            layers[k + 1] as int,
            layers[k] as int,
            outs[k],
            outs[k + 1],
            ws[k],
            bs[k],
            err,
        );
        backward(f, zero, activation, rate, layers, outs, ws.update(k, s.0), bs.update(k, s.1), s.2, k as nat)
    }
}

/// The weight and bias cells after one online step on the sample (`input`,
/// `target`), starting from weight cells `ws` and bias cells `bs`.
pub open spec fn sample_step<T, F: Fn(ScalarOp, T, T) -> T>(
    f: F,
    zero: T,
    layers: Seq<usize>,
    activation: Activation,
    rate: T,
    ws: Seq<Seq<T>>,
    bs: Seq<Seq<T>>,
    input: Seq<T>,
    target: Seq<T>,
) -> (Seq<Seq<T>>, Seq<Seq<T>>) {
    let n = layers.len();
    let outs = Seq::new(n, |k: int| layer_output(f, zero, layers, ws, bs, activation, input, k as nat));
    backward(
        f,
        zero,
        activation,
        rate,
        layers,
        outs,
        ws,
        bs,
        combined_cells(f, ScalarOp::Subtract, target, outs[n - 1]),
        (n - 1) as nat,
    )
}

/// The weight and bias cells after online steps on the first `count`
/// samples, in order.
pub open spec fn sample_pass<T, F: Fn(ScalarOp, T, T) -> T>(
    f: F,
    zero: T,
    layers: Seq<usize>,
    activation: Activation,
    rate: T,
    ws: Seq<Seq<T>>,
    bs: Seq<Seq<T>>,
    inputs: Seq<Seq<T>>,
    targets: Seq<Seq<T>>,
    count: nat,
) -> (Seq<Seq<T>>, Seq<Seq<T>>)
    decreases count,
{
    if count == 0 {
        (ws, bs)
    } else {
        let before = sample_pass(f, zero, layers, activation, rate, ws, bs, inputs, targets, (count - 1) as nat);
        sample_step(
            f,
            zero,
            layers,
            activation,
            rate,
            before.0,
            before.1,
            inputs[count - 1],
            targets[count - 1],
        )
    }
}

/// The weight and bias cells after `epochs` passes over all samples.
pub open spec fn trained<T, F: Fn(ScalarOp, T, T) -> T>(
    f: F,
    zero: T,
    layers: Seq<usize>,
    activation: Activation,
    rate: T,
    ws: Seq<Seq<T>>,
    bs: Seq<Seq<T>>,
    inputs: Seq<Seq<T>>,
    targets: Seq<Seq<T>>,
    epochs: nat,
) -> (Seq<Seq<T>>, Seq<Seq<T>>)
    decreases epochs,
{
    if epochs == 0 {
        (ws, bs)
    } else {
        let before = trained(f, zero, layers, activation, rate, ws, bs, inputs, targets, (epochs - 1) as nat);
        sample_pass(f, zero, layers, activation, rate, before.0, before.1, inputs, targets, inputs.len())
    }
}

/// `acc` plus the squares of the first `j` differences `target - output`,
/// added in order.
pub open spec fn add_squared_errors<T, F: Fn(ScalarOp, T, T) -> T>(
    f: F,
    acc: T,
    target: Seq<T>,
    output: Seq<T>,
    j: nat,
) -> T
    decreases j,
{
    if j == 0 {
        acc
    } else {
        let before = add_squared_errors(f, acc, target, output, (j - 1) as nat);
        let e = outcome(f, ScalarOp::Subtract, target[j - 1], output[j - 1]);
        outcome(f, ScalarOp::Add, before, outcome(f, ScalarOp::Multiply, e, e))
    }
}

/// The squared output errors of the first `count` samples, summed in order
/// onto `zero`, for a network with these layers, cells and activation.
pub open spec fn error_sum<T, F: Fn(ScalarOp, T, T) -> T>(
    f: F,
    zero: T,
    layers: Seq<usize>,
    ws: Seq<Seq<T>>,
    bs: Seq<Seq<T>>,
    activation: Activation,
    inputs: Seq<Seq<T>>,
    targets: Seq<Seq<T>>,
    count: nat,
) -> T
    decreases count,
{
    if count == 0 {
        zero
    } else {
        let acc = error_sum(f, zero, layers, ws, bs, activation, inputs, targets, (count - 1) as nat);
        let output = layer_output(f, zero, layers, ws, bs, activation, inputs[count - 1], (layers.len() - 1) as nat);
        add_squared_errors(f, acc, targets[count - 1], output, layers.last() as nat)
    }
}

/// The values of each sample.
pub open spec fn sample_cells<T>(samples: Seq<Vec<T>>) -> Seq<Seq<T>> {
    Seq::new(samples.len(), |k: int| samples[k]@)
}

impl<T> Network<T> {
    /// The cells of each weight matrix.
    pub open spec fn weight_cells(&self) -> Seq<Seq<T>> {
        Seq::new(self.weights@.len(), |k: int| self.weights@[k].data@)
    }

    /// The cells of each bias column.
    pub open spec fn bias_cells(&self) -> Seq<Seq<T>> {
        Seq::new(self.biases@.len(), |k: int| self.biases@[k].data@)
    }

    /// The values of layer `i` of this network for `input`.
    pub open spec fn output_of<F: Fn(ScalarOp, T, T) -> T>(&self, f: F, zero: T, input: Seq<T>, i: nat) -> Seq<T> {
        layer_output(f, zero, self.layers@, self.weight_cells(), self.bias_cells(), self.activation, input, i)
    }

    /// `m` is an output of this network for `input`: a column over the last
    /// layer, holding that layer's values whenever `f` is deterministic.
    pub open spec fn is_output<F: Fn(ScalarOp, T, T) -> T>(&self, f: F, zero: T, input: Seq<T>, m: Matrix<T>) -> bool {
        &&& m.wf()
        &&& m.rows == self.layers@.last()
        &&& m.cols == 1
        &&& deterministic(f) ==> m.data@ == self.output_of(f, zero, input, (self.layers@.len() - 1) as nat)
    }

    /// `after` is this network trained for `epochs` passes over the samples:
    /// the same layers, activation and learning rate, and, whenever `f` is
    /// deterministic, the weights and biases that those passes give.
    pub open spec fn trains_to<F: Fn(ScalarOp, T, T) -> T>(
        &self,
        f: F,
        zero: T,
        inputs: Seq<Seq<T>>,
        targets: Seq<Seq<T>>,
        epochs: nat,
        after: Network<T>,
    ) -> bool {
        &&& after.wf()
        &&& after.layers == self.layers
        &&& after.activation == self.activation
        &&& after.learning_rate == self.learning_rate
        &&& deterministic(f) ==> (after.weight_cells(), after.bias_cells()) == trained(
            f,
            zero,
            self.layers@,
            self.activation,
            self.learning_rate,
            self.weight_cells(),
            self.bias_cells(),
            inputs,
            targets,
            epochs,
        )
    }

    /// `outs` holds one column per layer, of that layer's size.
    pub open spec fn fits_layer_values(&self, outs: Seq<Matrix<T>>) -> bool {
        &&& outs.len() == self.layers@.len()
        &&& forall|k: int|
            0 <= k < outs.len() ==> {
                &&& (#[trigger] outs[k]).wf()
                &&& outs[k].rows == self.layers@[k]
                &&& outs[k].cols == 1
            }
    }

    /// `input` is a column holding one value per input neuron.
    pub open spec fn fits_input(&self, input: Matrix<T>) -> bool {
        &&& input.rows == self.layers@[0]
        &&& input.cols == 1
        &&& input.data@.len() == input.rows
    }
}

impl<T: Copy> Network<T> {
    /// The values of every layer for `input`, the input first.
    pub fn forward<F: Fn(ScalarOp, T, T) -> T>(&self, input: Matrix<T>, f: &F, zero: T) -> (r: Result<Vec<Matrix<T>>, MatrixError>)
        requires
            self.wf(),
            total(*f),
        ensures
            r is Ok <==> self.fits_input(input),
            r matches Err(e) ==> e == (MatrixError::DimensionMismatch {
                rows: self.layers@[0],
                cols: 1,
                found: input.data@.len() as usize,
            }),
            r matches Ok(outs) ==> {
                &&& outs@.len() == self.layers@.len()
                &&& forall|i: int|
                    0 <= i < outs@.len() ==> {
                        &&& (#[trigger] outs@[i]).wf()
                        &&& outs@[i].rows == self.layers@[i]
                        &&& outs@[i].cols == 1
                        &&& deterministic(*f) ==> outs@[i].data@ == self.output_of(*f, zero, input.data@, i as nat)
                    }
            },
    {
        if input.cols != 1 || input.rows != self.layers[0] || input.data.len() != input.rows {
            return Err(MatrixError::DimensionMismatch {
                rows: self.layers[0],
                cols: 1,
                found: input.data.len(),
            });
        }
        let ghost cells = input.data@;
        assert(input.wf()) by {
            assert(input.rows * 1 == input.rows);
        }
        let count = self.weights.len();
        let mut outs: Vec<Matrix<T>> = Vec::new();
        outs.push(input);
        let mut i: usize = 0;
        while i < count
            invariant
                self.wf(),
                total(*f),
                count == self.weights@.len(),
                count == self.layers@.len() - 1,
                i <= count,
                outs@.len() == i + 1,
                forall|k: int|
                    0 <= k <= i ==> {
                        &&& (#[trigger] outs@[k]).wf()
                        &&& outs@[k].rows == self.layers@[k]
                        &&& outs@[k].cols == 1
                        &&& deterministic(*f) ==> outs@[k].data@ == self.output_of(*f, zero, cells, k as nat)
                    },
            decreases count - i,
        {
            let w = &self.weights[i];
            let b = &self.biases[i];
            let current = &outs[i];
            let pre = match w.product(current, f, zero) {
                Ok(m) => m,
                Err(e) => {
                    return Err(e);
                },
            };
            let sum = match pre.combine(b, f, ScalarOp::Add) {
                Ok(m) => m,
                Err(e) => {
                    return Err(e);
                },
            };
            let next = sum.apply_op(f, ScalarOp::Activate(self.activation));
            proof {
                if deterministic(*f) {
                    let prev = self.output_of(*f, zero, cells, i as nat);
                    lemma_single_column(*current);
                    lemma_single_column(pre);
                    assert(self.weight_cells()[i as int] == w.data@);
                    assert(self.bias_cells()[i as int] == b.data@);
                    assert(w.cols == self.layers@[i as int]);
                    assert(w.rows == self.layers@[i + 1]);
                    assert(current.data@ == prev);
                    assert forall|r: int| 0 <= r < pre.rows implies pre.data@[r] == inner(
                        *f,
                        zero,
                        row_of(w.data@, w.cols as int, r),
                        prev,
                    ) by {
                        assert(pre.at(r, 0) == inner(*f, zero, w.row(r), current.column(0)));
                    }
                    assert(pre.data@ =~= Seq::new(
                        self.layers@[i + 1] as nat,
                        |r: int| inner(*f, zero, row_of(self.weight_cells()[i as int], self.layers@[i as int] as int, r), prev),
                    ));
                }
            }
            outs.push(next);
            i = i + 1;
        }
        Ok(outs)
    }

    /// One gradient-descent step towards `target`, given the values `outs`
    /// of every layer from a forward pass: working down from the output, each
    /// transition's weights and biases move by the learning rate times their
    /// gradient, and the error is carried down through the updated weights.
    pub fn back_propagate<F: Fn(ScalarOp, T, T) -> T>(&mut self, outs: &Vec<Matrix<T>>, target: &Matrix<T>, f: &F, zero: T)
        requires
            old(self).wf(),
            old(self).fits_layer_values(outs@),
            target.wf(),
            target.rows == old(self).layers@.last(),
            target.cols == 1,
            total(*f),
        ensures
            final(self).wf(),
            final(self).layers == old(self).layers,
            final(self).activation == old(self).activation,
            final(self).learning_rate == old(self).learning_rate,
            deterministic(*f) ==> (final(self).weight_cells(), final(self).bias_cells()) == backward(
                *f,
                zero,
                old(self).activation,
                old(self).learning_rate,
                old(self).layers@,
                Seq::new(outs@.len(), |k: int| outs@[k].data@),
                old(self).weight_cells(),
                old(self).bias_cells(),
                combined_cells(*f, ScalarOp::Subtract, target.data@, outs@.last().data@),
                (old(self).layers@.len() - 1) as nat,
            ),
    {
        let ghost cells = Seq::new(outs@.len(), |k: int| outs@[k].data@);
        let ghost goal = backward(
            *f,
            zero,
            self.activation,
            self.learning_rate,
            self.layers@,
            cells,
            self.weight_cells(),
            self.bias_cells(),
            combined_cells(*f, ScalarOp::Subtract, target.data@, outs@.last().data@),
            (self.layers@.len() - 1) as nat,
        );
        let ghost start = *self;
        let activation = self.activation;
        let rate = self.learning_rate;
        let count = self.weights.len();
        let mut error = target.combine(&outs[count], f, ScalarOp::Subtract).unwrap();
        let mut i: usize = count;
        while i > 0
            invariant
                self.wf(),
                self.layers == start.layers,
                self.activation == activation,
                self.learning_rate == rate,
                activation == start.activation,
                rate == start.learning_rate,
                start.fits_layer_values(outs@),
                count == self.weights@.len(),
                count == self.layers@.len() - 1,
                cells == Seq::new(outs@.len(), |k: int| outs@[k].data@),
                total(*f),
                i <= count,
                error.wf(),
                error.rows == self.layers@[i as int],
                error.cols == 1,
                deterministic(*f) ==> backward(
                    *f,
                    zero,
                    activation,
                    rate,
                    self.layers@,
                    cells,
                    self.weight_cells(),
                    self.bias_cells(),
                    error.data@,
                    i as nat,
                ) == goal,
            decreases i,
        {
            let k = i - 1;
            let below = &outs[k];
            let above = &outs[k + 1];
            let slope = above.apply_op(f, ScalarOp::Derivative(activation));
            let gradient = error.combine(&slope, f, ScalarOp::Multiply).unwrap();
            let row = below.transpose();
            let delta = gradient.product(&row, f, zero).unwrap();
            let step = delta.scale(f, rate);
            let w2 = self.weights[k].combine(&step, f, ScalarOp::Add).unwrap();
            let bias_step = gradient.scale(f, rate);
            let b2 = self.biases[k].combine(&bias_step, f, ScalarOp::Add).unwrap();
            let wt = w2.transpose();
            let down = wt.product(&gradient, f, zero).unwrap();
            proof {
                if deterministic(*f) {
                    let rows = self.layers@[k + 1] as int;
                    let cols = self.layers@[k as int] as int;
                    let s = update_step(
                        *f,
                        zero,
                        activation,
                        rate,
                        rows,
                        cols,
                        cells[k as int],
                        cells[k + 1],
                        self.weight_cells()[k as int],
                        self.bias_cells()[k as int],
                        error.data@,
                    );
                    lemma_single_column(gradient);
                    lemma_single_column(*below);
                    assert forall|q: int| 0 <= q < rows * cols implies delta.data@[q] == outer_cells(
                        *f,
                        zero,
                        gradient.data@,
                        below.data@,
                    )[q] by {
                        lemma_cell_index(q, rows, cols);
                        let r = q / cols;
                        let c = q % cols;
                        assert(gradient.row(r) =~= seq![gradient.data@[r]]) by {
                            assert(offset(1, r, 0) == r);
                        }
                        assert(row.column(c) =~= seq![below.data@[c]]) by {
                            assert(offset(cols, 0, c) == c);
                            assert(row.at(0, c) == below.at(c, 0));
                        }
                        assert(delta.at(r, c) == inner(*f, zero, gradient.row(r), row.column(c)));
                    }
                    assert(delta.data@.len() == rows * cols);
                    assert(delta.data@ =~= outer_cells(*f, zero, gradient.data@, below.data@));
                    assert(w2.data@ == s.0);
                    assert(b2.data@ == s.1);
                    lemma_single_column(down);
                    assert forall|c: int| 0 <= c < cols implies down.data@[c] == inner(
                        *f,
                        zero,
                        column_of(w2.data@, rows, cols, c),
                        gradient.data@,
                    ) by {
                        assert(wt.row(c) =~= column_of(w2.data@, rows, cols, c)) by {
                            assert forall|r: int| 0 <= r < rows implies wt.row(c)[r] == column_of(
                                w2.data@,
                                rows,
                                cols,
                                c,
                            )[r] by {
                                assert(wt.at(c, r) == w2.at(r, c));
                            }
                        }
                        assert(down.at(c, 0) == inner(*f, zero, wt.row(c), gradient.column(0)));
                    }
                    assert(down.data@ =~= s.2);
                }
            }
            let ghost before = *self;
            self.weights.set(k, w2);
            self.biases.set(k, b2);
            proof {
                assert(self.weight_cells() =~= before.weight_cells().update(k as int, w2.data@));
                assert(self.bias_cells() =~= before.bias_cells().update(k as int, b2.data@));
                assert forall|j: int| 0 <= j < self.weights@.len() implies {
                    &&& (#[trigger] self.weights@[j]).wf()
                    &&& self.weights@[j].rows == self.layers@[j + 1]
                    &&& self.weights@[j].cols == self.layers@[j]
                } by {
                    if j != k {
                        assert(self.weights@[j] == before.weights@[j]);
                    }
                }
                assert forall|j: int| 0 <= j < self.biases@.len() implies {
                    &&& (#[trigger] self.biases@[j]).wf()
                    &&& self.biases@[j].rows == self.layers@[j + 1]
                    &&& self.biases@[j].cols == 1
                } by {
                    if j != k {
                        assert(self.biases@[j] == before.biases@[j]);
                    }
                }
            }
            error = down;
            i = k;
        }
    }

    /// One online gradient step on the sample (`input`, `target`): a
    /// forward pass, then back-propagation of the output's error.
    pub fn train_sample<F: Fn(ScalarOp, T, T) -> T>(&mut self, input: &Vec<T>, target: &Vec<T>, f: &F, zero: T) -> (r: Result<(), MatrixError>)
        requires
            old(self).wf(),
            total(*f),
        ensures
            r is Ok <==> input@.len() == old(self).layers@[0] && target@.len() == old(self).layers@.last(),
            r matches Err(e) ==> {
                &&& *final(self) == *old(self)
                &&& e == (if input@.len() != old(self).layers@[0] {
                    MatrixError::DimensionMismatch { rows: old(self).layers@[0], cols: 1, found: input@.len() as usize }
                } else {
                    MatrixError::DimensionMismatch {
                        rows: old(self).layers@.last(),
                        cols: 1,
                        found: target@.len() as usize,
                    }
                })
            },
            final(self).wf(),
            final(self).layers == old(self).layers,
            final(self).activation == old(self).activation,
            final(self).learning_rate == old(self).learning_rate,
            r is Ok && deterministic(*f) ==> (final(self).weight_cells(), final(self).bias_cells()) == sample_step(
                *f,
                zero,
                old(self).layers@,
                old(self).activation,
                old(self).learning_rate,
                old(self).weight_cells(),
                old(self).bias_cells(),
                input@,
                target@,
            ),
    {
        let first = self.layers[0];
        let last = self.layers[self.layers.len() - 1];
        if input.len() != first {
            return Err(MatrixError::DimensionMismatch { rows: first, cols: 1, found: input.len() });
        }
        if target.len() != last {
            return Err(MatrixError::DimensionMismatch { rows: last, cols: 1, found: target.len() });
        }
        let x = Matrix::column_of(copy_values(input));
        let t = Matrix::column_of(copy_values(target));
        let outs = self.forward(x, f, zero).unwrap();
        let ghost start = *self;
        proof {
            assert(t.wf()) by {
                assert(t.rows * 1 == t.rows);
            }
        }
        self.back_propagate(&outs, &t, f, zero);
        proof {
            if deterministic(*f) {
                let n = start.layers@.len();
                let spec_outs = Seq::new(
                    n,
                    |k: int| layer_output(
                        *f,
                        zero,
                        start.layers@,
                        start.weight_cells(),
                        start.bias_cells(),
                        start.activation,
                        input@,
                        k as nat,
                    ),
                );
                assert(Seq::new(outs@.len(), |k: int| outs@[k].data@) =~= spec_outs);
            }
        }
        Ok(())
    }

    /// `epochs` passes of online gradient steps over the samples, each pass
    /// taking them in their given order.
    pub fn train<F: Fn(ScalarOp, T, T) -> T>(
        &mut self,
        inputs: &Vec<Vec<T>>,
        targets: &Vec<Vec<T>>,
        epochs: u32,
        f: &F,
        zero: T,
    ) -> (r: Result<(), MatrixError>)
        requires
            old(self).wf(),
            total(*f),
        ensures
            r is Ok <==> samples_fit(old(self).layers@, inputs@, targets@),
            r matches Err(e) ==> *final(self) == *old(self) && e matches MatrixError::DimensionMismatch { .. },
            r is Ok ==> old(self).trains_to(
                *f,
                zero,
                sample_cells(inputs@),
                sample_cells(targets@),
                epochs as nat,
                *final(self),
            ),
    {
        if !check_samples(&self.layers, inputs, targets) {
            let found = if inputs.len() == targets.len() {
                inputs.len()
            } else {
                targets.len()
            };
            return Err(MatrixError::DimensionMismatch { rows: self.layers[0], cols: 1, found });
        }
        let ghost start = *self;
        let ghost xs = sample_cells(inputs@);
        let ghost ys = sample_cells(targets@);
        let n = inputs.len();
        let mut e: u32 = 0;
        while e < epochs
            invariant
                self.wf(),
                total(*f),
                start.wf(),
                self.layers == start.layers,
                self.activation == start.activation,
                self.learning_rate == start.learning_rate,
                samples_fit(start.layers@, inputs@, targets@),
                n == inputs@.len(),
                xs == sample_cells(inputs@),
                ys == sample_cells(targets@),
                e <= epochs,
                deterministic(*f) ==> (self.weight_cells(), self.bias_cells()) == trained(
                    *f,
                    zero,
                    start.layers@,
                    start.activation,
                    start.learning_rate,
                    start.weight_cells(),
                    start.bias_cells(),
                    xs,
                    ys,
                    e as nat,
                ),
            decreases epochs - e,
        {
            let ghost epoch_start = (self.weight_cells(), self.bias_cells());
            let mut s: usize = 0;
            while s < n
                invariant
                    self.wf(),
                    total(*f),
                    self.layers == start.layers,
                    self.activation == start.activation,
                    self.learning_rate == start.learning_rate,
                    samples_fit(start.layers@, inputs@, targets@),
                    n == inputs@.len(),
                    xs == sample_cells(inputs@),
                    ys == sample_cells(targets@),
                    s <= n,
                    deterministic(*f) ==> (self.weight_cells(), self.bias_cells()) == sample_pass(
                        *f,
                        zero,
                        start.layers@,
                        start.activation,
                        start.learning_rate,
                        epoch_start.0,
                        epoch_start.1,
                        xs,
                        ys,
                        s as nat,
                    ),
                decreases n - s,
            {
                let step = self.train_sample(&inputs[s], &targets[s], f, zero);
                proof {
                    assert(step is Ok);
                    assert(xs[s as int] == inputs@[s as int]@);
                    assert(ys[s as int] == targets@[s as int]@);
                }
                s = s + 1;
            }
            e = e + 1;
        }
        Ok(())
    }

    /// The sum over the samples, in order, of the squared differences between
    /// each target and the network's output: the dataset's total error.
    pub fn squared_error<F: Fn(ScalarOp, T, T) -> T>(
        &self,
        inputs: &Vec<Vec<T>>,
        targets: &Vec<Vec<T>>,
        f: &F,
        zero: T,
    ) -> (r: Result<T, MatrixError>)
        requires
            self.wf(),
            total(*f),
        ensures
            r is Ok <==> samples_fit(self.layers@, inputs@, targets@),
            r matches Err(e) ==> e matches MatrixError::DimensionMismatch { .. },
            r matches Ok(v) ==> deterministic(*f) ==> v == error_sum(
                *f,
                zero,
                self.layers@,
                self.weight_cells(),
                self.bias_cells(),
                self.activation,
                sample_cells(inputs@),
                sample_cells(targets@),
                inputs@.len(),
            ),
    {
        if !check_samples(&self.layers, inputs, targets) {
            let found = if inputs.len() == targets.len() {
                inputs.len()
            } else {
                targets.len()
            };
            return Err(MatrixError::DimensionMismatch { rows: self.layers[0], cols: 1, found });
        }
        let ghost xs = sample_cells(inputs@);
        let ghost ys = sample_cells(targets@);
        let width = self.layers[self.layers.len() - 1];
        let n = inputs.len();
        let mut acc = zero;
        let mut s: usize = 0;
        while s < n
            invariant
                self.wf(),
                total(*f),
                samples_fit(self.layers@, inputs@, targets@),
                n == inputs@.len(),
                width == self.layers@.last(),
                xs == sample_cells(inputs@),
                ys == sample_cells(targets@),
                s <= n,
                deterministic(*f) ==> acc == error_sum(
                    *f,
                    zero,
                    self.layers@,
                    self.weight_cells(),
                    self.bias_cells(),
                    self.activation,
                    xs,
                    ys,
                    s as nat,
                ),
            decreases n - s,
        {
            let output = self.feed_forward(Matrix::column_of(copy_values(&inputs[s])), f, zero).unwrap();
            let target = &targets[s];
            let ghost start = acc;
            let mut j: usize = 0;
            while j < width
                invariant
                    output.wf(),
                    output.rows == width,
                    output.cols == 1,
                    output.data@.len() == width,
                    target@.len() == width,
                    total(*f),
                    j <= width,
                    deterministic(*f) ==> acc == add_squared_errors(*f, start, target@, output.data@, j as nat),
                decreases width - j,
            {
                let e = run(f, ScalarOp::Subtract, target[j], output.data[j]);
                let sq = run(f, ScalarOp::Multiply, e, e);
                acc = run(f, ScalarOp::Add, acc, sq);
                j = j + 1;
            }
            proof {
                assert(xs[s as int] == inputs@[s as int]@);
                assert(ys[s as int] == targets@[s as int]@);
            }
            s = s + 1;
        }
        Ok(acc)
    }

    /// The network's output for `input`.
    pub fn feed_forward<F: Fn(ScalarOp, T, T) -> T>(&self, input: Matrix<T>, f: &F, zero: T) -> (r: Result<Matrix<T>, MatrixError>)
        requires
            self.wf(),
            total(*f),
        ensures
            r is Ok <==> self.fits_input(input),
            r matches Err(e) ==> e == (MatrixError::DimensionMismatch {
                rows: self.layers@[0],
                cols: 1,
                found: input.data@.len() as usize,
            }),
            r matches Ok(m) ==> self.is_output(*f, zero, input.data@, m),
    {
        let mut outs = match self.forward(input, f, zero) {
            Ok(o) => o,
            Err(e) => {
                return Err(e);
            },
        };
        let last = outs.len() - 1;
        let ghost before = outs@;
        let m = outs.swap_remove(last);
        assert(m == before[last as int]);
        Ok(m)
    }
}

/// Feeding one input to one network twice gives the same output, cell for
/// cell, whenever the scalar operations give one result per operands: the
/// output depends on nothing but the network and the input.
pub proof fn lemma_feed_forward_deterministic<T, F: Fn(ScalarOp, T, T) -> T>(
    net: Network<T>,
    input: Matrix<T>,
    f: F,
    zero: T,
    first: Matrix<T>,
    second: Matrix<T>,
)
    requires
        deterministic(f),
        net.is_output(f, zero, input.data@, first),
        net.is_output(f, zero, input.data@, second),
    ensures
        first.same_as(&second),
{
}

/// Training is deterministic: two networks that start alike and are trained
/// on the same samples for the same number of epochs end with the same
/// weights and biases, whenever the scalar operations give one result per
/// operands. Nothing but the start, the samples and the epoch count decides
/// the outcome.
pub proof fn lemma_training_deterministic<T, F: Fn(ScalarOp, T, T) -> T>(
    first_start: Network<T>,
    second_start: Network<T>,
    f: F,
    zero: T,
    inputs: Seq<Seq<T>>,
    targets: Seq<Seq<T>>,
    epochs: nat,
    first_end: Network<T>,
    second_end: Network<T>,
)
    requires
        deterministic(f),
        first_start.same_as(&second_start),
        first_start.trains_to(f, zero, inputs, targets, epochs, first_end),
        second_start.trains_to(f, zero, inputs, targets, epochs, second_end),
    ensures
        first_end.same_as(&second_end),
{
    assert(first_start.weight_cells() =~= second_start.weight_cells());
    assert(first_start.bias_cells() =~= second_start.bias_cells());
    assert(first_end.weight_cells() == second_end.weight_cells());
    assert(first_end.bias_cells() == second_end.bias_cells());
    assert forall|i: int| 0 <= i < first_end.weights@.len() implies (#[trigger] first_end.weights@[i]).same_as(
        &second_end.weights@[i],
    ) by {
        assert(first_end.weight_cells()[i] == second_end.weight_cells()[i]);
    }
    assert forall|i: int| 0 <= i < first_end.biases@.len() implies (#[trigger] first_end.biases@[i]).same_as(
        &second_end.biases@[i],
    ) by {
        assert(first_end.bias_cells()[i] == second_end.bias_cells()[i]);
    }
}

fn copy_matrices<T: Copy>(v: &Vec<Matrix<T>>) -> (r: Vec<Matrix<T>>)
    ensures
        r@.len() == v@.len(),
        forall|i: int| 0 <= i < v@.len() ==> (#[trigger] r@[i]).same_as(&v@[i]),
{
    let n = v.len();
    let mut out: Vec<Matrix<T>> = Vec::new();
    let mut k: usize = 0;
    while k < n
        invariant
            n == v@.len(),
            k <= n,
            out@.len() == k,
            forall|i: int| 0 <= i < k ==> (#[trigger] out@[i]).same_as(&v@[i]),
        decreases n - k,
    {
        out.push(v[k].deep_copy());
        k = k + 1;
    }
    out
}

} // verus!
