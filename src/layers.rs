use vstd::prelude::*;
use crate::matrix::Matrix;

verus! {

/// A layer list describes a network: at least an input and an output layer,
/// none of them empty.
pub open spec fn valid_layers(layers: Seq<usize>) -> bool {
    &&& layers.len() >= 2
    &&& forall|i: int| 0 <= i < layers.len() ==> #[trigger] layers[i] > 0
}

/// Weight matrix `i` maps layer `i` to layer `i + 1`; bias `i` is a column
/// over layer `i + 1`.
pub open spec fn shapes_fit<T>(layers: Seq<usize>, weights: Seq<Matrix<T>>, biases: Seq<Matrix<T>>) -> bool {
    &&& layers.len() >= 1
    &&& weights.len() == layers.len() - 1
    &&& biases.len() == layers.len() - 1
    &&& forall|i: int|
        0 <= i < weights.len() ==> {
            &&& (#[trigger] weights[i]).wf()
            &&& weights[i].rows == layers[i + 1]
            &&& weights[i].cols == layers[i]
        }
    &&& forall|i: int|
        0 <= i < biases.len() ==> {
            &&& (#[trigger] biases[i]).wf()
            &&& biases[i].rows == layers[i + 1]
            &&& biases[i].cols == 1
        }
}

/// The number of trainable values of a network with these layers: each
/// transition's weights and biases.
pub open spec fn parameter_total(layers: Seq<usize>) -> int
    decreases layers.len(),
{
    if layers.len() < 2 {
        0
    } else {
        let n = layers.len();
        parameter_total(layers.drop_last()) + layers[n - 1] * layers[n - 2] + layers[n - 1]
    }
}

/// Whether `layers` describes a network.
pub fn check_layers(layers: &Vec<usize>) -> (r: bool)
    ensures
        r == valid_layers(layers@),
{
    if layers.len() < 2 {
        return false;
    }
    let mut i: usize = 0;
    while i < layers.len()
        invariant
            i <= layers@.len(),
            forall|k: int| 0 <= k < i ==> #[trigger] layers@[k] > 0,
        decreases layers@.len() - i,
    {
        if layers[i] == 0 {
            return false;
        }
        i = i + 1;
    }
    true
}

/// Whether the weights and biases have the shapes that `layers` gives them.
pub fn check_shapes<T>(layers: &Vec<usize>, weights: &Vec<Matrix<T>>, biases: &Vec<Matrix<T>>) -> (r: bool)
    ensures
        r == shapes_fit(layers@, weights@, biases@),
{
    if layers.len() == 0 || weights.len() != layers.len() - 1 || biases.len() != layers.len() - 1 {
        return false;
    }
    let mut i: usize = 0;
    while i < weights.len()
        invariant
            layers@.len() >= 1,
            weights@.len() == layers@.len() - 1,
            biases@.len() == layers@.len() - 1,
            i <= weights@.len(),
            forall|k: int|
                0 <= k < i ==> {
                    &&& (#[trigger] weights@[k]).wf()
                    &&& weights@[k].rows == layers@[k + 1]
                    &&& weights@[k].cols == layers@[k]
                },
            forall|k: int|
                0 <= k < i ==> {
                    &&& (#[trigger] biases@[k]).wf()
                    &&& biases@[k].rows == layers@[k + 1]
                    &&& biases@[k].cols == 1
                },
        decreases weights@.len() - i,
    {
        let w = &weights[i];
        let b = &biases[i];
        match w.rows.checked_mul(w.cols) {
            Some(n) => {
                if n != w.data.len() {
                    return false;
                }
            },
            None => {
                let found = w.data.len();
                assert(found != w.rows * w.cols);
                return false;
            },
        }
        if b.rows != b.data.len() || b.cols != 1 {
            return false;
        }
        if w.rows != layers[i + 1] || w.cols != layers[i] || b.rows != layers[i + 1] {
            return false;
        }
        assert(b.rows * b.cols == b.rows) by (nonlinear_arith)
            requires
                b.cols == 1,
        ;
        i = i + 1;
    }
    true
}

/// Every sample has one input per input neuron and one target per output
/// neuron, and there are as many targets as inputs.
pub open spec fn samples_fit<T>(layers: Seq<usize>, inputs: Seq<Vec<T>>, targets: Seq<Vec<T>>) -> bool {
    &&& layers.len() >= 1
    &&& inputs.len() == targets.len()
    &&& forall|i: int| 0 <= i < inputs.len() ==> (#[trigger] inputs[i])@.len() == layers[0]
    &&& forall|i: int| 0 <= i < targets.len() ==> (#[trigger] targets[i])@.len() == layers.last()
}

/// Whether the training samples fit a network with these layers.
pub fn check_samples<T>(layers: &Vec<usize>, inputs: &Vec<Vec<T>>, targets: &Vec<Vec<T>>) -> (r: bool)
    ensures
        r == samples_fit(layers@, inputs@, targets@),
{
    if layers.len() == 0 || inputs.len() != targets.len() {
        return false;
    }
    let first = layers[0];
    let last = layers[layers.len() - 1];
    let mut i: usize = 0;
    while i < inputs.len()
        invariant
            layers@.len() >= 1,
            first == layers@[0],
            last == layers@.last(),
            inputs@.len() == targets@.len(),
            i <= inputs@.len(),
            forall|k: int| 0 <= k < i ==> (#[trigger] inputs@[k])@.len() == first,
            forall|k: int| 0 <= k < i ==> (#[trigger] targets@[k])@.len() == last,
        decreases inputs@.len() - i,
    {
        if inputs[i].len() != first || targets[i].len() != last {
            return false;
        }
        i = i + 1;
    }
    true
}

/// The number of trainable values of a network with these layers, or `None`
/// where that number does not fit in a `usize`.
pub fn parameter_count(layers: &Vec<usize>) -> (r: Option<usize>)
    ensures
        r matches Some(n) ==> n == parameter_total(layers@),
        r is None ==> parameter_total(layers@) > usize::MAX,
{
    if layers.len() < 2 {
        return Some(0);
    }
    let mut total: usize = 0;
    let mut i: usize = 1;
    while i < layers.len()
        invariant
            1 <= i <= layers@.len(),
            total == parameter_total(layers@.subrange(0, i as int)),
        decreases layers@.len() - i,
    {
        let ghost prefix = layers@.subrange(0, i + 1);
        assert(prefix.drop_last() == layers@.subrange(0, i as int));
        assert(parameter_total(prefix) == total + layers@[i as int] * layers@[i - 1] + layers@[i as int]);
        let step = match layers[i].checked_mul(layers[i - 1]) {
            Some(p) => p.checked_add(layers[i]),
            None => None,
        };
        let next = match step {
            Some(s) => total.checked_add(s),
            None => None,
        };
        match next {
            Some(t) => {
                total = t;
            },
            None => {
                proof {
                    lemma_total_grows(layers@, i as int + 1);
                    assert(layers@.subrange(0, layers@.len() as int) == layers@);
                }
                return None;
            },
        }
        i = i + 1;
    }
    assert(layers@.subrange(0, layers@.len() as int) == layers@);
    Some(total)
}

/// Adding layers never lowers the parameter total.
proof fn lemma_total_grows(layers: Seq<usize>, k: int)
    requires
        0 <= k <= layers.len(),
    ensures
        parameter_total(layers.subrange(0, k)) <= parameter_total(layers),
    decreases layers.len() - k,
{
    if k < layers.len() {
        lemma_total_grows(layers, k + 1);
        let longer = layers.subrange(0, k + 1);
        assert(longer.drop_last() == layers.subrange(0, k));
        if longer.len() >= 2 {
            assert(longer[k] * longer[k - 1] >= 0) by (nonlinear_arith)
                requires
                    longer[k] >= 0,
                    longer[k - 1] >= 0,
            ;
        }
    } else {
        assert(layers.subrange(0, k) == layers);
    }
}

} // verus!
