use vstd::prelude::*;

use crate::activations::Activation;

verus! {

/// One fully-connected layer, generic over the scalar type `S`.
///
/// The weight matrix is flattened into a single vector for cache locality and
/// indexed as `node_out * num_nodes_in + node_in`: one contiguous row of
/// incoming weights per output node. The two gradient vectors mirror the
/// shapes of `weights` and `biases`; a training step overwrites them wholesale
/// and they carry no meaning between steps.
pub struct Layer<S> {
    /// Number of nodes in the previous layer (the layer's inputs).
    pub num_nodes_in: usize,

    /// Number of nodes in this layer (the layer's outputs).
    pub num_nodes_out: usize,

    /// Flattened `num_nodes_in x num_nodes_out` weight matrix.
    pub weights: Vec<S>,

    /// One bias per output node.
    pub biases: Vec<S>,

    /// The non-linearity applied to every output node, fixed at construction.
    pub activation: Activation,

    /// Estimated partial derivative of the batch cost for each weight.
    pub cost_gradient_weights: Vec<S>,

    /// Estimated partial derivative of the batch cost for each bias.
    pub cost_gradient_biases: Vec<S>,
}

/// Position of a weight in the flattened matrix: the row of output node
/// `node_out` is contiguous and holds one entry per input node.
pub open spec fn weight_index(num_nodes_in: int, node_in: int, node_out: int) -> int {
    node_out * num_nodes_in + node_in
}

/// The flattened index of an in-range (input, output) pair lies within the
/// `num_in * num_out` matrix.
pub proof fn lemma_weight_index_in_bounds(num_in: int, num_out: int, node_in: int, node_out: int)
    requires
        0 <= node_in < num_in,
        0 <= node_out < num_out,
    ensures
        0 <= weight_index(num_in, node_in, node_out) < num_in * num_out,
{
    assert(0 <= node_out * num_in + node_in < num_in * num_out) by (nonlinear_arith)
        requires
            0 <= node_in < num_in,
            0 <= node_out < num_out,
    ;
}

/// Distinct in-range (input, output) pairs never share a flattened index:
/// every weight owns its own slot.
pub proof fn lemma_weight_index_injective(
    num_in: int,
    ni1: int,
    no1: int,
    ni2: int,
    no2: int,
)
    requires
        0 <= ni1 < num_in,
        0 <= ni2 < num_in,
        0 <= no1,
        0 <= no2,
        ni1 != ni2 || no1 != no2,
    ensures
        weight_index(num_in, ni1, no1) != weight_index(num_in, ni2, no2),
{
    assert(no1 * num_in + ni1 != no2 * num_in + ni2) by (nonlinear_arith)
        requires
            0 <= ni1 < num_in,
            0 <= ni2 < num_in,
            0 <= no1,
            0 <= no2,
            ni1 != ni2 || no1 != no2,
    ;
}

/// A vector of `n` copies of `fill`.
pub(crate) fn filled<S: Copy>(n: usize, fill: S) -> (r: Vec<S>)
    ensures
        r@.len() == n,
        forall|i: int| 0 <= i < n ==> r@[i] == fill,
{
    let mut r: Vec<S> = Vec::with_capacity(n);
    let mut i: usize = 0;
    while i < n
        invariant
            i <= n,
            r@.len() == i,
            forall|j: int| 0 <= j < i ==> r@[j] == fill,
        decreases n - i,
    {
        r.push(fill);
        i += 1;
    }
    r
}

impl<S> Layer<S> {
    /// Shape invariant: the four parameter vectors match the declared
    /// dimensions. A layer with `num_nodes_in == 0` is legal (a network's
    /// first layer) and produces bias-only outputs.
    pub open spec fn wf(self) -> bool {
        &&& self.weights.len() == self.num_nodes_in * self.num_nodes_out
        &&& self.biases.len() == self.num_nodes_out
        &&& self.cost_gradient_weights.len() == self.weights.len()
        &&& self.cost_gradient_biases.len() == self.biases.len()
    }

    /// Every weight, bias and gradient slot holds `v` (the state right after
    /// construction, before real parameters are written).
    pub open spec fn all_slots_are(self, v: S) -> bool {
        &&& forall|i: int| 0 <= i < self.weights@.len() ==> self.weights@[i] == v
        &&& forall|i: int| 0 <= i < self.biases@.len() ==> self.biases@[i] == v
        &&& forall|i: int|
            0 <= i < self.cost_gradient_weights@.len() ==> self.cost_gradient_weights@[i] == v
        &&& forall|i: int|
            0 <= i < self.cost_gradient_biases@.len() ==> self.cost_gradient_biases@[i] == v
    }

    /// Two layers have the same wiring: dimensions and activation agree.
    pub open spec fn shape_eq(self, other: Layer<S>) -> bool {
        &&& self.num_nodes_in == other.num_nodes_in
        &&& self.num_nodes_out == other.num_nodes_out
        &&& self.activation == other.activation
    }
}

impl<S: Copy> Layer<S> {
    /// A layer of the given dimensions with every weight, bias and gradient
    /// slot set to `fill`, and `Sigmoid` as its activation. Meaningful
    /// parameter values (for instance a random initialization) are written
    /// afterwards through `set_weight` and `set_bias` by whoever owns the
    /// scalar arithmetic.
    pub fn new(num_nodes_in: usize, num_nodes_out: usize, fill: S) -> (r: Layer<S>)
        requires
            num_nodes_in * num_nodes_out <= usize::MAX,
        ensures
            r.wf(),
            r.num_nodes_in == num_nodes_in,
            r.num_nodes_out == num_nodes_out,
            r.activation == Activation::Sigmoid,
            r.all_slots_are(fill),
    {
        let n_weights = num_nodes_in * num_nodes_out;
        Layer {
            num_nodes_in,
            num_nodes_out,
            weights: filled(n_weights, fill),
            biases: filled(num_nodes_out, fill),
            activation: Activation::Sigmoid,
            cost_gradient_weights: filled(n_weights, fill),
            cost_gradient_biases: filled(num_nodes_out, fill),
        }
    }

    /// The weight from input node `node_in` to output node `node_out`.
    pub fn get_weight(&self, node_in: usize, node_out: usize) -> (r: S)
        requires
            self.wf(),
            node_in < self.num_nodes_in,
            node_out < self.num_nodes_out,
        ensures
            r == self.weights@[weight_index(
                self.num_nodes_in as int,
                node_in as int,
                node_out as int,
            )],
    {
        proof {
            lemma_weight_index_in_bounds(
                self.num_nodes_in as int,
                self.num_nodes_out as int,
                node_in as int,
                node_out as int,
            );
        }
        let flat_index = node_out * self.num_nodes_in + node_in;
        self.weights[flat_index]
    }

    /// Overwrite the weight from `node_in` to `node_out`; every other slot of
    /// the layer is untouched.
    pub fn set_weight(&mut self, node_in: usize, node_out: usize, v: S)
        requires
            old(self).wf(),
            node_in < old(self).num_nodes_in,
            node_out < old(self).num_nodes_out,
        ensures
            final(self).wf(),
            final(self).shape_eq(*old(self)),
            final(self).weights@ == old(self).weights@.update(
                weight_index(old(self).num_nodes_in as int, node_in as int, node_out as int),
                v,
            ),
            final(self).biases@ == old(self).biases@,
            final(self).cost_gradient_weights@ == old(self).cost_gradient_weights@,
            final(self).cost_gradient_biases@ == old(self).cost_gradient_biases@,
    {
        proof {
            lemma_weight_index_in_bounds(
                self.num_nodes_in as int,
                self.num_nodes_out as int,
                node_in as int,
                node_out as int,
            );
        }
        let flat_index = node_out * self.num_nodes_in + node_in;
        self.weights.set(flat_index, v);
    }

    /// The gradient slot paired with the weight from `node_in` to `node_out`.
    pub fn get_cost_gradient_weight(&self, node_in: usize, node_out: usize) -> (r: S)
        requires
            self.wf(),
            node_in < self.num_nodes_in,
            node_out < self.num_nodes_out,
        ensures
            r == self.cost_gradient_weights@[weight_index(
                self.num_nodes_in as int,
                node_in as int,
                node_out as int,
            )],
    {
        proof {
            lemma_weight_index_in_bounds(
                self.num_nodes_in as int,
                self.num_nodes_out as int,
                node_in as int,
                node_out as int,
            );
        }
        let flat_index = node_out * self.num_nodes_in + node_in;
        self.cost_gradient_weights[flat_index]
    }

    /// Overwrite the gradient slot paired with the weight from `node_in` to
    /// `node_out`; every other slot of the layer is untouched.
    pub fn set_cost_gradient_weight(&mut self, node_in: usize, node_out: usize, v: S)
        requires
            old(self).wf(),
            node_in < old(self).num_nodes_in,
            node_out < old(self).num_nodes_out,
        ensures
            final(self).wf(),
            final(self).shape_eq(*old(self)),
            final(self).cost_gradient_weights@ == old(self).cost_gradient_weights@.update(
                weight_index(old(self).num_nodes_in as int, node_in as int, node_out as int),
                v,
            ),
            final(self).weights@ == old(self).weights@,
            final(self).biases@ == old(self).biases@,
            final(self).cost_gradient_biases@ == old(self).cost_gradient_biases@,
    {
        proof {
            lemma_weight_index_in_bounds(
                self.num_nodes_in as int,
                self.num_nodes_out as int,
                node_in as int,
                node_out as int,
            );
        }
        let flat_index = node_out * self.num_nodes_in + node_in;
        self.cost_gradient_weights.set(flat_index, v);
    }

    /// The bias of output node `node_out`.
    pub fn get_bias(&self, node_out: usize) -> (r: S)
        requires
            self.wf(),
            node_out < self.num_nodes_out,
        ensures
            r == self.biases@[node_out as int],
    {
        self.biases[node_out]
    }

    /// Overwrite the bias of `node_out`; every other slot is untouched.
    pub fn set_bias(&mut self, node_out: usize, v: S)
        requires
            old(self).wf(),
            node_out < old(self).num_nodes_out,
        ensures
            final(self).wf(),
            final(self).shape_eq(*old(self)),
            final(self).biases@ == old(self).biases@.update(node_out as int, v),
            final(self).weights@ == old(self).weights@,
            final(self).cost_gradient_weights@ == old(self).cost_gradient_weights@,
            final(self).cost_gradient_biases@ == old(self).cost_gradient_biases@,
    {
        self.biases.set(node_out, v);
    }

    /// The gradient slot paired with the bias of `node_out`.
    pub fn get_cost_gradient_bias(&self, node_out: usize) -> (r: S)
        requires
            self.wf(),
            node_out < self.num_nodes_out,
        ensures
            r == self.cost_gradient_biases@[node_out as int],
    {
        self.cost_gradient_biases[node_out]
    }

    /// Overwrite the gradient slot paired with the bias of `node_out`; every
    /// other slot is untouched.
    pub fn set_cost_gradient_bias(&mut self, node_out: usize, v: S)
        requires
            old(self).wf(),
            node_out < old(self).num_nodes_out,
        ensures
            final(self).wf(),
            final(self).shape_eq(*old(self)),
            final(self).cost_gradient_biases@ == old(self).cost_gradient_biases@.update(
                node_out as int,
                v,
            ),
            final(self).weights@ == old(self).weights@,
            final(self).biases@ == old(self).biases@,
            final(self).cost_gradient_weights@ == old(self).cost_gradient_weights@,
    {
        self.cost_gradient_biases.set(node_out, v);
    }

    /// The row of incoming weights of output node `node_out`, in input-node
    /// order: entry `i` is the weight from input node `i` to `node_out`. A
    /// forward pass pairs this row with the input vector term by term.
    pub fn weight_row(&self, node_out: usize) -> (r: Vec<S>)
        requires
            self.wf(),
            node_out < self.num_nodes_out,
        ensures
            r@.len() == self.num_nodes_in,
            forall|i: int|
                0 <= i < r@.len() ==> r@[i] == self.weights@[weight_index(
                    self.num_nodes_in as int,
                    i,
                    node_out as int,
                )],
    {
        let mut r: Vec<S> = Vec::with_capacity(self.num_nodes_in);
        let mut node_in: usize = 0;
        while node_in < self.num_nodes_in
            invariant
                self.wf(),
                node_out < self.num_nodes_out,
                node_in <= self.num_nodes_in,
                r@.len() == node_in,
                forall|i: int|
                    0 <= i < r@.len() ==> r@[i] == self.weights@[weight_index(
                        self.num_nodes_in as int,
                        i,
                        node_out as int,
                    )],
            decreases self.num_nodes_in - node_in,
        {
            r.push(self.get_weight(node_in, node_out));
            node_in += 1;
        }
        r
    }

    /// The activation tag chosen at construction.
    pub fn activation(&self) -> (r: Activation)
        ensures
            r == self.activation,
    {
        self.activation
    }
}

impl<S> Layer<S> {
    /// Number of input nodes.
    pub fn num_nodes_in(&self) -> (r: usize)
        ensures
            r == self.num_nodes_in,
    {
        self.num_nodes_in
    }

    /// Number of output nodes.
    pub fn num_nodes_out(&self) -> (r: usize)
        ensures
            r == self.num_nodes_out,
    {
        self.num_nodes_out
    }

    /// Read-only view of the flattened weight matrix.
    pub fn weights(&self) -> (r: &Vec<S>)
        ensures
            r@ == self.weights@,
    {
        &self.weights
    }

    /// Read-only view of the bias vector.
    pub fn biases(&self) -> (r: &Vec<S>)
        ensures
            r@ == self.biases@,
    {
        &self.biases
    }

    /// Read-only view of the weight-gradient vector.
    pub fn cost_gradient_weights(&self) -> (r: &Vec<S>)
        ensures
            r@ == self.cost_gradient_weights@,
    {
        &self.cost_gradient_weights
    }

    /// Read-only view of the bias-gradient vector.
    pub fn cost_gradient_biases(&self) -> (r: &Vec<S>)
        ensures
            r@ == self.cost_gradient_biases@,
    {
        &self.cost_gradient_biases
    }
}

} // verus!
