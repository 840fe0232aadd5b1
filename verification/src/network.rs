use vstd::prelude::*;

use crate::layer::Layer;

verus! {

/// An ordered sequence of fully-connected layers, generic over the scalar
/// type `S`, plus the batch cost recorded by the most recent training step
/// (for observability only — it feeds no computation).
///
/// The first layer is a documented, deliberate bias-only input stage: it is
/// constructed with `num_nodes_in == 0`, so it has no weights and its outputs
/// are its biases passed through the activation.
pub struct Network<S> {
    /// Every layer, input stage included.
    pub layers: Vec<Layer<S>>,

    /// The batch cost recorded by the most recent training step.
    pub cost: S,
}

impl<S> Network<S> {
    /// Topology invariant: every layer is well-formed, adjacent layers agree
    /// on their shared width, and the first layer is the bias-only input
    /// stage.
    pub open spec fn wf(self) -> bool {
        &&& forall|i: int| 0 <= i < self.layers@.len() ==> (#[trigger] self.layers@[i]).wf()
        &&& forall|i: int|
            #![trigger self.layers@[i], self.layers@[i - 1]]
            1 <= i < self.layers@.len() ==> self.layers@[i].num_nodes_in == self.layers@[i
                - 1].num_nodes_out
        &&& self.layers@.len() > 0 ==> self.layers@[0].num_nodes_in == 0
    }
}

impl<S: Copy> Network<S> {
    /// One layer per entry of `layer_sizes`: layer `i` has `layer_sizes[i]`
    /// output nodes, and its inputs are the previous layer's outputs (none
    /// for layer 0). Every weight, bias, gradient slot and the recorded cost
    /// start as `fill`; the caller owns the arithmetic and writes real
    /// initial parameters afterwards.
    pub fn new(layer_sizes: &Vec<usize>, fill: S) -> (r: Network<S>)
        requires
            forall|i: int|
                1 <= i < layer_sizes@.len() ==> #[trigger] (layer_sizes@[i - 1] * layer_sizes@[i])
                    <= usize::MAX,
        ensures
            r.wf(),
            r.layers@.len() == layer_sizes@.len(),
            forall|i: int|
                0 <= i < r.layers@.len() ==> (#[trigger] r.layers@[i]).num_nodes_out
                    == layer_sizes@[i],
            forall|i: int|
                1 <= i < r.layers@.len() ==> (#[trigger] r.layers@[i]).num_nodes_in
                    == layer_sizes@[i - 1],
            forall|i: int| 0 <= i < r.layers@.len() ==> (#[trigger] r.layers@[i]).all_slots_are(
                fill,
            ),
            forall|i: int|
                0 <= i < r.layers@.len() ==> (#[trigger] r.layers@[i]).activation
                    == crate::activations::Activation::Sigmoid,
            r.cost == fill,
    {
        let size = layer_sizes.len();
        let mut layers: Vec<Layer<S>> = Vec::with_capacity(size);
        let mut index: usize = 0;
        while index < size
            invariant
                index <= size,
                size == layer_sizes@.len(),
                layers@.len() == index,
                forall|i: int|
                    1 <= i < size ==> #[trigger] (layer_sizes@[i - 1] * layer_sizes@[i])
                        <= usize::MAX,
                forall|i: int| 0 <= i < index ==> (#[trigger] layers@[i]).wf(),
                forall|i: int|
                    0 <= i < index ==> (#[trigger] layers@[i]).num_nodes_out == layer_sizes@[i],
                forall|i: int|
                    1 <= i < index ==> (#[trigger] layers@[i]).num_nodes_in == layer_sizes@[i - 1],
                forall|i: int|
                    0 <= i < index ==> (#[trigger] layers@[i]).all_slots_are(fill),
                forall|i: int|
                    0 <= i < index ==> (#[trigger] layers@[i]).activation
                        == crate::activations::Activation::Sigmoid,
                index > 0 ==> layers@[0].num_nodes_in == 0,
            decreases size - index,
        {
            let into_prev: usize = if index == 0 {
                0
            } else {
                layer_sizes[index - 1]
            };
            proof {
                if index == 0 {
                    assert(0 * layer_sizes@[index as int] == 0);
                }
            }
            layers.push(Layer::new(into_prev, layer_sizes[index], fill));
            index += 1;
        }
        Network { layers, cost: fill }
    }

    /// Record the batch cost of the current training step; the layers are
    /// untouched.
    pub fn set_cost(&mut self, v: S)
        ensures
            final(self).layers@ == old(self).layers@,
            final(self).cost == v,
    {
        self.cost = v;
    }
}

impl<S> Network<S> {
    /// Read-only view of the layer sequence.
    pub fn layers(&self) -> (r: &Vec<Layer<S>>)
        ensures
            r@ == self.layers@,
    {
        &self.layers
    }

    /// The batch cost recorded by the most recent training step.
    pub fn cost(&self) -> (r: &S)
        ensures
            *r == self.cost,
    {
        &self.cost
    }
}

} // verus!
