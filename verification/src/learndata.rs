use vstd::prelude::*;

use crate::layer::{filled, Layer};

verus! {

/// Scratch buffers sized for one layer: the inputs it last saw, the weighted
/// inputs before the activation, the activations themselves, and a per-node
/// working value. A learning algorithm that wants to keep intermediate
/// results allocates these once and overwrites them pass by pass.
pub struct LayerLearnData<S> {
    /// One slot per input node.
    pub inputs: Vec<S>,

    /// One slot per output node: the pre-activation sums.
    pub weighted_inputs: Vec<S>,

    /// One slot per output node: the post-activation outputs.
    pub activations: Vec<S>,

    /// One slot per output node: algorithm-specific working values.
    pub node_values: Vec<S>,
}

/// One `LayerLearnData` per layer of a network.
pub struct NetworkLearnData<S> {
    /// Scratch buffers, in layer order.
    pub layer_data: Vec<LayerLearnData<S>>,
}

impl<S: Copy> LayerLearnData<S> {
    /// Buffers shaped for `layer`, every slot set to `fill`.
    pub fn new(layer: &Layer<S>, fill: S) -> (r: LayerLearnData<S>)
        ensures
            r.matches_layer(*layer),
            forall|i: int| 0 <= i < r.inputs@.len() ==> r.inputs@[i] == fill,
            forall|i: int| 0 <= i < r.weighted_inputs@.len() ==> r.weighted_inputs@[i] == fill,
            forall|i: int| 0 <= i < r.activations@.len() ==> r.activations@[i] == fill,
            forall|i: int| 0 <= i < r.node_values@.len() ==> r.node_values@[i] == fill,
    {
        LayerLearnData {
            inputs: filled(layer.num_nodes_in(), fill),
            weighted_inputs: filled(layer.num_nodes_out(), fill),
            activations: filled(layer.num_nodes_out(), fill),
            node_values: filled(layer.num_nodes_out(), fill),
        }
    }
}

impl<S> LayerLearnData<S> {
    /// The buffers are sized for `layer`.
    pub open spec fn matches_layer(self, layer: Layer<S>) -> bool {
        &&& self.inputs@.len() == layer.num_nodes_in
        &&& self.weighted_inputs@.len() == layer.num_nodes_out
        &&& self.activations@.len() == layer.num_nodes_out
        &&& self.node_values@.len() == layer.num_nodes_out
    }
}

impl<S: Copy> NetworkLearnData<S> {
    /// One scratch buffer per layer, each shaped for its layer, every slot
    /// set to `fill`.
    pub fn new(layers: &Vec<Layer<S>>, fill: S) -> (r: NetworkLearnData<S>)
        ensures
            r.layer_data@.len() == layers@.len(),
            forall|i: int|
                0 <= i < layers@.len() ==> (#[trigger] r.layer_data@[i]).matches_layer(
                    layers@[i],
                ),
    {
        let mut layer_data: Vec<LayerLearnData<S>> = Vec::new();
        let mut i: usize = 0;
        while i < layers.len()
            invariant
                i <= layers@.len(),
                layer_data@.len() == i,
                forall|j: int|
                    0 <= j < i ==> (#[trigger] layer_data@[j]).matches_layer(layers@[j]),
            decreases layers@.len() - i,
        {
            layer_data.push(LayerLearnData::new(&layers[i], fill));
            i += 1;
        }
        NetworkLearnData { layer_data }
    }
}

} // verus!
