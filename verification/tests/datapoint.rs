use neural_network::datapoint::{to_byte_array_u8, Datapoint};
use neural_network::layer::Layer;
use neural_network::learndata::{LayerLearnData, NetworkLearnData};
use neural_network::network::Network;

#[test]
fn byte_array_of_five() {
    assert_eq!(to_byte_array_u8(5), [0, 0, 0, 0, 0, 1, 0, 1]);
}

#[test]
fn byte_array_edges() {
    assert_eq!(to_byte_array_u8(0), [0; 8]);
    assert_eq!(to_byte_array_u8(255), [1; 8]);
    assert_eq!(to_byte_array_u8(0b1011_0100), [1, 0, 1, 1, 0, 1, 0, 0]);
    assert_eq!(to_byte_array_u8(128), [1, 0, 0, 0, 0, 0, 0, 0]);
}

#[test]
fn datapoint_getters() {
    let dp: Datapoint<f64> = Datapoint { inputs: vec![1.0, 0.0], expected: vec![0.5] };
    assert_eq!(dp.inputs(), &vec![1.0, 0.0]);
    assert_eq!(dp.expected(), &vec![0.5]);
}

#[test]
fn layer_learn_data_shapes() {
    let layer: Layer<f64> = Layer::new(3, 4, 0.0);
    let data = LayerLearnData::new(&layer, 0.0);
    assert_eq!(data.inputs.len(), 3);
    assert_eq!(data.weighted_inputs.len(), 4);
    assert_eq!(data.activations.len(), 4);
    assert_eq!(data.node_values.len(), 4);
    assert!(data.weighted_inputs.iter().all(|v| *v == 0.0));
}

#[test]
fn network_learn_data_shapes() {
    let nn: Network<f64> = Network::new(&vec![2, 4, 1], 0.0);
    let data = NetworkLearnData::new(nn.layers(), 0.0);
    assert_eq!(data.layer_data.len(), 3);
    for (buffers, layer) in data.layer_data.iter().zip(nn.layers().iter()) {
        assert_eq!(buffers.inputs.len(), layer.num_nodes_in());
        assert_eq!(buffers.weighted_inputs.len(), layer.num_nodes_out());
        assert_eq!(buffers.activations.len(), layer.num_nodes_out());
        assert_eq!(buffers.node_values.len(), layer.num_nodes_out());
    }
}
