use neural_network::activations::Activation;
use neural_network::layer::Layer;

#[test]
fn initialize() {
    let layer: Layer<f64> = Layer::new(5, 10, 0.0);

    assert_eq!(layer.num_nodes_out() == 10, true);
    assert_eq!(layer.num_nodes_in() == 5, true);
    assert_eq!(layer.biases().len() == 10, true);
    assert_eq!(layer.weights().len() == 50, true);
}

#[test]
fn new_shapes_and_fill() {
    let layer: Layer<f64> = Layer::new(3, 4, 0.25);
    assert_eq!(layer.weights().len(), 12);
    assert_eq!(layer.biases().len(), 4);
    assert_eq!(layer.cost_gradient_weights().len(), 12);
    assert_eq!(layer.cost_gradient_biases().len(), 4);
    assert!(layer.weights().iter().all(|w| *w == 0.25));
    assert!(layer.biases().iter().all(|b| *b == 0.25));
    assert_eq!(layer.activation(), Activation::Sigmoid);
}

#[test]
fn zero_fan_in_layer() {
    let layer: Layer<f64> = Layer::new(0, 3, 0.0);
    assert_eq!(layer.num_nodes_in(), 0);
    assert_eq!(layer.weights().len(), 0);
    assert_eq!(layer.biases().len(), 3);
}

#[test]
fn weight_layout_is_row_major_by_output_node() {
    let mut layer: Layer<f64> = Layer::new(3, 2, 0.0);
    layer.set_weight(1, 0, 10.0);
    layer.set_weight(2, 1, 20.0);
    // flat index = node_out * fan_in + node_in
    assert_eq!(layer.weights()[0 * 3 + 1], 10.0);
    assert_eq!(layer.weights()[1 * 3 + 2], 20.0);
    assert_eq!(layer.get_weight(1, 0), 10.0);
    assert_eq!(layer.get_weight(2, 1), 20.0);
    assert_eq!(layer.get_weight(0, 0), 0.0);
}

#[test]
fn set_weight_leaves_other_slots_alone() {
    let mut layer: Layer<f64> = Layer::new(2, 2, 1.0);
    layer.set_weight(0, 1, -3.5);
    assert_eq!(layer.get_weight(0, 1), -3.5);
    assert_eq!(layer.get_weight(0, 0), 1.0);
    assert_eq!(layer.get_weight(1, 0), 1.0);
    assert_eq!(layer.get_weight(1, 1), 1.0);
    assert!(layer.biases().iter().all(|b| *b == 1.0));
    assert!(layer.cost_gradient_weights().iter().all(|g| *g == 1.0));
}

#[test]
fn bias_and_gradient_slots() {
    let mut layer: Layer<f64> = Layer::new(2, 3, 0.0);
    layer.set_bias(2, 0.5);
    assert_eq!(layer.get_bias(2), 0.5);
    assert_eq!(layer.get_bias(0), 0.0);
    layer.set_cost_gradient_weight(1, 2, 7.0);
    assert_eq!(layer.get_cost_gradient_weight(1, 2), 7.0);
    assert_eq!(layer.cost_gradient_weights()[2 * 2 + 1], 7.0);
    layer.set_cost_gradient_bias(0, -1.0);
    assert_eq!(layer.get_cost_gradient_bias(0), -1.0);
    // parameter slots are untouched by gradient writes
    assert!(layer.weights().iter().all(|w| *w == 0.0));
    assert_eq!(layer.get_bias(2), 0.5);
}

#[test]
fn weight_row_of_bias_only_layer_is_empty() {
    let layer: Layer<f64> = Layer::new(0, 2, 0.0);
    assert_eq!(layer.weight_row(0).len(), 0);
    assert_eq!(layer.weight_row(1).len(), 0);
}

#[test]
fn weight_row_matches_get_weight() {
    let mut layer: Layer<f64> = Layer::new(3, 2, 0.0);
    layer.set_weight(0, 1, 1.0);
    layer.set_weight(1, 1, 2.0);
    layer.set_weight(2, 1, 3.0);
    let row = layer.weight_row(1);
    assert_eq!(row, vec![1.0, 2.0, 3.0]);
    let row0 = layer.weight_row(0);
    assert_eq!(row0, vec![0.0, 0.0, 0.0]);
}
