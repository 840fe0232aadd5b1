use neural_network::network::Network;

#[test]
fn construct() {
    let nn: Network<f64> = Network::new(&vec![2, 4, 5, 2], 0.0);
    assert_eq!(nn.layers()[0].num_nodes_out() == 2, true);
    assert_eq!(nn.layers()[1].num_nodes_out() == 4, true);
    assert_eq!(nn.layers().len() == 4, true);
}

#[test]
fn layer_sizes_chain() {
    let sizes: Vec<usize> = vec![2, 4, 5, 2];
    let nn: Network<f64> = Network::new(&sizes, 0.0);
    assert_eq!(nn.layers().len(), sizes.len());
    for (i, layer) in nn.layers().iter().enumerate() {
        assert_eq!(layer.num_nodes_out(), sizes[i]);
        if i == 0 {
            assert_eq!(layer.num_nodes_in(), 0);
        } else {
            assert_eq!(layer.num_nodes_in(), nn.layers()[i - 1].num_nodes_out());
        }
    }
}

#[test]
fn single_layer_network() {
    let nn: Network<f64> = Network::new(&vec![7], 0.0);
    assert_eq!(nn.layers().len(), 1);
    assert_eq!(nn.layers()[0].num_nodes_in(), 0);
    assert_eq!(nn.layers()[0].num_nodes_out(), 7);
    assert_eq!(nn.layers()[0].biases().len(), 7);
    assert_eq!(nn.layers()[0].weights().len(), 0);
}

#[test]
fn new_fills_every_slot() {
    let nn: Network<f64> = Network::new(&vec![2, 3], 0.5);
    for layer in nn.layers().iter() {
        assert!(layer.weights().iter().all(|w| *w == 0.5));
        assert!(layer.biases().iter().all(|b| *b == 0.5));
        assert!(layer.cost_gradient_weights().iter().all(|g| *g == 0.5));
        assert!(layer.cost_gradient_biases().iter().all(|g| *g == 0.5));
    }
    assert_eq!(*nn.cost(), 0.5);
}

#[test]
fn empty_size_list_gives_empty_network() {
    let nn: Network<f64> = Network::new(&vec![], 0.0);
    assert_eq!(nn.layers().len(), 0);
    assert_eq!(nn.param_order().len(), 0);
}

#[test]
fn set_cost_is_observable() {
    let mut nn: Network<f64> = Network::new(&vec![1, 1], 0.0);
    assert_eq!(*nn.cost(), 0.0);
    nn.set_cost(2.25);
    assert_eq!(*nn.cost(), 2.25);
    nn.set_cost(f64::NAN);
    assert!(nn.cost().is_nan());
}
