use neural_network::network::Network;
use neural_network::params::ParamRef;

#[test]
fn param_order_walks_weights_then_biases_layer_by_layer() {
    let nn: Network<f64> = Network::new(&vec![2, 3], 0.0);
    let order = nn.param_order();
    let expected = vec![
        // layer 0 has no inputs, so no weights; its biases come first
        ParamRef::Bias { layer: 0, node_out: 0 },
        ParamRef::Bias { layer: 0, node_out: 1 },
        // layer 1 weights: input node major, output node minor
        ParamRef::Weight { layer: 1, node_in: 0, node_out: 0 },
        ParamRef::Weight { layer: 1, node_in: 0, node_out: 1 },
        ParamRef::Weight { layer: 1, node_in: 0, node_out: 2 },
        ParamRef::Weight { layer: 1, node_in: 1, node_out: 0 },
        ParamRef::Weight { layer: 1, node_in: 1, node_out: 1 },
        ParamRef::Weight { layer: 1, node_in: 1, node_out: 2 },
        // then layer 1 biases
        ParamRef::Bias { layer: 1, node_out: 0 },
        ParamRef::Bias { layer: 1, node_out: 1 },
        ParamRef::Bias { layer: 1, node_out: 2 },
    ];
    assert_eq!(order, expected);
}

#[test]
fn param_order_counts_every_trainable_scalar() {
    let nn: Network<f64> = Network::new(&vec![2, 4, 5, 2], 0.0);
    // weights: 2*4 + 4*5 + 5*2 = 38, biases: 2 + 4 + 5 + 2 = 13
    assert_eq!(nn.param_order().len(), 38 + 13);
}

#[test]
fn param_order_has_no_duplicates() {
    let nn: Network<f64> = Network::new(&vec![2, 3, 1], 0.0);
    let order = nn.param_order();
    for i in 0..order.len() {
        for j in (i + 1)..order.len() {
            assert_ne!(order[i], order[j]);
        }
    }
}

#[test]
fn set_param_touches_exactly_one_slot() {
    let mut nn: Network<f64> = Network::new(&vec![2, 3], 0.0);
    let p = ParamRef::Weight { layer: 1, node_in: 1, node_out: 2 };
    nn.set_param(p, 9.0);
    assert_eq!(nn.get_param(p), 9.0);
    for q in nn.param_order() {
        if q != p {
            assert_eq!(nn.get_param(q), 0.0);
        }
        // no parameter write may leak into a gradient slot
        assert_eq!(nn.get_gradient(q), 0.0);
    }
}

#[test]
fn set_gradient_touches_exactly_one_slot() {
    let mut nn: Network<f64> = Network::new(&vec![2, 3], 0.0);
    let p = ParamRef::Bias { layer: 0, node_out: 1 };
    nn.set_gradient(p, -4.0);
    assert_eq!(nn.get_gradient(p), -4.0);
    for q in nn.param_order() {
        if q != p {
            assert_eq!(nn.get_gradient(q), 0.0);
        }
        assert_eq!(nn.get_param(q), 0.0);
    }
}

#[test]
fn weight_param_addresses_the_flattened_slot() {
    let mut nn: Network<f64> = Network::new(&vec![3, 2], 0.0);
    nn.set_param(ParamRef::Weight { layer: 1, node_in: 2, node_out: 1 }, 5.0);
    // storage order inside a layer is node_out * fan_in + node_in
    assert_eq!(nn.layers()[1].weights()[1 * 3 + 2], 5.0);
}
