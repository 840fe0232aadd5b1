use vstd::prelude::*;

use vstd::arithmetic::div_mod::{
    lemma_div_nonincreasing,
    lemma_div_pos_is_pos,
    lemma_fundamental_div_mod,
    lemma_fundamental_div_mod_converse,
    lemma_mod_bound,
};
use vstd::arithmetic::mul::lemma_mul_nonnegative;

use crate::layer::{weight_index, lemma_weight_index_in_bounds, lemma_weight_index_injective};
use crate::network::Network;

verus! {

/// A reference to one trainable scalar of a network: either a weight,
/// addressed by its layer and its (input node, output node) pair, or a bias,
/// addressed by its layer and its output node. The finite-difference training
/// step perturbs, measures and restores the parameters one `ParamRef` at a
/// time, and each `ParamRef` also names the gradient slot where the estimate
/// for that parameter is recorded.
#[derive(Clone, Copy, Debug, PartialEq, Eq, Structural)]
pub enum ParamRef {
    /// The weight from `node_in` to `node_out` in layer `layer`.
    Weight { layer: usize, node_in: usize, node_out: usize },
    /// The bias of `node_out` in layer `layer`.
    Bias { layer: usize, node_out: usize },
}

/// The layer a parameter belongs to.
pub open spec fn param_layer(p: ParamRef) -> int {
    match p {
        ParamRef::Weight { layer, .. } => layer as int,
        ParamRef::Bias { layer, .. } => layer as int,
    }
}

impl<S> Network<S> {
    /// The parameter exists: its layer and node indices are in range.
    pub open spec fn param_valid(self, p: ParamRef) -> bool {
        match p {
            ParamRef::Weight { layer, node_in, node_out } => {
                &&& (layer as int) < self.layers@.len()
                &&& (node_in as int) < self.layers@[layer as int].num_nodes_in
                &&& (node_out as int) < self.layers@[layer as int].num_nodes_out
            },
            ParamRef::Bias { layer, node_out } => {
                &&& (layer as int) < self.layers@.len()
                &&& (node_out as int) < self.layers@[layer as int].num_nodes_out
            },
        }
    }

    /// The scalar the parameter currently holds.
    pub open spec fn param_value(self, p: ParamRef) -> S {
        match p {
            ParamRef::Weight { layer, node_in, node_out } => {
                self.layers@[layer as int].weights@[weight_index(
                    self.layers@[layer as int].num_nodes_in as int,
                    node_in as int,
                    node_out as int,
                )]
            },
            ParamRef::Bias { layer, node_out } => {
                self.layers@[layer as int].biases@[node_out as int]
            },
        }
    }

    /// The scalar the parameter's gradient slot currently holds.
    pub open spec fn gradient_value(self, p: ParamRef) -> S {
        match p {
            ParamRef::Weight { layer, node_in, node_out } => {
                self.layers@[layer as int].cost_gradient_weights@[weight_index(
                    self.layers@[layer as int].num_nodes_in as int,
                    node_in as int,
                    node_out as int,
                )]
            },
            ParamRef::Bias { layer, node_out } => {
                self.layers@[layer as int].cost_gradient_biases@[node_out as int]
            },
        }
    }

    /// The networks have the same topology: layer for layer, the dimensions
    /// and activations agree.
    pub open spec fn shape_eq(self, other: Network<S>) -> bool {
        &&& self.layers@.len() == other.layers@.len()
        &&& forall|i: int|
            0 <= i < self.layers@.len() ==> (#[trigger] self.layers@[i]).shape_eq(
                other.layers@[i],
            )
    }
}

/// Parameter validity only looks at the topology, so networks of the same
/// shape agree on it.
pub proof fn lemma_shape_eq_same_valid<S>(a: Network<S>, b: Network<S>, q: ParamRef)
    requires
        a.shape_eq(b),
    ensures
        a.param_valid(q) == b.param_valid(q),
{
    if 0 <= param_layer(q) < a.layers@.len() {
        assert(a.layers@[param_layer(q)].shape_eq(b.layers@[param_layer(q)]));
    }
}

impl<S: Copy> Network<S> {
    /// Read one trainable scalar.
    pub fn get_param(&self, p: ParamRef) -> (r: S)
        requires
            self.wf(),
            self.param_valid(p),
        ensures
            r == self.param_value(p),
    {
        match p {
            ParamRef::Weight { layer, node_in, node_out } => {
                self.layers[layer].get_weight(node_in, node_out)
            },
            ParamRef::Bias { layer, node_out } => self.layers[layer].get_bias(node_out),
        }
    }

    /// Read one gradient slot.
    pub fn get_gradient(&self, p: ParamRef) -> (r: S)
        requires
            self.wf(),
            self.param_valid(p),
        ensures
            r == self.gradient_value(p),
    {
        match p {
            ParamRef::Weight { layer, node_in, node_out } => {
                self.layers[layer].get_cost_gradient_weight(node_in, node_out)
            },
            ParamRef::Bias { layer, node_out } => {
                self.layers[layer].get_cost_gradient_bias(node_out)
            },
        }
    }

    /// Overwrite one trainable scalar. Every other parameter, every gradient
    /// slot, the topology and the recorded cost are untouched — the
    /// perturb/measure/restore discipline of the training step relies on
    /// exactly this frame.
    pub fn set_param(&mut self, p: ParamRef, v: S)
        requires
            old(self).wf(),
            old(self).param_valid(p),
        ensures
            final(self).wf(),
            final(self).shape_eq(*old(self)),
            final(self).cost == old(self).cost,
            final(self).param_value(p) == v,
            forall|q: ParamRef|
                old(self).param_valid(q) && q != p ==> final(self).param_value(q) == old(
                    self,
                ).param_value(q),
            forall|q: ParamRef|
                old(self).param_valid(q) ==> final(self).gradient_value(q) == old(
                    self,
                ).gradient_value(q),
            forall|q: ParamRef| final(self).param_valid(q) <==> old(self).param_valid(q),
    {
        match p {
            ParamRef::Weight { layer, node_in, node_out } => {
                self.layers[layer].set_weight(node_in, node_out, v);
                proof {
                    lemma_weight_write_frame(
                        *old(self),
                        *self,
                        layer,
                        node_in,
                        node_out,
                        v,
                        false,
                    );
                }
            },
            ParamRef::Bias { layer, node_out } => {
                self.layers[layer].set_bias(node_out, v);
                proof {
                    lemma_bias_write_frame(*old(self), *self, layer, node_out, v, false);
                }
            },
        }
        proof {
            assert forall|q: ParamRef| final(self).param_valid(q) <==> old(self).param_valid(
                q,
            ) by {
                lemma_shape_eq_same_valid(*self, *old(self), q);
            }
        }
    }

    /// Overwrite one gradient slot. Every other gradient slot, every
    /// parameter, the topology and the recorded cost are untouched.
    pub fn set_gradient(&mut self, p: ParamRef, v: S)
        requires
            old(self).wf(),
            old(self).param_valid(p),
        ensures
            final(self).wf(),
            final(self).shape_eq(*old(self)),
            final(self).cost == old(self).cost,
            final(self).gradient_value(p) == v,
            forall|q: ParamRef|
                old(self).param_valid(q) && q != p ==> final(self).gradient_value(q) == old(
                    self,
                ).gradient_value(q),
            forall|q: ParamRef|
                old(self).param_valid(q) ==> final(self).param_value(q) == old(
                    self,
                ).param_value(q),
            forall|q: ParamRef| final(self).param_valid(q) <==> old(self).param_valid(q),
    {
        match p {
            ParamRef::Weight { layer, node_in, node_out } => {
                self.layers[layer].set_cost_gradient_weight(node_in, node_out, v);
                proof {
                    lemma_weight_write_frame(*old(self), *self, layer, node_in, node_out, v, true);
                }
            },
            ParamRef::Bias { layer, node_out } => {
                self.layers[layer].set_cost_gradient_bias(node_out, v);
                proof {
                    lemma_bias_write_frame(*old(self), *self, layer, node_out, v, true);
                }
            },
        }
        proof {
            assert forall|q: ParamRef| final(self).param_valid(q) <==> old(self).param_valid(
                q,
            ) by {
                lemma_shape_eq_same_valid(*self, *old(self), q);
            }
        }
    }
}

/// The first `count` weight parameters of a layer, in visiting order: the
/// training step walks the weights input node by input node, and within one
/// input node output node by output node, so the parameter at position `k` is
/// the weight from `k / num_out` to `k % num_out`. (This visiting order is
/// deliberately transposed from the storage order of `weights` itself.)
pub open spec fn weight_params_prefix(
    layer: int,
    num_out: int,
    count: int,
) -> Seq<ParamRef> {
    Seq::new(
        count as nat,
        |k: int|
            ParamRef::Weight {
                layer: layer as usize,
                node_in: (k / num_out) as usize,
                node_out: (k % num_out) as usize,
            },
    )
}

/// The first `count` bias parameters of a layer, in output-node order.
pub open spec fn bias_params_prefix(layer: int, count: int) -> Seq<ParamRef> {
    Seq::new(
        count as nat,
        |k: int| ParamRef::Bias { layer: layer as usize, node_out: k as usize },
    )
}

/// Every trainable scalar of one layer in the order the training step visits
/// them: all weights first, then all biases.
pub open spec fn layer_params(layer: int, num_in: int, num_out: int) -> Seq<ParamRef> {
    weight_params_prefix(layer, num_out, num_in * num_out) + bias_params_prefix(layer, num_out)
}

impl<S> Network<S> {
    /// The parameters of layers `0 .. n`, in visiting order.
    pub open spec fn params_up_to(self, n: int) -> Seq<ParamRef>
        decreases n,
    {
        if n <= 0 {
            Seq::empty()
        } else {
            self.params_up_to(n - 1) + layer_params(
                n - 1,
                self.layers@[n - 1].num_nodes_in as int,
                self.layers@[n - 1].num_nodes_out as int,
            )
        }
    }

    /// Every trainable scalar of the network in the order the training step
    /// visits them: layer by layer, weights before biases.
    pub open spec fn network_params(self) -> Seq<ParamRef> {
        self.params_up_to(self.layers@.len() as int)
    }
}

impl<S: Copy> Network<S> {
    /// The full list of trainable scalars, in the order the training step
    /// perturbs them. A training driver walks this list twice per step: once
    /// to estimate each partial derivative, once to apply the estimates.
    #[verifier::loop_isolation(false)]
    pub fn param_order(&self) -> (r: Vec<ParamRef>)
        requires
            self.wf(),
        ensures
            r@ == self.network_params(),
    {
        let mut r: Vec<ParamRef> = Vec::new();
        let num_layers = self.layers.len();
        let mut li: usize = 0;
        while li < num_layers
            invariant
                li <= num_layers,
                r@ == self.params_up_to(li as int),
            decreases num_layers - li,
        {
            let num_in = self.layers[li].num_nodes_in();
            let num_out = self.layers[li].num_nodes_out();
            let ghost base = self.params_up_to(li as int);
            let mut node_in: usize = 0;
            while node_in < num_in
                invariant
                    node_in <= num_in,
                    r@ == base + weight_params_prefix(
                        li as int,
                        num_out as int,
                        node_in as int * num_out as int,
                    ),
                decreases num_in - node_in,
            {
                let mut node_out: usize = 0;
                while node_out < num_out
                    invariant
                        node_out <= num_out,
                        r@ == base + weight_params_prefix(
                            li as int,
                            num_out as int,
                            node_in as int * num_out as int + node_out as int,
                        ),
                    decreases num_out - node_out,
                {
                    r.push(ParamRef::Weight { layer: li, node_in, node_out });
                    proof {
                        let c = node_in as int * num_out as int + node_out as int;
                        lemma_mul_nonnegative(node_in as int, num_out as int);
                        lemma_fundamental_div_mod_converse(
                            c,
                            num_out as int,
                            node_in as int,
                            node_out as int,
                        );
                        assert(r@ =~= base + weight_params_prefix(
                            li as int,
                            num_out as int,
                            c + 1,
                        ));
                    }
                    node_out += 1;
                }
                proof {
                    assert((node_in + 1) as int * num_out as int == node_in as int * num_out as int
                        + num_out as int) by (nonlinear_arith);
                }
                node_in += 1;
            }
            let ghost full_weights = weight_params_prefix(
                li as int,
                num_out as int,
                num_in as int * num_out as int,
            );
            let mut node_out: usize = 0;
            while node_out < num_out
                invariant
                    node_out <= num_out,
                    r@ == base + full_weights + bias_params_prefix(li as int, node_out as int),
                decreases num_out - node_out,
            {
                r.push(ParamRef::Bias { layer: li, node_out });
                proof {
                    assert(r@ =~= base + full_weights + bias_params_prefix(
                        li as int,
                        node_out as int + 1,
                    ));
                }
                node_out += 1;
            }
            proof {
                assert(layer_params(li as int, num_in as int, num_out as int)
                    == full_weights + bias_params_prefix(li as int, num_out as int));
                assert(r@ =~= self.params_up_to(li as int + 1));
            }
            li += 1;
        }
        r
    }
}

/// The parameter list of one layer: its length, the layer every entry names,
/// and the fact that no entry repeats.
proof fn lemma_layer_params_facts(layer: int, num_in: int, num_out: int)
    requires
        0 <= layer <= usize::MAX,
        0 <= num_in,
        0 <= num_out <= usize::MAX,
        num_in * num_out <= usize::MAX,
    ensures
        layer_params(layer, num_in, num_out).len() == num_in * num_out + num_out,
        forall|i: int|
            0 <= i < layer_params(layer, num_in, num_out).len() ==> param_layer(
                #[trigger] layer_params(layer, num_in, num_out)[i],
            ) == layer,
        forall|i: int, j: int|
            0 <= i < j < layer_params(layer, num_in, num_out).len() ==> layer_params(
                layer,
                num_in,
                num_out,
            )[i] != layer_params(layer, num_in, num_out)[j],
{
    lemma_mul_nonnegative(num_in, num_out);
    let s = layer_params(layer, num_in, num_out);
    let wl = num_in * num_out;
    assert forall|i: int| 0 <= i < s.len() implies param_layer(#[trigger] s[i]) == layer by {
        if i < wl {
            assert(s[i] == weight_params_prefix(layer, num_out, wl)[i]);
        } else {
            assert(s[i] == bias_params_prefix(layer, num_out)[i - wl]);
        }
    }
    assert forall|i: int, j: int| 0 <= i < j < s.len() implies s[i] != s[j] by {
        if j < wl {
            assert(num_out > 0) by (nonlinear_arith)
                requires
                    0 <= num_in,
                    0 <= num_out,
                    0 <= j < num_in * num_out,
            ;
            lemma_div_pos_is_pos(i, num_out);
            lemma_div_nonincreasing(i, num_out);
            lemma_mod_bound(i, num_out);
            lemma_div_pos_is_pos(j, num_out);
            lemma_div_nonincreasing(j, num_out);
            lemma_mod_bound(j, num_out);
            if s[i] == s[j] {
                assert((i / num_out) as usize == (j / num_out) as usize);
                assert((i % num_out) as usize == (j % num_out) as usize);
                lemma_fundamental_div_mod(i, num_out);
                lemma_fundamental_div_mod(j, num_out);
                assert(false);
            }
        } else if i < wl {
            assert(s[i] == weight_params_prefix(layer, num_out, wl)[i]);
            assert(s[j] == bias_params_prefix(layer, num_out)[j - wl]);
        } else {
            assert(s[i] == bias_params_prefix(layer, num_out)[i - wl]);
            assert(s[j] == bias_params_prefix(layer, num_out)[j - wl]);
        }
    }
}

/// The parameter list of layers `0 .. n`: every entry names a layer below `n`,
/// and no entry repeats.
proof fn lemma_params_up_to_facts<S>(net: Network<S>, n: int)
    requires
        net.wf(),
        0 <= n <= net.layers@.len(),
    ensures
        forall|i: int|
            0 <= i < net.params_up_to(n).len() ==> 0 <= param_layer(
                #[trigger] net.params_up_to(n)[i],
            ) < n,
        forall|i: int, j: int|
            0 <= i < j < net.params_up_to(n).len() ==> net.params_up_to(n)[i] != net.params_up_to(
                n,
            )[j],
    decreases n,
{
    if n > 0 {
        lemma_params_up_to_facts(net, n - 1);
        let num_in = net.layers@[n - 1].num_nodes_in as int;
        let num_out = net.layers@[n - 1].num_nodes_out as int;
        assert(net.layers@[n - 1].wf());
        assert(net.layers.len() == net.layers@.len());
        lemma_layer_params_facts(n - 1, num_in, num_out);
        let a = net.params_up_to(n - 1);
        let b = layer_params(n - 1, num_in, num_out);
        let s = net.params_up_to(n);
        assert forall|i: int| 0 <= i < s.len() implies 0 <= param_layer(#[trigger] s[i]) < n by {
            if i < a.len() {
                assert(s[i] == a[i]);
            } else {
                assert(s[i] == b[i - a.len()]);
            }
        }
        assert forall|i: int, j: int| 0 <= i < j < s.len() implies s[i] != s[j] by {
            if j < a.len() {
                assert(s[i] == a[i] && s[j] == a[j]);
            } else if i >= a.len() {
                assert(s[i] == b[i - a.len()] && s[j] == b[j - a.len()]);
            } else {
                assert(s[i] == a[i] && s[j] == b[j - a.len()]);
                assert(param_layer(s[i]) < n - 1);
                assert(param_layer(s[j]) == n - 1);
            }
        }
    }
}

/// No parameter appears twice in the visiting order: each perturbation of the
/// training step touches its own scalar, and each gradient estimate lands in
/// its own slot.
pub proof fn lemma_network_params_distinct<S>(net: Network<S>)
    requires
        net.wf(),
    ensures
        forall|i: int, j: int|
            0 <= i < j < net.network_params().len() ==> net.network_params()[i]
                != net.network_params()[j],
{
    lemma_params_up_to_facts(net, net.layers@.len() as int);
}

/// A valid parameter of a layer below `n` appears among the parameters of
/// layers `0 .. n`.
proof fn lemma_params_up_to_contains<S>(net: Network<S>, p: ParamRef, n: int)
    requires
        net.wf(),
        net.param_valid(p),
        param_layer(p) < n <= net.layers@.len(),
    ensures
        net.params_up_to(n).contains(p),
    decreases n,
{
    let a = net.params_up_to(n - 1);
    let num_in = net.layers@[n - 1].num_nodes_in as int;
    let num_out = net.layers@[n - 1].num_nodes_out as int;
    let b = layer_params(n - 1, num_in, num_out);
    let s = net.params_up_to(n);
    lemma_mul_nonnegative(num_in, num_out);
    if param_layer(p) == n - 1 {
        match p {
            ParamRef::Weight { layer, node_in, node_out } => {
                let c = node_in as int * num_out + node_out as int;
                lemma_weight_index_in_bounds(num_out, num_in, node_out as int, node_in as int);
                lemma_fundamental_div_mod_converse(c, num_out, node_in as int, node_out as int);
                assert(b[c] == p);
                assert(s[a.len() + c] == p);
                assert(0 <= a.len() + c < s.len());
                assert(s.contains(p));
            },
            ParamRef::Bias { layer, node_out } => {
                let c = num_in * num_out + node_out as int;
                assert(b[c] == bias_params_prefix(n - 1, num_out)[node_out as int]);
                assert(b[c] == p);
                assert(s[a.len() + c] == p);
                assert(0 <= a.len() + c < s.len());
                assert(s.contains(p));
            },
        }
    } else {
        lemma_params_up_to_contains(net, p, n - 1);
        let i = choose|i: int| 0 <= i < a.len() && a[i] == p;
        assert(s[i] == p);
        assert(s.contains(p));
    }
}

/// Every valid parameter appears in the visiting order: together with
/// `lemma_network_params_distinct`, the training step visits each trainable
/// scalar exactly once.
pub proof fn lemma_network_params_complete<S>(net: Network<S>, p: ParamRef)
    requires
        net.wf(),
        net.param_valid(p),
    ensures
        net.network_params().contains(p),
{
    lemma_params_up_to_contains(net, p, net.layers@.len() as int);
}

/// `post` is `pre` with one layer replaced by a layer of the same shape; the
/// network invariants carry over.
proof fn lemma_one_layer_replaced<S>(pre: Network<S>, post: Network<S>, lp: int)
    requires
        pre.wf(),
        0 <= lp < pre.layers@.len(),
        post.layers@.len() == pre.layers@.len(),
        forall|i: int|
            0 <= i < post.layers@.len() && i != lp ==> post.layers@[i] == pre.layers@[i],
        (#[trigger] post.layers@[lp]).shape_eq(pre.layers@[lp]),
        post.layers@[lp].wf(),
    ensures
        post.wf(),
        post.shape_eq(pre),
{
    assert forall|i: int|
        0 <= i < post.layers@.len() implies (#[trigger] post.layers@[i]).shape_eq(
        pre.layers@[i],
    ) by {
        if i != lp {
            assert(post.layers@[i] == pre.layers@[i]);
        }
    }
    assert forall|i: int| 0 <= i < post.layers@.len() implies (#[trigger] post.layers@[i]).wf() by {
        if i != lp {
            assert(post.layers@[i] == pre.layers@[i]);
            assert(pre.layers@[i].wf());
        }
    }
    assert forall|i: int|
        #![trigger post.layers@[i], post.layers@[i - 1]]
        1 <= i < post.layers@.len() implies post.layers@[i].num_nodes_in == post.layers@[i
        - 1].num_nodes_out by {
        assert(post.layers@[i].shape_eq(pre.layers@[i]));
        assert(post.layers@[i - 1].shape_eq(pre.layers@[i - 1]));
        assert(pre.layers@[i].num_nodes_in == pre.layers@[i - 1].num_nodes_out);
    }
    if post.layers@.len() > 0 {
        assert(post.layers@[0].shape_eq(pre.layers@[0]));
    }
}

/// Frame after writing one slot of a weight-shaped vector (`weights` itself,
/// or — when `to_gradient` is set — `cost_gradient_weights`): every parameter
/// and every gradient slot other than the written one reads as before.
#[verifier::spinoff_prover]
proof fn lemma_weight_write_frame<S>(
    pre: Network<S>,
    post: Network<S>,
    layer: usize,
    node_in: usize,
    node_out: usize,
    v: S,
    to_gradient: bool,
)
    requires
        pre.wf(),
        pre.param_valid(ParamRef::Weight { layer, node_in, node_out }),
        post.layers@.len() == pre.layers@.len(),
        forall|i: int|
            0 <= i < post.layers@.len() && i != layer as int ==> post.layers@[i]
                == pre.layers@[i],
        (#[trigger] post.layers@[layer as int]).shape_eq(pre.layers@[layer as int]),
        post.layers@[layer as int].wf(),
        post.layers@[layer as int].biases@ == pre.layers@[layer as int].biases@,
        if to_gradient {
            post.layers@[layer as int].weights@ == pre.layers@[layer as int].weights@
                && post.layers@[layer as int].cost_gradient_weights@ == pre.layers@[layer as int].cost_gradient_weights@.update(
                weight_index(
                    pre.layers@[layer as int].num_nodes_in as int,
                    node_in as int,
                    node_out as int,
                ),
                v,
            )
        } else {
            post.layers@[layer as int].cost_gradient_weights@ == pre.layers@[layer as int].cost_gradient_weights@
                && post.layers@[layer as int].weights@ == pre.layers@[layer as int].weights@.update(
                weight_index(
                    pre.layers@[layer as int].num_nodes_in as int,
                    node_in as int,
                    node_out as int,
                ),
                v,
            )
        },
        post.layers@[layer as int].cost_gradient_biases@ == pre.layers@[layer as int].cost_gradient_biases@,
    ensures
        post.wf(),
        post.shape_eq(pre),
        to_gradient ==> post.gradient_value(ParamRef::Weight { layer, node_in, node_out }) == v,
        !to_gradient ==> post.param_value(ParamRef::Weight { layer, node_in, node_out }) == v,
        forall|q: ParamRef|
            pre.param_valid(q) && (to_gradient || q != ParamRef::Weight {
                layer,
                node_in,
                node_out,
            }) ==> post.param_value(q) == pre.param_value(q),
        forall|q: ParamRef|
            pre.param_valid(q) && (!to_gradient || q != ParamRef::Weight {
                layer,
                node_in,
                node_out,
            }) ==> post.gradient_value(q) == pre.gradient_value(q),
{
    let lp = layer as int;
    let num_in = pre.layers@[lp].num_nodes_in as int;
    let num_out = pre.layers@[lp].num_nodes_out as int;
    lemma_one_layer_replaced(pre, post, lp);
    lemma_weight_index_in_bounds(num_in, num_out, node_in as int, node_out as int);
    let p = ParamRef::Weight { layer, node_in, node_out };
    assert forall|q: ParamRef| pre.param_valid(q) && (to_gradient || q != p) implies
        post.param_value(q) == pre.param_value(q) by {
        match q {
            ParamRef::Weight { layer: l2, node_in: ni2, node_out: no2 } => {
                if l2 == layer {
                    if !to_gradient {
                        lemma_weight_index_in_bounds(num_in, num_out, ni2 as int, no2 as int);
                        lemma_weight_index_injective(
                            num_in,
                            ni2 as int,
                            no2 as int,
                            node_in as int,
                            node_out as int,
                        );
                    }
                } else {
                    assert(post.layers@[l2 as int] == pre.layers@[l2 as int]);
                }
            },
            ParamRef::Bias { layer: l2, node_out: no2 } => {
                if l2 != layer {
                    assert(post.layers@[l2 as int] == pre.layers@[l2 as int]);
                }
            },
        }
    }
    assert forall|q: ParamRef| pre.param_valid(q) && (!to_gradient || q != p) implies
        post.gradient_value(q) == pre.gradient_value(q) by {
        match q {
            ParamRef::Weight { layer: l2, node_in: ni2, node_out: no2 } => {
                if l2 == layer {
                    if to_gradient {
                        lemma_weight_index_in_bounds(num_in, num_out, ni2 as int, no2 as int);
                        lemma_weight_index_injective(
                            num_in,
                            ni2 as int,
                            no2 as int,
                            node_in as int,
                            node_out as int,
                        );
                    }
                } else {
                    assert(post.layers@[l2 as int] == pre.layers@[l2 as int]);
                }
            },
            ParamRef::Bias { layer: l2, node_out: no2 } => {
                if l2 != layer {
                    assert(post.layers@[l2 as int] == pre.layers@[l2 as int]);
                }
            },
        }
    }
}

/// Frame after writing one slot of a bias-shaped vector (`biases` itself, or —
/// when `to_gradient` is set — `cost_gradient_biases`): every parameter and
/// every gradient slot other than the written one reads as before.
#[verifier::spinoff_prover]
proof fn lemma_bias_write_frame<S>(
    pre: Network<S>,
    post: Network<S>,
    layer: usize,
    node_out: usize,
    v: S,
    to_gradient: bool,
)
    requires
        pre.wf(),
        pre.param_valid(ParamRef::Bias { layer, node_out }),
        post.layers@.len() == pre.layers@.len(),
        forall|i: int|
            0 <= i < post.layers@.len() && i != layer as int ==> post.layers@[i]
                == pre.layers@[i],
        (#[trigger] post.layers@[layer as int]).shape_eq(pre.layers@[layer as int]),
        post.layers@[layer as int].wf(),
        post.layers@[layer as int].weights@ == pre.layers@[layer as int].weights@,
        if to_gradient {
            post.layers@[layer as int].biases@ == pre.layers@[layer as int].biases@
                && post.layers@[layer as int].cost_gradient_biases@ == pre.layers@[layer as int].cost_gradient_biases@.update(
                node_out as int,
                v,
            )
        } else {
            post.layers@[layer as int].cost_gradient_biases@ == pre.layers@[layer as int].cost_gradient_biases@
                && post.layers@[layer as int].biases@ == pre.layers@[layer as int].biases@.update(
                node_out as int,
                v,
            )
        },
        post.layers@[layer as int].cost_gradient_weights@ == pre.layers@[layer as int].cost_gradient_weights@,
    ensures
        post.wf(),
        post.shape_eq(pre),
        to_gradient ==> post.gradient_value(ParamRef::Bias { layer, node_out }) == v,
        !to_gradient ==> post.param_value(ParamRef::Bias { layer, node_out }) == v,
        forall|q: ParamRef|
            pre.param_valid(q) && (to_gradient || q != ParamRef::Bias { layer, node_out })
                ==> post.param_value(q) == pre.param_value(q),
        forall|q: ParamRef|
            pre.param_valid(q) && (!to_gradient || q != ParamRef::Bias { layer, node_out })
                ==> post.gradient_value(q) == pre.gradient_value(q),
{
    let lp = layer as int;
    lemma_one_layer_replaced(pre, post, lp);
    let p = ParamRef::Bias { layer, node_out };
    assert forall|q: ParamRef| pre.param_valid(q) && (to_gradient || q != p) implies
        post.param_value(q) == pre.param_value(q) by {
        match q {
            ParamRef::Weight { layer: l2, node_in: ni2, node_out: no2 } => {
                if l2 != layer {
                    assert(post.layers@[l2 as int] == pre.layers@[l2 as int]);
                }
            },
            ParamRef::Bias { layer: l2, node_out: no2 } => {
                if l2 != layer {
                    assert(post.layers@[l2 as int] == pre.layers@[l2 as int]);
                }
            },
        }
    }
    assert forall|q: ParamRef| pre.param_valid(q) && (!to_gradient || q != p) implies
        post.gradient_value(q) == pre.gradient_value(q) by {
        match q {
            ParamRef::Weight { layer: l2, node_in: ni2, node_out: no2 } => {
                if l2 != layer {
                    assert(post.layers@[l2 as int] == pre.layers@[l2 as int]);
                }
            },
            ParamRef::Bias { layer: l2, node_out: no2 } => {
                if l2 != layer {
                    assert(post.layers@[l2 as int] == pre.layers@[l2 as int]);
                }
            },
        }
    }
}

} // verus!
