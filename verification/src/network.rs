//! The feed-forward network: layers of neurons, each neuron a bias and one
//! weight per input.
//!
//! A network flattens to, and rehydrates from, a flat parameter sequence in
//! a strict order — layer-major, then neuron-major, then bias before
//! weights — so a chromosome and a network interconvert deterministically.

use vstd::prelude::*;
use vstd::arithmetic::mul::lemma_mul_nonnegative;

use crate::error::Error;
use crate::random::RandomSource;
use crate::scalar::Scalar;

verus! {

/// The width of one layer of a topology: how many neurons it holds.
pub struct LayerTopology {
    pub neurons: usize,
}

/// One neuron: a bias, and one weight per input of the owning layer.
pub struct Neuron<G> {
    pub bias: G,
    pub weights: Vec<G>,
}

/// One trainable layer: an ordered sequence of neurons sharing an input
/// arity.
pub struct Layer<G> {
    pub neurons: Vec<Neuron<G>>,
}

/// A feed-forward network: an ordered sequence of trainable layers.
pub struct Network<G> {
    pub layers: Vec<Layer<G>>,
}

/// The flat parameters of one neuron: its bias, then its weights in input
/// order.
pub open spec fn neuron_params<G>(n: Neuron<G>) -> Seq<G> {
    seq![n.bias] + n.weights@
}

/// The flat parameters of a sequence of neurons, in order.
pub open spec fn neurons_params<G>(ns: Seq<Neuron<G>>) -> Seq<G>
    decreases ns.len(),
{
    if ns.len() == 0 {
        Seq::empty()
    } else {
        neuron_params(ns[0]) + neurons_params(ns.drop_first())
    }
}

/// The flat parameters of a sequence of layers, in order.
pub open spec fn layers_params<G>(ls: Seq<Layer<G>>) -> Seq<G>
    decreases ls.len(),
{
    if ls.len() == 0 {
        Seq::empty()
    } else {
        neurons_params(ls[0].neurons@) + layers_params(ls.drop_first())
    }
}

/// How many parameters a topology asks for: for each consecutive pair of
/// widths, one layer of `out` neurons each holding a bias and `in` weights.
pub open spec fn param_count(t: Seq<LayerTopology>) -> nat
    decreases t.len(),
{
    if t.len() < 2 {
        0
    } else {
        (t[1].neurons * (t[0].neurons + 1)) as nat + param_count(t.drop_first())
    }
}

/// What a weighted sum denotes: the products of inputs and weights,
/// position by position, accumulated left to right from zero.
pub open spec fn weighted_sum<G: Scalar>(inputs: Seq<G>, weights: Seq<G>) -> G
    decreases inputs.len(),
{
    if inputs.len() == 0 {
        G::zero_spec()
    } else {
        weighted_sum(inputs.drop_last(), weights.drop_last()).plus_spec(
            inputs.last().times_spec(weights.last()),
        )
    }
}

/// What one neuron's response denotes: the rectified sum of its bias and
/// the weighted inputs.
pub open spec fn neuron_response<G: Scalar>(n: Neuron<G>, inputs: Seq<G>) -> G {
    n.bias.plus_spec(weighted_sum(inputs, n.weights@)).relu_spec()
}

/// What one layer's response denotes: its neurons' responses, in order.
pub open spec fn layer_response<G: Scalar>(l: Layer<G>, inputs: Seq<G>) -> Seq<G> {
    Seq::new(l.neurons@.len(), |i: int| neuron_response(l.neurons@[i], inputs))
}

/// What a network's response denotes: the input vector folded through the
/// layers in declared order.
pub open spec fn network_response<G: Scalar>(layers: Seq<Layer<G>>, inputs: Seq<G>) -> Seq<G>
    decreases layers.len(),
{
    if layers.len() == 0 {
        inputs
    } else {
        network_response(layers.drop_first(), layer_response(layers[0], inputs))
    }
}

/// One step of the response fold: a non-empty layer sequence responds as
/// its tail does to its first layer's response.
proof fn lemma_network_response_step<G: Scalar>(ls: Seq<Layer<G>>, xs: Seq<G>)
    requires
        ls.len() > 0,
    ensures
        network_response(ls, xs) == network_response(ls.drop_first(), layer_response(ls[0], xs)),
{
}

impl<G> Layer<G> {
    /// The input arity the layer expects: its first neuron's weight count.
    pub open spec fn arity(self) -> nat {
        self.neurons@[0].weights@.len()
    }

    /// Whether every neuron of the layer shares the layer's input arity.
    pub open spec fn uniform(self) -> bool {
        forall|j: int|
            0 <= j < self.neurons@.len() ==> (#[trigger] self.neurons@[j]).weights@.len()
                == self.arity()
    }
}

impl<G> Network<G> {
    /// Structural well-formedness: at least one layer, no empty layer, every
    /// layer uniform, and each layer's arity equal to the width of the layer
    /// before it.
    pub open spec fn wf(self) -> bool {
        &&& self.layers@.len() >= 1
        &&& forall|i: int|
            0 <= i < self.layers@.len() ==> (#[trigger] self.layers@[i]).neurons@.len() > 0
        &&& forall|i: int| 0 <= i < self.layers@.len() ==> (#[trigger] self.layers@[i]).uniform()
        &&& forall|i: int|
            1 <= i < self.layers@.len() ==> (#[trigger] self.layers@[i]).arity()
                == self.layers@[i - 1].neurons@.len()
    }

    /// The input width the network expects.
    pub open spec fn input_arity(self) -> nat {
        self.layers@[0].arity()
    }

    /// The output width the network produces.
    pub open spec fn output_arity(self) -> nat {
        self.layers@.last().neurons@.len()
    }

    /// The network's flat parameter sequence.
    pub open spec fn params(self) -> Seq<G> {
        layers_params(self.layers@)
    }

    /// Whether the network has exactly the shape the topology declares: one
    /// layer per consecutive pair of widths, each of the second width's
    /// neurons, each neuron with one weight per neuron of the first width.
    pub open spec fn matches_topology(self, t: Seq<LayerTopology>) -> bool {
        &&& self.layers@.len() + 1 == t.len()
        &&& forall|i: int|
            0 <= i < self.layers@.len() ==> (#[trigger] self.layers@[i]).neurons@.len() == t[i
                + 1].neurons
        &&& forall|i: int, j: int|
            0 <= i < self.layers@.len() && 0 <= j < self.layers@[i].neurons@.len() ==> (
            #[trigger] self.layers@[i].neurons@[j]).weights@.len() == t[i].neurons
    }
}

/// A network shaped by a topology of positive widths is well-formed.
pub proof fn lemma_topology_wf<G>(n: Network<G>, t: Seq<LayerTopology>)
    requires
        t.len() >= 2,
        n.matches_topology(t),
        forall|i: int| 0 <= i < t.len() ==> (#[trigger] t[i]).neurons > 0,
    ensures
        n.wf(),
        n.input_arity() == t[0].neurons,
        n.output_arity() == t.last().neurons,
{
    assert forall|i: int| 0 <= i < n.layers@.len() implies (#[trigger] n.layers@[i]).uniform() by {
        assert(n.layers@[i].neurons@.len() == t[i + 1].neurons);
        assert(n.layers@[i].neurons@[0].weights@.len() == t[i].neurons);
    }
}

/// Appending one neuron appends its parameters.
proof fn lemma_neurons_params_push<G>(ns: Seq<Neuron<G>>, n: Neuron<G>)
    ensures
        neurons_params(ns.push(n)) == neurons_params(ns) + neuron_params(n),
    decreases ns.len(),
{
    if ns.len() == 0 {
        assert(ns.push(n)[0] == n);
        assert(ns.push(n).drop_first() =~= Seq::<Neuron<G>>::empty());
        assert(neurons_params(Seq::<Neuron<G>>::empty()) == Seq::<G>::empty());
        assert(neuron_params(n) + Seq::<G>::empty() =~= neuron_params(n));
        assert(neurons_params(ns) + neuron_params(n) =~= neuron_params(n));
    } else {
        lemma_neurons_params_push(ns.drop_first(), n);
        assert(ns.push(n).drop_first() =~= ns.drop_first().push(n));
        assert(ns.push(n)[0] == ns[0]);
        assert(neuron_params(ns[0]) + (neurons_params(ns.drop_first()) + neuron_params(n))
            =~= (neuron_params(ns[0]) + neurons_params(ns.drop_first())) + neuron_params(n));
    }
}

/// Appending one layer appends its parameters.
proof fn lemma_layers_params_push<G>(ls: Seq<Layer<G>>, l: Layer<G>)
    ensures
        layers_params(ls.push(l)) == layers_params(ls) + neurons_params(l.neurons@),
    decreases ls.len(),
{
    if ls.len() == 0 {
        assert(ls.push(l)[0] == l);
        assert(ls.push(l).drop_first() =~= Seq::<Layer<G>>::empty());
        assert(layers_params(Seq::<Layer<G>>::empty()) == Seq::<G>::empty());
        assert(neurons_params(l.neurons@) + Seq::<G>::empty() =~= neurons_params(l.neurons@));
        assert(layers_params(ls) + neurons_params(l.neurons@) =~= neurons_params(l.neurons@));
    } else {
        lemma_layers_params_push(ls.drop_first(), l);
        assert(ls.push(l).drop_first() =~= ls.drop_first().push(l));
        assert(ls.push(l)[0] == ls[0]);
        assert(neurons_params(ls[0].neurons@) + (layers_params(ls.drop_first()) + neurons_params(
            l.neurons@,
        )) =~= (neurons_params(ls[0].neurons@) + layers_params(ls.drop_first())) + neurons_params(
            l.neurons@,
        ));
    }
}

/// Neurons of a shared arity flatten to one bias and `arity` weights each.
proof fn lemma_neurons_params_len<G>(ns: Seq<Neuron<G>>, arity: nat)
    requires
        forall|j: int| 0 <= j < ns.len() ==> (#[trigger] ns[j]).weights@.len() == arity,
    ensures
        neurons_params(ns).len() == ns.len() * (arity + 1),
    decreases ns.len(),
{
    if ns.len() == 0 {
    } else {
        lemma_neurons_params_len(ns.drop_first(), arity);
        assert((ns.len() - 1) * (arity + 1) + (arity + 1) == ns.len() * (arity + 1))
            by (nonlinear_arith);
    }
}

/// Layers shaped by a topology flatten to the topology's parameter count.
proof fn lemma_layers_params_len<G>(ls: Seq<Layer<G>>, t: Seq<LayerTopology>)
    requires
        ls.len() + 1 == t.len(),
        forall|i: int| 0 <= i < ls.len() ==> (#[trigger] ls[i]).neurons@.len() == t[i + 1].neurons,
        forall|i: int, j: int|
            0 <= i < ls.len() && 0 <= j < ls[i].neurons@.len() ==> (
            #[trigger] ls[i].neurons@[j]).weights@.len() == t[i].neurons,
    ensures
        layers_params(ls).len() == param_count(t),
    decreases ls.len(),
{
    if ls.len() == 0 {
    } else {
        assert forall|i: int| 0 <= i < ls.drop_first().len() implies (
        #[trigger] ls.drop_first()[i]).neurons@.len() == t.drop_first()[i + 1].neurons by {
            assert(ls.drop_first()[i] == ls[i + 1]);
            assert(t.drop_first()[i + 1] == t[i + 2]);
        }
        assert forall|i: int, j: int|
            0 <= i < ls.drop_first().len() && 0 <= j
                < ls.drop_first()[i].neurons@.len() implies (
        #[trigger] ls.drop_first()[i].neurons@[j]).weights@.len()
            == t.drop_first()[i].neurons by {
            assert(ls.drop_first()[i] == ls[i + 1]);
            assert(t.drop_first()[i] == t[i + 1]);
        }
        lemma_layers_params_len(ls.drop_first(), t.drop_first());
        lemma_neurons_params_len(ls[0].neurons@, t[0].neurons as nat);
    }
}

/// Neuron sequences of a shared shape with the same flat parameters hold
/// the same biases and weights, position by position.
proof fn lemma_neurons_params_determine<G>(ns1: Seq<Neuron<G>>, ns2: Seq<Neuron<G>>, arity: nat)
    requires
        ns1.len() == ns2.len(),
        forall|j: int| 0 <= j < ns1.len() ==> (#[trigger] ns1[j]).weights@.len() == arity,
        forall|j: int| 0 <= j < ns2.len() ==> (#[trigger] ns2[j]).weights@.len() == arity,
        neurons_params(ns1) == neurons_params(ns2),
    ensures
        forall|j: int|
            0 <= j < ns1.len() ==> (#[trigger] ns1[j]).bias == ns2[j].bias && ns1[j].weights@
                == ns2[j].weights@,
    decreases ns1.len(),
{
    if ns1.len() == 0 {
    } else {
        let w = neurons_params(ns1);
        let head = arity + 1;
        assert(neuron_params(ns1[0]).len() == head);
        assert(neuron_params(ns2[0]).len() == head);
        assert(neuron_params(ns1[0]) =~= w.take(head as int));
        assert(neuron_params(ns2[0]) =~= w.take(head as int));
        assert(ns1[0].bias == neuron_params(ns1[0])[0]);
        assert(ns1[0].weights@ =~= neuron_params(ns1[0]).subrange(1, head as int));
        assert(ns2[0].weights@ =~= neuron_params(ns2[0]).subrange(1, head as int));
        assert(neurons_params(ns1.drop_first()) =~= w.skip(head as int));
        assert(neurons_params(ns2.drop_first()) =~= w.skip(head as int));
        lemma_neurons_params_determine(ns1.drop_first(), ns2.drop_first(), arity);
        assert forall|j: int| 0 <= j < ns1.len() implies (#[trigger] ns1[j]).bias == ns2[j].bias
            && ns1[j].weights@ == ns2[j].weights@ by {
            if j > 0 {
                assert(ns1.drop_first()[j - 1] == ns1[j]);
                assert(ns2.drop_first()[j - 1] == ns2[j]);
            }
        }
    }
}

/// Layer sequences of a shared topology with the same flat parameters hold
/// the same biases and weights, position by position.
proof fn lemma_layers_params_determine<G>(
    ls1: Seq<Layer<G>>,
    ls2: Seq<Layer<G>>,
    t: Seq<LayerTopology>,
)
    requires
        ls1.len() == ls2.len(),
        ls1.len() + 1 == t.len(),
        forall|i: int| 0 <= i < ls1.len() ==> (#[trigger] ls1[i]).neurons@.len() == t[i
            + 1].neurons,
        forall|i: int| 0 <= i < ls2.len() ==> (#[trigger] ls2[i]).neurons@.len() == t[i
            + 1].neurons,
        forall|i: int, j: int|
            0 <= i < ls1.len() && 0 <= j < ls1[i].neurons@.len() ==> (
            #[trigger] ls1[i].neurons@[j]).weights@.len() == t[i].neurons,
        forall|i: int, j: int|
            0 <= i < ls2.len() && 0 <= j < ls2[i].neurons@.len() ==> (
            #[trigger] ls2[i].neurons@[j]).weights@.len() == t[i].neurons,
        layers_params(ls1) == layers_params(ls2),
    ensures
        forall|i: int, j: int|
            0 <= i < ls1.len() && 0 <= j < ls1[i].neurons@.len() ==> (
            #[trigger] ls1[i].neurons@[j]).bias == ls2[i].neurons@[j].bias
                && ls1[i].neurons@[j].weights@ == ls2[i].neurons@[j].weights@,
    decreases ls1.len(),
{
    if ls1.len() == 0 {
    } else {
        let w = layers_params(ls1);
        lemma_neurons_params_len(ls1[0].neurons@, t[0].neurons as nat);
        lemma_neurons_params_len(ls2[0].neurons@, t[0].neurons as nat);
        let head = neurons_params(ls1[0].neurons@).len();
        assert(neurons_params(ls2[0].neurons@).len() == head);
        assert(neurons_params(ls1[0].neurons@) =~= w.take(head as int));
        assert(neurons_params(ls2[0].neurons@) =~= w.take(head as int));
        lemma_neurons_params_determine(
            ls1[0].neurons@,
            ls2[0].neurons@,
            t[0].neurons as nat,
        );
        assert(layers_params(ls1.drop_first()) =~= w.skip(head as int));
        assert(layers_params(ls2.drop_first()) =~= w.skip(head as int));
        assert forall|i: int| 0 <= i < ls1.drop_first().len() implies (
        #[trigger] ls1.drop_first()[i]).neurons@.len() == t.drop_first()[i + 1].neurons by {
            assert(ls1.drop_first()[i] == ls1[i + 1]);
            assert(t.drop_first()[i + 1] == t[i + 2]);
        }
        assert forall|i: int| 0 <= i < ls2.drop_first().len() implies (
        #[trigger] ls2.drop_first()[i]).neurons@.len() == t.drop_first()[i + 1].neurons by {
            assert(ls2.drop_first()[i] == ls2[i + 1]);
            assert(t.drop_first()[i + 1] == t[i + 2]);
        }
        assert forall|i: int, j: int|
            0 <= i < ls1.drop_first().len() && 0 <= j
                < ls1.drop_first()[i].neurons@.len() implies (
        #[trigger] ls1.drop_first()[i].neurons@[j]).weights@.len()
            == t.drop_first()[i].neurons by {
            assert(ls1.drop_first()[i] == ls1[i + 1]);
            assert(t.drop_first()[i] == t[i + 1]);
        }
        assert forall|i: int, j: int|
            0 <= i < ls2.drop_first().len() && 0 <= j
                < ls2.drop_first()[i].neurons@.len() implies (
        #[trigger] ls2.drop_first()[i].neurons@[j]).weights@.len()
            == t.drop_first()[i].neurons by {
            assert(ls2.drop_first()[i] == ls2[i + 1]);
            assert(t.drop_first()[i] == t[i + 1]);
        }
        lemma_layers_params_determine(ls1.drop_first(), ls2.drop_first(), t.drop_first());
        assert forall|i: int, j: int|
            0 <= i < ls1.len() && 0 <= j < ls1[i].neurons@.len() implies (
        #[trigger] ls1[i].neurons@[j]).bias == ls2[i].neurons@[j].bias
            && ls1[i].neurons@[j].weights@ == ls2[i].neurons@[j].weights@ by {
            if i > 0 {
                assert(ls1.drop_first()[i - 1] == ls1[i]);
                assert(ls2.drop_first()[i - 1] == ls2[i]);
            }
        }
    }
}

/// The topology and the flat sequence determine the network: two networks
/// of the same topology with the same flat parameters agree on every bias
/// and every weight. Together with the contracts of [`Network::data`] and
/// [`Network::from_data`], the two are mutual inverses given a consistent
/// topology.
pub proof fn lemma_flat_determines_network<G>(n1: Network<G>, n2: Network<G>, t: Seq<LayerTopology>)
    requires
        n1.matches_topology(t),
        n2.matches_topology(t),
        n1.params() == n2.params(),
    ensures
        n1.layers@.len() == n2.layers@.len(),
        forall|i: int|
            0 <= i < n1.layers@.len() ==> (#[trigger] n1.layers@[i]).neurons@.len()
                == n2.layers@[i].neurons@.len(),
        forall|i: int, j: int|
            0 <= i < n1.layers@.len() && 0 <= j < n1.layers@[i].neurons@.len() ==> (
            #[trigger] n1.layers@[i].neurons@[j]).bias == n2.layers@[i].neurons@[j].bias
                && n1.layers@[i].neurons@[j].weights@ == n2.layers@[i].neurons@[j].weights@,
{
    lemma_layers_params_determine(n1.layers@, n2.layers@, t);
}

/// A network shaped by a topology flattens to exactly the topology's
/// parameter count — so the flat sequence its [`Network::data`] produces is
/// always accepted when rehydrated through [`Network::from_data`] with the
/// same topology.
pub proof fn lemma_params_length<G>(n: Network<G>, t: Seq<LayerTopology>)
    requires
        n.matches_topology(t),
    ensures
        n.params().len() == param_count(t),
{
    lemma_layers_params_len(n.layers@, t);
}

/// One more window of the topology adds one layer's worth of parameters.
proof fn lemma_param_count_take(t: Seq<LayerTopology>, k: int)
    requires
        1 <= k < t.len(),
    ensures
        param_count(t.take(k + 1)) == param_count(t.take(k)) + t[k].neurons * (t[k - 1].neurons
            + 1),
        t[k].neurons * (t[k - 1].neurons + 1) >= 0,
    decreases k,
{
    lemma_mul_nonnegative(t[k].neurons as int, t[k - 1].neurons + 1);
    if k == 1 {
        assert(t.take(2)[0] == t[0]);
        assert(t.take(2)[1] == t[1]);
        assert(t.take(2).drop_first() =~= seq![t[1]]);
        assert(param_count(seq![t[1]]) == 0);
        assert(param_count(t.take(1)) == 0);
    } else {
        lemma_param_count_take(t.drop_first(), k - 1);
        assert(t.take(k + 1).drop_first() =~= t.drop_first().take(k));
        assert(t.take(k).drop_first() =~= t.drop_first().take(k - 1));
        assert(t.take(k + 1)[0] == t[0]);
        assert(t.take(k + 1)[1] == t[1]);
        assert(t.take(k)[0] == t[0]);
        assert(t.take(k)[1] == t[1]);
        assert(t.drop_first()[k - 1] == t[k]);
        assert(t.drop_first()[k - 2] == t[k - 1]);
    }
}

/// A topology asks for at least as many parameters as any of its prefixes.
proof fn lemma_param_count_mono(t: Seq<LayerTopology>, k: int)
    requires
        1 <= k <= t.len(),
    ensures
        param_count(t.take(k)) <= param_count(t),
    decreases t.len() - k,
{
    if k == t.len() {
        assert(t.take(k) =~= t);
    } else {
        lemma_param_count_take(t, k);
        lemma_param_count_mono(t, k + 1);
    }
}

impl<G: Scalar> Network<G> {
    /// The flat parameter sequence of the network — the exact structural
    /// inverse of [`Network::from_data`]: layer-major, then neuron-major,
    /// then bias before weights.
    pub fn data(&self) -> (r: Vec<G>)
        ensures
            r@ == self.params(),
    {
        let mut out: Vec<G> = Vec::new();
        proof {
            assert(self.layers@.take(0) =~= Seq::<Layer<G>>::empty());
        }
        let ghost all = self.layers@;
        let mut li: usize = 0;
        while li < self.layers.len()
            invariant
                all == self.layers@,
                li <= all.len(),
                out@ == layers_params(all.take(li as int)),
            decreases all.len() - li,
        {
            let layer = &self.layers[li];
            let ghost ns = layer.neurons@;
            let ghost before = out@;
            proof {
                assert(ns.take(0) =~= Seq::<Neuron<G>>::empty());
                assert(out@ =~= before + neurons_params(ns.take(0)));
            }
            let mut ni: usize = 0;
            while ni < layer.neurons.len()
                invariant
                    ns == layer.neurons@,
                    ni <= ns.len(),
                    out@ == before + neurons_params(ns.take(ni as int)),
                decreases ns.len() - ni,
            {
                let neuron = &layer.neurons[ni];
                out.push(neuron.bias);
                let mut wi: usize = 0;
                let ghost mid = out@;
                while wi < neuron.weights.len()
                    invariant
                        wi <= neuron.weights@.len(),
                        out@ == mid + neuron.weights@.take(wi as int),
                    decreases neuron.weights@.len() - wi,
                {
                    proof {
                        assert(neuron.weights@.take(wi + 1) =~= neuron.weights@.take(
                            wi as int,
                        ).push(neuron.weights@[wi as int]));
                        assert(out@.push(neuron.weights@[wi as int]) =~= mid
                            + neuron.weights@.take(wi + 1));
                    }
                    out.push(neuron.weights[wi]);
                    wi = wi + 1;
                }
                proof {
                    assert(neuron.weights@.take(neuron.weights@.len() as int)
                        =~= neuron.weights@);
                    assert(ns.take(ni + 1) =~= ns.take(ni as int).push(ns[ni as int]));
                    lemma_neurons_params_push(ns.take(ni as int), ns[ni as int]);
                    assert(neuron_params(ns[ni as int]) =~= seq![neuron.bias] + neuron.weights@);
                    assert(out@ =~= before + neurons_params(ns.take(ni + 1)));
                }
                ni = ni + 1;
            }
            proof {
                assert(ns.take(ns.len() as int) =~= ns);
                assert(all.take(li + 1) =~= all.take(li as int).push(all[li as int]));
                lemma_layers_params_push(all.take(li as int), all[li as int]);
                assert(out@ =~= layers_params(all.take(li + 1)));
            }
            li = li + 1;
        }
        proof {
            assert(all.take(all.len() as int) =~= all);
        }
        out
    }

    /// The network a flat parameter sequence rehydrates to, consuming
    /// exactly one bias then `in` weights per neuron, per layer, in topology
    /// order. Fails with `DataExhausted` exactly when the sequence's length
    /// differs from the topology's parameter count — running out early and
    /// leaving values unconsumed alike.
    pub fn from_data(topology: &Vec<LayerTopology>, data: &Vec<G>) -> (r: Result<Network<G>, Error>)
        requires
            topology@.len() >= 2,
        ensures
            r is Ok <==> data@.len() == param_count(topology@),
            r matches Ok(n) ==> n.matches_topology(topology@) && n.params() == data@,
            r is Err ==> r == Err::<Network<G>, Error>(Error::DataExhausted),
    {
        let ghost t = topology@;
        let mut layers: Vec<Layer<G>> = Vec::new();
        let mut pos: usize = 0;
        let mut li: usize = 0;
        proof {
            assert(param_count(t.take(1)) == 0);
            assert(layers_params(layers@) =~= data@.take(0));
        }
        while li < topology.len() - 1
            invariant
                t == topology@,
                t.len() >= 2,
                li + 1 <= t.len(),
                layers@.len() == li,
                pos <= data@.len(),
                pos == param_count(t.take(li + 1)),
                layers_params(layers@) == data@.take(pos as int),
                forall|x: int|
                    0 <= x < li ==> (#[trigger] layers@[x]).neurons@.len() == t[x + 1].neurons,
                forall|x: int, j: int|
                    0 <= x < li && 0 <= j < layers@[x].neurons@.len() ==> (
                    #[trigger] layers@[x].neurons@[j]).weights@.len() == t[x].neurons,
            decreases t.len() - li,
        {
            let in_w = topology[li].neurons;
            let out_w = topology[li + 1].neurons;
            let ghost base = pos as int;
            let mut neurons: Vec<Neuron<G>> = Vec::new();
            let mut ni: usize = 0;
            while ni < out_w
                invariant
                    t == topology@,
                    t.len() >= 2,
                    li + 1 < t.len(),
                    in_w == t[li as int].neurons,
                    out_w == t[li + 1].neurons,
                    neurons@.len() == ni,
                    ni <= out_w,
                    pos <= data@.len(),
                    base == param_count(t.take(li + 1)),
                    pos == base + ni * (in_w + 1),
                    layers@.len() == li,
                    layers_params(layers@) == data@.take(base),
                    layers_params(layers@) + neurons_params(neurons@) == data@.take(pos as int),
                    forall|j: int| 0 <= j < ni ==> (#[trigger] neurons@[j]).weights@.len() == in_w,
                    forall|x: int|
                        0 <= x < li ==> (#[trigger] layers@[x]).neurons@.len() == t[x + 1].neurons,
                    forall|x: int, j: int|
                        0 <= x < li && 0 <= j < layers@[x].neurons@.len() ==> (
                        #[trigger] layers@[x].neurons@[j]).weights@.len() == t[x].neurons,
                decreases out_w - ni,
            {
                if pos >= data.len() {
                    proof {
                        lemma_param_count_take(t, li + 1);
                        assert(out_w * (in_w + 1) >= ni * (in_w + 1) + (in_w + 1))
                            by (nonlinear_arith)
                            requires
                                0 <= ni < out_w,
                                0 <= in_w,
                        ;
                        lemma_param_count_mono(t, li + 2);
                    }
                    return Err(Error::DataExhausted);
                }
                let bias = data[pos];
                let ghost nstart = pos as int;
                pos = pos + 1;
                let mut weights: Vec<G> = Vec::new();
                let mut wi: usize = 0;
                proof {
                    assert(weights@ =~= data@.subrange(nstart + 1, pos as int));
                }
                while wi < in_w
                    invariant
                        t == topology@,
                        t.len() >= 2,
                        li + 1 < t.len(),
                        in_w == t[li as int].neurons,
                        out_w == t[li + 1].neurons,
                        ni < out_w,
                        weights@.len() == wi,
                        wi <= in_w,
                        pos <= data@.len(),
                        base == param_count(t.take(li + 1)),
                        nstart == base + ni * (in_w + 1),
                        pos == nstart + 1 + wi,
                        nstart < data@.len(),
                        bias == data@[nstart],
                        weights@ == data@.subrange(nstart + 1, pos as int),
                    decreases in_w - wi,
                {
                    if pos >= data.len() {
                        proof {
                            lemma_param_count_take(t, li + 1);
                            assert(out_w * (in_w + 1) >= ni * (in_w + 1) + (in_w + 1))
                                by (nonlinear_arith)
                                requires
                                    0 <= ni < out_w,
                                    0 <= in_w,
                            ;
                            lemma_param_count_mono(t, li + 2);
                        }
                        return Err(Error::DataExhausted);
                    }
                    proof {
                        assert(data@.subrange(nstart + 1, pos + 1) =~= data@.subrange(
                            nstart + 1,
                            pos as int,
                        ).push(data@[pos as int]));
                    }
                    weights.push(data[pos]);
                    pos = pos + 1;
                    wi = wi + 1;
                }
                let neuron = Neuron { bias, weights };
                proof {
                    lemma_neurons_params_push(neurons@, neuron);
                    assert(neuron_params(neuron) =~= seq![bias] + neuron.weights@);
                    assert(data@.take(pos as int) =~= data@.take(nstart) + (seq![data@[nstart]]
                        + data@.subrange(nstart + 1, pos as int)));
                    assert((ni + 1) * (in_w + 1) == ni * (in_w + 1) + (in_w + 1))
                        by (nonlinear_arith);
                }
                neurons.push(neuron);
                ni = ni + 1;
            }
            let layer = Layer { neurons };
            proof {
                lemma_layers_params_push(layers@, layer);
                lemma_param_count_take(t, li + 1);
            }
            layers.push(layer);
            li = li + 1;
        }
        proof {
            assert(t.take(li + 1) =~= t);
        }
        if pos != data.len() {
            return Err(Error::DataExhausted);
        }
        proof {
            assert(data@.take(pos as int) =~= data@);
        }
        Ok(Network { layers })
    }

    /// A network of the declared shape with every bias and weight drawn
    /// freshly from `rng`, bias first, in layer-major, neuron-major order.
    pub fn random<R: RandomSource<G>>(rng: &mut R, topology: &Vec<LayerTopology>) -> (n: Network<
        G,
    >)
        requires
            topology@.len() >= 2,
        ensures
            n.matches_topology(topology@),
            forall|i: int, j: int|
                0 <= i < n.layers@.len() && 0 <= j < n.layers@[i].neurons@.len()
                    ==> R::gene_range((#[trigger] n.layers@[i].neurons@[j]).bias),
            forall|i: int, j: int, k: int|
                0 <= i < n.layers@.len() && 0 <= j < n.layers@[i].neurons@.len() && 0 <= k
                    < n.layers@[i].neurons@[j].weights@.len() ==> R::gene_range(
                    #[trigger] n.layers@[i].neurons@[j].weights@[k],
                ),
    {
        let ghost t = topology@;
        let mut layers: Vec<Layer<G>> = Vec::new();
        let mut li: usize = 0;
        while li < topology.len() - 1
            invariant
                t == topology@,
                t.len() >= 2,
                li + 1 <= t.len(),
                layers@.len() == li,
                forall|x: int|
                    0 <= x < li ==> (#[trigger] layers@[x]).neurons@.len() == t[x + 1].neurons,
                forall|x: int, j: int|
                    0 <= x < li && 0 <= j < layers@[x].neurons@.len() ==> (
                    #[trigger] layers@[x].neurons@[j]).weights@.len() == t[x].neurons,
                forall|x: int, j: int|
                    0 <= x < li && 0 <= j < layers@[x].neurons@.len() ==> R::gene_range(
                        (#[trigger] layers@[x].neurons@[j]).bias,
                    ),
                forall|x: int, j: int, k: int|
                    0 <= x < li && 0 <= j < layers@[x].neurons@.len() && 0 <= k
                        < layers@[x].neurons@[j].weights@.len() ==> R::gene_range(
                        #[trigger] layers@[x].neurons@[j].weights@[k],
                    ),
            decreases t.len() - li,
        {
            let layer = Layer::random(rng, topology[li].neurons, topology[li + 1].neurons);
            layers.push(layer);
            li = li + 1;
        }
        Network { layers }
    }
}

impl<G: Scalar> Layer<G> {
    /// A layer of `output_neurons` fresh neurons, each with `input_neurons`
    /// weights, drawn from `rng` in neuron order.
    pub fn random<R: RandomSource<G>>(
        rng: &mut R,
        input_neurons: usize,
        output_neurons: usize,
    ) -> (l: Layer<G>)
        ensures
            l.neurons@.len() == output_neurons,
            forall|j: int|
                0 <= j < output_neurons ==> (#[trigger] l.neurons@[j]).weights@.len()
                    == input_neurons,
            forall|j: int|
                0 <= j < output_neurons ==> R::gene_range((#[trigger] l.neurons@[j]).bias),
            forall|j: int, k: int|
                0 <= j < output_neurons && 0 <= k < input_neurons ==> R::gene_range(
                    #[trigger] l.neurons@[j].weights@[k],
                ),
    {
        let mut neurons: Vec<Neuron<G>> = Vec::new();
        let mut ni: usize = 0;
        while ni < output_neurons
            invariant
                neurons@.len() == ni,
                ni <= output_neurons,
                forall|j: int|
                    0 <= j < ni ==> (#[trigger] neurons@[j]).weights@.len() == input_neurons,
                forall|j: int| 0 <= j < ni ==> R::gene_range((#[trigger] neurons@[j]).bias),
                forall|j: int, k: int|
                    0 <= j < ni && 0 <= k < input_neurons ==> R::gene_range(
                        #[trigger] neurons@[j].weights@[k],
                    ),
            decreases output_neurons - ni,
        {
            neurons.push(Neuron::random(rng, input_neurons));
            ni = ni + 1;
        }
        Layer { neurons }
    }
}

impl<G: Scalar> Neuron<G> {
    /// A neuron with a fresh bias and `input_size` fresh weights, the bias
    /// drawn first.
    pub fn random<R: RandomSource<G>>(rng: &mut R, input_size: usize) -> (n: Neuron<G>)
        ensures
            n.weights@.len() == input_size,
            R::gene_range(n.bias),
            forall|k: int| 0 <= k < input_size ==> R::gene_range(#[trigger] n.weights@[k]),
    {
        let bias = rng.next_gene();
        let mut weights: Vec<G> = Vec::new();
        let mut wi: usize = 0;
        while wi < input_size
            invariant
                weights@.len() == wi,
                wi <= input_size,
                R::gene_range(bias),
                forall|k: int| 0 <= k < wi ==> R::gene_range(#[trigger] weights@[k]),
            decreases input_size - wi,
        {
            weights.push(rng.next_gene());
            wi = wi + 1;
        }
        Neuron { bias, weights }
    }
}

impl<G: Scalar> Neuron<G> {
    /// The neuron's response: the rectified sum of its bias and the
    /// weighted inputs. Fails with `ArityMismatch` exactly when the input
    /// width differs from the weight count.
    pub fn propagate(&self, inputs: &Vec<G>) -> (r: Result<G, Error>)
        ensures
            r is Ok <==> inputs@.len() == self.weights@.len(),
            r matches Ok(v) ==> v == neuron_response(*self, inputs@),
            r is Err ==> r == Err::<G, Error>(Error::ArityMismatch),
    {
        if inputs.len() != self.weights.len() {
            return Err(Error::ArityMismatch);
        }
        let mut acc = G::zero();
        let mut i: usize = 0;
        while i < inputs.len()
            invariant
                inputs@.len() == self.weights@.len(),
                i <= inputs@.len(),
                acc == weighted_sum(inputs@.take(i as int), self.weights@.take(i as int)),
            decreases inputs@.len() - i,
        {
            proof {
                assert(inputs@.take(i + 1).drop_last() =~= inputs@.take(i as int));
                assert(self.weights@.take(i + 1).drop_last() =~= self.weights@.take(i as int));
                assert(inputs@.take(i + 1).last() == inputs@[i as int]);
                assert(self.weights@.take(i + 1).last() == self.weights@[i as int]);
            }
            acc = acc.plus(inputs[i].times(self.weights[i]));
            i = i + 1;
        }
        proof {
            assert(inputs@.take(i as int) =~= inputs@);
            assert(self.weights@.take(i as int) =~= self.weights@);
        }
        Ok(self.bias.plus(acc).relu())
    }
}

impl<G: Scalar> Layer<G> {
    /// The ordered responses of the layer's neurons to one input vector.
    /// Fails with `ArityMismatch` exactly when the input width differs from
    /// the layer's arity.
    pub fn propagate(&self, inputs: &Vec<G>) -> (r: Result<Vec<G>, Error>)
        requires
            self.neurons@.len() > 0,
            self.uniform(),
        ensures
            r is Ok <==> inputs@.len() == self.arity(),
            r matches Ok(out) ==> out@ == layer_response(*self, inputs@),
            r matches Ok(out) ==> out@.len() == self.neurons@.len(),
            r is Err ==> r == Err::<Vec<G>, Error>(Error::ArityMismatch),
    {
        if inputs.len() != self.neurons[0].weights.len() {
            return Err(Error::ArityMismatch);
        }
        let mut out: Vec<G> = Vec::new();
        let mut i: usize = 0;
        while i < self.neurons.len()
            invariant
                self.neurons@.len() > 0,
                self.uniform(),
                inputs@.len() == self.arity(),
                i <= self.neurons@.len(),
                out@.len() == i,
                forall|j: int|
                    0 <= j < i ==> out@[j] == neuron_response(
                        #[trigger] self.neurons@[j],
                        inputs@,
                    ),
            decreases self.neurons@.len() - i,
        {
            match self.neurons[i].propagate(inputs) {
                Ok(v) => out.push(v),
                Err(_) => {
                    proof {
                        assert(self.neurons@[i as int].weights@.len() == self.arity());
                        assert(false);
                    }
                },
            }
            i = i + 1;
        }
        proof {
            assert(out@ =~= layer_response(*self, inputs@));
        }
        Ok(out)
    }
}

impl<G: Scalar> Network<G> {
    /// The network's response: the input vector folded through the layers
    /// in declared order. Fails with `ArityMismatch` exactly when the input
    /// width differs from the first layer's arity; the output width is the
    /// last layer's neuron count.
    pub fn propagate(&self, inputs: Vec<G>) -> (r: Result<Vec<G>, Error>)
        requires
            self.wf(),
        ensures
            r is Ok <==> inputs@.len() == self.input_arity(),
            r matches Ok(out) ==> out@ == network_response(self.layers@, inputs@),
            r matches Ok(out) ==> out@.len() == self.output_arity(),
            r is Err ==> r == Err::<Vec<G>, Error>(Error::ArityMismatch),
    {
        let mut current: Vec<G>;
        match self.layers[0].propagate(&inputs) {
            Ok(next) => {
                current = next;
            },
            Err(_) => {
                return Err(Error::ArityMismatch);
            },
        }
        proof {
            lemma_network_response_step(self.layers@, inputs@);
            assert(self.layers@.drop_first() =~= self.layers@.skip(1));
        }
        let mut li: usize = 1;
        while li < self.layers.len()
            invariant
                self.wf(),
                1 <= li <= self.layers@.len(),
                current@.len() == self.layers@[li - 1].neurons@.len(),
                inputs@.len() == self.input_arity(),
                network_response(self.layers@.skip(li as int), current@) == network_response(
                    self.layers@,
                    inputs@,
                ),
            decreases self.layers@.len() - li,
        {
            match self.layers[li].propagate(&current) {
                Ok(next) => {
                    proof {
                        let pre = self.layers@.skip(li as int);
                        lemma_network_response_step(pre, current@);
                        assert(pre[0] == self.layers@[li as int]);
                        assert(pre.drop_first() =~= self.layers@.skip(li + 1));
                    }
                    current = next;
                },
                Err(_) => {
                    proof {
                        assert(self.layers@[li as int].arity() == self.layers@[li
                            - 1].neurons@.len());
                        assert(false);
                    }
                    return Err(Error::ArityMismatch);
                },
            }
            li = li + 1;
        }
        proof {
            assert(self.layers@.skip(li as int) =~= Seq::<Layer<G>>::empty());
        }
        Ok(current)
    }
}

} // verus!
