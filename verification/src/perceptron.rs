//! Feedforward inference primitives: a neuron computes the rectified, clamped
//! weighted sum of its inputs; a layer applies every neuron to the same input
//! vector; a network feeds an input through its layers in order.
//!
//! Signals are fixed-point: a weight or bias lies in [-SCALE, SCALE], the
//! image of [-1, 1]; an input signal lies in [-INF_SIGNAL, INF_SIGNAL]; every
//! neuron output is rectified into [0, INF_SIGNAL].
use vstd::arithmetic::div_mod::lemma_div_multiples_vanish;
use vstd::prelude::*;

use crate::{INF_SIGNAL, MAX_NODES, SCALE};

verus! {

/// A single neuron: a bias and one weight per input signal.
#[derive(Debug, PartialEq)]
pub struct Neuron {
    pub bias: i64,
    pub weights: Vec<i64>,
}

/// Sum of the first `n` products `input[i] * w[i]`.
pub open spec fn dot_upto(input: Seq<i64>, w: Seq<i64>, n: int) -> int
    decreases n,
{
    if n <= 0 {
        0
    } else {
        dot_upto(input, w, n - 1) + input[n - 1] * w[n - 1]
    }
}

/// With inputs within the signal range and weights within the unit range,
/// the weighted sum of `n` terms is bounded by `n` times the largest product.
pub proof fn lemma_dot_bound(input: Seq<i64>, w: Seq<i64>, n: int)
    requires
        0 <= n <= input.len(),
        n <= w.len(),
        forall|i: int| 0 <= i < n ==> -INF_SIGNAL <= #[trigger] input[i] <= INF_SIGNAL,
        forall|i: int| 0 <= i < n ==> -SCALE <= #[trigger] w[i] <= SCALE,
    ensures
        -n * (INF_SIGNAL as int * SCALE as int) <= dot_upto(input, w, n) <= n * (INF_SIGNAL as int
            * SCALE as int),
    decreases n,
{
    if n > 0 {
        lemma_dot_bound(input, w, n - 1);
        assert(-(INF_SIGNAL as int * SCALE as int) <= input[n - 1] * w[n - 1] <= INF_SIGNAL as int
            * SCALE as int) by (nonlinear_arith)
            requires
                -INF_SIGNAL <= input[n - 1] <= INF_SIGNAL,
                -SCALE <= w[n - 1] <= SCALE,
        ;
    }
}

/// A weighted sum over all-zero weights is zero.
pub proof fn lemma_dot_zero(input: Seq<i64>, w: Seq<i64>, n: int)
    requires
        0 <= n <= w.len(),
        forall|i: int| 0 <= i < n ==> #[trigger] w[i] == 0,
    ensures
        dot_upto(input, w, n) == 0,
    decreases n,
{
    if n > 0 {
        lemma_dot_zero(input, w, n - 1);
    }
}

impl Neuron {
    /// Weights and bias lie in the unit range, and the fan-in is small enough
    /// that the accumulated sum cannot overflow.
    pub open spec fn wf(self) -> bool {
        &&& -SCALE <= self.bias <= SCALE
        &&& self.weights.len() <= MAX_NODES
        &&& forall|i: int| 0 <= i < self.weights.len() ==> -SCALE <= #[trigger] self.weights[i]
            <= SCALE
    }

    /// The neuron's output: the rectified linear activation of
    /// `bias + dot(input, weights)`, in fixed point (one division by SCALE
    /// restores the unit), clamped to the signal range from above.
    pub open spec fn out_spec(self, input: Seq<i64>) -> i64 {
        let pre = self.bias * SCALE + dot_upto(input, self.weights@, input.len() as int);
        if pre <= 0 {
            0
        } else if pre / (SCALE as int) > INF_SIGNAL {
            INF_SIGNAL
        } else {
            (pre / (SCALE as int)) as i64
        }
    }

    /// Applies the neuron to an input vector of matching length.
    pub fn propagate(&self, input: &Vec<i64>) -> (r: i64)
        requires
            self.wf(),
            input.len() == self.weights.len(),
            forall|i: int| 0 <= i < input.len() ==> -INF_SIGNAL <= #[trigger] input[i]
                <= INF_SIGNAL,
        ensures
            r == self.out_spec(input@),
            0 <= r <= INF_SIGNAL,
    {
        let mut acc: i64 = 0;
        let n = input.len();
        for i in 0..n
            invariant
                n == input.len(),
                n == self.weights.len(),
                self.wf(),
                forall|k: int| 0 <= k < n ==> -INF_SIGNAL <= #[trigger] input[k] <= INF_SIGNAL,
                acc == dot_upto(input@, self.weights@, i as int),
        {
            proof {
                lemma_dot_bound(input@, self.weights@, i as int);
                lemma_dot_bound(input@, self.weights@, i as int + 1);
                assert(-(INF_SIGNAL as int * SCALE as int) <= input@[i as int] * self.weights@[i
                    as int] <= INF_SIGNAL as int * SCALE as int) by (nonlinear_arith)
                    requires
                        -INF_SIGNAL <= input@[i as int] <= INF_SIGNAL,
                        -SCALE <= self.weights@[i as int] <= SCALE,
                ;
            }
            let p: i64 = input[i] * self.weights[i];
            acc = acc + p;
        }
        proof {
            assert(n <= MAX_NODES);
            assert(acc == dot_upto(input@, self.weights@, n as int));
            lemma_dot_bound(input@, self.weights@, n as int);
            assert(n * (INF_SIGNAL as int * SCALE as int) <= MAX_NODES * (INF_SIGNAL as int
                * SCALE as int)) by (nonlinear_arith)
                requires
                    n <= MAX_NODES,
            ;
            assert(-SCALE * SCALE <= self.bias * SCALE <= SCALE * SCALE) by (nonlinear_arith)
                requires
                    -SCALE <= self.bias <= SCALE,
            ;
        }
        let pre: i64 = self.bias * SCALE + acc;
        if pre <= 0 {
            0
        } else {
            let q: u64 = (pre as u64) / (SCALE as u64);
            if q > (INF_SIGNAL as u64) {
                INF_SIGNAL
            } else {
                q as i64
            }
        }
    }
}

/// A neuron whose weights are all zero produces the rectified bias,
/// `max(0, bias)`, whatever the input signals are.
pub proof fn lemma_zero_weights_bias(n: Neuron, input: Seq<i64>)
    requires
        n.wf(),
        input.len() == n.weights.len(),
        forall|i: int| 0 <= i < n.weights.len() ==> #[trigger] n.weights[i] == 0,
    ensures
        n.out_spec(input) == if n.bias <= 0 {
            0i64
        } else {
            n.bias
        },
{
    lemma_dot_zero(input, n.weights@, input.len() as int);
    if n.bias > 0 {
        assert(n.bias * SCALE >= SCALE) by (nonlinear_arith)
            requires
                n.bias >= 1,
        ;
        lemma_div_multiples_vanish(n.bias as int, SCALE as int);
    }
}

/// The deep value of a neuron: its bias and its weight sequence.
pub open spec fn neuron_model(n: Neuron) -> (i64, Seq<i64>) {
    (n.bias, n.weights@)
}

/// An ordered collection of neurons that all read the same input vector.
#[derive(Debug, PartialEq)]
pub struct Layer {
    pub neurons: Vec<Neuron>,
}

/// The deep value of a layer: its neurons' deep values, in order.
pub open spec fn layer_model(l: Layer) -> Seq<(i64, Seq<i64>)> {
    Seq::new(l.neurons.len() as nat, |i: int| neuron_model(l.neurons[i]))
}

impl Layer {
    pub open spec fn wf(self) -> bool {
        &&& self.neurons.len() <= MAX_NODES
        &&& forall|i: int| 0 <= i < self.neurons.len() ==> (#[trigger] self.neurons[i]).wf()
    }

    /// Every neuron of the layer expects `d` input signals.
    pub open spec fn in_dim_ok(self, d: nat) -> bool {
        forall|i: int| 0 <= i < self.neurons.len() ==> (#[trigger] self.neurons[i]).weights.len()
            == d
    }

    /// One output signal per neuron, each applied to the same input.
    pub open spec fn out_spec(self, input: Seq<i64>) -> Seq<i64> {
        Seq::new(self.neurons.len() as nat, |i: int| self.neurons[i].out_spec(input))
    }

    /// Applies every neuron to the input vector, producing one output signal
    /// per neuron.
    pub fn propagate(&self, inputs: Vec<i64>) -> (r: Vec<i64>)
        requires
            self.wf(),
            self.in_dim_ok(inputs.len() as nat),
            forall|i: int| 0 <= i < inputs.len() ==> -INF_SIGNAL <= #[trigger] inputs[i]
                <= INF_SIGNAL,
        ensures
            r@ == self.out_spec(inputs@),
            r.len() == self.neurons.len(),
            forall|i: int| 0 <= i < r.len() ==> 0 <= #[trigger] r[i] <= INF_SIGNAL,
    {
        let mut outputs: Vec<i64> = Vec::new();
        let n = self.neurons.len();
        for i in 0..n
            invariant
                n == self.neurons.len(),
                self.wf(),
                self.in_dim_ok(inputs.len() as nat),
                forall|k: int| 0 <= k < inputs.len() ==> -INF_SIGNAL <= #[trigger] inputs[k]
                    <= INF_SIGNAL,
                outputs.len() == i,
                forall|j: int| 0 <= j < i ==> #[trigger] outputs[j] == self.neurons[j].out_spec(
                    inputs@,
                ),
                forall|j: int| 0 <= j < i ==> 0 <= #[trigger] outputs[j] <= INF_SIGNAL,
        {
            let o = self.neurons[i].propagate(&inputs);
            outputs.push(o);
        }
        proof {
            assert(outputs@ =~= self.out_spec(inputs@));
        }
        outputs
    }

    pub fn new_empty() -> (r: Self)
        ensures
            r.neurons.len() == 0,
    {
        Self { neurons: Vec::new() }
    }
}

/// An ordered sequence of layers; each layer's output feeds the next.
#[derive(Debug, PartialEq)]
pub struct Network {
    pub layers: Vec<Layer>,
}

/// The deep value of a network: its layers' deep values, in order.
pub open spec fn net_model(n: Network) -> Seq<Seq<(i64, Seq<i64>)>> {
    Seq::new(n.layers.len() as nat, |i: int| layer_model(n.layers[i]))
}

/// The layer chain accepts an input vector of length `d`: the first layer's
/// neurons expect `d` signals, and each later layer's neurons expect one
/// signal per neuron of the layer before it.
pub open spec fn shape_from(layers: Seq<Layer>, d: nat) -> bool
    decreases layers.len(),
{
    layers.len() == 0 || (layers[0].in_dim_ok(d) && shape_from(
        layers.skip(1),
        layers[0].neurons.len() as nat,
    ))
}

/// The value that feeding `input` through the layers in order produces.
pub open spec fn out_seq(layers: Seq<Layer>, input: Seq<i64>) -> Seq<i64>
    decreases layers.len(),
{
    if layers.len() == 0 {
        input
    } else {
        out_seq(layers.skip(1), layers[0].out_spec(input))
    }
}

/// Two layer chains have the same shape: equally many layers, equally many
/// neurons per layer, and equally many weights per neuron.
pub open spec fn same_shape(a: Seq<Layer>, b: Seq<Layer>) -> bool {
    &&& a.len() == b.len()
    &&& forall|i: int| 0 <= i < a.len() ==> (#[trigger] a[i]).neurons.len() == b[i].neurons.len()
    &&& forall|i: int, j: int|
        0 <= i < a.len() && 0 <= j < a[i].neurons.len() ==> (#[trigger] a[i].neurons[j]).weights.len()
            == b[i].neurons[j].weights.len()
}

/// A chain shaped like one that accepts `d` input signals accepts them too.
pub proof fn lemma_same_shape_from(a: Seq<Layer>, b: Seq<Layer>, d: nat)
    requires
        shape_from(a, d),
        same_shape(b, a),
    ensures
        shape_from(b, d),
    decreases a.len(),
{
    if a.len() > 0 {
        assert forall|j: int| 0 <= j < b[0].neurons.len() implies (#[trigger] b[0].neurons[j]).weights.len()
            == d by {
            assert(b[0].neurons[j].weights.len() == a[0].neurons[j].weights.len());
        }
        assert forall|i: int| 0 <= i < b.skip(1).len() implies (#[trigger] b.skip(1)[i]).neurons.len()
            == a.skip(1)[i].neurons.len() by {
            assert(b.skip(1)[i] == b[i + 1]);
            assert(a.skip(1)[i] == a[i + 1]);
        }
        assert forall|i: int, j: int|
            0 <= i < b.skip(1).len() && 0 <= j < b.skip(1)[i].neurons.len() implies (#[trigger] b.skip(
            1,
        )[i].neurons[j]).weights.len() == a.skip(1)[i].neurons[j].weights.len() by {
            assert(b.skip(1)[i] == b[i + 1]);
            assert(a.skip(1)[i] == a[i + 1]);
        }
        lemma_same_shape_from(a.skip(1), b.skip(1), a[0].neurons.len() as nat);
        assert(b[0].neurons.len() == a[0].neurons.len());
    }
}

/// A chain in which the first layer expects `d` signals and every later layer
/// expects one signal per neuron of the layer before it is well shaped.
pub proof fn lemma_shape_from_pointwise(layers: Seq<Layer>, d: nat)
    requires
        forall|i: int|
            0 <= i < layers.len() ==> (#[trigger] layers[i]).in_dim_ok(
                if i == 0 {
                    d
                } else {
                    layers[i - 1].neurons.len() as nat
                },
            ),
    ensures
        shape_from(layers, d),
    decreases layers.len(),
{
    if layers.len() > 0 {
        let tail = layers.skip(1);
        assert forall|i: int|
            0 <= i < tail.len() implies (#[trigger] tail[i]).in_dim_ok(
            if i == 0 {
                layers[0].neurons.len() as nat
            } else {
                tail[i - 1].neurons.len() as nat
            },
        ) by {
            assert(tail[i] == layers[i + 1]);
            if i > 0 {
                assert(tail[i - 1] == layers[i]);
            }
        }
        lemma_shape_from_pointwise(tail, layers[0].neurons.len() as nat);
    }
}

impl Network {
    pub open spec fn wf(self) -> bool {
        forall|i: int| 0 <= i < self.layers.len() ==> (#[trigger] self.layers[i]).wf()
    }

    /// Feeds the input vector through the layers in order; each layer's
    /// output becomes the next layer's input. The output vector has one
    /// signal per neuron of the final layer.
    pub fn propagate(&self, inputs: Vec<i64>) -> (r: Vec<i64>)
        requires
            self.wf(),
            shape_from(self.layers@, inputs.len() as nat),
            forall|i: int| 0 <= i < inputs.len() ==> -INF_SIGNAL <= #[trigger] inputs[i]
                <= INF_SIGNAL,
        ensures
            r@ == out_seq(self.layers@, inputs@),
            self.layers.len() > 0 ==> r.len() == self.layers[self.layers.len()
                - 1].neurons.len(),
            self.layers.len() == 0 ==> r@ == inputs@,
            forall|i: int| 0 <= i < r.len() ==> -INF_SIGNAL <= #[trigger] r[i] <= INF_SIGNAL,
    {
        let mut cur = inputs;
        let ghost start = cur@;
        proof {
            assert(self.layers@.skip(0) =~= self.layers@);
        }
        let n = self.layers.len();
        for i in 0..n
            invariant
                n == self.layers.len(),
                self.wf(),
                forall|k: int| 0 <= k < cur.len() ==> -INF_SIGNAL <= #[trigger] cur[k]
                    <= INF_SIGNAL,
                shape_from(self.layers@.skip(i as int), cur.len() as nat),
                out_seq(self.layers@.skip(i as int), cur@) == out_seq(self.layers@, start),
                i == 0 ==> cur@ == start,
                i > 0 ==> cur.len() == self.layers@[i - 1].neurons.len(),
        {
            proof {
                assert(self.layers@.skip(i as int)[0] == self.layers@[i as int]);
                assert(self.layers@.skip(i as int).skip(1) =~= self.layers@.skip(i as int + 1));
            }
            cur = self.layers[i].propagate(cur);
        }
        proof {
            assert(self.layers@.skip(n as int) =~= Seq::<Layer>::empty());
        }
        cur
    }

    pub fn new_empty() -> (r: Self)
        ensures
            r.layers.len() == 0,
    {
        Self { layers: Vec::new() }
    }

    /// Builds a network for an architecture given as ordered layer sizes,
    /// the input size first; each neuron's weights and bias are independent
    /// uniform draws from the unit range.
    pub fn create_random_network(layer_sizes: Vec<usize>) -> (r: Network)
        requires
            forall|i: int| 0 <= i < layer_sizes.len() ==> #[trigger] layer_sizes[i] <= MAX_NODES,
        ensures
            r.wf(),
            layer_sizes.len() == 0 ==> r.layers.len() == 0,
            layer_sizes.len() >= 1 ==> r.layers.len() == layer_sizes.len() - 1,
            forall|i: int|
                0 <= i < r.layers.len() ==> (#[trigger] r.layers[i]).neurons.len()
                    == layer_sizes[i + 1],
            forall|i: int|
                0 <= i < r.layers.len() ==> (#[trigger] r.layers[i]).in_dim_ok(
                    layer_sizes[i] as nat,
                ),
            layer_sizes.len() >= 1 ==> shape_from(r.layers@, layer_sizes[0] as nat),
    {
        let mut network = Self::new_empty();
        let ls = layer_sizes.len();
        if ls == 0 {
            return network;
        }
        for layer_id in 1..ls
            invariant
                ls == layer_sizes.len(),
                ls >= 1,
                forall|i: int| 0 <= i < ls ==> #[trigger] layer_sizes[i] <= MAX_NODES,
                network.layers.len() == layer_id - 1,
                forall|i: int| 0 <= i < network.layers.len() ==> (#[trigger] network.layers[i]).wf(),
                forall|i: int|
                    0 <= i < network.layers.len() ==> (#[trigger] network.layers[i]).neurons.len()
                        == layer_sizes[i + 1],
                forall|i: int|
                    0 <= i < network.layers.len() ==> (#[trigger] network.layers[i]).in_dim_ok(
                        layer_sizes[i] as nat,
                    ),
        {
            let mut layer = Layer::new_empty();
            let n_count = layer_sizes[layer_id];
            let w_count = layer_sizes[layer_id - 1];
            for neuron_id in 0..n_count
                invariant
                    w_count <= MAX_NODES,
                    n_count <= MAX_NODES,
                    layer.neurons.len() == neuron_id,
                    forall|j: int| 0 <= j < layer.neurons.len() ==> (#[trigger] layer.neurons[j]).wf(),
                    forall|j: int|
                        0 <= j < layer.neurons.len() ==> (#[trigger] layer.neurons[j]).weights.len()
                            == w_count,
            {
                let mut weights: Vec<i64> = Vec::new();
                for weight_id in 0..w_count
                    invariant
                        weights.len() == weight_id,
                        forall|k: int| 0 <= k < weights.len() ==> -SCALE <= #[trigger] weights[k]
                            <= SCALE,
                {
                    weights.push(crate::rng::rand_unit());
                }
                let bias: i64 = crate::rng::rand_unit();
                let neuron = Neuron { weights, bias };
                layer.neurons.push(neuron);
            }
            network.layers.push(layer);
        }
        proof {
            if ls >= 1 {
                lemma_shape_from_pointwise(network.layers@, layer_sizes[0] as nat);
            }
        }
        network
    }
}

/// A network with the same deep value as a well-formed one is well formed
/// and has the same shape.
pub proof fn lemma_model_same_wf(a: Network, b: Network)
    requires
        net_model(a) == net_model(b),
        a.wf(),
    ensures
        b.wf(),
        same_shape(b.layers@, a.layers@),
{
    assert(net_model(a).len() == a.layers.len());
    assert(net_model(b).len() == b.layers.len());
    assert(a.layers.len() == b.layers.len());
    assert forall|i: int|
        0 <= i < b.layers.len() implies (#[trigger] b.layers[i]).wf() && b.layers[i].neurons.len()
        == a.layers[i].neurons.len() by {
        assert(net_model(a)[i] == net_model(b)[i]);
        assert(layer_model(a.layers[i]) == layer_model(b.layers[i]));
        assert(layer_model(a.layers[i]).len() == layer_model(b.layers[i]).len());
        assert(a.layers[i].wf());
        assert forall|j: int|
            0 <= j < b.layers[i].neurons.len() implies (#[trigger] b.layers[i].neurons[j]).wf() by {
            assert(layer_model(a.layers[i])[j] == layer_model(b.layers[i])[j]);
            assert(neuron_model(a.layers[i].neurons[j]) == neuron_model(b.layers[i].neurons[j]));
            assert(a.layers[i].neurons[j].wf());
            assert(b.layers[i].neurons[j].weights@ == a.layers[i].neurons[j].weights@);
        }
    }
    assert forall|i: int, j: int|
        0 <= i < b.layers.len() && 0 <= j < b.layers[i].neurons.len() implies (#[trigger] b.layers[i].neurons[j]).weights.len()
        == a.layers[i].neurons[j].weights.len() by {
        assert(net_model(a)[i] == net_model(b)[i]);
        assert(layer_model(a.layers[i]) == layer_model(b.layers[i]));
        assert(b.layers[i].neurons.len() == a.layers[i].neurons.len());
        assert(layer_model(a.layers[i])[j] == layer_model(b.layers[i])[j]);
        assert(neuron_model(a.layers[i].neurons[j]) == neuron_model(b.layers[i].neurons[j]));
    }
}

/// Copies a signal vector.
fn clone_signals(v: &Vec<i64>) -> (r: Vec<i64>)
    ensures
        r@ == v@,
{
    let mut r: Vec<i64> = Vec::new();
    let n = v.len();
    for i in 0..n
        invariant
            n == v.len(),
            r.len() == i,
            forall|j: int| 0 <= j < i ==> #[trigger] r[j] == v[j],
    {
        r.push(v[i]);
    }
    proof {
        assert(r@ =~= v@);
    }
    r
}

impl Clone for Neuron {
    /// The copy carries the same bias and the same weights.
    fn clone(&self) -> (r: Self)
        ensures
            neuron_model(r) == neuron_model(*self),
    {
        Neuron { bias: self.bias, weights: clone_signals(&self.weights) }
    }
}

impl Clone for Layer {
    /// The copy carries the same neurons, in order.
    fn clone(&self) -> (r: Self)
        ensures
            layer_model(r) == layer_model(*self),
    {
        let mut neurons: Vec<Neuron> = Vec::new();
        let n = self.neurons.len();
        for i in 0..n
            invariant
                n == self.neurons.len(),
                neurons.len() == i,
                forall|j: int|
                    0 <= j < i ==> #[trigger] neuron_model(neurons[j]) == neuron_model(
                        self.neurons[j],
                    ),
        {
            neurons.push(self.neurons[i].clone());
        }
        let r = Layer { neurons };
        proof {
            assert(layer_model(r) =~~= layer_model(*self));
        }
        r
    }
}

impl Clone for Network {
    /// The copy carries the same layers, in order.
    fn clone(&self) -> (r: Self)
        ensures
            net_model(r) == net_model(*self),
    {
        let mut layers: Vec<Layer> = Vec::new();
        let n = self.layers.len();
        for i in 0..n
            invariant
                n == self.layers.len(),
                layers.len() == i,
                forall|j: int|
                    0 <= j < i ==> #[trigger] layer_model(layers[j]) == layer_model(self.layers[j]),
        {
            layers.push(self.layers[i].clone());
        }
        let r = Network { layers };
        proof {
            assert(net_model(r) =~~= net_model(*self));
        }
        r
    }
}

} // verus!
