//! The feed-forward neural network: fully connected layers with ReLU.
//!
//! A network is built randomly from a topology, or deterministically from a
//! topology plus a flat weight list in canonical order (layer by layer, and
//! within a layer: each neuron's bias followed by its weights). Flattening a
//! network yields exactly that canonical order, so rebuilding from a
//! flattened network and flattening again reproduces the list.

use vstd::prelude::*;

use crate::chromosome::genes_valid;
use crate::fixed::{in_range, mul_scaled, sat_add, SCALE, VAL_LIMIT};
use crate::rng::rng_range;
use rand::rngs::StdRng;
use vstd::arithmetic::mul::lemma_mul_inequality;

verus! {

/// One entry of a topology: how many neurons a layer has.
#[derive(Clone, Copy, Debug, PartialEq, Eq, Structural)]
pub struct LayerTopology {
    pub neurons: usize,
}

/// One neuron: a bias and one weight per input.
pub struct Neuron {
    pub bias: i64,
    pub weights: Vec<i64>,
}

/// One fully connected layer.
pub struct Layer {
    pub neurons: Vec<Neuron>,
}

/// A stack of fully connected layers.
pub struct Network {
    pub layers: Vec<Layer>,
}

/// The layer sizes of a topology, as a plain sequence.
pub open spec fn topo_sizes(t: Seq<LayerTopology>) -> Seq<usize> {
    Seq::new(t.len(), |i: int| t[i].neurons)
}

/// A topology the constructors accept: at least an input and an output
/// layer, each with at least one neuron.
pub open spec fn topo_ok(t: Seq<LayerTopology>) -> bool {
    t.len() >= 2 && forall|i: int| 0 <= i < t.len() ==> (#[trigger] t[i].neurons) >= 1
}

/// Total number of values (biases and weights) a topology encodes.
pub open spec fn s_chrom_len(sizes: Seq<usize>) -> int
    decreases sizes.len(),
{
    if sizes.len() < 2 {
        0
    } else {
        s_chrom_len(sizes.drop_last()) + sizes[sizes.len() - 1] * (1 + sizes[sizes.len() - 2])
    }
}

/// The neuron takes `in_len` inputs.
pub open spec fn wf_neuron(n: Neuron, in_len: int) -> bool {
    n.weights@.len() == in_len
}

/// Bias and weights within the stored fixed-point range.
pub open spec fn valid_neuron(n: Neuron) -> bool {
    in_range(n.bias as int) && genes_valid(n.weights@)
}

/// A nonempty layer whose neurons all take `in_len` inputs.
pub open spec fn wf_layer(l: Layer, in_len: int) -> bool {
    l.neurons@.len() >= 1 && forall|i: int|
        0 <= i < l.neurons@.len() ==> wf_neuron(#[trigger] l.neurons@[i], in_len)
}

/// Every neuron of the layer has values in range.
pub open spec fn valid_layer(l: Layer) -> bool {
    forall|i: int| 0 <= i < l.neurons@.len() ==> valid_neuron(#[trigger] l.neurons@[i])
}

/// A layer stack whose sizes follow `sizes`: layer `i` maps `sizes[i]`
/// inputs to `sizes[i + 1]` outputs.
pub open spec fn layers_match(ls: Seq<Layer>, sizes: Seq<usize>) -> bool {
    &&& sizes.len() == ls.len() + 1
    &&& forall|i: int| 0 <= i < ls.len() ==> wf_layer(#[trigger] ls[i], sizes[i] as int)
    &&& forall|i: int| 0 <= i < ls.len() ==> (#[trigger] ls[i].neurons@.len()) == sizes[i + 1]
}

/// Number of inputs the network expects.
pub open spec fn s_in_len(net: Network) -> int {
    net.layers@[0].neurons@[0].weights@.len() as int
}

/// A structurally consistent network: at least one layer, a consistent
/// neuron-count chain, and no empty layer.
pub open spec fn wf_network(net: Network) -> bool {
    &&& net.layers@.len() >= 1
    &&& wf_layer(net.layers@[0], s_in_len(net))
    &&& forall|i: int|
        1 <= i < net.layers@.len() ==> wf_layer(
            #[trigger] net.layers@[i],
            net.layers@[i - 1].neurons@.len() as int,
        )
}

/// Every value of the network within the stored range.
pub open spec fn net_valid(net: Network) -> bool {
    forall|i: int| 0 <= i < net.layers@.len() ==> valid_layer(#[trigger] net.layers@[i])
}

/// Bias and weights within one unit, as the random draw produces.
pub open spec fn unit_neuron(n: Neuron) -> bool {
    &&& -SCALE <= n.bias <= SCALE
    &&& forall|i: int| 0 <= i < n.weights@.len() ==> -SCALE <= #[trigger] n.weights@[i] <= SCALE
}

/// Every neuron of the layer has values within one unit.
pub open spec fn unit_layer(l: Layer) -> bool {
    forall|i: int| 0 <= i < l.neurons@.len() ==> unit_neuron(#[trigger] l.neurons@[i])
}

/// Every value of the network within one unit.
pub open spec fn net_unit(net: Network) -> bool {
    forall|i: int| 0 <= i < net.layers@.len() ==> unit_layer(#[trigger] net.layers@[i])
}

/// The network follows the given topology.
pub open spec fn net_matches(net: Network, topo: Seq<LayerTopology>) -> bool {
    layers_match(net.layers@, topo_sizes(topo))
}

/// One accumulation step of a neuron: add one scaled product, saturating.
pub open spec fn s_step(acc: int, w: int, x: int) -> int {
    crate::fixed::sat(acc + crate::fixed::sat(crate::fixed::tdiv(w * x, SCALE as int)))
}

/// Accumulator after the first `k` inputs, starting from the bias.
pub open spec fn s_neuron_acc(bias: int, ws: Seq<i64>, xs: Seq<i64>, k: nat) -> int
    decreases k,
{
    if k == 0 {
        bias
    } else {
        s_step(s_neuron_acc(bias, ws, xs, (k - 1) as nat), ws[k - 1] as int, xs[k - 1] as int)
    }
}

/// A neuron's output: the accumulated sum after ReLU.
pub open spec fn s_neuron_out(n: Neuron, xs: Seq<i64>) -> int {
    let acc = s_neuron_acc(n.bias as int, n.weights@, xs, n.weights@.len());
    if acc > 0 {
        acc
    } else {
        0
    }
}

/// A layer's output vector.
pub open spec fn s_layer_out(l: Layer, xs: Seq<i64>) -> Seq<i64> {
    Seq::new(l.neurons@.len(), |i: int| s_neuron_out(l.neurons@[i], xs) as i64)
}

/// The whole network's output: layers applied in order.
pub open spec fn s_net_out(ls: Seq<Layer>, xs: Seq<i64>) -> Seq<i64>
    decreases ls.len(),
{
    if ls.len() == 0 {
        xs
    } else {
        s_net_out(ls.drop_first(), s_layer_out(ls[0], xs))
    }
}

/// Canonical encoding of one neuron: its bias, then its weights in order.
pub open spec fn s_flat_neuron(n: Neuron) -> Seq<i64> {
    seq![n.bias] + n.weights@
}

/// Canonical encoding of a neuron list.
pub open spec fn s_flat_neurons(ns: Seq<Neuron>) -> Seq<i64>
    decreases ns.len(),
{
    if ns.len() == 0 {
        Seq::empty()
    } else {
        s_flat_neurons(ns.drop_last()) + s_flat_neuron(ns.last())
    }
}

/// Canonical encoding of a layer stack.
pub open spec fn s_flat_layers(ls: Seq<Layer>) -> Seq<i64>
    decreases ls.len(),
{
    if ls.len() == 0 {
        Seq::empty()
    } else {
        s_flat_layers(ls.drop_last()) + s_flat_neurons(ls.last().neurons@)
    }
}

/// Canonical encoding of the whole network.
pub open spec fn s_net_flatten(net: Network) -> Seq<i64> {
    s_flat_layers(net.layers@)
}

/// A flattened neuron list has one bias plus `in_len` weights per neuron.
pub proof fn lemma_flat_neurons_len(ns: Seq<Neuron>, in_len: int)
    requires
        in_len >= 0,
        forall|i: int| 0 <= i < ns.len() ==> wf_neuron(#[trigger] ns[i], in_len),
    ensures
        s_flat_neurons(ns).len() == ns.len() * (1 + in_len),
    decreases ns.len(),
{
    if ns.len() == 0 {
        assert(ns.len() * (1 + in_len) == 0) by (nonlinear_arith)
            requires
                ns.len() == 0,
        ;
    } else {
        let t = ns.drop_last();
        assert(forall|i: int| 0 <= i < t.len() ==> wf_neuron(#[trigger] t[i], in_len));
        lemma_flat_neurons_len(t, in_len);
        assert(s_flat_neuron(ns.last()).len() == 1 + in_len);
        assert(t.len() * (1 + in_len) + (1 + in_len) == ns.len() * (1 + in_len))
            by (nonlinear_arith)
            requires
                t.len() == ns.len() - 1,
        ;
    }
}

/// A flattened layer stack has exactly the count its sizes encode.
pub proof fn lemma_flat_layers_len(ls: Seq<Layer>, sizes: Seq<usize>)
    requires
        layers_match(ls, sizes),
    ensures
        s_flat_layers(ls).len() == s_chrom_len(sizes),
    decreases ls.len(),
{
    if ls.len() == 0 {
    } else {
        let lt = ls.drop_last();
        let st = sizes.drop_last();
        assert(layers_match(lt, st)) by {
            assert(forall|i: int| 0 <= i < lt.len() ==> lt[i] == ls[i]);
            assert(forall|i: int| 0 <= i < st.len() ==> st[i] == sizes[i]);
        }
        lemma_flat_layers_len(lt, st);
        let last = ls.last();
        lemma_flat_neurons_len(last.neurons@, sizes[ls.len() - 1] as int);
        assert(last.neurons@.len() == sizes[ls.len() as int]);
        assert(s_chrom_len(sizes) == s_chrom_len(st) + sizes[sizes.len() - 1] * (1
            + sizes[sizes.len() - 2]));
    }
}

/// Flattening a list of in-range neurons yields in-range genes.
pub proof fn lemma_flat_neurons_valid(ns: Seq<Neuron>)
    requires
        forall|i: int| 0 <= i < ns.len() ==> valid_neuron(#[trigger] ns[i]),
    ensures
        genes_valid(s_flat_neurons(ns)),
    decreases ns.len(),
{
    if ns.len() > 0 {
        let t = ns.drop_last();
        assert(forall|i: int| 0 <= i < t.len() ==> valid_neuron(#[trigger] t[i]));
        lemma_flat_neurons_valid(t);
        assert(genes_valid(s_flat_neuron(ns.last())));
    }
}

/// Flattening a stack of in-range layers yields in-range genes.
pub proof fn lemma_flat_layers_valid(ls: Seq<Layer>)
    requires
        forall|i: int| 0 <= i < ls.len() ==> valid_layer(#[trigger] ls[i]),
    ensures
        genes_valid(s_flat_layers(ls)),
    decreases ls.len(),
{
    if ls.len() > 0 {
        let t = ls.drop_last();
        assert(forall|i: int| 0 <= i < t.len() ==> valid_layer(#[trigger] t[i]));
        lemma_flat_layers_valid(t);
        lemma_flat_neurons_valid(ls.last().neurons@);
    }
}

/// Encoded counts only grow along a topology prefix.
pub proof fn lemma_chrom_len_mono(sizes: Seq<usize>, k: int)
    requires
        0 <= k <= sizes.len(),
    ensures
        s_chrom_len(sizes.take(k)) <= s_chrom_len(sizes),
    decreases sizes.len() - k,
{
    if k == sizes.len() {
        assert(sizes.take(k) =~= sizes);
    } else {
        lemma_chrom_len_mono(sizes, k + 1);
        let p = sizes.take(k + 1);
        if k + 1 < 2 {
            assert(s_chrom_len(sizes.take(k)) == 0);
            assert(s_chrom_len(p) == 0);
        } else {
            assert(p.drop_last() =~= sizes.take(k));
            assert(p[p.len() - 1] * (1 + p[p.len() - 2]) >= 0) by (nonlinear_arith)
                requires
                    p[p.len() - 1] >= 0,
                    p[p.len() - 2] >= 0,
            ;
            assert(s_chrom_len(p) == s_chrom_len(sizes.take(k)) + p[p.len() - 1] * (1 + p[p.len()
                - 2]));
        }
    }
}

/// One neuron's forward pass: bias plus the scaled dot product, then ReLU.
fn neuron_forward(n: &Neuron, xs: &Vec<i64>) -> (r: i64)
    requires
        wf_neuron(*n, xs@.len() as int),
        valid_neuron(*n),
        genes_valid(xs@),
    ensures
        r == s_neuron_out(*n, xs@),
        0 <= r <= VAL_LIMIT,
{
    let mut acc: i64 = n.bias;
    let mut k: usize = 0;
    let m = n.weights.len();
    while k < m
        invariant
            k <= m,
            m == n.weights@.len() == xs@.len(),
            valid_neuron(*n),
            genes_valid(xs@),
            acc == s_neuron_acc(n.bias as int, n.weights@, xs@, k as nat),
            in_range(acc as int),
        decreases m - k,
    {
        let p = mul_scaled(n.weights[k], xs[k]);
        acc = sat_add(acc, p);
        k = k + 1;
    }
    if acc > 0 {
        acc
    } else {
        0
    }
}

/// One layer's forward pass.
fn layer_forward(l: &Layer, xs: &Vec<i64>) -> (r: Vec<i64>)
    requires
        wf_layer(*l, xs@.len() as int),
        valid_layer(*l),
        genes_valid(xs@),
    ensures
        r@ == s_layer_out(*l, xs@),
        r@.len() == l.neurons@.len(),
        genes_valid(r@),
{
    let mut out: Vec<i64> = Vec::new();
    let m = l.neurons.len();
    let mut i: usize = 0;
    while i < m
        invariant
            i <= m,
            m == l.neurons@.len(),
            wf_layer(*l, xs@.len() as int),
            valid_layer(*l),
            genes_valid(xs@),
            out@.len() == i,
            forall|j: int|
                0 <= j < i ==> #[trigger] out@[j] == s_neuron_out(l.neurons@[j], xs@) as i64,
            genes_valid(out@),
        decreases m - i,
    {
        let v = neuron_forward(&l.neurons[i], xs);
        out.push(v);
        i = i + 1;
    }
    proof {
        assert(out@ =~= s_layer_out(*l, xs@));
    }
    out
}

/// One random neuron: bias and weights drawn uniformly from `[-1, 1]`.
fn random_neuron(rng: &mut StdRng, input: usize) -> (r: Neuron)
    ensures
        wf_neuron(r, input as int),
        valid_neuron(r),
        unit_neuron(r),
{
    let bias = rng_range(rng, -SCALE, SCALE);
    let mut ws: Vec<i64> = Vec::new();
    while ws.len() < input
        invariant
            ws@.len() <= input,
            forall|i: int| 0 <= i < ws@.len() ==> -SCALE <= #[trigger] ws@[i] <= SCALE,
        decreases input - ws.len(),
    {
        let w = rng_range(rng, -SCALE, SCALE);
        ws.push(w);
    }
    Neuron { bias, weights: ws }
}

/// One random layer of `output` neurons taking `input` inputs.
fn random_layer(rng: &mut StdRng, input: usize, output: usize) -> (r: Layer)
    requires
        output >= 1,
    ensures
        wf_layer(r, input as int),
        valid_layer(r),
        unit_layer(r),
        r.neurons@.len() == output,
{
    let mut ns: Vec<Neuron> = Vec::new();
    while ns.len() < output
        invariant
            ns@.len() <= output,
            forall|i: int|
                0 <= i < ns@.len() ==> wf_neuron(#[trigger] ns@[i], input as int) && valid_neuron(
                    ns@[i],
                ) && unit_neuron(ns@[i]),
        decreases output - ns.len(),
    {
        let n = random_neuron(rng, input);
        ns.push(n);
    }
    Layer { neurons: ns }
}

/// One neuron read from the canonical weight list at `start`.
fn neuron_from(weights: &Vec<i64>, start: usize, in_size: usize) -> (r: Neuron)
    requires
        start + 1 + in_size <= weights@.len(),
        genes_valid(weights@),
    ensures
        wf_neuron(r, in_size as int),
        valid_neuron(r),
        s_flat_neuron(r) == weights@.subrange(start as int, start + 1 + in_size),
{
    let total = weights.len();
    let bias = weights[start];
    let mut ws: Vec<i64> = Vec::new();
    while ws.len() < in_size
        invariant
            ws@.len() <= in_size,
            start + 1 + in_size <= weights@.len(),
            weights@.len() == total,
            genes_valid(weights@),
            ws@ =~= weights@.subrange(start + 1, start + 1 + ws@.len()),
        decreases in_size - ws.len(),
    {
        let k = ws.len();
        let w = weights[start + 1 + k];
        ws.push(w);
        proof {
            assert(ws@ =~= weights@.subrange(start + 1, start + 1 + ws@.len()));
        }
    }
    let r = Neuron { bias, weights: ws };
    proof {
        assert(genes_valid(r.weights@));
        assert(s_flat_neuron(r) =~= weights@.subrange(start as int, start + 1 + in_size));
    }
    r
}

/// One layer read from the canonical weight list; returns the layer and the
/// cursor just past what it consumed.
fn layer_from(weights: &Vec<i64>, start: usize, in_size: usize, out_size: usize) -> (r: (
    Layer,
    usize,
))
    requires
        out_size >= 1,
        start + out_size * (1 + in_size) <= weights@.len(),
        genes_valid(weights@),
    ensures
        wf_layer(r.0, in_size as int),
        valid_layer(r.0),
        r.0.neurons@.len() == out_size,
        r.1 == start + out_size * (1 + in_size),
        s_flat_neurons(r.0.neurons@) == weights@.subrange(start as int, r.1 as int),
{
    let total = weights.len();
    let mut ns: Vec<Neuron> = Vec::new();
    let mut cur: usize = start;
    while ns.len() < out_size
        invariant
            ns@.len() <= out_size,
            cur == start + ns@.len() * (1 + in_size),
            start + out_size * (1 + in_size) <= weights@.len(),
            weights@.len() == total,
            genes_valid(weights@),
            forall|i: int|
                0 <= i < ns@.len() ==> wf_neuron(#[trigger] ns@[i], in_size as int)
                    && valid_neuron(ns@[i]),
            s_flat_neurons(ns@) =~= weights@.subrange(start as int, cur as int),
        decreases out_size - ns.len(),
    {
        proof {
            lemma_mul_inequality(ns@.len() as int + 1, out_size as int, 1 + in_size as int);
            assert((ns@.len() + 1) * (1 + in_size as int) == ns@.len() * (1 + in_size as int) + (1
                + in_size as int)) by (nonlinear_arith);
        }
        let n = neuron_from(weights, cur, in_size);
        let ghost old_ns = ns@;
        let ghost old_cur = cur as int;
        ns.push(n);
        cur = cur + 1 + in_size;
        proof {
            assert(ns@.drop_last() =~= old_ns);
            assert(ns@.last() == n);
            assert(s_flat_neurons(ns@) == s_flat_neurons(old_ns) + s_flat_neuron(n));
            assert(s_flat_neurons(ns@) =~= weights@.subrange(start as int, cur as int));
        }
    }
    (Layer { neurons: ns }, cur)
}

impl Network {
    /// A random network for the given topology: every bias and weight drawn
    /// uniformly from `[-1, 1]`.
    pub fn random(rng: &mut StdRng, layers: &Vec<LayerTopology>) -> (r: Network)
        requires
            topo_ok(layers@),
        ensures
            wf_network(r),
            net_valid(r),
            net_unit(r),
            net_matches(r, layers@),
            s_net_flatten(r).len() == s_chrom_len(topo_sizes(layers@)),
    {
        let count = layers.len();
        let mut ls: Vec<Layer> = Vec::new();
        let mut l: usize = 0;
        while l < count - 1
            invariant
                l <= count - 1,
                count == layers@.len() >= 2,
                topo_ok(layers@),
                ls@.len() == l,
                layers_match(ls@, topo_sizes(layers@.take(l + 1))),
                forall|i: int|
                    0 <= i < ls@.len() ==> valid_layer(#[trigger] ls@[i]) && unit_layer(ls@[i]),
            decreases count - 1 - l,
        {
            let layer = random_layer(rng, layers[l].neurons, layers[l + 1].neurons);
            ls.push(layer);
            l = l + 1;
            proof {
                assert(topo_sizes(layers@.take(l + 1)) =~= topo_sizes(layers@).take(l + 1));
                assert(layers_match(ls@, topo_sizes(layers@.take(l + 1))));
            }
        }
        let r = Network { layers: ls };
        proof {
            assert(layers@.take(count as int) =~= layers@);
            lemma_flat_layers_len(r.layers@, topo_sizes(layers@));
            assert(wf_network(r));
        }
        r
    }

    /// Forward evaluation: each layer's output feeds the next; each neuron
    /// computes `max(0, bias + sum(weight * input))` in saturating fixed
    /// point.
    pub fn propagate(&self, inputs: Vec<i64>) -> (r: Vec<i64>)
        requires
            wf_network(*self),
            net_valid(*self),
            inputs@.len() == s_in_len(*self),
            genes_valid(inputs@),
        ensures
            r@ == s_net_out(self.layers@, inputs@),
            r@.len() == self.layers@.last().neurons@.len(),
            genes_valid(r@),
    {
        let count = self.layers.len();
        let mut cur = inputs;
        proof {
            assert(self.layers@.skip(0) =~= self.layers@);
        }
        let mut l: usize = 0;
        while l < count
            invariant
                l <= count,
                count == self.layers@.len() >= 1,
                wf_network(*self),
                net_valid(*self),
                genes_valid(cur@),
                cur@.len() == if l == 0 {
                    s_in_len(*self)
                } else {
                    self.layers@[l - 1].neurons@.len() as int
                },
                s_net_out(self.layers@.skip(l as int), cur@) == s_net_out(
                    self.layers@,
                    inputs@,
                ),
            decreases count - l,
        {
            let next = layer_forward(&self.layers[l], &cur);
            proof {
                let sk = self.layers@.skip(l as int);
                assert(sk[0] == self.layers@[l as int]);
                assert(sk.drop_first() =~= self.layers@.skip(l as int + 1));
                assert(s_net_out(sk, cur@) == s_net_out(sk.drop_first(), s_layer_out(sk[0], cur@)));
            }
            cur = next;
            l = l + 1;
        }
        proof {
            assert(self.layers@.skip(count as int) =~= Seq::<Layer>::empty());
            assert(s_net_out(Seq::<Layer>::empty(), cur@) == cur@);
        }
        cur
    }

    /// Every bias and weight, flattened in canonical order.
    pub fn weights(&self) -> (r: Vec<i64>)
        ensures
            r@ == s_net_flatten(*self),
            net_valid(*self) ==> genes_valid(r@),
    {
        proof {
            if net_valid(*self) {
                lemma_flat_layers_valid(self.layers@);
            }
        }
        let mut out: Vec<i64> = Vec::new();
        let count = self.layers.len();
        let mut l: usize = 0;
        while l < count
            invariant
                l <= count,
                count == self.layers@.len(),
                out@ =~= s_flat_layers(self.layers@.take(l as int)),
            decreases count - l,
        {
            let layer = &self.layers[l];
            let m = layer.neurons.len();
            let mut j: usize = 0;
            while j < m
                invariant
                    j <= m,
                    m == layer.neurons@.len(),
                    layer == self.layers@[l as int],
                    l < count == self.layers@.len(),
                    out@ =~= s_flat_layers(self.layers@.take(l as int)) + s_flat_neurons(
                        layer.neurons@.take(j as int),
                    ),
                decreases m - j,
            {
                let neuron = &layer.neurons[j];
                let ghost before = out@;
                out.push(neuron.bias);
                let w = neuron.weights.len();
                let mut k: usize = 0;
                while k < w
                    invariant
                        k <= w,
                        w == neuron.weights@.len(),
                        neuron == layer.neurons@[j as int],
                        j < m == layer.neurons@.len(),
                        out@ =~= before + seq![neuron.bias] + neuron.weights@.take(k as int),
                    decreases w - k,
                {
                    out.push(neuron.weights[k]);
                    k = k + 1;
                    proof {
                        assert(neuron.weights@.take(k as int).drop_last() =~= neuron.weights@.take(
                            k as int - 1));
                    }
                }
                j = j + 1;
                proof {
                    assert(neuron.weights@.take(w as int) =~= neuron.weights@);
                    assert(layer.neurons@.take(j as int).drop_last() =~= layer.neurons@.take(
                        j as int - 1));
                    assert(layer.neurons@.take(j as int).last() == neuron);
                    assert(s_flat_neurons(layer.neurons@.take(j as int)) == s_flat_neurons(
                        layer.neurons@.take(j as int - 1),
                    ) + s_flat_neuron(*neuron));
                    assert(out@ =~= s_flat_layers(self.layers@.take(l as int)) + s_flat_neurons(
                        layer.neurons@.take(j as int),
                    ));
                }
            }
            l = l + 1;
            proof {
                assert(layer.neurons@.take(m as int) =~= layer.neurons@);
                assert(self.layers@.take(l as int).drop_last() =~= self.layers@.take(l as int - 1));
                assert(self.layers@.take(l as int).last() == layer);
                assert(out@ =~= s_flat_layers(self.layers@.take(l as int)));
            }
        }
        proof {
            assert(self.layers@.take(count as int) =~= self.layers@);
        }
        out
    }

    /// Rebuild a network from a topology and a canonical weight list of
    /// exactly the encoded length. Flattening the result reproduces the
    /// list: the round trip is exact.
    pub fn from_weights(layers: &Vec<LayerTopology>, weights: &Vec<i64>) -> (r: Network)
        requires
            topo_ok(layers@),
            weights@.len() == s_chrom_len(topo_sizes(layers@)),
            genes_valid(weights@),
        ensures
            wf_network(r),
            net_valid(r),
            net_matches(r, layers@),
            s_net_flatten(r) == weights@,
    {
        let count = layers.len();
        let mut ls: Vec<Layer> = Vec::new();
        let mut cursor: usize = 0;
        let mut l: usize = 0;
        while l < count - 1
            invariant
                l <= count - 1,
                count == layers@.len() >= 2,
                topo_ok(layers@),
                weights@.len() == s_chrom_len(topo_sizes(layers@)),
                genes_valid(weights@),
                ls@.len() == l,
                layers_match(ls@, topo_sizes(layers@.take(l + 1))),
                forall|i: int| 0 <= i < ls@.len() ==> valid_layer(#[trigger] ls@[i]),
                cursor == s_chrom_len(topo_sizes(layers@.take(l + 1))),
                s_flat_layers(ls@) =~= weights@.take(cursor as int),
            decreases count - 1 - l,
        {
            proof {
                let sizes = topo_sizes(layers@);
                let li = l as int;
                assert(topo_sizes(layers@.take(li + 2)) =~= sizes.take(li + 2));
                assert(topo_sizes(layers@.take(li + 1)) =~= sizes.take(li + 1));
                assert(sizes.take(li + 2).drop_last() =~= sizes.take(li + 1));
                assert(s_chrom_len(sizes.take(li + 2)) == s_chrom_len(sizes.take(li + 1))
                    + sizes[li + 1] * (1 + sizes[li]));
                lemma_chrom_len_mono(sizes, li + 2);
                assert(sizes[li + 1] * (1 + sizes[li]) >= 0) by (nonlinear_arith)
                    requires
                        sizes[li + 1] >= 0,
                        sizes[li] >= 0,
                ;
            }
            let (layer, new_cursor) = layer_from(
                weights,
                cursor,
                layers[l].neurons,
                layers[l + 1].neurons,
            );
            let ghost old_ls = ls@;
            ls.push(layer);
            cursor = new_cursor;
            l = l + 1;
            proof {
                assert(ls@.drop_last() =~= old_ls);
                assert(ls@.last() == layer);
                assert(s_flat_layers(ls@) == s_flat_layers(old_ls) + s_flat_neurons(
                    layer.neurons@));
                assert(s_flat_layers(ls@) =~= weights@.take(cursor as int));
                assert(topo_sizes(layers@.take(l + 1)) =~= topo_sizes(layers@).take(l + 1));
                assert(layers_match(ls@, topo_sizes(layers@.take(l + 1))));
            }
        }
        let r = Network { layers: ls };
        proof {
            assert(layers@.take(count as int) =~= layers@);
            assert(weights@.take(cursor as int) =~= weights@);
            assert(wf_network(r));
        }
        r
    }
}

} // verus!
