use vstd::prelude::*;
use vstd::std_specs::iter::IteratorSpec;

verus! {

/// How many neurons one layer of a network has.
#[derive(Clone, Copy, Debug)]
pub struct LayerTopology {
    pub neurons: usize,
}

/// One neuron: its bias and the weight that it gives each input.
#[derive(Clone, Debug)]
pub struct Neuron<W> {
    bias: W,
    weights: Vec<W>,
}

/// One layer of neurons, all fed the same inputs.
#[derive(Clone, Debug)]
pub struct Layer<W> {
    neurons: Vec<Neuron<W>>,
}

/// A feed-forward network: each layer takes the outputs of the one before.
#[derive(Clone, Debug)]
pub struct Network<W> {
    layers: Vec<Layer<W>>,
}

/// A neuron seen as its bias and its input weights.
pub type NeuronModel<W> = (W, Seq<W>);

/// A layer seen as its neurons, in order.
pub type LayerModel<W> = Seq<NeuronModel<W>>;

/// A network seen as its layers, in order.
pub type NetworkModel<W> = Seq<LayerModel<W>>;

impl<W> View for Neuron<W> {
    type V = NeuronModel<W>;

    closed spec fn view(&self) -> NeuronModel<W> {
        (self.bias, self.weights@)
    }
}

impl<W> View for Layer<W> {
    type V = LayerModel<W>;

    closed spec fn view(&self) -> LayerModel<W> {
        self.neurons@.map_values(|n: Neuron<W>| n@)
    }
}

impl<W> View for Network<W> {
    type V = NetworkModel<W>;

    closed spec fn view(&self) -> NetworkModel<W> {
        self.layers@.map_values(|l: Layer<W>| l@)
    }
}

/// The parameters of a neuron in the order a chromosome lists them: the
/// bias, then the weights.
pub open spec fn neuron_params<W>(n: NeuronModel<W>) -> Seq<W> {
    seq![n.0] + n.1
}

/// The parameters of a layer: those of its neurons, one neuron after another.
pub open spec fn layer_params<W>(l: LayerModel<W>) -> Seq<W> {
    l.map_values(|n: NeuronModel<W>| neuron_params(n)).flatten()
}

/// The parameters of a network: those of its layers, one layer after another.
pub open spec fn network_params<W>(net: NetworkModel<W>) -> Seq<W> {
    net.map_values(|l: LayerModel<W>| layer_params(l)).flatten()
}

/// `l` has `n_out` neurons, each taking `n_in` inputs.
pub open spec fn layer_has_shape<W>(l: LayerModel<W>, n_in: int, n_out: int) -> bool {
    &&& l.len() == n_out
    &&& forall|j: int| 0 <= j < l.len() ==> (#[trigger] l[j]).1.len() == n_in
}

/// `net` is laid out as `topology` says: layer `i` takes `topology[i]`
/// inputs and has `topology[i + 1]` neurons.
pub open spec fn has_shape<W>(net: NetworkModel<W>, topology: Seq<usize>) -> bool {
    &&& topology.len() == net.len() + 1
    &&& forall|i: int|
        0 <= i < net.len() ==> layer_has_shape(#[trigger] net[i], topology[i] as int, topology[i + 1] as int)
}

/// The neuron counts that a list of layer topologies gives.
pub open spec fn topology_of(layers: Seq<LayerTopology>) -> Seq<usize> {
    layers.map_values(|l: LayerTopology| l.neurons)
}

/// Number of parameters of a layer with `n_out` neurons taking `n_in` inputs.
pub open spec fn layer_size(n_in: int, n_out: int) -> int {
    n_out * (n_in + 1)
}

/// Number of parameters of the first `k` layers of a network of `topology`.
pub open spec fn params_before(topology: Seq<usize>, k: int) -> int
    decreases k,
{
    if k <= 0 {
        0
    } else {
        params_before(topology, k - 1) + layer_size(topology[k - 1] as int, topology[k] as int)
    }
}

/// Number of parameters of a whole network of `topology`.
pub open spec fn param_count(topology: Seq<usize>) -> int {
    params_before(topology, topology.len() - 1)
}

proof fn lemma_layer_size_nonneg(n_in: int, n_out: int)
    requires
        n_in >= 0,
        n_out >= 0,
    ensures
        layer_size(n_in, n_out) >= 0,
{
    assert(n_out * (n_in + 1) >= 0) by (nonlinear_arith)
        requires
            n_in >= 0,
            n_out >= 0,
    ;
}

proof fn lemma_params_before_monotone(topology: Seq<usize>, k: int, m: int)
    requires
        0 <= k <= m < topology.len(),
    ensures
        0 <= params_before(topology, k) <= params_before(topology, m),
    decreases m - k,
{
    if k < m {
        lemma_params_before_monotone(topology, k, m - 1);
        lemma_layer_size_nonneg(topology[m - 1] as int, topology[m] as int);
    } else {
        lemma_params_before_nonneg(topology, k);
    }
}

proof fn lemma_params_before_nonneg(topology: Seq<usize>, k: int)
    requires
        0 <= k < topology.len(),
    ensures
        params_before(topology, k) >= 0,
    decreases k,
{
    if k > 0 {
        lemma_params_before_nonneg(topology, k - 1);
        lemma_layer_size_nonneg(topology[k - 1] as int, topology[k] as int);
    }
}

proof fn lemma_params_before_prefix(topology: Seq<usize>, k: int, n: int)
    requires
        0 <= k < n <= topology.len(),
    ensures
        params_before(topology.subrange(0, n), k) == params_before(topology, k),
    decreases k,
{
    if k > 0 {
        lemma_params_before_prefix(topology, k - 1, n);
    }
}

/// Splitting a concatenation at the length of its second part gives the parts back.
proof fn lemma_concat_cancel<A>(a: Seq<A>, b: Seq<A>, c: Seq<A>, d: Seq<A>)
    requires
        a + b == c + d,
        b.len() == d.len(),
    ensures
        a == c,
        b == d,
{
    assert(a =~= (a + b).subrange(0, a.len() as int));
    assert(c =~= (c + d).subrange(0, c.len() as int));
    assert(b =~= (a + b).subrange(a.len() as int, (a + b).len() as int));
    assert(d =~= (c + d).subrange(c.len() as int, (c + d).len() as int));
}

proof fn lemma_layer_params_push<W>(l: LayerModel<W>, n: NeuronModel<W>)
    ensures
        layer_params(l.push(n)) == layer_params(l) + neuron_params(n),
{
    let f = |x: NeuronModel<W>| neuron_params(x);
    assert(l.push(n).map_values(f) =~= l.map_values(f).push(f(n)));
    l.map_values(f).lemma_flatten_push(f(n));
}

proof fn lemma_network_params_push<W>(net: NetworkModel<W>, l: LayerModel<W>)
    ensures
        network_params(net.push(l)) == network_params(net) + layer_params(l),
{
    let f = |x: LayerModel<W>| layer_params(x);
    assert(net.push(l).map_values(f) =~= net.map_values(f).push(f(l)));
    net.map_values(f).lemma_flatten_push(f(l));
}

proof fn lemma_layer_params_empty<W>(l: LayerModel<W>)
    requires
        l.len() == 0,
    ensures
        layer_params(l) == Seq::<W>::empty(),
{
    assert(l.map_values(|x: NeuronModel<W>| neuron_params(x)) =~= Seq::<Seq<W>>::empty());
}

proof fn lemma_network_params_empty<W>(net: NetworkModel<W>)
    requires
        net.len() == 0,
    ensures
        network_params(net) == Seq::<W>::empty(),
{
    assert(net.map_values(|x: LayerModel<W>| layer_params(x)) =~= Seq::<Seq<W>>::empty());
}

/// A layer of a given shape has `layer_size` parameters.
proof fn lemma_layer_params_len<W>(l: LayerModel<W>, n_in: int, n_out: int)
    requires
        n_in >= 0,
        layer_has_shape(l, n_in, n_out),
    ensures
        layer_params(l).len() == layer_size(n_in, n_out),
    decreases l.len(),
{
    if l.len() == 0 {
        lemma_layer_params_empty(l);
    } else {
        let init = l.drop_last();
        assert(init.push(l.last()) =~= l);
        assert forall|j: int| 0 <= j < init.len() implies (#[trigger] init[j]).1.len() == n_in by {
            assert(init[j] == l[j]);
        }
        lemma_layer_params_len(init, n_in, n_out - 1);
        lemma_layer_params_push(init, l.last());
        assert(l.last() == l[l.len() - 1]);
        assert(n_out * (n_in + 1) == (n_out - 1) * (n_in + 1) + (n_in + 1)) by (nonlinear_arith);
    }
}

/// A network laid out as `topology` has exactly `param_count(topology)`
/// parameters: the length of its chromosome depends on its topology alone.
pub proof fn lemma_network_params_len<W>(net: NetworkModel<W>, topology: Seq<usize>)
    requires
        has_shape(net, topology),
    ensures
        network_params(net).len() == param_count(topology),
    decreases net.len(),
{
    if net.len() == 0 {
        lemma_network_params_empty(net);
    } else {
        let k = net.len() - 1;
        let init = net.drop_last();
        let t = topology.drop_last();
        assert(init.push(net.last()) =~= net);
        assert forall|i: int| 0 <= i < init.len() implies layer_has_shape(
            #[trigger] init[i],
            t[i] as int,
            t[i + 1] as int,
        ) by {
            assert(init[i] == net[i]);
        }
        lemma_network_params_len(init, t);
        lemma_params_before_prefix(topology, k, topology.len() - 1);
        assert(t =~= topology.subrange(0, topology.len() - 1));
        lemma_network_params_push(init, net.last());
        assert(net.last() == net[k]);
        lemma_layer_params_len(net[k], topology[k] as int, topology[k + 1] as int);
    }
}

/// Two layers of the same shape with the same parameters are the same layer.
proof fn lemma_layer_params_determine<W>(l1: LayerModel<W>, l2: LayerModel<W>, n_in: int, n_out: int)
    requires
        n_in >= 0,
        layer_has_shape(l1, n_in, n_out),
        layer_has_shape(l2, n_in, n_out),
        layer_params(l1) == layer_params(l2),
    ensures
        l1 == l2,
    decreases l1.len(),
{
    if l1.len() == 0 {
        assert(l1 =~= l2);
    } else {
        let (i1, i2) = (l1.drop_last(), l2.drop_last());
        assert(i1.push(l1.last()) =~= l1);
        assert(i2.push(l2.last()) =~= l2);
        assert forall|j: int| 0 <= j < i1.len() implies (#[trigger] i1[j]).1.len() == n_in by {
            assert(i1[j] == l1[j]);
        }
        assert forall|j: int| 0 <= j < i2.len() implies (#[trigger] i2[j]).1.len() == n_in by {
            assert(i2[j] == l2[j]);
        }
        lemma_layer_params_push(i1, l1.last());
        lemma_layer_params_push(i2, l2.last());
        assert(l1.last() == l1[l1.len() - 1]);
        assert(l2.last() == l2[l2.len() - 1]);
        lemma_concat_cancel(
            layer_params(i1),
            neuron_params(l1.last()),
            layer_params(i2),
            neuron_params(l2.last()),
        );
        lemma_layer_params_determine(i1, i2, n_in, n_out - 1);
        let (n1, n2) = (l1.last(), l2.last());
        lemma_concat_cancel(seq![n1.0], n1.1, seq![n2.0], n2.1);
        assert(seq![n1.0][0] == seq![n2.0][0]);
        assert(n1 == n2);
        assert(l1 =~= l2);
    }
}

/// A network is determined by its topology and its parameters: two
/// networks laid out alike whose `weights` agree are the same network, so
/// rebuilding a network with `from_weights` from its own topology and its own
/// `weights` gives that network back.
pub proof fn lemma_params_determine_network<W>(
    net1: NetworkModel<W>,
    net2: NetworkModel<W>,
    topology: Seq<usize>,
)
    requires
        has_shape(net1, topology),
        has_shape(net2, topology),
        network_params(net1) == network_params(net2),
    ensures
        net1 == net2,
    decreases net1.len(),
{
    if net1.len() == 0 {
        assert(net1 =~= net2);
    } else {
        let k = net1.len() - 1;
        let (i1, i2) = (net1.drop_last(), net2.drop_last());
        let t = topology.drop_last();
        assert(i1.push(net1.last()) =~= net1);
        assert(i2.push(net2.last()) =~= net2);
        assert forall|i: int| 0 <= i < i1.len() implies layer_has_shape(
            #[trigger] i1[i],
            t[i] as int,
            t[i + 1] as int,
        ) by {
            assert(i1[i] == net1[i]);
        }
        assert forall|i: int| 0 <= i < i2.len() implies layer_has_shape(
            #[trigger] i2[i],
            t[i] as int,
            t[i + 1] as int,
        ) by {
            assert(i2[i] == net2[i]);
        }
        lemma_network_params_push(i1, net1.last());
        lemma_network_params_push(i2, net2.last());
        assert(net1.last() == net1[k]);
        assert(net2.last() == net2[k]);
        lemma_layer_params_len(net1[k], topology[k] as int, topology[k + 1] as int);
        lemma_layer_params_len(net2[k], topology[k] as int, topology[k + 1] as int);
        lemma_concat_cancel(
            network_params(i1),
            layer_params(net1[k]),
            network_params(i2),
            layer_params(net2[k]),
        );
        lemma_params_determine_network(i1, i2, t);
        lemma_layer_params_determine(net1[k], net2[k], topology[k] as int, topology[k + 1] as int);
        assert(net1 =~= net2);
    }
}


impl<W: Copy> Neuron<W> {
    /// The neuron with `bias` and input weights `weights`.
    pub fn new(bias: W, weights: Vec<W>) -> (neuron: Self)
        ensures
            neuron@ == (bias, weights@),
    {
        Neuron { bias, weights }
    }

    /// The bias.
    pub fn bias(&self) -> (bias: W)
        ensures
            bias == self@.0,
    {
        self.bias
    }

    /// The weight given to each input, in input order.
    pub fn weights(&self) -> (weights: &[W])
        ensures
            weights@ == self@.1,
    {
        self.weights.as_slice()
    }

    /// Reads a neuron taking `output_neurons` inputs out of `weights`,
    /// starting at position `*next`: first its bias, then one weight per
    /// input. Leaves `*next` just past what it read.
    pub fn from_weights(output_neurons: usize, weights: &[W], next: &mut usize) -> (neuron: Self)
        requires
            *old(next) + output_neurons + 1 <= weights@.len(),
        ensures
            *final(next) == *old(next) + output_neurons + 1,
            neuron@.1.len() == output_neurons,
            neuron_params(neuron@) == weights@.subrange(*old(next) as int, *final(next) as int),
    {
        let bias = weights[*next];
        *next = *next + 1;
        let mut ws: Vec<W> = Vec::new();
        let mut k: usize = 0;
        while k < output_neurons
            invariant
                k <= output_neurons,
                *next == *old(next) + 1 + k,
                *old(next) + output_neurons + 1 <= weights@.len(),
                ws@ == weights@.subrange(*old(next) + 1, *next as int),
            decreases output_neurons - k,
        {
            ws.push(weights[*next]);
            *next = *next + 1;
            k = k + 1;
        }
        let neuron = Neuron { bias, weights: ws };
        assert(neuron_params(neuron@) =~= weights@.subrange(*old(next) as int, *next as int));
        neuron
    }
}

impl<W: Copy> Layer<W> {
    /// The layer made of `neurons`, in order.
    pub fn new(neurons: Vec<Neuron<W>>) -> (layer: Self)
        ensures
            layer@ == neurons@.map_values(|n: Neuron<W>| n@),
    {
        Layer { neurons }
    }

    /// The neurons, in order.
    pub fn neurons(&self) -> (neurons: &[Neuron<W>])
        ensures
            neurons@.map_values(|n: Neuron<W>| n@) == self@,
    {
        self.neurons.as_slice()
    }

    /// Reads a layer of `output_size` neurons, each taking `input_size`
    /// inputs, out of `weights` from position `*next` on, one neuron after
    /// another. Leaves `*next` just past what it read.
    pub fn from_weights(input_size: usize, output_size: usize, weights: &[W], next: &mut usize) -> (layer: Self)
        requires
            *old(next) + layer_size(input_size as int, output_size as int) <= weights@.len(),
        ensures
            *final(next) == *old(next) + layer_size(input_size as int, output_size as int),
            layer_has_shape(layer@, input_size as int, output_size as int),
            layer_params(layer@) == weights@.subrange(*old(next) as int, *final(next) as int),
    {
        let ghost start = *next as int;
        let ghost step = input_size + 1;
        let mut neurons: Vec<Neuron<W>> = Vec::new();
        let mut k: usize = 0;
        proof {
            lemma_layer_params_empty(neurons@.map_values(|n: Neuron<W>| n@));
        }
        while k < output_size
            invariant
                k <= output_size,
                step == input_size + 1,
                start == *old(next),
                start + layer_size(input_size as int, output_size as int) <= weights@.len(),
                *next == start + k * step,
                neurons@.len() == k,
                layer_has_shape(neurons@.map_values(|n: Neuron<W>| n@), input_size as int, k as int),
                layer_params(neurons@.map_values(|n: Neuron<W>| n@)) == weights@.subrange(start, *next as int),
            decreases output_size - k,
        {
            proof {
                assert((k + 1) * step <= output_size * step) by (nonlinear_arith)
                    requires
                        k + 1 <= output_size,
                        step >= 1,
                ;
                assert((k + 1) * step == k * step + step) by (nonlinear_arith);
                assert(output_size * step == layer_size(input_size as int, output_size as int));
            }
            proof {
                assert(k * step >= 0) by (nonlinear_arith)
                    requires
                        step >= 1,
                ;
            }
            let ghost before = neurons@.map_values(|n: Neuron<W>| n@);
            let ghost at = *next as int;
            let neuron = Neuron::from_weights(input_size, weights, next);
            neurons.push(neuron);
            proof {
                let after = neurons@.map_values(|n: Neuron<W>| n@);
                assert(after =~= before.push(neuron@));
                lemma_layer_params_push(before, neuron@);
                assert(weights@.subrange(start, *next as int) =~= weights@.subrange(start, at)
                    + weights@.subrange(at, *next as int));
                assert forall|j: int| 0 <= j < after.len() implies (#[trigger] after[j]).1.len()
                    == input_size by {
                    if j < before.len() {
                        assert(after[j] == before[j]);
                    }
                }
            }
            k = k + 1;
        }
        Layer { neurons }
    }
}

impl<W: Copy> Network<W> {
    /// The network made of `layers`, in order.
    pub fn new(layers: Vec<Layer<W>>) -> (network: Self)
        ensures
            network@ == layers@.map_values(|l: Layer<W>| l@),
    {
        Network { layers }
    }

    /// The layers, in order.
    pub fn layers(&self) -> (layers: &[Layer<W>])
        ensures
            layers@.map_values(|l: Layer<W>| l@) == self@,
    {
        self.layers.as_slice()
    }

    /// Number of parameters that a network laid out as `layers` has, or
    /// `None` where that number does not fit in a `usize`.
    pub fn weight_count(layers: &[LayerTopology]) -> (count: Option<usize>)
        requires
            layers@.len() >= 1,
        ensures
            match count {
                Some(c) => c == param_count(topology_of(layers@)),
                None => param_count(topology_of(layers@)) > usize::MAX,
            },
    {
        let ghost t = topology_of(layers@);
        let mut total: usize = 0;
        let mut i: usize = 0;
        while i < layers.len() - 1
            invariant
                layers@.len() >= 1,
                t == topology_of(layers@),
                i + 1 <= layers@.len(),
                total == params_before(t, i as int),
            decreases layers@.len() - i,
        {
            let n_in = layers[i].neurons;
            let n_out = layers[i + 1].neurons;
            proof {
                assert(t[i as int] == n_in);
                assert(t[i + 1] == n_out);
            }
            proof {
                assert(n_out * (n_in + 1) == n_out * n_in + n_out) by (nonlinear_arith);
                assert(n_out * n_in >= 0) by (nonlinear_arith)
                    requires
                        n_out >= 0,
                        n_in >= 0,
                ;
            }
            let size = match n_out.checked_mul(n_in) {
                Some(product) => product.checked_add(n_out),
                None => None,
            };
            match size {
                Some(size) => match total.checked_add(size) {
                    Some(sum) => {
                        total = sum;
                    },
                    None => {
                        proof {
                            lemma_params_before_monotone(t, i + 1, t.len() - 1);
                        }
                        return None;
                    },
                },
                None => {
                    proof {
                        lemma_params_before_nonneg(t, i as int);
                        lemma_params_before_monotone(t, i + 1, t.len() - 1);
                    }
                    return None;
                },
            }
            i = i + 1;
        }
        Some(total)
    }

    /// Builds the network laid out as `layers` whose parameters, read layer
    /// by layer and neuron by neuron (bias first, then weights), are
    /// `weights`.
    pub fn from_weights(layers: &[LayerTopology], weights: Vec<W>) -> (network: Self)
        requires
            layers@.len() > 1,
            weights@.len() == param_count(topology_of(layers@)),
        ensures
            has_shape(network@, topology_of(layers@)),
            network_params(network@) == weights@,
    {
        let ghost t = topology_of(layers@);
        let ws = weights.as_slice();
        let mut net_layers: Vec<Layer<W>> = Vec::new();
        let mut next: usize = 0;
        let mut i: usize = 0;
        proof {
            lemma_network_params_empty(net_layers@.map_values(|l: Layer<W>| l@));
        }
        while i < layers.len() - 1
            invariant
                layers@.len() > 1,
                t == topology_of(layers@),
                ws@ == weights@,
                weights@.len() == param_count(t),
                i + 1 <= layers@.len(),
                next == params_before(t, i as int),
                net_layers@.len() == i,
                has_shape(net_layers@.map_values(|l: Layer<W>| l@), t.subrange(0, i + 1)),
                network_params(net_layers@.map_values(|l: Layer<W>| l@)) == weights@.subrange(0, next as int),
            decreases layers@.len() - i,
        {
            let n_in = layers[i].neurons;
            let n_out = layers[i + 1].neurons;
            proof {
                assert(t[i as int] == n_in);
                assert(t[i + 1] == n_out);
                lemma_params_before_monotone(t, i + 1, t.len() - 1);
            }
            let ghost before = net_layers@.map_values(|l: Layer<W>| l@);
            let ghost at = next as int;
            let layer = Layer::from_weights(n_in, n_out, ws, &mut next);
            net_layers.push(layer);
            proof {
                let after = net_layers@.map_values(|l: Layer<W>| l@);
                assert(after =~= before.push(layer@));
                lemma_network_params_push(before, layer@);
                assert(weights@.subrange(0, next as int) =~= weights@.subrange(0, at)
                    + weights@.subrange(at, next as int));
                let t_before = t.subrange(0, i + 1);
                let t_after = t.subrange(0, i + 2);
                assert forall|j: int| 0 <= j < after.len() implies layer_has_shape(
                    #[trigger] after[j],
                    t_after[j] as int,
                    t_after[j + 1] as int,
                ) by {
                    if j < i {
                        assert(after[j] == before[j]);
                        assert(layer_has_shape(before[j], t_before[j] as int, t_before[j + 1] as int));
                    }
                }
            }
            i = i + 1;
        }
        let network = Network { layers: net_layers };
        proof {
            assert(t.subrange(0, i + 1) =~= t);
            assert(weights@.subrange(0, next as int) =~= weights@);
        }
        network
    }

    /// Builds the network laid out as `layers` from freshly drawn parameter
    /// values `samples`, handed out in the order in which the network takes
    /// them: layer by layer, neuron by neuron, bias first.
    pub fn random(layers: &[LayerTopology], samples: Vec<W>) -> (network: Self)
        requires
            layers@.len() > 1,
            samples@.len() == param_count(topology_of(layers@)),
        ensures
            has_shape(network@, topology_of(layers@)),
            network_params(network@) == samples@,
    {
        Network::from_weights(layers, samples)
    }

    /// All parameters of the network: layer by layer, neuron by neuron,
    /// bias first, then weights.
    pub fn weights(&self) -> (params: std::vec::IntoIter<W>)
        ensures
            params.remaining() == network_params(self@),
    {
        self.params().into_iter()
    }

    /// The parameters that `weights` hands out, gathered in a vector.
    pub fn params(&self) -> (params: Vec<W>)
        ensures
            params@ == network_params(self@),
    {
        let mut out: Vec<W> = Vec::new();
        let mut i: usize = 0;
        proof {
            lemma_network_params_empty(self@.subrange(0, 0));
        }
        while i < self.layers.len()
            invariant
                i <= self.layers@.len(),
                out@ == network_params(self@.subrange(0, i as int)),
            decreases self.layers@.len() - i,
        {
            let layer = &self.layers[i];
            let mut j: usize = 0;
            let ghost prefix = out@;
            proof {
                lemma_layer_params_empty(layer@.subrange(0, 0));
            }
            while j < layer.neurons.len()
                invariant
                    i < self.layers@.len(),
                    layer == self.layers@[i as int],
                    j <= layer.neurons@.len(),
                    out@ == prefix + layer_params(layer@.subrange(0, j as int)),
                decreases layer.neurons@.len() - j,
            {
                let neuron = &layer.neurons[j];
                let ghost mid = out@;
                out.push(neuron.bias);
                let mut k: usize = 0;
                while k < neuron.weights.len()
                    invariant
                        k <= neuron.weights@.len(),
                        out@ == mid + seq![neuron.bias] + neuron.weights@.subrange(0, k as int),
                    decreases neuron.weights@.len() - k,
                {
                    out.push(neuron.weights[k]);
                    k = k + 1;
                    proof {
                        assert(neuron.weights@.subrange(0, k as int) =~= neuron.weights@.subrange(
                            0,
                            k - 1,
                        ).push(neuron.weights@[k - 1]));
                    }
                }
                proof {
                    assert(neuron.weights@.subrange(0, k as int) =~= neuron.weights@);
                    assert(layer@.subrange(0, j + 1) =~= layer@.subrange(0, j as int).push(neuron@));
                    lemma_layer_params_push(layer@.subrange(0, j as int), neuron@);
                }
                j = j + 1;
            }
            proof {
                assert(layer@.subrange(0, j as int) =~= layer@);
                assert(self@.subrange(0, i + 1) =~= self@.subrange(0, i as int).push(layer@));
                lemma_network_params_push(self@.subrange(0, i as int), layer@);
            }
            i = i + 1;
        }
        proof {
            assert(self@.subrange(0, i as int) =~= self@);
        }
        out
    }
}

} // verus!
