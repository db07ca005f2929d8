use vstd::prelude::*;

use crate::genetic_algorithm::Chromosome;
use crate::neural_network::{
    has_shape, lemma_params_determine_network, network_params, param_count, topology_of,
    LayerTopology, Network, NetworkModel,
};

verus! {

/// Neuron counts of a brain whose eye has `cells` cells: the eye's cells
/// feed a hidden layer twice as wide, which feeds two outputs (speed and
/// rotation).
pub open spec fn brain_topology(cells: nat) -> Seq<usize> {
    seq![cells as usize, (2 * cells) as usize, 2usize]
}

/// What steers an animal: a neural network and the largest changes of speed
/// and rotation that one step may make.
#[derive(Clone, Debug)]
pub struct Brain<F> {
    nn: Network<F>,
    speed_accel: F,
    rotation_accel: F,
}

impl<F> Brain<F> {
    /// The brain's network.
    pub closed spec fn network(&self) -> NetworkModel<F> {
        self.nn@
    }

    /// The largest change of speed in one step.
    pub closed spec fn max_speed_accel(&self) -> F {
        self.speed_accel
    }

    /// The largest change of rotation in one step.
    pub closed spec fn max_rotation_accel(&self) -> F {
        self.rotation_accel
    }
}

impl<F: Copy> Brain<F> {
    /// Layer topology of the network of a brain whose eye has `cells` cells.
    pub fn topology(cells: usize) -> (layers: [LayerTopology; 3])
        requires
            cells <= usize::MAX / 2,
        ensures
            topology_of(layers@) == brain_topology(cells as nat),
    {
        let layers = [
            LayerTopology { neurons: cells },
            LayerTopology { neurons: 2 * cells },
            LayerTopology { neurons: 2 },
        ];
        assert(topology_of(layers@) =~= brain_topology(cells as nat));
        layers
    }

    /// A brain for an eye of `cells` cells whose network takes the freshly
    /// drawn parameters `samples`, with the given largest changes of speed and
    /// rotation.
    pub fn random(cells: usize, samples: Vec<F>, speed_accel: F, rotation_accel: F) -> (brain: Self)
        requires
            cells <= usize::MAX / 2,
            samples@.len() == param_count(brain_topology(cells as nat)),
        ensures
            has_shape(brain.network(), brain_topology(cells as nat)),
            network_params(brain.network()) == samples@,
            brain.max_speed_accel() == speed_accel,
            brain.max_rotation_accel() == rotation_accel,
    {
        let layers = Brain::<F>::topology(cells);
        Brain { nn: Network::random(&layers, samples), speed_accel, rotation_accel }
    }

    /// The brain's parameters, as a chromosome for the genetic algorithm.
    pub fn as_chromosome(&self) -> (chromosome: Chromosome<F>)
        ensures
            chromosome@ == network_params(self.network()),
    {
        Chromosome::from_iter(self.nn.params())
    }

    /// The brain for an eye of `cells` cells whose network's parameters are
    /// the genes of `chromosome`, with the given largest changes of speed and
    /// rotation.
    pub fn from_chromosome(chromosome: Chromosome<F>, cells: usize, speed_accel: F, rotation_accel: F) -> (brain: Self)
        requires
            cells <= usize::MAX / 2,
            chromosome@.len() == param_count(brain_topology(cells as nat)),
        ensures
            has_shape(brain.network(), brain_topology(cells as nat)),
            network_params(brain.network()) == chromosome@,
            brain.max_speed_accel() == speed_accel,
            brain.max_rotation_accel() == rotation_accel,
    {
        let layers = Brain::<F>::topology(cells);
        Brain { nn: Network::from_weights(&layers, chromosome.into_genes()), speed_accel, rotation_accel }
    }

    /// The brain's network.
    pub fn nn(&self) -> (nn: &Network<F>)
        ensures
            nn@ == self.network(),
    {
        &self.nn
    }

    /// The largest change of speed in one step.
    pub fn speed_accel(&self) -> (accel: F)
        ensures
            accel == self.max_speed_accel(),
    {
        self.speed_accel
    }

    /// The largest change of rotation in one step.
    pub fn rotation_accel(&self) -> (accel: F)
        ensures
            accel == self.max_rotation_accel(),
    {
        self.rotation_accel
    }
}

/// A brain survives the trip through the genetic algorithm: rebuilding a brain for the same eye from a brain's chromosome gives
/// back the same network.
pub proof fn lemma_brain_round_trip<F>(original: NetworkModel<F>, rebuilt: NetworkModel<F>, cells: nat)
    requires
        has_shape(original, brain_topology(cells)),
        has_shape(rebuilt, brain_topology(cells)),
        network_params(rebuilt) == network_params(original),
    ensures
        rebuilt == original,
{
    lemma_params_determine_network(rebuilt, original, brain_topology(cells));
}

} // verus!
