//! An animal's brain: a network whose topology is fixed by its eye.
//!
//! The input layer has one neuron per eye cell, the hidden layer twice as
//! many, and the output layer has two neurons: a speed adjustment and a
//! rotation adjustment.

use vstd::prelude::*;

use crate::chromosome::{genes_valid, Chromosome};
use crate::eye::{wf_eye, Eye};
use crate::network::{
    net_matches, net_unit, net_valid, s_chrom_len, s_net_flatten, topo_ok, topo_sizes,
    wf_network, LayerTopology, Network,
};
use rand::rngs::StdRng;

verus! {

/// The topology an eye with `cells` photoreceptors dictates.
pub open spec fn s_brain_topo(cells: usize) -> Seq<LayerTopology> {
    seq![
        LayerTopology { neurons: cells },
        LayerTopology { neurons: (2 * cells) as usize },
        LayerTopology { neurons: 2 },
    ]
}

/// Number of genes a brain for this eye encodes.
pub open spec fn s_brain_genes(eye: Eye) -> int {
    s_chrom_len(topo_sizes(s_brain_topo(eye.cells)))
}

/// A brain consistent with the given eye.
pub open spec fn wf_brain(b: Brain, eye: Eye) -> bool {
    &&& wf_network(b.nn)
    &&& net_valid(b.nn)
    &&& net_matches(b.nn, s_brain_topo(eye.cells))
}

/// The decision function of one animal.
pub struct Brain {
    pub nn: Network,
}

/// The topology for an eye, as a concrete vector.
fn topology_of(eye: &Eye) -> (r: Vec<LayerTopology>)
    requires
        wf_eye(*eye),
    ensures
        r@ == s_brain_topo(eye.cells),
        topo_ok(r@),
{
    let mut t: Vec<LayerTopology> = Vec::new();
    t.push(LayerTopology { neurons: eye.cells });
    t.push(LayerTopology { neurons: 2 * eye.cells });
    t.push(LayerTopology { neurons: 2 });
    proof {
        assert(t@ =~= s_brain_topo(eye.cells));
    }
    t
}

impl Brain {
    /// A randomly initialized brain for this eye: every bias and weight
    /// drawn from `[-1, 1]`.
    pub fn random(rng: &mut StdRng, eye: &Eye) -> (r: Brain)
        requires
            wf_eye(*eye),
        ensures
            wf_brain(r, *eye),
            net_unit(r.nn),
            s_net_flatten(r.nn).len() == s_brain_genes(*eye),
    {
        let topology = topology_of(eye);
        Brain { nn: Network::random(rng, &topology) }
    }

    /// The brain a chromosome of exactly the right length encodes.
    pub fn from_chromosome(chromosome: Chromosome, eye: &Eye) -> (r: Brain)
        requires
            wf_eye(*eye),
            chromosome@.len() == s_brain_genes(*eye),
            genes_valid(chromosome@),
        ensures
            wf_brain(r, *eye),
            s_net_flatten(r.nn) == chromosome@,
    {
        let topology = topology_of(eye);
        Brain { nn: Network::from_weights(&topology, chromosome.genes()) }
    }

    /// The brain's weights, flattened into a chromosome.
    pub fn as_chromosome(&self) -> (r: Chromosome)
        ensures
            r@ == s_net_flatten(self.nn),
    {
        Chromosome::new(self.nn.weights())
    }
}

} // verus!
