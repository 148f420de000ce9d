//! The adapter between an animal and the genetic algorithm.

use vstd::prelude::*;

use crate::animal::{wf_animal, Animal};
use crate::brain::s_brain_genes;
use crate::chromosome::{genes_valid, Chromosome};
use crate::eye::default_eye;
use crate::genetic_algorithm::Individual;
use crate::network::s_net_flatten;
use rand::rngs::StdRng;

verus! {

/// An animal's evolutionary capability: its fitness is its satiation count,
/// its chromosome its flattened brain.
pub struct AnimalIndividual {
    fitness: u64,
    chromosome: Chromosome,
}

impl AnimalIndividual {
    /// Capture an animal's fitness and chromosome for evolution input.
    pub fn from_animal(animal: &Animal) -> (r: AnimalIndividual)
        ensures
            r.sfit() == animal.satiation,
            r.schrom() == s_net_flatten(animal.brain.nn),
    {
        AnimalIndividual {
            fitness: animal.satiation() as u64,
            chromosome: animal.as_chromosome(),
        }
    }

    /// Build the next generation's animal from an evolved chromosome:
    /// fresh position, heading and satiation, evolved brain.
    pub fn into_animal(self, rng: &mut StdRng) -> (r: Animal)
        requires
            self.schrom().len() == s_brain_genes(default_eye()),
            genes_valid(self.schrom()),
        ensures
            wf_animal(r),
            r.satiation == 0,
            r.speed == crate::animal::SPEED_MAX,
            s_net_flatten(r.brain.nn) == self.schrom(),
    {
        Animal::from_chromosome(self.chromosome, rng)
    }
}

impl Individual for AnimalIndividual {
    closed spec fn sfit(&self) -> u64 {
        self.fitness
    }

    closed spec fn schrom(&self) -> Seq<i64> {
        self.chromosome@
    }

    fn fitness(&self) -> u64 {
        self.fitness
    }

    fn chromosome(&self) -> &Chromosome {
        &self.chromosome
    }

    fn create(chromosome: Chromosome) -> Self {
        AnimalIndividual { fitness: 0, chromosome }
    }
}

} // verus!
