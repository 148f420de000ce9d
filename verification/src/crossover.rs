//! Uniform crossover.

use vstd::prelude::*;

use crate::chromosome::Chromosome;
use crate::genetic_algorithm::CrossoverMethod;
use crate::rng::rng_coin;
use rand::rngs::StdRng;

verus! {

/// Copies each gene position from one parent or the other, chosen by an
/// independent fair coin flip per gene.
#[derive(Clone, Copy, Debug, PartialEq, Eq, Structural)]
pub struct UniformCrossover;

impl CrossoverMethod for UniformCrossover {
    fn crossover(&self, rng: &mut StdRng, parent_a: &Chromosome, parent_b: &Chromosome) -> (r:
        Chromosome) {
        let n = parent_a.len();
        let mut genes: Vec<i64> = Vec::new();
        while genes.len() < n
            invariant
                n == parent_a@.len() == parent_b@.len(),
                genes@.len() <= n,
                forall|j: int|
                    0 <= j < genes@.len() ==> #[trigger] genes@[j] == parent_a@[j] || genes@[j]
                        == parent_b@[j],
            decreases n - genes.len(),
        {
            let i = genes.len();
            let g = if rng_coin(rng) {
                parent_a.gene(i)
            } else {
                parent_b.gene(i)
            };
            genes.push(g);
        }
        Chromosome::new(genes)
    }
}

} // verus!
