//! Fitness-proportionate ("roulette wheel") selection.

use vstd::prelude::*;

use crate::genetic_algorithm::SelectionMethod;
use crate::rng::rng_weighted;
use crate::statistics::sum_u64;
use rand::rngs::StdRng;

verus! {

/// Selects an individual with probability proportional to its fitness.
#[derive(Clone, Copy, Debug, PartialEq, Eq, Structural)]
pub struct RouletteWheelSelection;

impl SelectionMethod for RouletteWheelSelection {
    fn select(&self, rng: &mut StdRng, fitnesses: &Vec<u64>) -> (r: usize) {
        let picked = rng_weighted(rng, fitnesses);
        match picked {
            Some(i) => i,
            None => {
                proof {
                    assert(false);
                }
                0
            },
        }
    }
}

} // verus!
