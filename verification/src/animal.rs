//! An animal: position, heading, speed, an eye, a brain and a satiation
//! counter.

use vstd::prelude::*;

use crate::angle::{angle_wrapped, HALF_TURN};
use crate::brain::{s_brain_genes, wf_brain, Brain};
use crate::network::{net_unit, s_net_flatten};
use crate::chromosome::{genes_valid, Chromosome};
use crate::eye::{default_eye, Eye};
use crate::food::random_point;
use crate::point::in_unit;
use crate::point::Point;
use crate::rng::rng_range;
use rand::rngs::StdRng;

verus! {

/// Slowest an animal can fly; staying above zero keeps it from freezing in
/// place.
pub const SPEED_MIN: i64 = 100;

/// Fastest an animal can fly.
pub const SPEED_MAX: i64 = 2_000;

/// A consistent animal: on the torus, with a wrapped heading, a speed within
/// bounds, the default eye, and a brain matching that eye.
pub open spec fn wf_animal(a: Animal) -> bool {
    &&& in_unit(a.position)
    &&& angle_wrapped(a.rotation as int)
    &&& SPEED_MIN <= a.speed <= SPEED_MAX
    &&& a.eye == default_eye()
    &&& wf_brain(a.brain, a.eye)
}

/// One agent of the simulation.
pub struct Animal {
    pub position: Point,
    pub rotation: i64,
    pub speed: i64,
    pub eye: Eye,
    pub brain: Brain,
    pub satiation: u32,
}

impl Animal {
    /// A new animal at a random position and heading, with a random brain
    /// whose values lie within one unit, flying at the top speed.
    pub fn random(rng: &mut StdRng) -> (r: Animal)
        ensures
            wf_animal(r),
            r.satiation == 0,
            r.speed == SPEED_MAX,
            net_unit(r.brain.nn),
    {
        let eye = Eye::default();
        let brain = Brain::random(rng, &eye);
        Animal {
            position: random_point(rng),
            rotation: rng_range(rng, -HALF_TURN + 1, HALF_TURN),
            speed: SPEED_MAX,
            eye,
            brain,
            satiation: 0,
        }
    }

    /// A new animal whose brain an evolved chromosome encodes; position,
    /// heading and satiation start fresh.
    pub(crate) fn from_chromosome(chromosome: Chromosome, rng: &mut StdRng) -> (r: Animal)
        requires
            chromosome@.len() == s_brain_genes(default_eye()),
            genes_valid(chromosome@),
        ensures
            wf_animal(r),
            r.satiation == 0,
            r.speed == SPEED_MAX,
            s_net_flatten(r.brain.nn) == chromosome@,
    {
        let eye = Eye::default();
        let brain = Brain::from_chromosome(chromosome, &eye);
        Animal::new(eye, brain, rng)
    }

    /// The animal's brain, flattened into a chromosome.
    pub(crate) fn as_chromosome(&self) -> (r: Chromosome)
        ensures
            r@ == s_net_flatten(self.brain.nn),
    {
        self.brain.as_chromosome()
    }

    fn new(eye: Eye, brain: Brain, rng: &mut StdRng) -> (r: Animal)
        requires
            eye == default_eye(),
            wf_brain(brain, eye),
        ensures
            wf_animal(r),
            r.satiation == 0,
            r.speed == SPEED_MAX,
            r.brain == brain,
    {
        Animal {
            position: random_point(rng),
            rotation: rng_range(rng, -HALF_TURN + 1, HALF_TURN),
            speed: SPEED_MAX,
            eye,
            brain,
            satiation: 0,
        }
    }

    /// Where the animal is.
    pub fn position(&self) -> (r: Point)
        ensures
            r == self.position,
    {
        self.position
    }

    /// Which way the animal is heading, as a wrapped angle in scaled turns.
    pub fn rotation(&self) -> (r: i64)
        ensures
            r == self.rotation,
    {
        self.rotation
    }

    /// How many pieces of food the animal has eaten this generation.
    pub fn satiation(&self) -> (r: u32)
        ensures
            r == self.satiation,
    {
        self.satiation
    }
}

} // verus!
