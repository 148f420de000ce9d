//! Food: a point entity on the torus, relocated rather than destroyed when
//! eaten.

use vstd::prelude::*;

use crate::fixed::SCALE;
use crate::point::{in_unit, Point};
use crate::rng::rng_range;
use rand::rngs::StdRng;

verus! {

/// A piece of food.
#[derive(Clone, Copy, Debug, PartialEq, Eq, Structural)]
pub struct Food {
    pub position: Point,
}

/// A uniformly random point of the unit square.
pub(crate) fn random_point(rng: &mut StdRng) -> (r: Point)
    ensures
        in_unit(r),
{
    let x = rng_range(rng, 0, SCALE - 1);
    let y = rng_range(rng, 0, SCALE - 1);
    Point { x, y }
}

impl Food {
    /// A piece of food at a uniformly random position.
    pub fn random(rng: &mut StdRng) -> (r: Food)
        ensures
            in_unit(r.position),
    {
        Food { position: random_point(rng) }
    }

    /// Where the food lies.
    pub fn position(&self) -> (r: Point)
        ensures
            r == self.position,
    {
        self.position
    }
}

} // verus!
