//! The world: this generation's animals and foods.

use vstd::prelude::*;

use crate::animal::{wf_animal, Animal, SPEED_MAX};
use crate::network::net_unit;
use crate::food::Food;
use crate::point::in_unit;
use rand::rngs::StdRng;

verus! {

/// How many animals a world holds.
pub const ANIMAL_COUNT: usize = 10;

/// How many pieces of food a world holds.
pub const FOOD_COUNT: usize = 60;

/// A consistent world: the fixed population sizes, every animal consistent,
/// every food on the torus.
pub open spec fn wf_world(w: World) -> bool {
    &&& w.animals@.len() == ANIMAL_COUNT
    &&& w.foods@.len() == FOOD_COUNT
    &&& forall|i: int| 0 <= i < w.animals@.len() ==> wf_animal(#[trigger] w.animals@[i])
    &&& forall|i: int| 0 <= i < w.foods@.len() ==> in_unit(#[trigger] w.foods@[i].position)
}

/// The current generation's population and food.
pub struct World {
    pub animals: Vec<Animal>,
    pub foods: Vec<Food>,
}

impl World {
    /// A fresh world of random animals and foods.
    pub fn random(rng: &mut StdRng) -> (r: World)
        ensures
            wf_world(r),
            forall|i: int| 0 <= i < r.animals@.len() ==> (#[trigger] r.animals@[i]).satiation == 0,
            forall|i: int|
                0 <= i < r.animals@.len() ==> (#[trigger] r.animals@[i]).speed == SPEED_MAX
                    && net_unit(r.animals@[i].brain.nn),
    {
        let mut animals: Vec<Animal> = Vec::new();
        while animals.len() < ANIMAL_COUNT
            invariant
                animals@.len() <= ANIMAL_COUNT,
                forall|i: int|
                    0 <= i < animals@.len() ==> wf_animal(#[trigger] animals@[i])
                        && animals@[i].satiation == 0 && animals@[i].speed == SPEED_MAX
                        && net_unit(animals@[i].brain.nn),
            decreases ANIMAL_COUNT - animals.len(),
        {
            let a = Animal::random(rng);
            animals.push(a);
        }
        let mut foods: Vec<Food> = Vec::new();
        while foods.len() < FOOD_COUNT
            invariant
                foods@.len() <= FOOD_COUNT,
                forall|i: int| 0 <= i < foods@.len() ==> in_unit(#[trigger] foods@[i].position),
            decreases FOOD_COUNT - foods.len(),
        {
            let f = Food::random(rng);
            foods.push(f);
        }
        World { animals, foods }
    }

    /// The animals, in order.
    pub fn animals(&self) -> (r: &Vec<Animal>)
        ensures
            r == &self.animals,
    {
        &self.animals
    }

    /// The foods, in order.
    pub fn foods(&self) -> (r: &Vec<Food>)
        ensures
            r == &self.foods,
    {
        &self.foods
    }
}

} // verus!
