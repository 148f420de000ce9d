//! The top-level stepper: perception, decision, movement, collision and the
//! periodic evolution boundary.

use vstd::prelude::*;

use crate::angle::{s_cos, s_sin, s_wrap, wrap, EIGHTH_TURN};
use crate::animal::{wf_animal, Animal, SPEED_MAX, SPEED_MIN};
use crate::animal_individual::AnimalIndividual;
use crate::brain::{s_brain_genes, wf_brain};
use crate::chromosome::genes_valid;
use crate::crossover::UniformCrossover;
use crate::eye::{default_eye, food_points, lemma_vision_len, s_vision};
use crate::fixed::{clamp_val, lemma_scaled_bound, mul_scaled, sat, spec_clamp, tdiv, SCALE};
use crate::food::{random_point, Food};
use crate::genetic_algorithm::{
    crossed, evolvable, fit_seq, GeneticAlgorithm, Individual, MutationMethod,
};
use crate::mutation::GaussianMutation;
use crate::network::{
    lemma_flat_layers_len, lemma_flat_layers_valid, s_net_flatten, s_net_out, topo_sizes,
};
use crate::point::{dist2, s_dist2, s_wrap_unit, wrap_unit, Point};
use crate::selection::RouletteWheelSelection;
use crate::statistics::{
    lemma_min_max_growth, lemma_seq_max_le, lemma_seq_max_mono, lemma_seq_min_mono,
    lemma_sum_growth, lemma_sum_mono, seq_max, seq_min, sum_u64, Statistics,
};
use crate::world::{wf_world, World, ANIMAL_COUNT, FOOD_COUNT};
use rand::rngs::StdRng;

verus! {

/// Largest change of speed one decision can make.
pub const SPEED_ACCEL: i64 = 20_000;

/// Largest change of heading one decision can make: an eighth of a turn.
pub const ROTATION_ACCEL: i64 = EIGHTH_TURN;

/// Ticks per generation: how long each animal gets to live.
pub const GENERATION_LENGTH: usize = 2_500;

/// An animal touching food within this distance eats it.
pub const COLLISION_DIST: i64 = 10_000;

/// Probability (as a fraction of `SCALE`) that evolution perturbs a gene:
/// one percent.
pub const MUTATION_CHANCE: i64 = 10_000;

/// Magnitude of an evolutionary perturbation: a fifth of a unit.
pub const MUTATION_COEFF: i64 = 200_000;

/// The animal can eat this food: within the collision distance.
pub open spec fn s_in_reach(a: Point, f: Point) -> bool {
    s_dist2(a, f) <= COLLISION_DIST * COLLISION_DIST
}

/// How many of the foods an animal at `a` can reach.
pub open spec fn s_reach_count(a: Point, foods: Seq<Food>) -> int
    decreases foods.len(),
{
    if foods.len() == 0 {
        0
    } else {
        s_reach_count(a, foods.drop_last()) + if s_in_reach(a, foods.last().position) {
            1int
        } else {
            0int
        }
    }
}

/// No animal before index `i` can reach the point.
pub open spec fn s_unclaimed(animals: Seq<Animal>, i: int, f: Point) -> bool {
    forall|t: int| 0 <= t < i ==> !s_in_reach((#[trigger] animals[t]).position, f)
}

/// How many foods animal `i` can reach that no earlier animal can. Such
/// foods still lie where they started when animal `i` scans them, so it is
/// guaranteed to eat at least these.
pub open spec fn s_first_claim_count(animals: Seq<Animal>, i: int, foods: Seq<Food>) -> int
    decreases foods.len(),
{
    if foods.len() == 0 {
        0
    } else {
        s_first_claim_count(animals, i, foods.drop_last()) + if s_in_reach(
            animals[i].position,
            foods.last().position,
        ) && s_unclaimed(animals, i, foods.last().position) {
            1int
        } else {
            0int
        }
    }
}

/// A quiet world: no animal can reach any food, so a collision pass changes
/// nothing.
pub open spec fn s_quiet(w: World) -> bool {
    forall|i: int, j: int|
        0 <= i < w.animals@.len() && 0 <= j < w.foods@.len() ==> !s_in_reach(
            (#[trigger] w.animals@[i]).position,
            (#[trigger] w.foods@[j]).position,
        )
}

/// The decision phase's effect on one animal: its eye reads the foods, its
/// brain maps the sensory vector to two outputs, and speed and heading move
/// by the clamped outputs; nothing else changes.
pub open spec fn s_decide(a: Animal, foods: Seq<Food>) -> Animal {
    let vision = s_vision(a.eye, a.position, a.rotation as int, food_points(foods));
    let inputs = Seq::new(vision.len(), |i: int| vision[i] as i64);
    let out = s_net_out(a.brain.nn.layers@, inputs);
    let speed_delta = spec_clamp(out[0] as int, -SPEED_ACCEL as int, SPEED_ACCEL as int);
    let rot_delta = spec_clamp(out[1] as int, -ROTATION_ACCEL as int, ROTATION_ACCEL as int);
    (Animal {
        speed: spec_clamp(a.speed + speed_delta, SPEED_MIN as int, SPEED_MAX as int) as i64,
        rotation: s_wrap(a.rotation + rot_delta) as i64,
        ..a
    })
}

/// The movement phase's effect on one animal: it advances along its heading
/// by its speed and wraps around the torus; nothing else changes.
pub open spec fn s_move(a: Animal) -> Animal {
    let dx = sat(tdiv(a.speed * -s_sin(a.rotation as int), SCALE as int));
    let dy = sat(tdiv(a.speed * s_cos(a.rotation as int), SCALE as int));
    (Animal {
        position: Point {
            x: s_wrap_unit(a.position.x + dx) as i64,
            y: s_wrap_unit(a.position.y + dy) as i64,
        },
        ..a
    })
}

/// The chromosome can arise from the old population under mutation strategy
/// `m`: it is the mutation of a gene-wise cross of the flattened brains of
/// two old animals.
pub open spec fn s_lineage(m: GaussianMutation, olds: Seq<Animal>, genes: Seq<i64>) -> bool {
    exists|pa: int, pb: int, mid: Seq<i64>|
        {
            &&& 0 <= pa < olds.len()
            &&& 0 <= pb < olds.len()
            &&& #[trigger] crossed(
                s_net_flatten(olds[pa].brain.nn),
                s_net_flatten(olds[pb].brain.nn),
                mid,
            )
            &&& m.m_ens(mid, genes)
        }
}

/// As [`s_lineage`], and both parents had eaten something.
pub open spec fn s_offspring(m: GaussianMutation, olds: Seq<Animal>, genes: Seq<i64>) -> bool {
    exists|pa: int, pb: int, mid: Seq<i64>|
        {
            &&& 0 <= pa < olds.len()
            &&& 0 <= pb < olds.len()
            &&& olds[pa].satiation > 0
            &&& olds[pb].satiation > 0
            &&& #[trigger] crossed(
                s_net_flatten(olds[pa].brain.nn),
                s_net_flatten(olds[pb].brain.nn),
                mid,
            )
            &&& m.m_ens(mid, genes)
        }
}

/// One whole tick explained: there are collision-phase satiation counts
/// (each grown by at most one per food) such that every new animal is
/// exactly the deterministic decision-and-movement update of its old self
/// with that count, sensing the final food list — which the collision phase
/// alone produced.
pub open spec fn s_tick_explains(
    olds: Seq<Animal>,
    news: Seq<Animal>,
    foods: Seq<Food>,
    sats: Seq<u32>,
) -> bool {
    &&& sats.len() == olds.len()
    &&& forall|i: int|
        0 <= i < olds.len() ==> olds[i].satiation <= #[trigger] sats[i] <= olds[i].satiation
            + FOOD_COUNT
    &&& forall|i: int|
        0 <= i < news.len() ==> #[trigger] news[i] == s_move(
            s_decide((Animal { satiation: sats[i], ..olds[i] }), foods),
        )
}

/// See [`s_tick_explains`]: some collision-phase satiation counts explain
/// the whole tick.
pub open spec fn s_ticked(olds: Seq<Animal>, news: Seq<Animal>, foods: Seq<Food>) -> bool {
    exists|sats: Seq<u32>| #[trigger] s_tick_explains(olds, news, foods, sats)
}

/// The animals' satiation counts, in order.
pub open spec fn sat_seq(s: Seq<Animal>) -> Seq<u64> {
    Seq::new(s.len(), |i: int| s[i].satiation as u64)
}

/// Total satiation of a population.
pub open spec fn sum_sat(s: Seq<Animal>) -> int {
    sum_u64(sat_seq(s))
}

/// The top-level simulation: a world, a configured genetic algorithm, and
/// the tick counter of the current generation.
pub struct Simulation {
    world: World,
    ga: GeneticAlgorithm<RouletteWheelSelection, UniformCrossover, GaussianMutation>,
    age: usize,
}

impl Simulation {
    /// The current world.
    pub closed spec fn s_world(&self) -> World {
        self.world
    }

    /// Ticks since the last evolution.
    pub closed spec fn s_age(&self) -> usize {
        self.age
    }

    /// The configured genetic algorithm, fixed for the simulation's
    /// lifetime.
    pub closed spec fn s_ga(&self) -> GeneticAlgorithm<
        RouletteWheelSelection,
        UniformCrossover,
        GaussianMutation,
    > {
        self.ga
    }

    /// A consistent simulation: a consistent world, the tick counter within
    /// one generation, and every satiation count explained by the ticks that
    /// have passed.
    pub open spec fn wf(&self) -> bool {
        &&& wf_world(self.s_world())
        &&& self.s_age() <= GENERATION_LENGTH
        &&& forall|i: int|
            0 <= i < self.s_world().animals@.len() ==> (#[trigger] self.s_world().animals@[i]).satiation
                <= self.s_age() * FOOD_COUNT
    }

    /// A fresh simulation: a random world, the standard strategy bundle, and
    /// a tick counter at zero.
    pub fn random(rng: &mut StdRng) -> (r: Simulation)
        ensures
            r.wf(),
            r.s_age() == 0,
            forall|i: int|
                0 <= i < r.s_world().animals@.len() ==> (#[trigger] r.s_world().animals@[i]).satiation
                    == 0,
            *r.s_ga().sel() == RouletteWheelSelection,
            *r.s_ga().cross() == UniformCrossover,
            r.s_ga().muta().s_chance() == MUTATION_CHANCE,
            r.s_ga().muta().s_coeff() == MUTATION_COEFF,
    {
        let world = World::random(rng);
        let ga = GeneticAlgorithm::new(
            RouletteWheelSelection,
            UniformCrossover,
            GaussianMutation::new(MUTATION_CHANCE, MUTATION_COEFF),
        );
        Simulation { world, ga, age: 0 }
    }

    /// Read-only view of the current world.
    pub fn world(&self) -> (r: &World)
        ensures
            *r == self.s_world(),
    {
        &self.world
    }

    /// Ticks since the last evolution.
    pub fn age(&self) -> (r: usize)
        ensures
            r == self.s_age(),
    {
        self.age
    }

    /// Total satiation of the current population; evolution needs it to be
    /// positive.
    pub fn total_satiation(&self) -> (r: u64)
        requires
            self.wf(),
        ensures
            r == sum_sat(self.s_world().animals@),
    {
        let n = self.world.animals.len();
        let mut total: u64 = 0;
        let mut i: usize = 0;
        while i < n
            invariant
                i <= n,
                n == self.s_world().animals@.len(),
                self.wf(),
                total == sum_u64(sat_seq(self.s_world().animals@).take(i as int)),
                total <= i * 0x1_0000_0000,
            decreases n - i,
        {
            proof {
                assert(sat_seq(self.s_world().animals@).take(i as int + 1).drop_last()
                    =~= sat_seq(self.s_world().animals@).take(i as int));
                assert((i as int) * 0x1_0000_0000 + 0x1_0000_0000 == (i as int + 1)
                    * 0x1_0000_0000) by (nonlinear_arith);
            }
            total = total + self.world.animals[i].satiation as u64;
            i = i + 1;
        }
        proof {
            assert(sat_seq(self.s_world().animals@).take(n as int) =~= sat_seq(
                self.s_world().animals@));
        }
        total
    }

    /// One tick, in order: collisions, brains, movement, then the age check
    /// that may trigger evolution. Outside the evolution boundary nothing is
    /// returned and no satiation is lost; on a quiet tick the world changes
    /// by exactly the deterministic decision-and-movement update. At the
    /// boundary evolution runs, resets the generation, and reports
    /// statistics that lie within one collision pass of the entry
    /// population's satiation counts.
    pub fn step(&mut self, rng: &mut StdRng) -> (r: Option<Statistics>)
        requires
            old(self).wf(),
            old(self).s_age() == GENERATION_LENGTH ==> sum_sat(old(self).s_world().animals@) > 0,
        ensures
            final(self).wf(),
            final(self).s_ga() == old(self).s_ga(),
            old(self).s_age() < GENERATION_LENGTH ==> {
                &&& r is None
                &&& final(self).s_age() == old(self).s_age() + 1
                &&& forall|i: int|
                    0 <= i < final(self).s_world().animals@.len() ==> (
                    #[trigger] final(self).s_world().animals@[i]).satiation >= old(
                        self,
                    ).s_world().animals@[i].satiation
                &&& sum_sat(final(self).s_world().animals@) >= sum_sat(
                    old(self).s_world().animals@,
                )
            },
            old(self).s_age() < GENERATION_LENGTH ==> s_ticked(
                old(self).s_world().animals@,
                final(self).s_world().animals@,
                final(self).s_world().foods@,
            ),
            old(self).s_age() < GENERATION_LENGTH && s_quiet(old(self).s_world()) ==> {
                &&& final(self).s_world().foods == old(self).s_world().foods
                &&& forall|i: int|
                    0 <= i < final(self).s_world().animals@.len() ==> (
                    #[trigger] final(self).s_world().animals@[i]) == s_move(
                        s_decide(
                            old(self).s_world().animals@[i],
                            old(self).s_world().foods@,
                        ),
                    )
            },
            old(self).s_age() == GENERATION_LENGTH ==> {
                &&& r is Some
                &&& final(self).s_age() == 0
                &&& forall|i: int|
                    0 <= i < final(self).s_world().animals@.len() ==> (
                    #[trigger] final(self).s_world().animals@[i]).satiation == 0
                &&& forall|i: int|
                    0 <= i < final(self).s_world().animals@.len() ==> (
                    #[trigger] final(self).s_world().animals@[i]).speed == SPEED_MAX
                &&& forall|i: int|
                    0 <= i < final(self).s_world().animals@.len() ==> s_lineage(
                        *old(self).s_ga().muta(),
                        old(self).s_world().animals@,
                        s_net_flatten(
                            (#[trigger] final(self).s_world().animals@[i]).brain.nn,
                        ),
                    )
            },
            r matches Some(s) ==> {
                let olds = sat_seq(old(self).s_world().animals@);
                let count = old(self).s_world().animals@.len() as int;
                &&& s.min_fitness <= s.avg_fitness <= s.max_fitness
                &&& SCALE * seq_min(olds) <= s.min_fitness <= SCALE * seq_min(olds) + SCALE
                    * FOOD_COUNT
                &&& SCALE * seq_max(olds) <= s.max_fitness <= SCALE * seq_max(olds) + SCALE
                    * FOOD_COUNT
                &&& (SCALE * sum_u64(olds)) / count <= s.avg_fitness <= (SCALE * sum_u64(olds))
                    / count + SCALE * FOOD_COUNT
            },
    {
        proof {
            vstd::arithmetic::mul::lemma_mul_inequality(
                old(self).s_age() as int,
                GENERATION_LENGTH as int,
                FOOD_COUNT as int,
            );
        }
        self.process_collisions(rng);
        let ghost after_collisions = *self;
        self.process_brains();
        self.process_movements();
        proof {
            let age0 = old(self).s_age() as int;
            assert((age0 + 1) * FOOD_COUNT == age0 * FOOD_COUNT + FOOD_COUNT) by (nonlinear_arith);
            let a = sat_seq(old(self).s_world().animals@);
            let b = sat_seq(self.s_world().animals@);
            assert(forall|i: int| 0 <= i < a.len() ==> #[trigger] a[i] <= b[i] <= a[i]
                + FOOD_COUNT);
            lemma_sum_mono(a, b);
            if s_quiet(old(self).s_world()) {
                assert(forall|i: int|
                    0 <= i < after_collisions.s_world().animals@.len()
                        ==> #[trigger] after_collisions.s_world().animals@[i] == old(
                        self,
                    ).s_world().animals@[i]);
            }
            let olds = old(self).s_world().animals@;
            let mids = after_collisions.s_world().animals@;
            let sats = Seq::new(mids.len(), |i: int| mids[i].satiation);
            assert(forall|i: int|
                0 <= i < olds.len() ==> olds[i].satiation <= #[trigger] sats[i] <= olds[
                    i].satiation + FOOD_COUNT);
            assert(forall|i: int|
                0 <= i < mids.len() ==> #[trigger] mids[i] == (Animal {
                    satiation: sats[i],
                    ..olds[i]
                }));
            assert(forall|i: int|
                0 <= i < self.s_world().animals@.len()
                    ==> #[trigger] self.s_world().animals@[i] == s_move(
                    s_decide((Animal { satiation: sats[i], ..olds[i] }), self.s_world().foods@),
                ));
            assert(s_tick_explains(olds, self.s_world().animals@, self.s_world().foods@, sats));
        }
        self.age = self.age + 1;
        if self.age > GENERATION_LENGTH {
            let ghost pre = *self;
            let stats = self.evolve(rng);
            proof {
                let m = *old(self).s_ga().muta();
                let pre_animals = pre.s_world().animals@;
                let old_animals = old(self).s_world().animals@;
                assert(forall|i: int|
                    0 <= i < pre_animals.len() ==> (#[trigger] pre_animals[i]).brain
                        == old_animals[i].brain);
                assert forall|i: int|
                    0 <= i < self.s_world().animals@.len() implies s_lineage(
                    m,
                    old_animals,
                    s_net_flatten((#[trigger] self.s_world().animals@[i]).brain.nn),
                ) by {
                    let genes = s_net_flatten(self.s_world().animals@[i].brain.nn);
                    let (pa, pb, mid): (int, int, Seq<i64>) = choose|
                        pa: int,
                        pb: int,
                        mid: Seq<i64>,
                    |
                        {
                            &&& 0 <= pa < pre_animals.len()
                            &&& 0 <= pb < pre_animals.len()
                            &&& pre_animals[pa].satiation > 0
                            &&& pre_animals[pb].satiation > 0
                            &&& #[trigger] crossed(
                                s_net_flatten(pre_animals[pa].brain.nn),
                                s_net_flatten(pre_animals[pb].brain.nn),
                                mid,
                            )
                            &&& m.m_ens(mid, genes)
                        };
                    assert(crossed(
                        s_net_flatten(old_animals[pa].brain.nn),
                        s_net_flatten(old_animals[pb].brain.nn),
                        mid,
                    ));
                }
                let olds = sat_seq(old(self).s_world().animals@);
                let pres = sat_seq(pre.s_world().animals@);
                let count = old(self).s_world().animals@.len() as int;
                assert(forall|i: int| 0 <= i < olds.len() ==> #[trigger] olds[i] <= pres[i]
                    <= olds[i] + FOOD_COUNT);
                lemma_min_max_growth(olds, pres, FOOD_COUNT as int);
                lemma_sum_growth(olds, pres, FOOD_COUNT as int);
                vstd::arithmetic::mul::lemma_mul_inequality(
                    sum_u64(olds),
                    sum_u64(pres),
                    SCALE as int,
                );
                assert(sum_u64(olds) * SCALE == SCALE * sum_u64(olds)) by (nonlinear_arith);
                assert(sum_u64(pres) * SCALE == SCALE * sum_u64(pres)) by (nonlinear_arith);
                vstd::arithmetic::div_mod::lemma_div_is_ordered(
                    SCALE * sum_u64(olds),
                    SCALE * sum_u64(pres),
                    count,
                );
                assert(SCALE * (sum_u64(olds) + count * FOOD_COUNT) == SCALE * sum_u64(olds) + (
                SCALE * FOOD_COUNT) * count) by (nonlinear_arith);
                vstd::arithmetic::mul::lemma_mul_inequality(
                    sum_u64(pres),
                    sum_u64(olds) + count * FOOD_COUNT,
                    SCALE as int,
                );
                assert((sum_u64(olds) + count * FOOD_COUNT) * SCALE == SCALE * (sum_u64(olds)
                    + count * FOOD_COUNT)) by (nonlinear_arith);
                vstd::arithmetic::div_mod::lemma_div_is_ordered(
                    SCALE * sum_u64(pres),
                    SCALE * sum_u64(olds) + (SCALE * FOOD_COUNT) * count,
                    count,
                );
                vstd::arithmetic::div_mod::lemma_hoist_over_denominator(
                    SCALE * sum_u64(olds),
                    SCALE * FOOD_COUNT,
                    count as nat,
                );
                assert(SCALE * (seq_min(olds) + FOOD_COUNT) == SCALE * seq_min(olds) + SCALE
                    * FOOD_COUNT) by (nonlinear_arith);
                assert(SCALE * (seq_max(olds) + FOOD_COUNT) == SCALE * seq_max(olds) + SCALE
                    * FOOD_COUNT) by (nonlinear_arith);
                vstd::arithmetic::mul::lemma_mul_inequality(
                    seq_min(olds) as int,
                    seq_min(pres) as int,
                    SCALE as int,
                );
                assert(seq_min(olds) * SCALE == SCALE * seq_min(olds)) by (nonlinear_arith);
                assert(seq_min(pres) * SCALE == SCALE * seq_min(pres)) by (nonlinear_arith);
                vstd::arithmetic::mul::lemma_mul_inequality(
                    seq_min(pres) as int,
                    seq_min(olds) + FOOD_COUNT,
                    SCALE as int,
                );
                assert((seq_min(olds) + FOOD_COUNT) * SCALE == SCALE * (seq_min(olds)
                    + FOOD_COUNT)) by (nonlinear_arith);
                vstd::arithmetic::mul::lemma_mul_inequality(
                    seq_max(olds) as int,
                    seq_max(pres) as int,
                    SCALE as int,
                );
                assert(seq_max(olds) * SCALE == SCALE * seq_max(olds)) by (nonlinear_arith);
                assert(seq_max(pres) * SCALE == SCALE * seq_max(pres)) by (nonlinear_arith);
                vstd::arithmetic::mul::lemma_mul_inequality(
                    seq_max(pres) as int,
                    seq_max(olds) + FOOD_COUNT,
                    SCALE as int,
                );
                assert((seq_max(olds) + FOOD_COUNT) * SCALE == SCALE * (seq_max(olds)
                    + FOOD_COUNT)) by (nonlinear_arith);
            }
            Some(stats)
        } else {
            None
        }
    }

    /// Tick until one evolution boundary is crossed, and return that
    /// generation's statistics: at least the entry population's satiation
    /// spread (satiation only grows until the boundary), and at most what
    /// one full generation of eating allows.
    pub fn train(&mut self, rng: &mut StdRng) -> (r: Statistics)
        requires
            old(self).wf(),
            sum_sat(old(self).s_world().animals@) > 0,
        ensures
            final(self).wf(),
            final(self).s_age() == 0,
            final(self).s_ga() == old(self).s_ga(),
            r.min_fitness <= r.avg_fitness <= r.max_fitness,
            r.min_fitness >= SCALE * seq_min(sat_seq(old(self).s_world().animals@)),
            r.max_fitness >= SCALE * seq_max(sat_seq(old(self).s_world().animals@)),
            r.avg_fitness >= (SCALE * sum_u64(sat_seq(old(self).s_world().animals@)))
                / old(self).s_world().animals@.len() as int,
            r.max_fitness <= SCALE * ((GENERATION_LENGTH + 1) * FOOD_COUNT),
    {
        loop
            invariant
                self.wf(),
                sum_sat(self.s_world().animals@) > 0,
                self.s_ga() == old(self).s_ga(),
                self.s_world().animals@.len() == old(self).s_world().animals@.len(),
                forall|i: int|
                    0 <= i < self.s_world().animals@.len() ==> (
                    #[trigger] self.s_world().animals@[i]).satiation >= old(
                        self,
                    ).s_world().animals@[i].satiation,
            decreases GENERATION_LENGTH + 1 - self.s_age(),
        {
            let ghost pre = *self;
            let out = self.step(rng);
            match out {
                Some(stats) => {
                    proof {
                        let entry = sat_seq(old(self).s_world().animals@);
                        let pres = sat_seq(pre.s_world().animals@);
                        let count = entry.len() as int;
                        assert(forall|i: int|
                            0 <= i < entry.len() ==> #[trigger] entry[i] <= pres[i]);
                        lemma_seq_min_mono(entry, pres);
                        lemma_seq_max_mono(entry, pres);
                        lemma_sum_mono(entry, pres);
                        vstd::arithmetic::mul::lemma_mul_inequality(
                            seq_min(entry) as int,
                            seq_min(pres) as int,
                            SCALE as int,
                        );
                        assert(seq_min(entry) * SCALE == SCALE * seq_min(entry))
                            by (nonlinear_arith);
                        assert(seq_min(pres) * SCALE == SCALE * seq_min(pres))
                            by (nonlinear_arith);
                        vstd::arithmetic::mul::lemma_mul_inequality(
                            seq_max(entry) as int,
                            seq_max(pres) as int,
                            SCALE as int,
                        );
                        assert(seq_max(entry) * SCALE == SCALE * seq_max(entry))
                            by (nonlinear_arith);
                        assert(seq_max(pres) * SCALE == SCALE * seq_max(pres))
                            by (nonlinear_arith);
                        vstd::arithmetic::mul::lemma_mul_inequality(
                            sum_u64(entry),
                            sum_u64(pres),
                            SCALE as int,
                        );
                        assert(sum_u64(entry) * SCALE == SCALE * sum_u64(entry))
                            by (nonlinear_arith);
                        assert(sum_u64(pres) * SCALE == SCALE * sum_u64(pres))
                            by (nonlinear_arith);
                        vstd::arithmetic::div_mod::lemma_div_is_ordered(
                            SCALE * sum_u64(entry),
                            SCALE * sum_u64(pres),
                            count,
                        );
                        assert(forall|i: int|
                            0 <= i < pres.len() ==> #[trigger] pres[i] <= (GENERATION_LENGTH
                                * FOOD_COUNT) as u64);
                        lemma_seq_max_le(pres, (GENERATION_LENGTH * FOOD_COUNT) as u64);
                        vstd::arithmetic::mul::lemma_mul_inequality(
                            seq_max(pres) as int,
                            GENERATION_LENGTH * FOOD_COUNT,
                            SCALE as int,
                        );
                        assert((GENERATION_LENGTH * FOOD_COUNT) * SCALE == SCALE
                            * (GENERATION_LENGTH * FOOD_COUNT)) by (nonlinear_arith);
                        assert(SCALE * (GENERATION_LENGTH * FOOD_COUNT) + SCALE * FOOD_COUNT
                            == SCALE * ((GENERATION_LENGTH + 1) * FOOD_COUNT))
                            by (nonlinear_arith);
                    }
                    return stats;
                },
                None => {
                },
            }
        }
    }

    /// Eat: every animal within reach of a food gains satiation by one per
    /// food, and each eaten food moves to a fresh random position. Nothing
    /// else changes: every other animal field is kept, a food no animal can
    /// reach stays put, and on a quiet world the pass is a no-op. The first
    /// animal eats exactly the foods it can reach; later animals scan food
    /// positions that earlier eating may already have moved.
    fn process_collisions(&mut self, rng: &mut StdRng)
        requires
            wf_world(old(self).s_world()),
            forall|i: int|
                0 <= i < old(self).s_world().animals@.len() ==> (
                #[trigger] old(self).s_world().animals@[i]).satiation <= GENERATION_LENGTH
                    * FOOD_COUNT,
        ensures
            wf_world(final(self).s_world()),
            final(self).s_age() == old(self).s_age(),
            final(self).s_ga() == old(self).s_ga(),
            forall|i: int|
                0 <= i < final(self).s_world().animals@.len() ==> old(
                    self,
                ).s_world().animals@[i].satiation <= (
                #[trigger] final(self).s_world().animals@[i]).satiation <= old(
                    self,
                ).s_world().animals@[i].satiation + FOOD_COUNT,
            forall|i: int|
                0 <= i < final(self).s_world().animals@.len() ==> {
                    let a = #[trigger] final(self).s_world().animals@[i];
                    let b = old(self).s_world().animals@[i];
                    a.position == b.position && a.rotation == b.rotation && a.speed == b.speed
                        && a.eye == b.eye && a.brain == b.brain
                },
            forall|j: int|
                0 <= j < final(self).s_world().foods@.len() && (forall|i: int|
                    0 <= i < old(self).s_world().animals@.len() ==> !s_in_reach(
                        (#[trigger] old(self).s_world().animals@[i]).position,
                        old(self).s_world().foods@[j].position,
                    )) ==> #[trigger] final(self).s_world().foods@[j] == old(
                    self,
                ).s_world().foods@[j],
            s_quiet(old(self).s_world()) ==> final(self).s_world().foods == old(
                self,
            ).s_world().foods && forall|i: int|
                0 <= i < final(self).s_world().animals@.len() ==> (
                #[trigger] final(self).s_world().animals@[i]).satiation == old(
                    self,
                ).s_world().animals@[i].satiation,
            forall|i: int|
                0 <= i < final(self).s_world().animals@.len() ==> (
                #[trigger] final(self).s_world().animals@[i]).satiation >= old(
                    self,
                ).s_world().animals@[i].satiation + s_first_claim_count(
                    old(self).s_world().animals@,
                    i,
                    old(self).s_world().foods@,
                ),
            final(self).s_world().animals@[0].satiation == old(
                self,
            ).s_world().animals@[0].satiation + s_reach_count(
                old(self).s_world().animals@[0].position,
                old(self).s_world().foods@,
            ),
    {
        let n = self.world.animals.len();
        let m = self.world.foods.len();
        let mut i: usize = 0;
        while i < n
            invariant
                i <= n,
                n == self.s_world().animals@.len(),
                m == self.s_world().foods@.len(),
                wf_world(self.s_world()),
                self.s_age() == old(self).s_age(),
                self.s_ga() == old(self).s_ga(),
                n == old(self).s_world().animals@.len(),
                m == old(self).s_world().foods@.len(),
                forall|t: int|
                    0 <= t < n ==> old(self).s_world().animals@[t].satiation <= (
                    #[trigger] self.s_world().animals@[t]).satiation <= old(
                        self,
                    ).s_world().animals@[t].satiation + FOOD_COUNT,
                forall|t: int|
                    i <= t < n ==> (#[trigger] self.s_world().animals@[t]).satiation == old(
                        self,
                    ).s_world().animals@[t].satiation,
                forall|t: int|
                    0 <= t < n ==> {
                        let a = #[trigger] self.s_world().animals@[t];
                        let b = old(self).s_world().animals@[t];
                        a.position == b.position && a.rotation == b.rotation && a.speed == b.speed
                            && a.eye == b.eye && a.brain == b.brain
                    },
                forall|j: int|
                    0 <= j < m && (forall|t: int|
                        0 <= t < n ==> !s_in_reach(
                            (#[trigger] old(self).s_world().animals@[t]).position,
                            old(self).s_world().foods@[j].position,
                        )) ==> #[trigger] self.s_world().foods@[j] == old(
                        self,
                    ).s_world().foods@[j],
                s_quiet(old(self).s_world()) ==> self.s_world().foods == old(
                    self,
                ).s_world().foods && forall|t: int|
                    0 <= t < n ==> (#[trigger] self.s_world().animals@[t]).satiation == old(
                        self,
                    ).s_world().animals@[t].satiation,
                i >= 1 ==> self.s_world().animals@[0].satiation == old(
                    self,
                ).s_world().animals@[0].satiation + s_reach_count(
                    old(self).s_world().animals@[0].position,
                    old(self).s_world().foods@,
                ),
                i == 0 ==> forall|t: int|
                    0 <= t < m ==> (#[trigger] self.s_world().foods@[t]) == old(
                        self,
                    ).s_world().foods@[t],
                forall|t: int|
                    0 <= t < i ==> (#[trigger] self.s_world().animals@[t]).satiation >= old(
                        self,
                    ).s_world().animals@[t].satiation + s_first_claim_count(
                        old(self).s_world().animals@,
                        t,
                        old(self).s_world().foods@,
                    ),
                forall|j: int|
                    0 <= j < m && s_unclaimed(
                        old(self).s_world().animals@,
                        i as int,
                        old(self).s_world().foods@[j].position,
                    ) ==> #[trigger] self.s_world().foods@[j] == old(self).s_world().foods@[j],
                forall|t: int|
                    0 <= t < n ==> old(self).s_world().animals@[t].satiation
                        <= GENERATION_LENGTH * FOOD_COUNT,
            decreases n - i,
        {
            let mut j: usize = 0;
            while j < m
                invariant
                    i < n,
                    j <= m,
                    n == self.s_world().animals@.len(),
                    m == self.s_world().foods@.len(),
                    wf_world(self.s_world()),
                    self.s_age() == old(self).s_age(),
                    self.s_ga() == old(self).s_ga(),
                    n == old(self).s_world().animals@.len(),
                    m == old(self).s_world().foods@.len(),
                    forall|t: int|
                        0 <= t < n ==> old(self).s_world().animals@[t].satiation <= (
                        #[trigger] self.s_world().animals@[t]).satiation <= old(
                            self,
                        ).s_world().animals@[t].satiation + FOOD_COUNT,
                    forall|t: int|
                        i < t < n ==> (#[trigger] self.s_world().animals@[t]).satiation == old(
                            self,
                        ).s_world().animals@[t].satiation,
                    self.s_world().animals@[i as int].satiation <= old(
                        self,
                    ).s_world().animals@[i as int].satiation + j,
                    old(self).s_world().animals@[i as int].satiation <= self.s_world().animals@[
                        i as int].satiation,
                    forall|t: int|
                        0 <= t < n ==> {
                            let a = #[trigger] self.s_world().animals@[t];
                            let b = old(self).s_world().animals@[t];
                            a.position == b.position && a.rotation == b.rotation && a.speed
                                == b.speed && a.eye == b.eye && a.brain == b.brain
                        },
                    forall|jj: int|
                        0 <= jj < m && (forall|t: int|
                            0 <= t < n ==> !s_in_reach(
                                (#[trigger] old(self).s_world().animals@[t]).position,
                                old(self).s_world().foods@[jj].position,
                            )) ==> #[trigger] self.s_world().foods@[jj] == old(
                            self,
                        ).s_world().foods@[jj],
                    s_quiet(old(self).s_world()) ==> self.s_world().foods == old(
                        self,
                    ).s_world().foods && forall|t: int|
                        0 <= t < n ==> (#[trigger] self.s_world().animals@[t]).satiation == old(
                            self,
                        ).s_world().animals@[t].satiation,
                    i == 0 ==> self.s_world().animals@[0].satiation == old(
                        self,
                    ).s_world().animals@[0].satiation + s_reach_count(
                        old(self).s_world().animals@[0].position,
                        old(self).s_world().foods@.take(j as int),
                    ),
                    i == 0 ==> forall|t: int|
                        j <= t < m ==> (#[trigger] self.s_world().foods@[t]) == old(
                            self,
                        ).s_world().foods@[t],
                    i >= 1 ==> self.s_world().animals@[0].satiation == old(
                        self,
                    ).s_world().animals@[0].satiation + s_reach_count(
                        old(self).s_world().animals@[0].position,
                        old(self).s_world().foods@,
                    ),
                    forall|t: int|
                        0 <= t < i ==> (#[trigger] self.s_world().animals@[t]).satiation >= old(
                            self,
                        ).s_world().animals@[t].satiation + s_first_claim_count(
                            old(self).s_world().animals@,
                            t,
                            old(self).s_world().foods@,
                        ),
                    self.s_world().animals@[i as int].satiation >= old(
                        self,
                    ).s_world().animals@[i as int].satiation + s_first_claim_count(
                        old(self).s_world().animals@,
                        i as int,
                        old(self).s_world().foods@.take(j as int),
                    ),
                    forall|jj: int|
                        j <= jj < m && s_unclaimed(
                            old(self).s_world().animals@,
                            i as int,
                            old(self).s_world().foods@[jj].position,
                        ) ==> #[trigger] self.s_world().foods@[jj] == old(
                            self,
                        ).s_world().foods@[jj],
                    forall|jj: int|
                        0 <= jj < j && s_unclaimed(
                            old(self).s_world().animals@,
                            i as int + 1,
                            old(self).s_world().foods@[jj].position,
                        ) ==> #[trigger] self.s_world().foods@[jj] == old(
                            self,
                        ).s_world().foods@[jj],
                    forall|t: int|
                        0 <= t < n ==> old(self).s_world().animals@[t].satiation
                            <= GENERATION_LENGTH * FOOD_COUNT,
                decreases m - j,
            {
                proof {
                    assert(old(self).s_world().foods@.take(j as int + 1).drop_last()
                        =~= old(self).s_world().foods@.take(j as int));
                    assert(old(self).s_world().foods@.take(j as int + 1).last() == old(
                        self,
                    ).s_world().foods@[j as int]);
                }
                let apos = self.world.animals[i].position;
                let fpos = self.world.foods[j].position;
                let d2 = dist2(apos, fpos);
                if d2 <= (COLLISION_DIST as u64) * (COLLISION_DIST as u64) {
                    proof {
                        assert(s_in_reach(apos, fpos));
                        assert(apos == old(self).s_world().animals@[i as int].position);
                        if self.s_world().foods@[j as int] == old(self).s_world().foods@[
                            j as int] {
                            assert(s_in_reach(
                                old(self).s_world().animals@[i as int].position,
                                old(self).s_world().foods@[j as int].position,
                            ));
                        }
                        assert(!s_quiet(old(self).s_world()));
                    }
                    let sat = self.world.animals[i].satiation;
                    self.world.animals[i].satiation = sat + 1;
                    let p = random_point(rng);
                    self.world.foods[j] = Food { position: p };
                } else {
                    proof {
                        let olda = old(self).s_world().animals@;
                        let oldf = old(self).s_world().foods@;
                        if s_unclaimed(olda, i as int, oldf[j as int].position) {
                            assert(self.s_world().foods@[j as int] == oldf[j as int]);
                            assert(!s_in_reach(olda[i as int].position, oldf[j as int].position));
                        }
                    }
                }
                j = j + 1;
            }
            proof {
                assert(old(self).s_world().foods@.take(m as int) =~= old(
                    self,
                ).s_world().foods@);
            }
            i = i + 1;
        }
    }

    /// Decide: every animal reads its surroundings through its eye, runs its
    /// brain, and adjusts speed and heading by the clamped outputs — exactly
    /// the spec-level decision model; foods are untouched.
    fn process_brains(&mut self)
        requires
            wf_world(old(self).s_world()),
        ensures
            wf_world(final(self).s_world()),
            final(self).s_age() == old(self).s_age(),
            final(self).s_ga() == old(self).s_ga(),
            final(self).s_world().foods == old(self).s_world().foods,
            forall|i: int|
                0 <= i < final(self).s_world().animals@.len() ==> (
                #[trigger] final(self).s_world().animals@[i]) == s_decide(
                    old(self).s_world().animals@[i],
                    old(self).s_world().foods@,
                ),
            forall|i: int|
                0 <= i < final(self).s_world().animals@.len() ==> (
                #[trigger] final(self).s_world().animals@[i]).satiation == old(
                    self,
                ).s_world().animals@[i].satiation,
    {
        let n = self.world.animals.len();
        let mut i: usize = 0;
        while i < n
            invariant
                i <= n,
                n == self.s_world().animals@.len(),
                n == old(self).s_world().animals@.len(),
                wf_world(self.s_world()),
                self.s_age() == old(self).s_age(),
                self.s_ga() == old(self).s_ga(),
                self.s_world().foods == old(self).s_world().foods,
                forall|t: int|
                    i <= t < n ==> (#[trigger] self.s_world().animals@[t]) == old(
                        self,
                    ).s_world().animals@[t],
                forall|t: int|
                    0 <= t < i ==> (#[trigger] self.s_world().animals@[t]) == s_decide(
                        old(self).s_world().animals@[t],
                        old(self).s_world().foods@,
                    ),
                forall|t: int|
                    0 <= t < n ==> (#[trigger] self.s_world().animals@[t]).satiation == old(
                        self,
                    ).s_world().animals@[t].satiation,
            decreases n - i,
        {
            let eye = self.world.animals[i].eye;
            let apos = self.world.animals[i].position;
            let arot = self.world.animals[i].rotation;
            let vision = eye.process_vision(apos, arot, &self.world.foods);
            proof {
                let nn = self.s_world().animals@[i as int].brain.nn;
                assert(wf_brain(self.s_world().animals@[i as int].brain, eye));
                assert(nn.layers@[0].neurons@.len() >= 1);
                assert(crate::network::wf_neuron(
                    nn.layers@[0].neurons@[0],
                    topo_sizes(crate::brain::s_brain_topo(eye.cells))[0] as int,
                ));
            }
            let response = self.world.animals[i].brain.nn.propagate(vision);
            proof {
                let nn = self.s_world().animals@[i as int].brain.nn;
                let sizes = topo_sizes(crate::brain::s_brain_topo(eye.cells));
                assert(nn.layers@.len() == 2);
                assert(nn.layers@.last() == nn.layers@[1]);
                assert(nn.layers@[1].neurons@.len() == sizes[2]);
            }
            let speed_delta = clamp_val(response[0], -SPEED_ACCEL, SPEED_ACCEL);
            let rot_delta = clamp_val(response[1], -ROTATION_ACCEL, ROTATION_ACCEL);
            let new_speed = clamp_val(
                self.world.animals[i].speed + speed_delta,
                SPEED_MIN,
                SPEED_MAX,
            );
            let new_rot = wrap(arot + rot_delta);
            let ghost before = self.s_world().animals@[i as int];
            self.world.animals[i].speed = new_speed;
            self.world.animals[i].rotation = new_rot;
            proof {
                let spec_vis = s_vision(
                    before.eye,
                    before.position,
                    before.rotation as int,
                    food_points(old(self).s_world().foods@),
                );
                let inputs = Seq::new(spec_vis.len(), |k: int| spec_vis[k] as i64);
                lemma_vision_len(
                    before.eye,
                    before.position,
                    before.rotation as int,
                    food_points(old(self).s_world().foods@),
                );
                assert(vision@ =~= inputs);
                assert(response@ == s_net_out(before.brain.nn.layers@, inputs));
                assert(self.s_world().animals@[i as int] == s_decide(
                    before,
                    old(self).s_world().foods@,
                ));
            }
            i = i + 1;
        }
    }

    /// Move: every animal advances along its heading by its speed, wrapping
    /// around the torus — exactly the spec-level movement model; foods are
    /// untouched.
    fn process_movements(&mut self)
        requires
            wf_world(old(self).s_world()),
        ensures
            wf_world(final(self).s_world()),
            final(self).s_age() == old(self).s_age(),
            final(self).s_ga() == old(self).s_ga(),
            final(self).s_world().foods == old(self).s_world().foods,
            forall|i: int|
                0 <= i < final(self).s_world().animals@.len() ==> (
                #[trigger] final(self).s_world().animals@[i]) == s_move(
                    old(self).s_world().animals@[i],
                ),
            forall|i: int|
                0 <= i < final(self).s_world().animals@.len() ==> (
                #[trigger] final(self).s_world().animals@[i]).satiation == old(
                    self,
                ).s_world().animals@[i].satiation,
    {
        let n = self.world.animals.len();
        let mut i: usize = 0;
        while i < n
            invariant
                i <= n,
                n == self.s_world().animals@.len(),
                n == old(self).s_world().animals@.len(),
                wf_world(self.s_world()),
                self.s_age() == old(self).s_age(),
                self.s_ga() == old(self).s_ga(),
                self.s_world().foods == old(self).s_world().foods,
                forall|t: int|
                    i <= t < n ==> (#[trigger] self.s_world().animals@[t]) == old(
                        self,
                    ).s_world().animals@[t],
                forall|t: int|
                    0 <= t < i ==> (#[trigger] self.s_world().animals@[t]) == s_move(
                        old(self).s_world().animals@[t],
                    ),
                forall|t: int|
                    0 <= t < n ==> (#[trigger] self.s_world().animals@[t]).satiation == old(
                        self,
                    ).s_world().animals@[t].satiation,
            decreases n - i,
        {
            let speed = self.world.animals[i].speed;
            let arot = self.world.animals[i].rotation;
            let sx = crate::angle::sin(arot);
            let cx = crate::angle::cos(arot);
            proof {
                lemma_scaled_bound(speed as int, -(sx as int), SPEED_MAX as int);
                lemma_scaled_bound(speed as int, cx as int, SPEED_MAX as int);
            }
            let dx = mul_scaled(speed, -sx);
            let dy = mul_scaled(speed, cx);
            let pos = self.world.animals[i].position;
            let nx = wrap_unit(pos.x + dx);
            let ny = wrap_unit(pos.y + dy);
            let ghost before = self.s_world().animals@[i as int];
            self.world.animals[i].position = Point { x: nx, y: ny };
            proof {
                assert(self.s_world().animals@[i as int] == s_move(before));
            }
            i = i + 1;
        }
    }

    /// Cross the generation boundary: feed the population into the genetic
    /// algorithm, replace every animal with one rebuilt from an evolved
    /// chromosome (a mutated cross of two fed parents' brains), move every
    /// food, and reset the tick counter. The returned statistics are exactly
    /// those of the outgoing population's satiation counts.
    fn evolve(&mut self, rng: &mut StdRng) -> (r: Statistics)
        requires
            wf_world(old(self).s_world()),
            sum_sat(old(self).s_world().animals@) > 0,
            forall|i: int|
                0 <= i < old(self).s_world().animals@.len() ==> (
                #[trigger] old(self).s_world().animals@[i]).satiation <= 1_000_000,
        ensures
            wf_world(final(self).s_world()),
            final(self).s_age() == 0,
            final(self).s_ga() == old(self).s_ga(),
            forall|i: int|
                0 <= i < final(self).s_world().animals@.len() ==> (
                #[trigger] final(self).s_world().animals@[i]).satiation == 0,
            forall|i: int|
                0 <= i < final(self).s_world().animals@.len() ==> (
                #[trigger] final(self).s_world().animals@[i]).speed == SPEED_MAX,
            forall|i: int|
                0 <= i < final(self).s_world().animals@.len() ==> s_offspring(
                    *old(self).s_ga().muta(),
                    old(self).s_world().animals@,
                    s_net_flatten((#[trigger] final(self).s_world().animals@[i]).brain.nn),
                ),
            r.min_fitness == SCALE * seq_min(sat_seq(old(self).s_world().animals@)),
            r.max_fitness == SCALE * seq_max(sat_seq(old(self).s_world().animals@)),
            r.avg_fitness == (SCALE * sum_u64(sat_seq(old(self).s_world().animals@)))
                / old(self).s_world().animals@.len() as int,
            r.min_fitness <= r.avg_fitness <= r.max_fitness,
    {
        self.age = 0;
        let n = self.world.animals.len();
        let mut individuals: Vec<AnimalIndividual> = Vec::new();
        let mut i: usize = 0;
        while i < n
            invariant
                i <= n,
                n == self.s_world().animals@.len(),
                self.s_world() == old(self).s_world(),
                wf_world(self.s_world()),
                individuals@.len() == i,
                forall|k: int|
                    0 <= k < i ==> (#[trigger] individuals@[k]).sfit()
                        == self.s_world().animals@[k].satiation,
                forall|k: int|
                    0 <= k < i ==> (#[trigger] individuals@[k]).schrom() == s_net_flatten(
                        self.s_world().animals@[k].brain.nn,
                    ),
            decreases n - i,
        {
            let ind = AnimalIndividual::from_animal(&self.world.animals[i]);
            individuals.push(ind);
            i = i + 1;
        }
        proof {
            assert(fit_seq(individuals@) =~= sat_seq(self.s_world().animals@));
            assert forall|k: int| 0 <= k < n implies (#[trigger] individuals@[k]).schrom().len()
                == s_brain_genes(default_eye()) && genes_valid(individuals@[k].schrom()) by {
                let a = self.s_world().animals@[k];
                assert(wf_animal(a));
                lemma_flat_layers_len(
                    a.brain.nn.layers@,
                    topo_sizes(crate::brain::s_brain_topo(default_eye().cells)),
                );
                lemma_flat_layers_valid(a.brain.nn.layers@);
            }
            assert(evolvable(individuals@));
        }
        let (evolved, stats) = self.ga.evolve(rng, &individuals);
        let mut evolved = evolved;
        let ghost orig = evolved@;
        let mut animals: Vec<Animal> = Vec::new();
        proof {
            assert(individuals@[0].schrom().len() == s_brain_genes(default_eye()));
        }
        while evolved.len() > 0
            invariant
                animals@.len() + evolved@.len() == n,
                n == ANIMAL_COUNT,
                orig.len() == n,
                self.s_world() == old(self).s_world(),
                self.s_ga() == old(self).s_ga(),
                forall|t: int|
                    0 <= t < evolved@.len() ==> #[trigger] evolved@[t] == orig[animals@.len()
                        + t],
                forall|k: int|
                    0 <= k < n ==> (#[trigger] orig[k].schrom()).len() == s_brain_genes(
                        default_eye(),
                    ) && genes_valid(orig[k].schrom()),
                forall|k: int|
                    0 <= k < n ==> crate::genetic_algorithm::offspring_of(
                        self.s_ga().muta(),
                        individuals@,
                        (#[trigger] orig[k]).schrom(),
                    ),
                forall|k: int|
                    0 <= k < animals@.len() ==> wf_animal(#[trigger] animals@[k]) && animals@[
                        k].satiation == 0 && animals@[k].speed == SPEED_MAX,
                forall|k: int|
                    0 <= k < animals@.len() ==> s_net_flatten(
                        (#[trigger] animals@[k]).brain.nn,
                    ) == orig[k].schrom(),
            decreases evolved.len(),
        {
            let ghost k = animals@.len() as int;
            let ghost pre = evolved@;
            let ind = evolved.remove(0);
            proof {
                assert(ind == orig[k]);
                assert(forall|t: int| 0 <= t < evolved@.len() ==> #[trigger] evolved@[t] == pre[
                    t + 1]);
            }
            let a = ind.into_animal(rng);
            animals.push(a);
        }
        proof {
            let olds = old(self).s_world().animals@;
            let m = *self.s_ga().muta();
            assert forall|k: int| 0 <= k < animals@.len() implies s_offspring(
                m,
                olds,
                s_net_flatten((#[trigger] animals@[k]).brain.nn),
            ) by {
                let genes = orig[k].schrom();
                let (pa, pb, mid): (int, int, Seq<i64>) = choose|pa: int, pb: int, mid: Seq<
                    i64,
                >|
                    {
                        &&& 0 <= pa < individuals@.len()
                        &&& 0 <= pb < individuals@.len()
                        &&& individuals@[pa].sfit() > 0
                        &&& individuals@[pb].sfit() > 0
                        &&& #[trigger] crossed(
                            individuals@[pa].schrom(),
                            individuals@[pb].schrom(),
                            mid,
                        )
                        &&& m.m_ens(mid, genes)
                    };
                assert(crossed(
                    s_net_flatten(olds[pa].brain.nn),
                    s_net_flatten(olds[pb].brain.nn),
                    mid,
                ));
            }
        }
        self.world.animals = animals;
        let ghost rebuilt = self.s_world().animals@;
        let m = self.world.foods.len();
        let mut j: usize = 0;
        while j < m
            invariant
                j <= m,
                m == self.s_world().foods@.len(),
                wf_world(self.s_world()),
                self.s_age() == 0,
                self.s_ga() == old(self).s_ga(),
                self.s_world().animals@ == rebuilt,
                forall|k: int|
                    0 <= k < rebuilt.len() ==> (#[trigger] rebuilt[k]).satiation == 0 && rebuilt[
                        k].speed == SPEED_MAX,
                forall|k: int|
                    0 <= k < rebuilt.len() ==> s_offspring(
                        *old(self).s_ga().muta(),
                        old(self).s_world().animals@,
                        s_net_flatten((#[trigger] rebuilt[k]).brain.nn),
                    ),
            decreases m - j,
        {
            let p = random_point(rng);
            self.world.foods[j] = Food { position: p };
            j = j + 1;
        }
        stats
    }
}

} // verus!
