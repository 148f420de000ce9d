//! The generic evolutionary engine.
//!
//! `GeneticAlgorithm` is parameterized by pluggable selection, crossover and
//! mutation strategies, and is generic over anything exposing the
//! [`Individual`] capability (a fitness score and a chromosome).

use vstd::prelude::*;

use crate::chromosome::{genes_valid, Chromosome};
use crate::fixed::SCALE;
use crate::statistics::{
    lemma_sum_le, seq_max, seq_min, sum_u64, Statistics, FIT_MAX, POP_MAX,
};
use rand::rngs::StdRng;

verus! {

/// The capability the engine needs of a population member: a fitness score,
/// a chromosome, and reconstruction from an evolved chromosome.
pub trait Individual: Sized {
    /// The fitness score, at spec level.
    spec fn sfit(&self) -> u64;

    /// The chromosome contents, at spec level.
    spec fn schrom(&self) -> Seq<i64>;

    /// The fitness score driving selection probability.
    fn fitness(&self) -> (r: u64)
        ensures
            r == self.sfit(),
    ;

    /// The genetic encoding of this individual.
    fn chromosome(&self) -> (r: &Chromosome)
        ensures
            r@ == self.schrom(),
    ;

    /// Rebuild an individual around an evolved chromosome.
    fn create(chromosome: Chromosome) -> (r: Self)
        ensures
            r.schrom() == chromosome@,
    ;
}

/// Picks one individual of a population, by index into its fitness list.
/// The contract promises an in-bounds index with positive fitness; which
/// index comes back may depend on the random source.
pub trait SelectionMethod {
    /// Select the index of one individual.
    fn select(&self, rng: &mut StdRng, fitnesses: &Vec<u64>) -> (r: usize)
        requires
            fitnesses@.len() > 0,
            sum_u64(fitnesses@) > 0,
            sum_u64(fitnesses@) <= u64::MAX,
        ensures
            r < fitnesses@.len(),
            fitnesses@[r as int] > 0,
    ;
}

/// Combines two parent chromosomes of equal length into one child whose every
/// gene comes from one of the parents at the same position.
pub trait CrossoverMethod {
    /// Combine two parent chromosomes into a child chromosome.
    fn crossover(&self, rng: &mut StdRng, parent_a: &Chromosome, parent_b: &Chromosome) -> (r:
        Chromosome)
        requires
            parent_a@.len() == parent_b@.len(),
        ensures
            r@.len() == parent_a@.len(),
            forall|i: int|
                0 <= i < r@.len() ==> #[trigger] r@[i] == parent_a@[i] || r@[i] == parent_b@[i],
    ;
}

/// Perturbs a chromosome in place, keeping its length and gene validity;
/// what else holds is the strategy's own promise, `m_ens`.
pub trait MutationMethod {
    /// What this strategy promises of the chromosome before and after.
    spec fn m_ens(&self, before: Seq<i64>, after: Seq<i64>) -> bool;

    /// Perturb a chromosome in place.
    fn mutate(&self, rng: &mut StdRng, child: &mut Chromosome)
        requires
            genes_valid(old(child)@),
        ensures
            final(child)@.len() == old(child)@.len(),
            genes_valid(final(child)@),
            self.m_ens(old(child)@, final(child)@),
    ;
}

/// The fitness scores of a population, in order.
pub open spec fn fit_seq<I: Individual>(s: Seq<I>) -> Seq<u64> {
    Seq::new(s.len(), |i: int| s[i].sfit())
}

/// `mid` is a gene-wise cross of `a` and `b`: the same length, every gene
/// taken from one parent at the same position.
pub open spec fn crossed(a: Seq<i64>, b: Seq<i64>, mid: Seq<i64>) -> bool {
    &&& mid.len() == a.len()
    &&& forall|i: int| 0 <= i < mid.len() ==> #[trigger] mid[i] == a[i] || mid[i] == b[i]
}

/// `child` can arise from `pop` under mutation strategy `m`: it is the
/// mutation of a gene-wise cross of two members with positive fitness.
pub open spec fn offspring_of<I: Individual, M: MutationMethod>(
    m: &M,
    pop: Seq<I>,
    child: Seq<i64>,
) -> bool {
    exists|pa: int, pb: int, mid: Seq<i64>|
        {
            &&& 0 <= pa < pop.len()
            &&& 0 <= pb < pop.len()
            &&& pop[pa].sfit() > 0
            &&& pop[pb].sfit() > 0
            &&& #[trigger] crossed(pop[pa].schrom(), pop[pb].schrom(), mid)
            &&& m.m_ens(mid, child)
        }
}

/// A population the engine accepts: nonempty, within the size and fitness
/// caps, all chromosomes of one length and with valid genes, and a positive
/// total fitness.
pub open spec fn evolvable<I: Individual>(s: Seq<I>) -> bool {
    &&& 0 < s.len() <= POP_MAX
    &&& forall|i: int| 0 <= i < s.len() ==> #[trigger] s[i].sfit() <= FIT_MAX
    &&& sum_u64(fit_seq(s)) > 0
    &&& forall|i: int| 0 <= i < s.len() ==> (#[trigger] s[i].schrom()).len() == s[0].schrom().len()
    &&& forall|i: int| 0 <= i < s.len() ==> genes_valid(#[trigger] s[i].schrom())
}

/// The generic evolutionary loop, with its three strategies chosen once at
/// construction.
pub struct GeneticAlgorithm<S, C, M> {
    selection_method: S,
    crossover_method: C,
    mutation_method: M,
}

impl<S: SelectionMethod, C: CrossoverMethod, M: MutationMethod> GeneticAlgorithm<S, C, M> {
    /// The selection strategy chosen at construction.
    pub closed spec fn sel(&self) -> &S {
        &self.selection_method
    }

    /// The crossover strategy chosen at construction.
    pub closed spec fn cross(&self) -> &C {
        &self.crossover_method
    }

    /// The mutation strategy chosen at construction.
    pub closed spec fn muta(&self) -> &M {
        &self.mutation_method
    }

    /// Bundle the three strategies.
    pub fn new(selection_method: S, crossover_method: C, mutation_method: M) -> (r: Self)
        ensures
            *r.sel() == selection_method,
            *r.cross() == crossover_method,
            *r.muta() == mutation_method,
    {
        Self { selection_method, crossover_method, mutation_method }
    }

    /// One generation: for each of the N output slots, select two parents
    /// (independently, with replacement), cross their chromosomes, mutate the
    /// child and rebuild an individual from it; and report the input
    /// population's fitness statistics.
    pub fn evolve<I: Individual>(&self, rng: &mut StdRng, population: &Vec<I>) -> (r: (
        Vec<I>,
        Statistics,
    ))
        requires
            evolvable(population@),
        ensures
            r.0@.len() == population@.len(),
            forall|j: int|
                0 <= j < r.0@.len() ==> (#[trigger] r.0@[j].schrom()).len()
                    == population@[0].schrom().len(),
            forall|j: int| 0 <= j < r.0@.len() ==> genes_valid(#[trigger] r.0@[j].schrom()),
            forall|j: int|
                0 <= j < r.0@.len() ==> offspring_of(
                    self.muta(),
                    population@,
                    (#[trigger] r.0@[j]).schrom(),
                ),
            r.1.min_fitness == SCALE * seq_min(fit_seq(population@)),
            r.1.max_fitness == SCALE * seq_max(fit_seq(population@)),
            r.1.avg_fitness == (SCALE * sum_u64(fit_seq(population@)))
                / population@.len() as int,
            r.1.min_fitness <= r.1.avg_fitness <= r.1.max_fitness,
    {
        let n = population.len();
        let mut fits: Vec<u64> = Vec::new();
        let mut i: usize = 0;
        while i < n
            invariant
                i <= n,
                n == population@.len(),
                evolvable(population@),
                fits@.len() == i,
                forall|k: int| 0 <= k < i ==> #[trigger] fits@[k] == population@[k].sfit(),
            decreases n - i,
        {
            fits.push(population[i].fitness());
            i = i + 1;
        }
        proof {
            assert(fits@ =~= fit_seq(population@));
            lemma_sum_le(fits@, FIT_MAX);
            vstd::arithmetic::mul::lemma_mul_inequality(
                fits@.len() as int,
                POP_MAX as int,
                FIT_MAX as int,
            );
        }
        let stats = Statistics::new(&fits);
        let mut out: Vec<I> = Vec::new();
        while out.len() < n
            invariant
                n == population@.len(),
                evolvable(population@),
                fits@ == fit_seq(population@),
                sum_u64(fits@) <= u64::MAX,
                out@.len() <= n,
                forall|j: int|
                    0 <= j < out@.len() ==> (#[trigger] out@[j].schrom()).len()
                        == population@[0].schrom().len(),
                forall|j: int| 0 <= j < out@.len() ==> genes_valid(#[trigger] out@[j].schrom()),
                forall|j: int|
                    0 <= j < out@.len() ==> offspring_of(
                        self.muta(),
                        population@,
                        (#[trigger] out@[j]).schrom(),
                    ),
            decreases n - out.len(),
        {
            let parent_a = self.selection_method.select(rng, &fits);
            let parent_b = self.selection_method.select(rng, &fits);
            let mut child = self.crossover_method.crossover(
                rng,
                population[parent_a].chromosome(),
                population[parent_b].chromosome(),
            );
            proof {
                assert(genes_valid(population@[parent_a as int].schrom()));
                assert(genes_valid(population@[parent_b as int].schrom()));
                assert(genes_valid(child@));
            }
            let ghost mid = child@;
            self.mutation_method.mutate(rng, &mut child);
            proof {
                assert(crossed(
                    population@[parent_a as int].schrom(),
                    population@[parent_b as int].schrom(),
                    mid,
                ));
                assert(offspring_of(self.muta(), population@, child@));
            }
            out.push(I::create(child));
        }
        (out, stats)
    }
}

} // verus!
