//! The genetic algorithm engine: selection, crossover, mutation, evolution.

use neuroevo::Chromosome;
use neuroevo::CrossoverMethod;
use neuroevo::GaussianMutation;
use neuroevo::GeneticAlgorithm;
use neuroevo::Individual;
use neuroevo::MutationMethod;
use neuroevo::RouletteWheelSelection;
use neuroevo::SelectionMethod;
use neuroevo::Statistics;
use neuroevo::UniformCrossover;
use neuroevo::SumIndividual;
use neuroevo::SCALE;
use rand::rngs::StdRng;
use rand::SeedableRng;

fn chromosome(genes: &[i64]) -> Chromosome {
    Chromosome::new(genes.to_vec())
}

fn sum_individual(genes: &[i64]) -> SumIndividual {
    SumIndividual::create(chromosome(genes))
}

fn genes_of(c: &Chromosome) -> Vec<i64> {
    c.genes().clone()
}

fn mutated(seed: u64, chance: i64, coeff: i64) -> Vec<i64> {
    let mut rng = StdRng::seed_from_u64(seed);
    let mut child = chromosome(&[SCALE, 2 * SCALE, 3 * SCALE, 4 * SCALE, 5 * SCALE]);
    GaussianMutation::new(chance, coeff).mutate(&mut rng, &mut child);
    genes_of(&child)
}

const ORIGINAL: [i64; 5] = [SCALE, 2 * SCALE, 3 * SCALE, 4 * SCALE, 5 * SCALE];

#[test]
fn mod_does_not_change_the_original_chromosome() {
    // Zero chance and zero coefficient: nothing may move.
    assert_eq!(mutated(0, 0, 0), ORIGINAL.to_vec());
}

#[test]
fn zero_chance_nonzero_coeff_does_not_change_the_chromosome() {
    assert_eq!(mutated(0, 0, SCALE / 2), ORIGINAL.to_vec());
}

#[test]
fn fifty_fifty_chance_zero_coeff_does_not_change_the_chromosome() {
    assert_eq!(mutated(0, SCALE / 2, 0), ORIGINAL.to_vec());
}

#[test]
fn max_chance_zero_coeff_does_not_change_the_chromosome() {
    assert_eq!(mutated(0, SCALE, 0), ORIGINAL.to_vec());
}

#[test]
fn slightly_changes_the_original_chromosome() {
    let actual = mutated(7, SCALE / 2, SCALE);
    let mut changed: usize = 0;
    for (a, o) in actual.iter().zip(ORIGINAL.iter()) {
        assert!((a - o).abs() <= SCALE);
        if a != o {
            changed += 1;
        }
    }
    assert!(changed >= 1, "a fifty-fifty mutation should touch something");
    assert!(changed <= 4, "a fifty-fifty mutation should spare something");
}

#[test]
fn entirely_changes_the_original_chromosome() {
    let actual = mutated(7, SCALE, SCALE);
    for (a, o) in actual.iter().zip(ORIGINAL.iter()) {
        assert!((a - o).abs() <= SCALE);
        assert_ne!(a, o, "with maximal chance every gene should move");
    }
}

#[test]
fn roulette_wheel_selection() {
    let mut rng = StdRng::seed_from_u64(0);
    let fitnesses: Vec<u64> = vec![2, 1, 4, 3];

    let mut histogram = [0u64; 4];
    for _ in 0..1000 {
        let picked = RouletteWheelSelection.select(&mut rng, &fitnesses);
        histogram[picked] += 1;
    }

    // Each index should be drawn roughly in proportion to its fitness
    // (100 draws per unit of fitness, within sampling tolerance).
    let expected = [200i64, 100, 400, 300];
    for (count, want) in histogram.iter().zip(expected.iter()) {
        assert!((*count as i64 - want).abs() <= 60, "histogram {:?}", histogram);
    }
}

#[test]
fn selection_never_picks_zero_fitness() {
    let mut rng = StdRng::seed_from_u64(1);
    let fitnesses: Vec<u64> = vec![0, 5];
    for _ in 0..200 {
        assert_eq!(RouletteWheelSelection.select(&mut rng, &fitnesses), 1);
    }
}

#[test]
fn crossover_takes_every_gene_from_a_parent() {
    let mut rng = StdRng::seed_from_u64(3);
    let a = chromosome(&[SCALE, 2 * SCALE, 3 * SCALE, 4 * SCALE, 5 * SCALE, 6 * SCALE]);
    let b = chromosome(&[-SCALE, -2 * SCALE, -3 * SCALE, -4 * SCALE, -5 * SCALE, -6 * SCALE]);

    let child = UniformCrossover.crossover(&mut rng, &a, &b);

    assert_eq!(child.len(), 6);
    let mut from_a: usize = 0;
    let mut from_b: usize = 0;
    for i in 0..child.len() {
        let g = child.gene(i);
        if g == a.gene(i) {
            from_a += 1;
        } else {
            assert_eq!(g, b.gene(i));
            from_b += 1;
        }
    }
    assert!(from_a >= 1 && from_b >= 1, "both parents should contribute");
}

#[test]
fn statistics_min_max_avg_are_exact() {
    let stats = Statistics::new(&vec![2, 1, 4, 3]);
    assert_eq!(stats.min_fitness, SCALE);
    assert_eq!(stats.max_fitness, 4 * SCALE);
    assert_eq!(stats.avg_fitness, 2 * SCALE + SCALE / 2);
}

#[test]
fn evolve_preserves_population_size_and_orders_statistics() {
    let mut rng = StdRng::seed_from_u64(5);
    let ga = GeneticAlgorithm::new(
        RouletteWheelSelection,
        UniformCrossover,
        GaussianMutation::new(SCALE / 2, SCALE / 2),
    );
    let population = vec![
        sum_individual(&[0, 0, 0]),
        sum_individual(&[SCALE, SCALE, SCALE]),
        sum_individual(&[SCALE, 2 * SCALE, SCALE]),
        sum_individual(&[SCALE, 2 * SCALE, 4 * SCALE]),
    ];

    let (next, stats) = ga.evolve(&mut rng, &population);

    assert_eq!(next.len(), 4);
    assert!(stats.min_fitness <= stats.avg_fitness);
    assert!(stats.avg_fitness <= stats.max_fitness);
    assert_eq!(stats.min_fitness, 0);
    assert_eq!(stats.max_fitness, 7 * SCALE);
    assert_eq!(stats.avg_fitness, 3 * SCALE + SCALE / 2);
}

fn whole_unit_individual(units: &[i64]) -> SumIndividual {
    let genes: Vec<i64> = units.iter().map(|u| u * SCALE).collect();
    SumIndividual::create(Chromosome::new(genes))
}

fn run_ten_generations() -> Vec<Vec<i64>> {
    let mut rng = StdRng::seed_from_u64(0);
    let ga = GeneticAlgorithm::new(
        RouletteWheelSelection,
        UniformCrossover,
        GaussianMutation::new(SCALE / 2, SCALE / 2),
    );
    let mut population = vec![
        whole_unit_individual(&[0, 0, 0]),
        whole_unit_individual(&[1, 1, 1]),
        whole_unit_individual(&[1, 2, 1]),
        whole_unit_individual(&[1, 2, 4]),
    ];
    for _ in 0..10 {
        let (next, _) = ga.evolve(&mut rng, &population);
        population = next;
    }
    population.iter().map(|p| p.chromosome().genes().clone()).collect()
}

#[test]
fn genetic_algorithm() {
    // The run is fully determined by the seed: it must reproduce exactly.
    let first = run_ten_generations();
    let second = run_ten_generations();
    assert_eq!(first, second);

    let expected: Vec<Vec<i64>> = vec![
        vec![1_410_770, 2_295_363, 3_302_452],
        vec![600_737, 2_101_951, 3_558_962],
        vec![1_308_309, 1_675_053, 3_154_666],
        vec![1_494_896, 2_116_267, 3_161_398],
    ];
    assert_eq!(first, expected);
}
