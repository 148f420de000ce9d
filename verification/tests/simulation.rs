//! The vision encoder and the top-level simulation stepper.

use neuroevo::Eye;
use neuroevo::Food;
use neuroevo::Point;
use neuroevo::Simulation;
use neuroevo::SCALE;
use rand::rngs::StdRng;
use rand::SeedableRng;

fn food(x: i64, y: i64) -> Food {
    Food { position: Point { x, y } }
}

#[test]
fn food_exactly_at_radius_is_not_seen() {
    // Distance is exactly the field-of-view radius: the comparison is
    // strict, so the food contributes nothing.
    let eye = Eye::new(250_000, 125_000, 9);
    let observer = Point { x: 500_000, y: 500_000 };
    let foods = vec![food(500_000, 750_000)];
    let vision = eye.process_vision(observer, 0, &foods);
    assert_eq!(vision, vec![0; 9]);
}

#[test]
fn food_just_inside_radius_is_seen() {
    let eye = Eye::new(250_000, 125_000, 9);
    let observer = Point { x: 500_000, y: 500_000 };
    let foods = vec![food(500_000, 749_999)];
    let vision = eye.process_vision(observer, 0, &foods);
    // Dead ahead: the middle cell; barely in range: minimal energy,
    // (250000 - 249999) * SCALE / 250000 = 4.
    let mut expected = vec![0; 9];
    expected[4] = 4;
    assert_eq!(vision, expected);
}

#[test]
fn angle_on_the_far_boundary_lands_in_the_last_cell() {
    // A food at exactly +fov_angle/2: the fractional cell index equals the
    // cell count and is clamped into the last cell instead of overflowing.
    let eye = Eye::new(300_000, 500_000, 13);
    let observer = Point { x: 500_000, y: 500_000 };
    let foods = vec![food(250_000, 500_000)];
    let vision = eye.process_vision(observer, 0, &foods);
    let mut expected = vec![0; 13];
    // Energy: (300000 - 250000) * SCALE / 300000.
    expected[12] = 166_666;
    assert_eq!(vision, expected);
}

#[test]
fn two_foods_in_one_cell_accumulate() {
    let eye = Eye::new(500_000, 125_000, 9);
    let observer = Point { x: 500_000, y: 500_000 };
    let foods = vec![food(500_000, 750_000), food(500_000, 800_000)];
    let vision = eye.process_vision(observer, 0, &foods);
    // Both foods are dead ahead; energies (1/2 and 2/5 of a unit) add up.
    let mut expected = vec![0; 9];
    expected[4] = 500_000 + 400_000;
    assert_eq!(vision, expected);
}

#[test]
fn eye_reports_its_cell_count() {
    let eye = Eye::new(250_000, 125_000, 7);
    assert_eq!(eye.cells(), 7);
}

#[test]
fn random_world_has_the_fixed_population_sizes() {
    let mut rng = StdRng::seed_from_u64(11);
    let sim = Simulation::random(&mut rng);
    let world = sim.world();
    assert_eq!(world.animals().len(), 10);
    assert_eq!(world.foods().len(), 60);
    for animal in world.animals() {
        let p = animal.position();
        assert!(0 <= p.x && p.x < SCALE);
        assert!(0 <= p.y && p.y < SCALE);
        assert!(animal.rotation().abs() <= 500_000);
        assert_eq!(animal.satiation(), 0);
    }
    for f in world.foods() {
        assert!(0 <= f.position.x && f.position.x < SCALE);
        assert!(0 <= f.position.y && f.position.y < SCALE);
    }
}

#[test]
fn simulation_liveness() {
    // After exactly generation_length + 1 ticks, exactly one evolution has
    // happened and the age is back to zero.
    let mut rng = StdRng::seed_from_u64(42);
    let mut sim = Simulation::random(&mut rng);
    let mut evolutions: usize = 0;
    for tick in 0i64..2501i64 {
        assert_eq!(sim.age() as i64, tick % 2501);
        if tick == 2500 {
            // The boundary step requires a fed population; this seed
            // provides one, so evolution may run.
            assert!(sim.total_satiation() > 0);
        }
        let out = sim.step(&mut rng);
        if out.is_some() {
            evolutions += 1;
            assert_eq!(tick, 2500i64, "evolution only at the generation boundary");
        }
    }
    assert_eq!(evolutions, 1);
    assert_eq!(sim.age(), 0);
    for animal in sim.world().animals() {
        assert_eq!(animal.satiation(), 0, "satiation resets at evolution");
    }
}

#[test]
fn stepping_keeps_animals_on_the_torus() {
    let mut rng = StdRng::seed_from_u64(3);
    let mut sim = Simulation::random(&mut rng);
    for _ in 0..50 {
        sim.step(&mut rng);
        for animal in sim.world().animals() {
            let p = animal.position();
            assert!(0 <= p.x && p.x < SCALE);
            assert!(0 <= p.y && p.y < SCALE);
        }
    }
}

#[test]
fn train_fast_forwards_one_generation() {
    let mut rng = StdRng::seed_from_u64(42);
    let mut sim = Simulation::random(&mut rng);
    // Walk until some animal has eaten; training needs a positive total
    // fitness for roulette-wheel selection.
    let mut ticks: u64 = 0;
    while sim.total_satiation() == 0 {
        assert!(ticks < 2_500, "some animal should eat within one generation");
        sim.step(&mut rng);
        ticks += 1;
    }
    let stats = sim.train(&mut rng);
    assert_eq!(sim.age(), 0);
    assert!(stats.min_fitness <= stats.avg_fitness);
    assert!(stats.avg_fitness <= stats.max_fitness);
    assert!(stats.max_fitness > 0);
}
