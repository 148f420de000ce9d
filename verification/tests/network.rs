//! The neural network: random construction, forward evaluation, and the
//! canonical flatten / rebuild round trip.

use neuroevo::LayerTopology;
use neuroevo::Network;
use neuroevo::SCALE;
use rand::rngs::StdRng;
use rand::SeedableRng;

fn topology(sizes: &[usize]) -> Vec<LayerTopology> {
    sizes.iter().map(|&neurons| LayerTopology { neurons }).collect()
}

#[test]
fn lib_random() {
    let mut rng = StdRng::seed_from_u64(0);
    let network = Network::random(&mut rng, &topology(&[4, 1]));

    let weights = network.weights();
    // One neuron: a bias plus four weights, each drawn from [-1, 1].
    assert_eq!(weights.len(), 5);
    for w in &weights {
        assert!(-SCALE <= *w && *w <= SCALE);
    }

    // The same seed reproduces the same network exactly.
    let mut rng2 = StdRng::seed_from_u64(0);
    let again = Network::random(&mut rng2, &topology(&[4, 1]));
    assert_eq!(again.weights(), weights);

    // A different seed gives a different network.
    let mut rng3 = StdRng::seed_from_u64(1);
    let other = Network::random(&mut rng3, &topology(&[4, 1]));
    assert_ne!(other.weights(), weights);
}

#[test]
fn lib_propagate() {
    // bias 0.5, weights [-0.3, 0.8]
    let weights: Vec<i64> = vec![SCALE / 2, -3 * SCALE / 10, 8 * SCALE / 10];
    let network = Network::from_weights(&topology(&[2, 1]), &weights);

    // Strongly negative input: the ReLU clamps the output to zero.
    let low = network.propagate(vec![-10 * SCALE, -10 * SCALE]);
    assert_eq!(low, vec![0]);

    // (-0.3 * 0.5) + (0.8 * 1.0) + 0.5 = 1.15
    let high = network.propagate(vec![SCALE / 2, SCALE]);
    assert_eq!(high, vec![1_150_000]);
}

#[test]
fn weights() {
    let flat: Vec<i64> = vec![
        100_000, 200_000, 300_000, 400_000, 500_000, 600_000, 700_000, 800_000,
    ];
    let network = Network::from_weights(&topology(&[3, 2]), &flat);
    // Canonical order: per neuron, the bias first, then its weights.
    assert_eq!(network.weights(), flat);
}

#[test]
fn from_weights() {
    // Two layers: 3 -> 2 consumes 8 values, 2 -> 1 consumes 3 more.
    let flat: Vec<i64> = vec![
        100_000, 200_000, 300_000, 400_000, 500_000, 600_000, 700_000, 800_000, 900_000,
        1_000_000, -16,
    ];
    let network = Network::from_weights(&topology(&[3, 2, 1]), &flat);
    assert_eq!(network.weights(), flat);
}

#[test]
fn propagate_applies_layers_in_sequence() {
    // 1 -> 1 -> 1, all biases zero: the two weights compose.
    // First layer doubles, second halves: identity for positive input.
    let flat: Vec<i64> = vec![0, 2 * SCALE, 0, SCALE / 2];
    let network = Network::from_weights(&topology(&[1, 1, 1]), &flat);
    let out = network.propagate(vec![300_000]);
    assert_eq!(out, vec![300_000]);
}
