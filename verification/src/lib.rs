//! An artificial-life engine: a population of simple agents steered by small
//! feed-forward neural networks evolves through a genetic algorithm.
//!
//! All quantities are fixed-point numbers: a value of [`fixed::SCALE`] stands
//! for 1.0, and angles are measured in scaled turns (a value of
//! [`fixed::SCALE`] stands for one full revolution). Randomness is always
//! injected through an explicit `rand::rngs::StdRng` handle, so a fixed seed
//! reproduces a run exactly.

pub mod angle;
pub mod animal;
pub mod animal_individual;
pub mod brain;
pub mod chromosome;
pub mod crossover;
pub mod eye;
pub mod fixed;
pub mod food;
pub mod genetic_algorithm;
pub mod mutation;
pub mod network;
pub mod point;
pub mod rng;
pub mod selection;
pub mod simulation;
pub mod statistics;
pub mod sum_individual;
pub mod world;

pub use animal::Animal;
pub use animal_individual::AnimalIndividual;
pub use brain::Brain;
pub use chromosome::Chromosome;
pub use crossover::UniformCrossover;
pub use eye::Eye;
pub use fixed::SCALE;
pub use fixed::VAL_LIMIT;
pub use food::Food;
pub use genetic_algorithm::CrossoverMethod;
pub use genetic_algorithm::GeneticAlgorithm;
pub use genetic_algorithm::Individual;
pub use genetic_algorithm::MutationMethod;
pub use genetic_algorithm::SelectionMethod;
pub use mutation::GaussianMutation;
pub use network::LayerTopology;
pub use network::Network;
pub use point::Point;
pub use selection::RouletteWheelSelection;
pub use simulation::Simulation;
pub use statistics::Statistics;
pub use sum_individual::SumIndividual;
pub use world::World;
