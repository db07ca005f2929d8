pub mod animal;
pub mod brain;
pub mod food;
pub mod genetic_algorithm;
pub mod geometry;
pub mod neural_network;
pub mod simulation;
pub mod world;

pub use animal::Animal;
pub use brain::Brain;
pub use food::Food;
pub use genetic_algorithm::{
    Chromosome, CrossoverMethod, GeneticAlgorithm, Individual, MutationMethod, SelectionMethod,
};
pub use neural_network::{Layer, LayerTopology, Network, Neuron};
pub use simulation::{GenerationError, Simulation, GENERATION_LENGTH, WORLD_ANIMALS, WORLD_FOODS};
pub use world::World;
