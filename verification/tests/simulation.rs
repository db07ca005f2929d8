use glam::{Quat, Vec3};
use shorelark::simulation::{grow_generation, GenerationError, WORLD_ANIMALS, WORLD_FOODS};
use shorelark::{Animal, Brain, Food, Simulation, World, GENERATION_LENGTH};
use shorelark::{
    Chromosome, CrossoverMethod, GeneticAlgorithm, Individual, LayerTopology, MutationMethod, Network,
    SelectionMethod,
};
use vstd::seq::Seq;

fn brain(cells: usize) -> Brain<f32> {
    let layers = Brain::<f32>::topology(cells);
    let count = Network::<f32>::weight_count(&layers).unwrap();
    let samples: Vec<f32> = (0..count).map(|i| i as f32 / 8.0).collect();
    Brain::random(cells, samples, 0.2, std::f32::consts::FRAC_PI_2)
}

fn animal() -> Animal<f32> {
    Animal::new(Vec3::new(0.25, -0.25, 1.0), Quat::from_rotation_z(1.0), 0.1, brain(3))
}

#[test]
fn topology_of_eye() {
    let layers: Vec<usize> = Brain::<f32>::topology(9).iter().map(|l: &LayerTopology| l.neurons).collect();
    assert_eq!(layers, vec![9, 18, 2]);
}

#[test]
fn brain_chromosome_round_trip() {
    let original = brain(3);
    let chromosome = original.as_chromosome();
    assert_eq!(chromosome.len(), 6 * 4 + 2 * 7);

    let rebuilt = Brain::from_chromosome(chromosome.clone(), 3, 0.2, 0.2);
    assert_eq!(rebuilt.nn().params(), original.nn().params());
    assert_eq!(rebuilt.as_chromosome().into_genes(), chromosome.into_genes());
    assert_eq!(rebuilt.speed_accel(), 0.2);
    assert_eq!(rebuilt.rotation_accel(), 0.2);
    assert_eq!(original.rotation_accel(), std::f32::consts::FRAC_PI_2);
}

#[test]
fn animal_eats() {
    let mut a = animal();
    assert_eq!(a.satiation(), 0);
    a.eat_food();
    a.eat_food();
    assert_eq!(a.satiation(), 2);
    assert_eq!(a.position(), Vec3::new(0.25, -0.25, 1.0));
    assert_eq!(a.speed(), 0.1);
}

#[test]
fn animal_moves() {
    let mut a = animal();
    a.set_position(Vec3::new(0.0, 0.5, 1.0));
    a.set_speed(0.15);
    a.set_rotation(Quat::IDENTITY);
    assert_eq!(a.position(), Vec3::new(0.0, 0.5, 1.0));
    assert_eq!(a.speed(), 0.15);
    assert_eq!(a.rotation(), Quat::IDENTITY);
    assert_eq!(a.satiation(), 0);
    assert_eq!(a.as_chromosome().into_genes(), brain(3).as_chromosome().into_genes());
}

#[test]
fn food_moves() {
    let mut food = Food::random(Vec3::new(0.1, 0.2, 1.0));
    let copy = Food::new(&food);
    food.re_random(Vec3::new(-0.3, 0.4, 1.0));
    assert_eq!(food.position(), Vec3::new(-0.3, 0.4, 1.0));
    assert_eq!(copy.position(), Vec3::new(0.1, 0.2, 1.0));
}

/// An individual that is its chromosome.
struct Genome(Chromosome<f32>);

impl Individual<f32> for Genome {
    type Fitness = usize;

    // The spec side of the trait exists for the verifier only; nothing calls
    // it at run time.
    fn genes(&self) -> Seq<f32> {
        unreachable!()
    }

    fn create(chromosome: Chromosome<f32>) -> Self {
        Genome(chromosome)
    }

    fn chromosome(&self) -> &Chromosome<f32> {
        &self.0
    }

    fn fitness(&self) -> usize {
        self.0.len()
    }
}

/// Always picks the last member.
struct Last;

impl SelectionMethod<Genome, ()> for Last {
    fn select<'a>(&self, _rng: &mut (), population: &'a [Genome]) -> &'a Genome {
        population.last().unwrap()
    }
}

/// The child is a copy of parent A.
struct CopyA;

impl CrossoverMethod<f32, ()> for CopyA {
    fn crossed(&self, _a: Seq<f32>, _b: Seq<f32>, _child: Seq<f32>) -> bool {
        unreachable!()
    }

    fn crossover(&self, _rng: &mut (), a: &Chromosome<f32>, _b: &Chromosome<f32>) -> Chromosome<f32> {
        Chromosome::from_iter(a.to_genes())
    }
}

/// Doubles every gene.
struct Double;

impl MutationMethod<f32, ()> for Double {
    fn mutated(&self, _before: Seq<f32>, _after: Seq<f32>) -> bool {
        unreachable!()
    }

    fn mutate(&self, _rng: &mut (), child: &mut Chromosome<f32>) {
        for gene in child.iter_mut() {
            *gene *= 2.0;
        }
    }
}

fn simulation() -> Simulation<f32, Last, CopyA, Double> {
    let animals = (0..WORLD_ANIMALS).map(|_| animal()).collect();
    let foods = (0..WORLD_FOODS).map(|i| Food::random(Vec3::new(i as f32 / 100.0, 0.0, 1.0))).collect();
    Simulation::random(World::random(animals, foods), GeneticAlgorithm::new(Last, CopyA, Double))
}

#[test]
fn generation_length() {
    let mut sim = simulation();
    assert_eq!(sim.world().animals().len(), WORLD_ANIMALS);
    assert_eq!(sim.world().foods().len(), WORLD_FOODS);
    for _ in 0..GENERATION_LENGTH {
        assert!(!sim.preprocess_generation());
    }
    assert!(sim.preprocess_generation());
    assert_eq!(sim.age(), GENERATION_LENGTH + 1);
}

fn food_spots() -> Vec<Vec3> {
    (0..WORLD_FOODS).map(|i| Vec3::new(-(i as f32) / 100.0, 0.25, 1.0)).collect()
}

#[test]
fn new_generation() {
    let mut sim = simulation();
    for _ in 0..10 {
        sim.preprocess_generation();
    }
    let population: Vec<Genome> = (0..3)
        .map(|k| Genome(Chromosome::from_iter((0..38).map(|g| (g + k) as f32).collect())))
        .collect();
    let spots = vec![
        (Vec3::new(0.1, 0.1, 1.0), Quat::IDENTITY),
        (Vec3::new(0.2, 0.2, 1.0), Quat::from_rotation_z(0.5)),
        (Vec3::new(0.3, 0.3, 1.0), Quat::from_rotation_z(1.5)),
    ];

    let bred = sim.process_generation(&mut (), &population, 3, spots.clone(), 0.1, 0.2, 0.2, food_spots());

    assert_eq!(bred, Ok(()));
    assert_eq!(sim.age(), 0);
    assert_eq!(sim.world().animals().len(), 3);
    let parent: Vec<f32> = (0..38).map(|g| (g + 2) as f32 * 2.0).collect();
    for (animal, spot) in sim.world().animals().iter().zip(&spots) {
        assert_eq!(animal.satiation(), 0);
        assert_eq!(animal.position(), spot.0);
        assert_eq!(animal.rotation(), spot.1);
        assert_eq!(animal.speed(), 0.1);
        assert_eq!(animal.brain().rotation_accel(), 0.2);
        assert_eq!(animal.brain().nn().params(), parent);
    }
    let foods: Vec<Vec3> = sim.world().foods().iter().map(|f| f.position()).collect();
    assert_eq!(foods, food_spots());
    for _ in 0..GENERATION_LENGTH {
        assert!(!sim.preprocess_generation());
    }
    assert!(sim.preprocess_generation());
}

#[test]
fn new_generation_rejects_misfit_chromosomes() {
    let mut sim = simulation();
    sim.preprocess_generation();
    let spot = vec![(Vec3::new(0.1, 0.1, 1.0), Quat::IDENTITY)];

    let short = vec![Genome(Chromosome::from_iter(vec![1.0; 37]))];
    let bred = sim.process_generation(&mut (), &short, 3, spot.clone(), 0.1, 0.2, 0.2, food_spots());
    assert_eq!(bred, Err(GenerationError::NotEnoughWeights));

    let long = vec![Genome(Chromosome::from_iter(vec![1.0; 39]))];
    let bred = sim.process_generation(&mut (), &long, 3, spot, 0.1, 0.2, 0.2, food_spots());
    assert_eq!(bred, Err(GenerationError::TooManyWeights));

    assert_eq!(sim.age(), 1);
    assert_eq!(sim.world().animals().len(), WORLD_ANIMALS);
    assert_eq!(sim.world().foods()[1].position(), Vec3::new(0.01, 0.0, 1.0));
}

#[test]
fn grow_generation_keeps_order() {
    let children: Vec<Genome> = (0..3)
        .map(|k| Genome(Chromosome::from_iter((0..38).map(|g| (g * 3 + k) as f32).collect())))
        .collect();
    let spots: Vec<(Vec3, Quat)> = (0..3)
        .map(|k| (Vec3::new(k as f32 / 10.0, 0.0, 1.0), Quat::from_rotation_z(k as f32)))
        .collect();

    let animals = grow_generation(&children, 3, spots.clone(), 0.1, 0.2, 0.3).unwrap();

    assert_eq!(animals.len(), 3);
    for (k, animal) in animals.iter().enumerate() {
        assert_eq!(animal.brain().nn().params(), children[k].0.to_genes());
        assert_eq!(animal.position(), spots[k].0);
        assert_eq!(animal.rotation(), spots[k].1);
        assert_eq!(animal.satiation(), 0);
        assert_eq!(animal.brain().speed_accel(), 0.2);
        assert_eq!(animal.brain().rotation_accel(), 0.3);
    }
}

#[test]
fn grow_generation_reports_first_misfit() {
    let spots = vec![(Vec3::new(0.0, 0.0, 1.0), Quat::IDENTITY); 3];
    let genome = |n: usize| Genome(Chromosome::from_iter(vec![0.5; n]));

    let long_first = vec![genome(38), genome(40), genome(10)];
    assert!(matches!(
        grow_generation(&long_first, 3, spots.clone(), 0.1, 0.2, 0.2),
        Err(GenerationError::TooManyWeights)
    ));

    let short_first = vec![genome(38), genome(10), genome(40)];
    assert!(matches!(
        grow_generation(&short_first, 3, spots.clone(), 0.1, 0.2, 0.2),
        Err(GenerationError::NotEnoughWeights)
    ));

    let none: Vec<Genome> = Vec::new();
    assert_eq!(grow_generation(&none, 3, Vec::new(), 0.1, 0.2, 0.2).unwrap().len(), 0);
}
