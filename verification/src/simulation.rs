use vstd::prelude::*;
use glam::{Quat, Vec3};

use crate::animal::Animal;
use crate::brain::{brain_topology, Brain};
use crate::genetic_algorithm::{
    lemma_breeding_pinned_by_generator, Chromosome, CrossoverMethod, GeneticAlgorithm, Individual, MutationMethod, SelectionMethod,
};
use crate::neural_network::{has_shape, network_params, param_count, Network};
use crate::world::World;

verus! {

/// How many `.step()`-s have to occur before we push data into the
/// genetic algorithm: for how many steps each bird gets to live.
pub const GENERATION_LENGTH: usize = 2500;

/// Number of animals a simulation starts with.
pub const WORLD_ANIMALS: usize = 40;

/// Number of foods a simulation starts with.
pub const WORLD_FOODS: usize = 60;

/// Why a new generation could not be grown: some child's chromosome does
/// not fit the brain of an animal.
#[derive(Clone, Copy, Debug, PartialEq, Eq, Structural)]
pub enum GenerationError {
    /// A child's chromosome has fewer genes than the brain has parameters.
    NotEnoughWeights,
    /// A child's chromosome has more genes than the brain has parameters.
    TooManyWeights,
}

/// The world together with the genetic algorithm that breeds its animals,
/// and the age of the current generation in steps.
pub struct Simulation<F, S, C, M> {
    world: World<F>,
    ga: GeneticAlgorithm<S, C, M>,
    age: usize,
}

/// Whether a generation that has lived `age` steps is over.
pub open spec fn generation_over(age: nat) -> bool {
    age > GENERATION_LENGTH
}

impl<F, S, C, M> Simulation<F, S, C, M> {
    /// The world.
    pub closed spec fn spec_world(&self) -> World<F> {
        self.world
    }

    /// The genetic algorithm.
    pub closed spec fn spec_ga(&self) -> GeneticAlgorithm<S, C, M> {
        self.ga
    }

    /// Steps the current generation has lived.
    pub closed spec fn spec_age(&self) -> nat {
        self.age as nat
    }

    /// A simulation of `world` bred by `ga`, at the start of a generation.
    /// The world is freshly drawn: `WORLD_ANIMALS` animals that have eaten
    /// nothing yet and `WORLD_FOODS` foods.
    pub fn random(world: World<F>, ga: GeneticAlgorithm<S, C, M>) -> (simulation: Self)
        requires
            world.spec_animals().len() == WORLD_ANIMALS,
            world.spec_foods().len() == WORLD_FOODS,
            forall|k: int| 0 <= k < world.spec_animals().len() ==> (#[trigger] world.spec_animals()[k]).spec_satiation() == 0,
        ensures
            simulation.spec_world() == world,
            simulation.spec_ga() == ga,
            simulation.spec_age() == 0,
    {
        Simulation { world, ga, age: 0 }
    }

    /// The world.
    pub fn world(&self) -> (world: &World<F>)
        ensures
            *world == self.spec_world(),
    {
        &self.world
    }

    /// The genetic algorithm.
    pub fn ga(&self) -> (ga: &GeneticAlgorithm<S, C, M>)
        ensures
            *ga == self.spec_ga(),
    {
        &self.ga
    }

    /// Steps the current generation has lived.
    pub fn age(&self) -> (age: usize)
        ensures
            age == self.spec_age(),
    {
        self.age
    }

    /// Counts one more step of the current generation and tells whether the
    /// generation is now over.
    pub fn preprocess_generation(&mut self) -> (over: bool)
        requires
            old(self).spec_age() < usize::MAX,
        ensures
            final(self).spec_age() == old(self).spec_age() + 1,
            over == generation_over(final(self).spec_age()),
            final(self).spec_world() == old(self).spec_world(),
            final(self).spec_ga() == old(self).spec_ga(),
    {
        self.age = self.age + 1;
        self.age > GENERATION_LENGTH
    }

}

impl<F: Copy, S, C, M> Simulation<F, S, C, M> {
    /// Starts a new generation. The genetic algorithm breeds the next
    /// generation from `population` (the current animals as individuals);
    /// each child grows into an animal that has eaten nothing yet, whose brain
    /// (for an eye of `cells` cells, with the given largest changes of speed
    /// and rotation) takes the child's genes as its parameters, and which
    /// stands at `spots[k]` going at `speed`. These animals replace the
    /// world's, food `i` moves to `food_positions[i]`, and the age goes back
    /// to zero. Where a child's chromosome does not fit such a brain, nothing
    /// changes and the error says how it misfits.
    pub fn process_generation<I, R>(
        &mut self,
        rng: &mut R,
        population: &[I],
        cells: usize,
        spots: Vec<(Vec3, Quat)>,
        speed: F,
        speed_accel: F,
        rotation_accel: F,
        food_positions: Vec<Vec3>,
    ) -> (result: Result<(), GenerationError>)
        where
            I: Individual<F>,
            S: SelectionMethod<I, R>,
            C: CrossoverMethod<F, R>,
            M: MutationMethod<F, R>,
        requires
            population@.len() > 0,
            cells <= usize::MAX / 2,
            spots@.len() == population@.len(),
            food_positions@.len() == old(self).spec_world().spec_foods().len(),
        ensures
            match result {
                Ok(()) => {
                    &&& final(self).spec_age() == 0
                    &&& final(self).spec_ga() == old(self).spec_ga()
                    &&& final(self).spec_world().spec_animals().len() == population@.len()
                    &&& grew_generation::<F, S, C, M, I, R>(
                        old(self).spec_ga(),
                        population@,
                        *old(rng),
                        *final(rng),
                        final(self).spec_world().spec_animals(),
                        cells,
                        spots@,
                        speed,
                        speed_accel,
                        rotation_accel,
                    )
                    &&& forall|k: int|
                        0 <= k < population@.len() ==> grown_animal::<F, S, C, M, I, R>(
                            old(self).spec_ga(),
                            population@,
                            #[trigger] final(self).spec_world().spec_animals()[k],
                            cells,
                            spots@[k],
                            speed,
                            speed_accel,
                            rotation_accel,
                        )
                    &&& final(self).spec_world().spec_foods().len() == old(self).spec_world().spec_foods().len()
                    &&& forall|i: int|
                        0 <= i < food_positions@.len() ==> (#[trigger] final(self).spec_world().spec_foods()[i])@
                            == food_positions@[i]
                },
                Err(_) => *final(self) == *old(self),
            },
            result == Err::<(), GenerationError>(GenerationError::NotEnoughWeights) ==> exists|child: I|
                #[trigger] old(self).spec_ga().bred_from::<I, F, R>(population@, child)
                    && child.genes().len() < param_count(brain_topology(cells as nat)),
            result == Err::<(), GenerationError>(GenerationError::TooManyWeights) ==> exists|child: I|
                #[trigger] old(self).spec_ga().bred_from::<I, F, R>(population@, child)
                    && child.genes().len() > param_count(brain_topology(cells as nat)),
    {
        let next = self.ga.evolve(rng, population);
        let grown = grow_generation(&next, cells, spots, speed, speed_accel, rotation_accel);
        match grown {
            Ok(animals) => {
                proof {
                    assert forall|k: int| 0 <= k < population@.len() implies grown_animal::<F, S, C, M, I, R>(
                        old(self).spec_ga(),
                        population@,
                        #[trigger] animals@[k],
                        cells,
                        spots@[k],
                        speed,
                        speed_accel,
                        rotation_accel,
                    ) by {
                        assert(old(self).spec_ga().bred_from::<I, F, R>(population@, next@[k]));
                        assert(grown_from_genes(animals@[k], next@[k].genes(), cells, spots@[k], speed, speed_accel, rotation_accel));
                    }
                    assert(old(self).spec_ga().breeds::<I, F, R>(population@, *old(rng), *rng, next@));
                    assert(grew_generation::<F, S, C, M, I, R>(
                        old(self).spec_ga(),
                        population@,
                        *old(rng),
                        *rng,
                        animals@,
                        cells,
                        spots@,
                        speed,
                        speed_accel,
                        rotation_accel,
                    ));
                }
                self.age = 0;
                self.world.restart(animals, food_positions);
                Ok(())
            },
            Err(error) => {
                proof {
                    let k = choose|k: int| first_misfit(next@, cells, k);
                    assert(old(self).spec_ga().bred_from::<I, F, R>(population@, next@[k]));
                }
                Err(error)
            },
        }
    }
}

/// Whether genes of length `len` fit the brain of an eye of `cells` cells.
pub open spec fn fits_brain(len: nat, cells: usize) -> bool {
    len == param_count(brain_topology(cells as nat))
}

/// Child `k` is the first of `children` whose genes do not fit the brain of
/// an eye of `cells` cells.
pub open spec fn first_misfit<F, I: Individual<F>>(children: Seq<I>, cells: usize, k: int) -> bool {
    &&& 0 <= k < children.len()
    &&& !fits_brain(children[k].genes().len(), cells)
    &&& forall|j: int| 0 <= j < k ==> fits_brain((#[trigger] children[j]).genes().len(), cells)
}

/// `animal` grew from `genes`: its brain (for an eye of `cells` cells, with
/// the given largest changes of speed and rotation) takes `genes` as its
/// parameters, it stands at `spot` going at `speed`, and it has eaten nothing.
pub open spec fn grown_from_genes<F>(
    animal: Animal<F>,
    genes: Seq<F>,
    cells: usize,
    spot: (Vec3, Quat),
    speed: F,
    speed_accel: F,
    rotation_accel: F,
) -> bool {
    &&& animal.spec_satiation() == 0
    &&& animal.spec_position() == spot.0
    &&& animal.spec_rotation() == spot.1
    &&& animal.spec_speed() == speed
    &&& animal.spec_brain().max_speed_accel() == speed_accel
    &&& animal.spec_brain().max_rotation_accel() == rotation_accel
    &&& has_shape(animal.spec_brain().network(), brain_topology(cells as nat))
    &&& network_params(animal.spec_brain().network()) == genes
}

/// `animal` is one of a new generation: it grew (as `grown_from_genes` says)
/// from the genes of a child that `ga` bred from `population`.
pub open spec fn grown_animal<F, S, C, M, I, R>(
    ga: GeneticAlgorithm<S, C, M>,
    population: Seq<I>,
    animal: Animal<F>,
    cells: usize,
    spot: (Vec3, Quat),
    speed: F,
    speed_accel: F,
    rotation_accel: F,
) -> bool
    where
        I: Individual<F>,
        C: CrossoverMethod<F, R>,
        M: MutationMethod<F, R>,
{
    exists|child: I|
        #[trigger] ga.bred_from::<I, F, R>(population, child) && grown_from_genes(
            animal,
            child.genes(),
            cells,
            spot,
            speed,
            speed_accel,
            rotation_accel,
        )
}

/// `animals` are, in order, grown from the children that `ga` breeds out of
/// `population` while it takes the random generator from state `before` to
/// state `after`: one animal per child, animal `k` from the genes of child
/// `k`, standing at `spots[k]`.
pub open spec fn grew_generation<F, S, C, M, I, R>(
    ga: GeneticAlgorithm<S, C, M>,
    population: Seq<I>,
    before: R,
    after: R,
    animals: Seq<Animal<F>>,
    cells: usize,
    spots: Seq<(Vec3, Quat)>,
    speed: F,
    speed_accel: F,
    rotation_accel: F,
) -> bool
    where
        I: Individual<F>,
        S: SelectionMethod<I, R>,
        C: CrossoverMethod<F, R>,
        M: MutationMethod<F, R>,
{
    exists|children: Seq<I>|
        {
            &&& #[trigger] ga.breeds::<I, F, R>(population, before, after, children)
            &&& children.len() == animals.len()
            &&& forall|k: int|
                0 <= k < animals.len() ==> grown_from_genes(
                    #[trigger] animals[k],
                    children[k].genes(),
                    cells,
                    spots[k],
                    speed,
                    speed_accel,
                    rotation_accel,
                )
        }
}

/// The new flock follows the breeding, bird for child: where the genetic
/// algorithm's methods are pinned by the random generator, the brain of
/// bird `k` of a generation grown from generator state `before` has as
/// parameters exactly the genes of child `k` of any breeding of the same
/// population from the same state, and there are as many birds as children.
pub proof fn lemma_flock_follows_breeding<F, S, C, M, I, R>(
    ga: GeneticAlgorithm<S, C, M>,
    population: Seq<I>,
    before: R,
    after: R,
    animals: Seq<Animal<F>>,
    cells: usize,
    spots: Seq<(Vec3, Quat)>,
    speed: F,
    speed_accel: F,
    rotation_accel: F,
    bred_after: R,
    children: Seq<I>,
)
    where
        I: Individual<F>,
        S: SelectionMethod<I, R>,
        C: CrossoverMethod<F, R>,
        M: MutationMethod<F, R>,
    requires
        ga.pinned_by_generator::<I, F, R>(population),
        grew_generation::<F, S, C, M, I, R>(
            ga,
            population,
            before,
            after,
            animals,
            cells,
            spots,
            speed,
            speed_accel,
            rotation_accel,
        ),
        ga.breeds::<I, F, R>(population, before, bred_after, children),
        children.len() == animals.len(),
    ensures
        after == bred_after,
        forall|k: int|
            0 <= k < animals.len() ==> network_params((#[trigger] animals[k]).spec_brain().network())
                == children[k].genes(),
{
    let grown = choose|grown: Seq<I>|
        {
            &&& #[trigger] ga.breeds::<I, F, R>(population, before, after, grown)
            &&& grown.len() == animals.len()
            &&& forall|k: int|
                0 <= k < animals.len() ==> grown_from_genes(
                    #[trigger] animals[k],
                    grown[k].genes(),
                    cells,
                    spots[k],
                    speed,
                    speed_accel,
                    rotation_accel,
                )
        };
    lemma_breeding_pinned_by_generator(ga, population, before, after, grown, bred_after, children);
    assert forall|k: int| 0 <= k < animals.len() implies network_params(
        (#[trigger] animals[k]).spec_brain().network(),
    ) == children[k].genes() by {
        assert(grown_from_genes(animals[k], grown[k].genes(), cells, spots[k], speed, speed_accel, rotation_accel));
        assert(grown[k].genes() == children[k].genes());
    }
}

/// Grows the animals of a new generation from the bred `children`, in order:
/// animal `k` grows from the genes of child `k` (as `grown_from_genes` says),
/// standing at `spots[k]`. Where some child's genes do not fit the brain, the
/// first such child decides the error: too few genes or too many.
pub fn grow_generation<F: Copy, I: Individual<F>>(
    children: &[I],
    cells: usize,
    spots: Vec<(Vec3, Quat)>,
    speed: F,
    speed_accel: F,
    rotation_accel: F,
) -> (result: Result<Vec<Animal<F>>, GenerationError>)
    requires
        cells <= usize::MAX / 2,
        spots@.len() == children@.len(),
    ensures
        result is Ok <==> forall|k: int| 0 <= k < children@.len() ==> fits_brain((#[trigger] children@[k]).genes().len(), cells),
        result matches Ok(animals) ==> {
            &&& animals@.len() == children@.len()
            &&& forall|k: int| 0 <= k < children@.len() ==> grown_from_genes(
                #[trigger] animals@[k],
                children@[k].genes(),
                cells,
                spots@[k],
                speed,
                speed_accel,
                rotation_accel,
            )
        },
        result == Err::<Vec<Animal<F>>, GenerationError>(GenerationError::NotEnoughWeights) <==> exists|k: int|
            #[trigger] first_misfit(children@, cells, k) && children@[k].genes().len() < param_count(brain_topology(cells as nat)),
        result == Err::<Vec<Animal<F>>, GenerationError>(GenerationError::TooManyWeights) <==> exists|k: int|
            #[trigger] first_misfit(children@, cells, k) && children@[k].genes().len() > param_count(brain_topology(cells as nat)),
{
    let layers = Brain::<F>::topology(cells);
    let count = Network::<F>::weight_count(&layers);
    let mut i: usize = 0;
    while i < children.len()
        invariant
            i <= children@.len(),
            match count {
                Some(c) => c == param_count(brain_topology(cells as nat)),
                None => param_count(brain_topology(cells as nat)) > usize::MAX,
            },
            count is None ==> i == 0,
            forall|j: int| 0 <= j < i ==> fits_brain((#[trigger] children@[j]).genes().len(), cells),
        decreases children@.len() - i,
    {
        let len = children[i].chromosome().len();
        let misfit = match count {
            None => Some(GenerationError::NotEnoughWeights),
            Some(c) => {
                if len < c {
                    Some(GenerationError::NotEnoughWeights)
                } else if len > c {
                    Some(GenerationError::TooManyWeights)
                } else {
                    None
                }
            },
        };
        match misfit {
            Some(error) => {
                proof {
                    assert(first_misfit(children@, cells, i as int));
                    assert forall|k: int| #[trigger] first_misfit(children@, cells, k) implies k == i by {
                        if k < i {
                            assert(fits_brain(children@[k].genes().len(), cells));
                        } else if k > i {
                            assert(fits_brain(children@[i as int].genes().len(), cells));
                        }
                    }
                }
                return Err(error);
            },
            None => {},
        }
        i = i + 1;
    }
    let count = match count {
        Some(c) => c,
        None => {
            return Ok(Vec::new());
        },
    };
    proof {
        assert forall|k: int| !#[trigger] first_misfit(children@, cells, k) by {
            if 0 <= k < children@.len() {
                assert(fits_brain(children@[k].genes().len(), cells));
            }
        }
    }
    let mut animals: Vec<Animal<F>> = Vec::new();
    let mut k: usize = 0;
    while k < children.len()
        invariant
            k <= children@.len(),
            spots@.len() == children@.len(),
            cells <= usize::MAX / 2,
            count == param_count(brain_topology(cells as nat)),
            forall|j: int| 0 <= j < children@.len() ==> fits_brain((#[trigger] children@[j]).genes().len(), cells),
            animals@.len() == k,
            forall|j: int|
                0 <= j < k ==> grown_from_genes(
                    #[trigger] animals@[j],
                    children@[j].genes(),
                    cells,
                    spots@[j],
                    speed,
                    speed_accel,
                    rotation_accel,
                ),
        decreases children@.len() - k,
    {
        let genes = children[k].chromosome().to_genes();
        proof {
            assert(fits_brain(children@[k as int].genes().len(), cells));
        }
        let brain = Brain::from_chromosome(Chromosome::from_iter(genes), cells, speed_accel, rotation_accel);
        let (position, rotation) = spots[k];
        let animal = Animal::new(position, rotation, speed, brain);
        animals.push(animal);
        proof {
            assert(animals@[k as int] == animal);
        }
        k = k + 1;
    }
    Ok(animals)
}

/// A generation lasts `GENERATION_LENGTH + 1` steps: along a run of
/// simulations that starts a generation (age zero, as `process_generation`
/// leaves it) and where each one follows the one before by a call of
/// `preprocess_generation`, the `k`-th call reports the generation as over
/// exactly when `k > GENERATION_LENGTH`.
pub proof fn lemma_generation_length<F, S, C, M>(run: Seq<Simulation<F, S, C, M>>)
    requires
        run.len() >= 1,
        run[0].spec_age() == 0,
        forall|k: int|
            0 <= k < run.len() - 1 ==> (#[trigger] run[k + 1]).spec_age() == run[k].spec_age() + 1,
    ensures
        forall|k: int|
            1 <= k < run.len() ==> (generation_over((#[trigger] run[k]).spec_age()) <==> k > GENERATION_LENGTH),
{
    assert forall|k: int| 0 <= k < run.len() implies (#[trigger] run[k]).spec_age() == k by {
        lemma_age_along_run(run, k);
    }
}

proof fn lemma_age_along_run<F, S, C, M>(run: Seq<Simulation<F, S, C, M>>, k: int)
    requires
        0 <= k < run.len(),
        run[0].spec_age() == 0,
        forall|j: int|
            0 <= j < run.len() - 1 ==> (#[trigger] run[j + 1]).spec_age() == run[j].spec_age() + 1,
    ensures
        run[k].spec_age() == k,
    decreases k,
{
    if k > 0 {
        lemma_age_along_run(run, k - 1);
        assert(run[(k - 1) + 1].spec_age() == run[k - 1].spec_age() + 1);
    }
}

} // verus!
