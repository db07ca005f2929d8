use vstd::seq::Seq;
use shorelark::{
    Chromosome, CrossoverMethod, GeneticAlgorithm, Individual, MutationMethod, SelectionMethod,
};

fn chromosome() -> Chromosome<f32> {
    Chromosome::from_iter(vec![3.0, 1.0, 2.0])
}

#[test]
fn len_test() {
    assert_eq!(chromosome().len(), 3);
}

#[test]
fn iter_test() {
    let chromosome = chromosome();
    let genes: Vec<_> = chromosome.iter().collect();

    assert_eq!(genes.len(), 3);
    assert_eq!(genes[0], &3.0);
    assert_eq!(genes[1], &1.0);
    assert_eq!(genes[2], &2.0);
}

#[test]
fn iter_mut_test() {
    let mut chromosome = chromosome();

    chromosome.iter_mut().iter_mut().for_each(|gene| {
        *gene *= 10.0;
    });

    let genes: Vec<_> = chromosome.iter().collect();

    assert_eq!(genes.len(), 3);
    assert_eq!(genes[0], &30.0);
    assert_eq!(genes[1], &10.0);
    assert_eq!(genes[2], &20.0);
}

#[test]
fn index_test() {
    let chromosome = Chromosome::from_iter(vec![3.0f32, 1.0, 2.0]);

    assert_eq!(*chromosome.index(0), 3.0);
    assert_eq!(*chromosome.index(1), 1.0);
    assert_eq!(*chromosome.index(2), 2.0);
}

#[test]
fn from_iterator_test() {
    let chromosome: Chromosome<f32> = Chromosome::from_iter(vec![3.0, 1.0, 2.0].into_iter().collect());

    assert_eq!(*chromosome.index(0), 3.0);
    assert_eq!(*chromosome.index(1), 1.0);
    assert_eq!(*chromosome.index(2), 2.0);
}

#[test]
fn into_iterator_test() {
    let chromosome = Chromosome::from_iter(vec![3.0f32, 1.0, 2.0]);

    let genes: Vec<_> = chromosome.into_iter().collect();

    assert_eq!(genes.len(), 3);
    assert_eq!(genes[0], 3.0);
    assert_eq!(genes[1], 1.0);
    assert_eq!(genes[2], 2.0);
}

#[test]
fn chromosome_round_trip() {
    let genes = vec![0.5f32, -1.25, 7.0, 0.0];
    assert_eq!(Chromosome::from_iter(genes.clone()).into_genes(), genes);
    assert_eq!(Chromosome::<u8>::from_iter(vec![]).len(), 0);
}

/// An individual whose fitness is the sum of its genes.
#[derive(Clone, Debug)]
struct Summed {
    chromosome: Chromosome<i32>,
}

impl Individual<i32> for Summed {
    type Fitness = i32;

    // The spec side of the trait exists for the verifier only; nothing calls
    // it at run time.
    fn genes(&self) -> Seq<i32> {
        unreachable!()
    }

    fn create(chromosome: Chromosome<i32>) -> Self {
        Summed { chromosome }
    }

    fn chromosome(&self) -> &Chromosome<i32> {
        &self.chromosome
    }

    fn fitness(&self) -> i32 {
        self.chromosome.iter().sum()
    }
}

/// Picks the fittest individual, counting its draws in the generator.
struct Fittest;

impl SelectionMethod<Summed, u32> for Fittest {
    fn select<'a>(&self, rng: &mut u32, population: &'a [Summed]) -> &'a Summed {
        *rng += 1;
        population.iter().max_by_key(|i| i.fitness()).unwrap()
    }
}

/// Takes the first gene of parent A, the rest from parent B.
struct Splice;

impl CrossoverMethod<i32, u32> for Splice {
    fn crossed(&self, _a: Seq<i32>, _b: Seq<i32>, _child: Seq<i32>) -> bool {
        unreachable!()
    }

    fn crossover(&self, rng: &mut u32, a: &Chromosome<i32>, b: &Chromosome<i32>) -> Chromosome<i32> {
        *rng += 1;
        let mut genes = vec![*a.index(0)];
        genes.extend(b.iter().skip(1));
        Chromosome::from_iter(genes)
    }
}

/// Adds one to every gene.
struct Bump;

impl MutationMethod<i32, u32> for Bump {
    fn mutated(&self, _before: Seq<i32>, _after: Seq<i32>) -> bool {
        unreachable!()
    }

    fn mutate(&self, rng: &mut u32, child: &mut Chromosome<i32>) {
        *rng += 1;
        for gene in child.iter_mut() {
            *gene += 1;
        }
    }
}

fn individual(genes: &[i32]) -> Summed {
    Summed::create(Chromosome::from_iter(genes.to_vec()))
}

#[test]
fn evolve_keeps_population_size() {
    let ga = GeneticAlgorithm::new(Fittest, Splice, Bump);
    let population = vec![individual(&[0, 0, 0]), individual(&[1, 2, 4]), individual(&[1, 1, 1])];
    let mut draws = 0u32;

    let next = ga.evolve(&mut draws, &population);

    assert_eq!(next.len(), population.len());
    assert_eq!(draws, 4 * 3);
    for child in &next {
        assert_eq!(child.chromosome().iter().copied().collect::<Vec<_>>(), vec![2, 3, 5]);
    }
}

#[test]
fn evolve_single_individual() {
    let ga = GeneticAlgorithm::new(Fittest, Splice, Bump);
    let population = vec![individual(&[5])];
    let mut draws = 0u32;

    let next = ga.evolve(&mut draws, &population);

    assert_eq!(next.len(), 1);
    assert_eq!(next[0].chromosome().clone().into_genes(), vec![6]);
}
