use vstd::prelude::*;
use vstd::std_specs::iter::IteratorSpec;

verus! {

/// The genes of one individual, in order.
#[derive(Clone, Debug)]
pub struct Chromosome<G> {
    genes: Vec<G>,
}

impl<G> View for Chromosome<G> {
    type V = Seq<G>;

    closed spec fn view(&self) -> Seq<G> {
        self.genes@
    }
}

impl<G> Chromosome<G> {
    /// Builds a chromosome whose genes are `genes`, in order.
    pub fn from_iter(genes: Vec<G>) -> (chromosome: Self)
        ensures
            chromosome@ == genes@,
    {
        Chromosome { genes }
    }

    /// Number of genes.
    pub fn len(&self) -> (n: usize)
        ensures
            n == self@.len(),
    {
        self.genes.len()
    }

    /// The genes, front to back.
    pub fn iter(&self) -> (it: std::slice::Iter<'_, G>)
        ensures
            it.remaining() == self@.map_values(|g: G| &g),
    {
        self.genes.iter()
    }

    /// The genes, front to back, for changing them in place.
    pub fn iter_mut(&mut self) -> (genes: &mut [G])
        ensures
            genes@ == old(self)@,
            final(self)@ == final(genes)@,
    {
        self.genes.as_mut_slice()
    }

    /// The gene at position `index`.
    pub fn index(&self, index: usize) -> (gene: &G)
        requires
            index < self@.len(),
        ensures
            *gene == self@[index as int],
    {
        &self.genes[index]
    }

    /// The genes, taken out of the chromosome.
    pub fn into_genes(self) -> (genes: Vec<G>)
        ensures
            genes@ == self@,
    {
        self.genes
    }

    /// Hands the genes out, front to back.
    pub fn into_iter(self) -> (it: std::vec::IntoIter<G>)
        ensures
            it.remaining() == self@,
    {
        self.genes.into_iter()
    }
}

impl<G: Copy> Chromosome<G> {
    /// A copy of the genes, front to back.
    pub fn to_genes(&self) -> (genes: Vec<G>)
        ensures
            genes@ == self@,
    {
        let mut genes: Vec<G> = Vec::new();
        let mut i: usize = 0;
        while i < self.genes.len()
            invariant
                i <= self.genes@.len(),
                genes@ == self.genes@.subrange(0, i as int),
            decreases self.genes@.len() - i,
        {
            genes.push(self.genes[i]);
            i = i + 1;
        }
        assert(self.genes@.subrange(0, i as int) =~= self.genes@);
        genes
    }
}

/// An individual of a population that the algorithm evolves, known to it
/// through its chromosome.
pub trait Individual<G>: Sized {
    /// What the individual's fitness is measured in.
    type Fitness;

    /// The genes of the individual's chromosome.
    spec fn genes(&self) -> Seq<G>;

    /// The individual that grows from `chromosome`.
    fn create(chromosome: Chromosome<G>) -> (individual: Self)
        ensures
            individual.genes() == chromosome@,
    ;

    /// The individual's chromosome.
    fn chromosome(&self) -> (chromosome: &Chromosome<G>)
        ensures
            chromosome@ == self.genes(),
    ;

    /// How fit the individual is.
    fn fitness(&self) -> Self::Fitness;
}

/// Picks a parent out of a non-empty population.
pub trait SelectionMethod<I, R> {
    /// Whether this method may draw `parent` out of `population` while it
    /// moves the random generator from state `before` to state `after`.
    closed spec fn selected(&self, before: R, population: Seq<I>, after: R, parent: I) -> bool {
        true
    }

    /// Picks one member of `population`.
    fn select<'a>(&self, rng: &mut R, population: &'a [I]) -> (parent: &'a I)
        requires
            population@.len() > 0,
        ensures
            population@.contains(*parent),
            self.selected(*old(rng), population@, *final(rng), *parent),
    ;
}

/// Mixes the chromosomes of two parents into a child's.
pub trait CrossoverMethod<G, R> {
    /// Whether this method may make a child with genes `child` out of
    /// parents with genes `parent_a` and `parent_b`.
    spec fn crossed(&self, parent_a: Seq<G>, parent_b: Seq<G>, child: Seq<G>) -> bool;

    /// Whether this method may make a child with genes `child` out of
    /// parents with genes `parent_a` and `parent_b` while it moves the random
    /// generator from state `before` to state `after`.
    closed spec fn crossed_at(
        &self,
        before: R,
        parent_a: Seq<G>,
        parent_b: Seq<G>,
        after: R,
        child: Seq<G>,
    ) -> bool {
        true
    }

    /// A child of `parent_a` and `parent_b`.
    fn crossover(&self, rng: &mut R, parent_a: &Chromosome<G>, parent_b: &Chromosome<G>) -> (child: Chromosome<G>)
        ensures
            self.crossed(parent_a@, parent_b@, child@),
            self.crossed_at(*old(rng), parent_a@, parent_b@, *final(rng), child@),
    ;
}

/// Changes a child's chromosome in place.
pub trait MutationMethod<G, R> {
    /// Whether this method may turn genes `before` into genes `after`.
    spec fn mutated(&self, before: Seq<G>, after: Seq<G>) -> bool;

    /// Whether this method may turn genes `genes` into genes `mutated` while
    /// it moves the random generator from state `before` to state `after`.
    closed spec fn mutated_at(&self, before: R, genes: Seq<G>, after: R, mutated: Seq<G>) -> bool {
        true
    }

    /// Mutates `child` in place.
    fn mutate(&self, rng: &mut R, child: &mut Chromosome<G>)
        ensures
            self.mutated(old(child)@, final(child)@),
            self.mutated_at(*old(rng), old(child)@, *final(rng), final(child)@),
    ;
}

/// A genetic algorithm made of a selection, a crossover and a mutation method.
pub struct GeneticAlgorithm<S, C, M> {
    selection_method: S,
    crossover_method: C,
    mutation_method: M,
}

impl<S, C, M> GeneticAlgorithm<S, C, M> {
    /// The selection method.
    pub closed spec fn selection(&self) -> S {
        self.selection_method
    }

    /// The crossover method.
    pub closed spec fn crossover(&self) -> C {
        self.crossover_method
    }

    /// The mutation method.
    pub closed spec fn mutation(&self) -> M {
        self.mutation_method
    }

    /// Puts the three methods together.
    pub fn new(selection_method: S, crossover_method: C, mutation_method: M) -> (ga: Self)
        ensures
            ga.selection() == selection_method,
            ga.crossover() == crossover_method,
            ga.mutation() == mutation_method,
    {
        GeneticAlgorithm { selection_method, crossover_method, mutation_method }
    }

    /// The genes of `child` are genes that this algorithm's mutation made out of
    /// what its crossover made of the genes of two members of `population`.
    pub open spec fn bred_from<I, G, R>(&self, population: Seq<I>, child: I) -> bool
        where
            I: Individual<G>,
            C: CrossoverMethod<G, R>,
            M: MutationMethod<G, R>,
    {
        exists|a: I, b: I, crossed: Seq<G>, mutated: Seq<G>|
            #![trigger population.contains(a), population.contains(b), self.crossover().crossed(a.genes(), b.genes(), crossed), self.mutation().mutated(crossed, mutated)]
            {
                &&& population.contains(a)
                &&& population.contains(b)
                &&& self.crossover().crossed(a.genes(), b.genes(), crossed)
                &&& self.mutation().mutated(crossed, mutated)
                &&& child.genes() == mutated
            }
    }

    /// One child bred in one round of `evolve`, starting from generator
    /// state `start`: the selection method draws `parents.0` (taking the
    /// generator to `steps.0`), then `parents.1` (to `steps.1`), both out of
    /// `population`; the crossover method makes `crossing` of their genes (to
    /// `steps.2`); the mutation method turns `crossing` into the genes of
    /// `child` (to `end`).
    pub open spec fn breeds_child<I, G, R>(
        &self,
        population: Seq<I>,
        start: R,
        steps: (R, R, R),
        parents: (I, I),
        crossing: Seq<G>,
        end: R,
        child: I,
    ) -> bool
        where
            I: Individual<G>,
            S: SelectionMethod<I, R>,
            C: CrossoverMethod<G, R>,
            M: MutationMethod<G, R>,
    {
        &&& population.contains(parents.0)
        &&& population.contains(parents.1)
        &&& self.selection().selected(start, population, steps.0, parents.0)
        &&& self.selection().selected(steps.0, population, steps.1, parents.1)
        &&& self.crossover().crossed(parents.0.genes(), parents.1.genes(), crossing)
        &&& self.crossover().crossed_at(steps.1, parents.0.genes(), parents.1.genes(), steps.2, crossing)
        &&& self.mutation().mutated(crossing, child.genes())
        &&& self.mutation().mutated_at(steps.2, crossing, end, child.genes())
    }

    /// `children` are bred one after another, in order, along the generator
    /// states `starts` (child `i` starts from `starts[i]` and leaves the
    /// generator at `starts[i + 1]`), from `before` to `after`.
    pub open spec fn bred_along<I, G, R>(
        &self,
        population: Seq<I>,
        before: R,
        after: R,
        children: Seq<I>,
        starts: Seq<R>,
        steps: Seq<(R, R, R)>,
        parents: Seq<(I, I)>,
        crossings: Seq<Seq<G>>,
    ) -> bool
        where
            I: Individual<G>,
            S: SelectionMethod<I, R>,
            C: CrossoverMethod<G, R>,
            M: MutationMethod<G, R>,
    {
        &&& starts.len() == children.len() + 1
        &&& steps.len() == children.len()
        &&& parents.len() == children.len()
        &&& crossings.len() == children.len()
        &&& starts[0] == before
        &&& starts[children.len() as int] == after
        &&& forall|i: int|
            #![trigger children[i]]
            0 <= i < children.len() ==> self.breeds_child::<I, G, R>(
                population,
                starts[i],
                steps[i],
                parents[i],
                crossings[i],
                starts[i + 1],
                children[i],
            )
    }

    /// `children` are what the algorithm breeds out of `population` while it
    /// takes the random generator from state `before` to state `after`: child
    /// `i` is the mutation of the crossover of the `2i`-th and `(2i+1)`-th
    /// parents the selection method draws, in that order.
    pub open spec fn breeds<I, G, R>(&self, population: Seq<I>, before: R, after: R, children: Seq<I>) -> bool
        where
            I: Individual<G>,
            S: SelectionMethod<I, R>,
            C: CrossoverMethod<G, R>,
            M: MutationMethod<G, R>,
    {
        exists|starts: Seq<R>, steps: Seq<(R, R, R)>, parents: Seq<(I, I)>, crossings: Seq<Seq<G>>|
            #[trigger] self.bred_along::<I, G, R>(
                population,
                before,
                after,
                children,
                starts,
                steps,
                parents,
                crossings,
            )
    }

    /// Each of the three methods is pinned by the random generator: from a
    /// given generator state (and given inputs) it has a single outcome, and
    /// leaves the generator in a single state.
    pub open spec fn pinned_by_generator<I, G, R>(&self, population: Seq<I>) -> bool
        where
            I: Individual<G>,
            S: SelectionMethod<I, R>,
            C: CrossoverMethod<G, R>,
            M: MutationMethod<G, R>,
    {
        &&& forall|r: R, r1: R, x: I, r2: R, y: I|
            #[trigger] self.selection().selected(r, population, r1, x) && #[trigger] self.selection().selected(
                r,
                population,
                r2,
                y,
            ) ==> r1 == r2 && x == y
        &&& forall|r: R, a: Seq<G>, b: Seq<G>, r1: R, x: Seq<G>, r2: R, y: Seq<G>|
            #[trigger] self.crossover().crossed_at(r, a, b, r1, x) && #[trigger] self.crossover().crossed_at(
                r,
                a,
                b,
                r2,
                y,
            ) ==> r1 == r2 && x == y
        &&& forall|r: R, g: Seq<G>, r1: R, x: Seq<G>, r2: R, y: Seq<G>|
            #[trigger] self.mutation().mutated_at(r, g, r1, x) && #[trigger] self.mutation().mutated_at(
                r,
                g,
                r2,
                y,
            ) ==> r1 == r2 && x == y
    }

    /// Breeds the next generation: as many children as `population` holds,
    /// each grown from the crossover of two selected parents' chromosomes,
    /// then mutated.
    pub fn evolve<I, G, R>(&self, rng: &mut R, population: &[I]) -> (next: Vec<I>)
        where
            I: Individual<G>,
            S: SelectionMethod<I, R>,
            C: CrossoverMethod<G, R>,
            M: MutationMethod<G, R>,
        requires
            population@.len() > 0,
        ensures
            next@.len() == population@.len(),
            forall|i: int| 0 <= i < next@.len() ==> self.bred_from::<I, G, R>(population@, #[trigger] next@[i]),
            self.breeds::<I, G, R>(population@, *old(rng), *final(rng), next@),
    {
        let n = population.len();
        let mut next: Vec<I> = Vec::new();
        let mut k: usize = 0;
        let ghost mut starts: Seq<R> = seq![*rng];
        let ghost mut steps: Seq<(R, R, R)> = Seq::empty();
        let ghost mut parents: Seq<(I, I)> = Seq::empty();
        let ghost mut crossings: Seq<Seq<G>> = Seq::empty();
        while k < n
            invariant
                n == population@.len(),
                n > 0,
                k <= n,
                next@.len() == k,
                forall|i: int| 0 <= i < k ==> self.bred_from::<I, G, R>(population@, #[trigger] next@[i]),
                self.bred_along::<I, G, R>(
                    population@,
                    *old(rng),
                    *rng,
                    next@,
                    starts,
                    steps,
                    parents,
                    crossings,
                ),
            decreases n - k,
        {
            let ghost r0 = *rng;
            let a = self.selection_method.select(rng, population);
            let ghost r1 = *rng;
            let b = self.selection_method.select(rng, population);
            let ghost r2 = *rng;
            let parent_a = a.chromosome();
            let parent_b = b.chromosome();
            let mut child = self.crossover_method.crossover(rng, parent_a, parent_b);
            let ghost crossed = child@;
            let ghost r3 = *rng;
            self.mutation_method.mutate(rng, &mut child);
            let ghost mutated = child@;
            let grown = I::create(child);
            proof {
                assert(self.bred_from::<I, G, R>(population@, grown)) by {
                    assert(population@.contains(*a));
                    assert(population@.contains(*b));
                    assert(self.crossover().crossed(a.genes(), b.genes(), crossed));
                    assert(self.mutation().mutated(crossed, mutated));
                }
                assert(self.breeds_child::<I, G, R>(
                    population@,
                    r0,
                    (r1, r2, r3),
                    (*a, *b),
                    crossed,
                    *rng,
                    grown,
                ));
                let old_next = next@;
                let old_starts = starts;
                let old_steps = steps;
                let old_parents = parents;
                let old_crossings = crossings;
                starts = starts.push(*rng);
                steps = steps.push((r1, r2, r3));
                parents = parents.push((*a, *b));
                crossings = crossings.push(crossed);
                let new_next = old_next.push(grown);
                assert forall|i: int| #![trigger new_next[i]] 0 <= i < new_next.len() implies self.breeds_child::<I, G, R>(
                    population@,
                    starts[i],
                    steps[i],
                    parents[i],
                    crossings[i],
                    starts[i + 1],
                    new_next[i],
                ) by {
                    if i < old_next.len() {
                        assert(new_next[i] == old_next[i]);
                        assert(starts[i] == old_starts[i]);
                        assert(starts[i + 1] == old_starts[i + 1]);
                        assert(steps[i] == old_steps[i]);
                        assert(parents[i] == old_parents[i]);
                        assert(crossings[i] == old_crossings[i]);
                    }
                }
            }
            next.push(grown);
            k = k + 1;
        }
        proof {
            assert(self.bred_along::<I, G, R>(population@, *old(rng), *rng, next@, starts, steps, parents, crossings));
        }
        next
    }
}

proof fn lemma_bred_along_pinned<S, C, M, I, G, R>(
    ga: GeneticAlgorithm<S, C, M>,
    population: Seq<I>,
    before: R,
    after1: R,
    children1: Seq<I>,
    starts1: Seq<R>,
    steps1: Seq<(R, R, R)>,
    parents1: Seq<(I, I)>,
    crossings1: Seq<Seq<G>>,
    after2: R,
    children2: Seq<I>,
    starts2: Seq<R>,
    steps2: Seq<(R, R, R)>,
    parents2: Seq<(I, I)>,
    crossings2: Seq<Seq<G>>,
    k: int,
)
    where
        I: Individual<G>,
        S: SelectionMethod<I, R>,
        C: CrossoverMethod<G, R>,
        M: MutationMethod<G, R>,
    requires
        ga.pinned_by_generator::<I, G, R>(population),
        ga.bred_along::<I, G, R>(population, before, after1, children1, starts1, steps1, parents1, crossings1),
        ga.bred_along::<I, G, R>(population, before, after2, children2, starts2, steps2, parents2, crossings2),
        children1.len() == children2.len(),
        0 <= k <= children1.len(),
    ensures
        starts1[k] == starts2[k],
        forall|j: int| 0 <= j < k ==> (#[trigger] children1[j]).genes() == children2[j].genes(),
    decreases k,
{
    if k > 0 {
        lemma_bred_along_pinned(
            ga, population, before, after1, children1, starts1, steps1, parents1, crossings1,
            after2, children2, starts2, steps2, parents2, crossings2, k - 1,
        );
        let j = k - 1;
        assert(ga.breeds_child::<I, G, R>(population, starts1[j], steps1[j], parents1[j], crossings1[j], starts1[j + 1], children1[j]));
        assert(ga.breeds_child::<I, G, R>(population, starts2[j], steps2[j], parents2[j], crossings2[j], starts2[j + 1], children2[j]));
        assert(steps1[j].0 == steps2[j].0 && parents1[j].0 == parents2[j].0);
        assert(steps1[j].1 == steps2[j].1 && parents1[j].1 == parents2[j].1);
        assert(steps1[j].2 == steps2[j].2 && crossings1[j] == crossings2[j]);
        assert(starts1[k] == starts2[k] && children1[j].genes() == children2[j].genes());
    }
}

/// Breeding is pinned by the random generator: where the selection,
/// crossover and mutation methods each have a single outcome from a given
/// generator state, two breedings of `population` from the same generator
/// state with as many children give children with the same genes, in order,
/// and leave the generator in the same state. Each child therefore comes from
/// the draws made for it, in order, and not from any other two members.
pub proof fn lemma_breeding_pinned_by_generator<S, C, M, I, G, R>(
    ga: GeneticAlgorithm<S, C, M>,
    population: Seq<I>,
    before: R,
    after1: R,
    children1: Seq<I>,
    after2: R,
    children2: Seq<I>,
)
    where
        I: Individual<G>,
        S: SelectionMethod<I, R>,
        C: CrossoverMethod<G, R>,
        M: MutationMethod<G, R>,
    requires
        ga.pinned_by_generator::<I, G, R>(population),
        ga.breeds::<I, G, R>(population, before, after1, children1),
        ga.breeds::<I, G, R>(population, before, after2, children2),
        children1.len() == children2.len(),
    ensures
        after1 == after2,
        forall|k: int| 0 <= k < children1.len() ==> (#[trigger] children1[k]).genes() == children2[k].genes(),
{
    let (starts1, steps1, parents1, crossings1) = choose|
        starts: Seq<R>,
        steps: Seq<(R, R, R)>,
        parents: Seq<(I, I)>,
        crossings: Seq<Seq<G>>,
    | ga.bred_along::<I, G, R>(population, before, after1, children1, starts, steps, parents, crossings);
    let (starts2, steps2, parents2, crossings2) = choose|
        starts: Seq<R>,
        steps: Seq<(R, R, R)>,
        parents: Seq<(I, I)>,
        crossings: Seq<Seq<G>>,
    | ga.bred_along::<I, G, R>(population, before, after2, children2, starts, steps, parents, crossings);
    lemma_bred_along_pinned(
        ga, population, before, after1, children1, starts1, steps1, parents1, crossings1,
        after2, children2, starts2, steps2, parents2, crossings2, children1.len() as int,
    );
}

} // verus!
