use vstd::prelude::*;

use crate::animal::Animal;
use crate::food::Food;

verus! {

/// The animals and the foods of the simulation.
pub struct World<F> {
    animals: Vec<Animal<F>>,
    foods: Vec<Food>,
}

impl<F> World<F> {
    /// The animals, in order.
    pub closed spec fn spec_animals(&self) -> Seq<Animal<F>> {
        self.animals@
    }

    /// The foods, in order.
    pub closed spec fn spec_foods(&self) -> Seq<Food> {
        self.foods@
    }

    /// A world of freshly drawn `animals` and `foods`.
    pub fn random(animals: Vec<Animal<F>>, foods: Vec<Food>) -> (world: Self)
        ensures
            world.spec_animals() == animals@,
            world.spec_foods() == foods@,
    {
        World { animals, foods }
    }

    /// The animals, in order.
    pub fn animals(&self) -> (animals: &[Animal<F>])
        ensures
            animals@ == self.spec_animals(),
    {
        self.animals.as_slice()
    }

    /// The foods, in order.
    pub fn foods(&self) -> (foods: &[Food])
        ensures
            foods@ == self.spec_foods(),
    {
        self.foods.as_slice()
    }

    /// Puts `animals` in place of the world's animals and moves food `i` to
    /// `food_positions[i]`, for each food.
    pub(crate) fn restart(&mut self, animals: Vec<Animal<F>>, food_positions: Vec<glam::Vec3>)
        requires
            food_positions@.len() == old(self).spec_foods().len(),
        ensures
            final(self).spec_animals() == animals@,
            final(self).spec_foods().len() == old(self).spec_foods().len(),
            forall|i: int|
                0 <= i < food_positions@.len() ==> (#[trigger] final(self).spec_foods()[i])@
                    == food_positions@[i],
    {
        let ghost new_animals = animals@;
        self.animals = animals;
        let n = self.foods.len();
        let mut i: usize = 0;
        while i < n
            invariant
                n == self.foods@.len(),
                self.animals@ == new_animals,
                n == food_positions@.len(),
                i <= n,
                forall|j: int| 0 <= j < i ==> (#[trigger] self.foods@[j])@ == food_positions@[j],
            decreases n - i,
        {
            let mut food = self.foods[i];
            food.re_random(food_positions[i]);
            self.foods.set(i, food);
            i = i + 1;
        }
    }
}

} // verus!
