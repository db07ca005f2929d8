use vstd::prelude::*;
use glam::Vec3;

verus! {

/// A piece of food lying in the world.
#[derive(Clone, Copy, Debug)]
pub struct Food {
    position: Vec3,
}

impl View for Food {
    type V = Vec3;

    /// Where the food lies.
    closed spec fn view(&self) -> Vec3 {
        self.position
    }
}

impl Food {
    /// A copy of `food`, lying where it lies.
    pub fn new(food: &Food) -> (copy: Self)
        ensures
            copy@ == food@,
    {
        Food { position: food.position }
    }

    /// Food dropped at `position`, a spot drawn at random by the caller.
    pub fn random(position: Vec3) -> (food: Self)
        ensures
            food@ == position,
    {
        Food { position }
    }

    /// Moves the food to `position`, a fresh spot drawn at random by the caller.
    pub fn re_random(&mut self, position: Vec3)
        ensures
            final(self)@ == position,
    {
        self.position = position;
    }

    /// Where the food lies.
    pub fn position(&self) -> (position: Vec3)
        ensures
            position == self@,
    {
        self.position
    }
}

} // verus!
