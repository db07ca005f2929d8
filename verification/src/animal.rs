use vstd::prelude::*;
use glam::{Quat, Vec3};

use crate::brain::Brain;
use crate::genetic_algorithm::Chromosome;
use crate::neural_network::network_params;

verus! {

/// A bird of the simulation: where it is, where it heads, how fast it goes,
/// what steers it, and how much it has eaten.
#[derive(Clone, Debug)]
pub struct Animal<F> {
    position: Vec3,
    rotation: Quat,
    speed: F,
    brain: Brain<F>,
    satiation: usize,
}

impl<F> Animal<F> {
    /// Where the animal is.
    pub closed spec fn spec_position(&self) -> Vec3 {
        self.position
    }

    /// Where the animal heads.
    pub closed spec fn spec_rotation(&self) -> Quat {
        self.rotation
    }

    /// How fast the animal goes.
    pub closed spec fn spec_speed(&self) -> F {
        self.speed
    }

    /// What steers the animal.
    pub closed spec fn spec_brain(&self) -> Brain<F> {
        self.brain
    }

    /// Number of foods eaten by this animal.
    pub closed spec fn spec_satiation(&self) -> nat {
        self.satiation as nat
    }
}

impl<F: Copy> Animal<F> {
    /// An animal that has eaten nothing yet, at `position`, heading as
    /// `rotation` says, going at `speed` and steered by `brain`.
    pub fn new(position: Vec3, rotation: Quat, speed: F, brain: Brain<F>) -> (animal: Self)
        ensures
            animal.spec_position() == position,
            animal.spec_rotation() == rotation,
            animal.spec_speed() == speed,
            animal.spec_brain() == brain,
            animal.spec_satiation() == 0,
    {
        Animal { position, rotation, speed, brain, satiation: 0 }
    }

    /// Where the animal is.
    pub fn position(&self) -> (position: Vec3)
        ensures
            position == self.spec_position(),
    {
        self.position
    }

    /// Moves the animal to `position`; nothing else changes.
    pub fn set_position(&mut self, position: Vec3)
        ensures
            final(self).spec_position() == position,
            final(self).spec_rotation() == old(self).spec_rotation(),
            final(self).spec_speed() == old(self).spec_speed(),
            final(self).spec_brain() == old(self).spec_brain(),
            final(self).spec_satiation() == old(self).spec_satiation(),
    {
        self.position = position;
    }

    /// Where the animal heads.
    pub fn rotation(&self) -> (rotation: Quat)
        ensures
            rotation == self.spec_rotation(),
    {
        self.rotation
    }

    /// Turns the animal to `rotation`; nothing else changes.
    pub fn set_rotation(&mut self, rotation: Quat)
        ensures
            final(self).spec_rotation() == rotation,
            final(self).spec_position() == old(self).spec_position(),
            final(self).spec_speed() == old(self).spec_speed(),
            final(self).spec_brain() == old(self).spec_brain(),
            final(self).spec_satiation() == old(self).spec_satiation(),
    {
        self.rotation = rotation;
    }

    /// How fast the animal goes.
    pub fn speed(&self) -> (speed: F)
        ensures
            speed == self.spec_speed(),
    {
        self.speed
    }

    /// Sets how fast the animal goes; nothing else changes.
    pub fn set_speed(&mut self, speed: F)
        ensures
            final(self).spec_speed() == speed,
            final(self).spec_position() == old(self).spec_position(),
            final(self).spec_rotation() == old(self).spec_rotation(),
            final(self).spec_brain() == old(self).spec_brain(),
            final(self).spec_satiation() == old(self).spec_satiation(),
    {
        self.speed = speed;
    }

    /// What steers the animal.
    pub fn brain(&self) -> (brain: &Brain<F>)
        ensures
            *brain == self.spec_brain(),
    {
        &self.brain
    }

    /// Number of foods eaten by this animal.
    pub fn satiation(&self) -> (satiation: usize)
        ensures
            satiation == self.spec_satiation(),
    {
        self.satiation
    }

    /// Counts one more food eaten; nothing else changes.
    pub fn eat_food(&mut self)
        requires
            old(self).spec_satiation() < usize::MAX,
        ensures
            final(self).spec_satiation() == old(self).spec_satiation() + 1,
            final(self).spec_position() == old(self).spec_position(),
            final(self).spec_rotation() == old(self).spec_rotation(),
            final(self).spec_speed() == old(self).spec_speed(),
            final(self).spec_brain() == old(self).spec_brain(),
    {
        self.satiation = self.satiation + 1;
    }

    /// The animal's brain as a chromosome for the genetic algorithm.
    pub fn as_chromosome(&self) -> (chromosome: Chromosome<F>)
        ensures
            chromosome@ == network_params(self.spec_brain().network()),
    {
        self.brain.as_chromosome()
    }
}

} // verus!
