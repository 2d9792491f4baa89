//! The immutable parameters of one level: the session seed and the level
//! index that drives difficulty scaling.

use vstd::prelude::*;

verus! {

/// Relies on rand::random: draws a value from the process's thread-local
/// generator. The result depends on that generator's hidden state, so
/// nothing is promised of it.
pub assume_specification<T>[ rand::random::<T> ]() -> (r: T)
    where
        rand::distributions::Standard: rand::distributions::Distribution<T>,
;

/// One level's parameters. The seed is fixed for a session; the index
/// increments only on an explicit advance to the next level.
#[derive(Clone, Copy, Debug, PartialEq, Eq, Structural)]
pub struct Level {
    pub seed: u64,
    pub level_index: u64,
}

impl Level {
    /// A level with the given parameters.
    pub fn new(seed: u64, level_index: u64) -> (r: Level)
        ensures
            r == (Level { seed, level_index }),
    {
        Level { seed, level_index }
    }

    /// A first level with a freshly drawn random seed.
    pub fn first_with_random_seed() -> (r: Level)
        ensures
            r.level_index == 0,
    {
        Level { seed: rand::random::<u64>(), level_index: 0 }
    }

    /// Moves to the next level.
    pub fn advance_level(&mut self)
        requires
            old(self).level_index < u64::MAX,
        ensures
            final(self).seed == old(self).seed,
            final(self).level_index == old(self).level_index + 1,
    {
        self.level_index = self.level_index + 1;
    }
}

} // verus!
