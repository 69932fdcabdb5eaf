//! Seedable random source for combat rolls.
//!
//! Combat draws a uniform value per kill attempt. The generator is owned by
//! the game state and built from an explicit seed, so simulations can be
//! reproduced.

use vstd::prelude::*;

verus! {

#[verifier::external_type_specification]
#[verifier::external_body]
pub struct ExStdRng(rand::rngs::StdRng);

/// A seedable pseudo-random generator for the simulation's combat rolls.
#[derive(Debug)]
pub struct GameRng {
    inner: rand::rngs::StdRng,
}

impl GameRng {
    /// Relies on rand's `SeedableRng::seed_from_u64` for `StdRng`: builds a
    /// generator from a 64-bit seed. Nothing is assumed about the stream it
    /// produces.
    #[verifier::external_body]
    pub fn from_seed(seed: u64) -> (r: GameRng) {
        GameRng { inner: <rand::rngs::StdRng as rand::SeedableRng>::seed_from_u64(seed) }
    }

    /// Relies on rand's `Rng::gen_range`: a draw from the non-empty range
    /// `0..1000` is always strictly below 1000.
    #[verifier::external_body]
    pub fn roll_milli(&mut self) -> (r: u64)
        ensures
            r < 1000,
    {
        rand::Rng::gen_range(&mut self.inner, 0u64..1000u64)
    }
}

} // verus!
