//! Turn-based space-strategy simulation core.
//!
//! A galaxy of planets is advanced one discrete turn at a time: planetary
//! economies produce materials and capital, factions research technology,
//! ships travel and fight, and an AI policy layer plays some factions
//! automatically. All quantities that the game's formulas operate on are
//! fixed-point integers in thousandths ("milli" units), so every rule of the
//! simulation is stated and proved exactly.

pub mod combat;
pub mod diplomacy;
pub mod galaxy;
pub mod game_state;
pub mod num;
pub mod planet;
pub mod position;
pub mod race;
pub mod racebot;
pub mod rng;
pub mod ship;

pub use num::SCALE;
