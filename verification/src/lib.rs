//! Deterministic combat resolution for a lane-based autobattler: the battle
//! simulator with its event log, the execution-limit guard, and the seeded
//! weighted bag generator.

use vstd::prelude::*;

pub mod battle;
pub mod battle_laws;
pub mod limits;
pub mod rng;
pub mod state;
pub mod types;
pub mod units;

verus! {

} // verus!
