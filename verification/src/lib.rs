//! Core of a predator-and-flock simulation: sheep agents with timer-driven
//! minds, a pairwise collision resolver, a contagious bleat propagator, wolf
//! predators, and a difficulty director, all over fixed-point (integer)
//! plane coordinates so that every rule is stated and proved exactly.
//!
//! A simulation frame runs the per-tick systems in a fixed order against the
//! shared world: collision resolution, the sheep minds' think pass, movement
//! integration (flock, human override, edge newcomers), the bleat cooldowns
//! with their spontaneous and contagious triggers, each wolf's think-and-eat
//! then pursuit, and finally the director: the difficulty clock, the wolf
//! spawner, the sheep respawner and the human-control reassignment.

use vstd::prelude::*;

pub mod bleat;
pub mod collision;
pub mod mind;
mod rng;
pub mod timer;
pub mod vec2;
pub mod wolf;
pub mod world;

pub use timer::Timer;
pub use vec2::Vec2;

verus! {

} // verus!
