//! Core logic of a 2D side-scrolling action game, verified with Verus.
//!
//! The library models the pieces of the game that carry real logic:
//! the per-entity animation state machine, the data-defined character
//! models and their registry, the enemy spawn/despawn lifecycle, the
//! translation of collision events into game commands, and the two
//! top-level state machines that gate the simulation.
//!
//! Rendering, physics integration and input devices are external
//! collaborators: the library works on plain values (integer
//! milliseconds, fixed-point world coordinates) and leaves the engine
//! glue to an unverified driver.

pub mod animation;
pub mod character;
pub mod enemy;
pub mod geometry;
pub mod input;
pub mod model;
pub mod physics;
pub mod player;
pub mod state;
pub mod world;
