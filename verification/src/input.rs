//! The named player actions that the input layer can report.

use vstd::prelude::*;

verus! {

/// An action the player can trigger, independent of which device or
/// key produced it.
#[derive(Clone, Copy, Debug, Hash, PartialEq, Eq, Structural)]
pub enum PlayerAction {
    /// Jump off the ground.
    Jump,
    /// Crouch.
    Duck,
    /// Pause or resume the running game.
    Pause,
    /// Toggle the collision-shape debug overlay.
    DebugRenderer,
}

} // verus!
