//! The player character's controller state and decisions.
//!
//! The physics collaborator answers the ground probe (a short
//! downward cast from the player's feet) and integrates velocities;
//! the decisions — whether the probe grounds the player and whether
//! a jump is allowed — are taken here on plain values.

use crate::geometry::Vec2;
use vstd::prelude::*;

verus! {

/// The vertical velocity a jump imparts, in thousandths of a unit
/// per second.
pub const JUMP_VELOCITY_MILLI: i64 = 300_000;

/// The player's controller state.
#[derive(Clone, Copy, Debug, PartialEq, Eq, Structural)]
pub struct Player {
    /// Whether the ground probe currently reports a walkable surface
    /// under the player's feet.
    pub is_grounded: bool,
}

impl Default for Player {
    /// A player that has not yet touched the ground.
    fn default() -> (r: Self)
        ensures
            !r.is_grounded,
    {
        Player { is_grounded: false }
    }
}

impl Player {
    /// Records the outcome of this tick's ground probe: the player
    /// is grounded exactly when the probe hit something.  The probe
    /// is re-run every tick and never cached.
    pub fn ground_check(&mut self, probe_hit: Option<u64>)
        ensures
            final(self).is_grounded == probe_hit.is_some(),
    {
        match probe_hit {
            Some(_) => {
                self.is_grounded = true;
            },
            None => {
                self.is_grounded = false;
            },
        }
    }

    /// Decides the jump: when the jump action was just pressed and
    /// the player stands on the ground, the result is the upward
    /// velocity to apply; otherwise the velocity is left alone.
    pub fn player_jump(&self, jump_just_pressed: bool) -> (v: Option<Vec2>)
        ensures
            v == if jump_just_pressed && self.is_grounded {
                Some(Vec2 { x: 0, y: JUMP_VELOCITY_MILLI })
            } else {
                None::<Vec2>
            },
    {
        if jump_just_pressed && self.is_grounded {
            Some(Vec2 { x: 0, y: JUMP_VELOCITY_MILLI })
        } else {
            None
        }
    }
}

} // verus!
