//! Plain-value descriptions of the physics collaborators.
//!
//! The collision engine itself is an external collaborator; the
//! library only describes collider shapes, their attachment points
//! and the membership/filter bit groups handed to it.

use crate::character::ColliderType;
use crate::geometry::Vec2;
use vstd::prelude::*;

verus! {

/// A collider attached as a child of a spawned entity, localized by
/// an offset from the parent.
#[derive(Clone, Copy, Debug, PartialEq, Eq, Structural)]
pub struct ColliderChild {
    /// Shape of the collision volume.
    pub collider: ColliderType,
    /// Offset of the collider from its parent entity, in thousandths
    /// of a unit.
    pub transform: Vec2,
}

/// The collision groups used to filter which bodies interact.
#[derive(Clone, Copy, Debug, PartialEq, Eq, Structural)]
pub enum CollisionGroup {
    /// Ordinary world bodies.
    Common,
    /// The player's own body.
    Player,
    /// Enemy bodies.
    Enemy,
    /// Static walls and the ground.
    Wall,
    /// Projectiles.
    Spell,
    /// Pick-ups.
    Collectible,
    /// Every group at once.
    All,
    /// No group at all.
    NoGroup,
}

impl CollisionGroup {
    /// The bit assigned to each group in the engine's 32-bit group
    /// mask.
    pub open spec fn group_bits(self) -> u32 {
        match self {
            CollisionGroup::Common => 1u32,
            CollisionGroup::Player => 2u32,
            CollisionGroup::Enemy => 4u32,
            CollisionGroup::Wall => 8u32,
            CollisionGroup::Spell => 16u32,
            CollisionGroup::Collectible => 32u32,
            CollisionGroup::All => 0xffff_ffffu32,
            CollisionGroup::NoGroup => 0u32,
        }
    }

    /// The group's bit mask, as handed to the collision engine.
    pub fn group(&self) -> (g: u32)
        ensures
            g == self.group_bits(),
    {
        match self {
            CollisionGroup::Common => 1,
            CollisionGroup::Player => 2,
            CollisionGroup::Enemy => 4,
            CollisionGroup::Wall => 8,
            CollisionGroup::Spell => 16,
            CollisionGroup::Collectible => 32,
            CollisionGroup::All => 0xffff_ffff,
            CollisionGroup::NoGroup => 0,
        }
    }
}

} // verus!
