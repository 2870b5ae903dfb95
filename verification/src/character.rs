//! Data-defined characters.
//!
//! A character definition arrives from an external property document
//! as plain values: sprite-sheet grid geometry, a list of named
//! animations and a list of collider shapes.  `get_model` turns one
//! definition into a spawnable `Model` template.

use crate::animation::AnimatedSprite;
use crate::animation::ClipView;
use crate::animation::has_clip;
use crate::geometry::MILLI_PER_UNIT;
use crate::geometry::Vec2;
use crate::geometry::geometry_vec_ok;
use crate::geometry::milli_mul;
use crate::model::GridLayout;
use crate::model::Model;
use crate::model::SpriteSheet;
use crate::physics::ColliderChild;
use vstd::prelude::*;

verus! {

/// The animation states a character can be in.
#[derive(Clone, Copy, Debug, Hash, PartialEq, Eq, Structural)]
pub enum CharacterAnimationState {
    /// On the ground, moving.
    Running,
    /// Airborne after a jump.
    Jumping,
    /// Crouched.
    Ducking,
}

impl Default for CharacterAnimationState {
    /// Characters start out running.
    fn default() -> (r: Self)
        ensures
            r == CharacterAnimationState::Running,
    {
        CharacterAnimationState::Running
    }
}

/// A capsule collision shape aligned with the vertical axis.
#[derive(Clone, Copy, Debug, PartialEq, Eq, Structural)]
pub struct CapsuleColliderY {
    /// Capsule radius, in thousandths of a unit.
    pub radius: i64,
    /// Half-height of the capsule's straight segment, in thousandths
    /// of a unit.
    pub height: i64,
}

/// The collision shapes a property document can describe, tagged by
/// shape kind.
#[derive(Clone, Copy, Debug, PartialEq, Eq, Structural)]
pub enum ColliderType {
    /// A vertical capsule.
    CapsuleY(CapsuleColliderY),
}

/// One collider of a character definition: a shape and its offset
/// from the character's origin.
#[derive(Clone, Copy, Debug, PartialEq, Eq, Structural)]
pub struct ColliderProperties {
    /// Shape of the collider.
    pub collider: ColliderType,
    /// Offset from the character's origin, in thousandths of a unit.
    pub translation: Vec2,
}

/// One animation of a character definition.
#[derive(Debug)]
pub struct AnimationProperties {
    /// Name under which the clip is registered.
    pub name: String,
    /// Sprite-sheet frame indices of the clip.
    pub indices: Vec<usize>,
    /// Duration of one frame, in milliseconds.
    pub speed_ms: u32,
}

/// The clip that registering an animation definition produces: at
/// cursor 0 with an idle timer, not yet looping.
pub open spec fn anim_template(a: AnimationProperties) -> ClipView {
    ClipView {
        name: a.name@,
        frames: a.indices@,
        cursor: 0,
        frame_ms: a.speed_ms as nat,
        elapsed_ms: 0,
        looped: false,
    }
}

/// One character definition from a property document.
#[derive(Debug)]
pub struct CharacterProperty {
    /// Name of the character.
    pub name: String,
    /// Path of the sprite-sheet texture asset.
    pub file_path: String,
    /// Size of one sprite-sheet tile, in thousandths of a unit.
    pub tile_size: Vec2,
    /// Number of tile rows in the sheet.
    pub rows: usize,
    /// Number of tile columns in the sheet.
    pub columns: usize,
    /// Padding between tiles, in thousandths of a unit.
    pub padding: Vec2,
    /// Offset into the sheet, counted in tiles (fixed point).
    pub offset_tiles: Vec2,
    /// Offset into the sheet, in thousandths of a unit.
    pub offset_fixed: Vec2,
    /// Whether the sprite is mirrored horizontally.
    pub flip_x: bool,
    /// The character's animations.
    pub animations: Vec<AnimationProperties>,
    /// The character's colliders.
    pub colliders: Vec<ColliderProperties>,
}

impl Default for CharacterProperty {
    /// A character definition with every field at its zero value, as
    /// used for fields absent from a property document.
    fn default() -> (r: Self)
        ensures
            r.name@ == Seq::<char>::empty(),
            r.file_path@ == Seq::<char>::empty(),
            r.tile_size == (Vec2 { x: 0, y: 0 }),
            r.rows == 0,
            r.columns == 0,
            r.padding == (Vec2 { x: 0, y: 0 }),
            r.offset_tiles == (Vec2 { x: 0, y: 0 }),
            r.offset_fixed == (Vec2 { x: 0, y: 0 }),
            !r.flip_x,
            r.animations@.len() == 0,
            r.colliders@.len() == 0,
    {
        CharacterProperty {
            name: String::new(),
            file_path: String::new(),
            tile_size: Vec2 { x: 0, y: 0 },
            rows: 0,
            columns: 0,
            padding: Vec2 { x: 0, y: 0 },
            offset_tiles: Vec2 { x: 0, y: 0 },
            offset_fixed: Vec2 { x: 0, y: 0 },
            flip_x: false,
            animations: Vec::new(),
            colliders: Vec::new(),
        }
    }
}

impl CharacterProperty {
    /// The sheet geometry values are in the range the layout
    /// arithmetic accepts.
    pub open spec fn geometry_ok(self) -> bool {
        &&& geometry_vec_ok(self.tile_size)
        &&& geometry_vec_ok(self.padding)
        &&& geometry_vec_ok(self.offset_tiles)
        &&& geometry_vec_ok(self.offset_fixed)
    }

    /// Every animation definition has at least one frame and a
    /// positive frame duration.
    pub open spec fn animations_wf(self) -> bool {
        forall|k: int|
            0 <= k < self.animations@.len() ==> (#[trigger] self.animations@[k]).indices@.len() > 0
                && self.animations@[k].speed_ms > 0
    }

    /// A definition that `get_model` accepts.
    pub open spec fn wf(self) -> bool {
        self.geometry_ok() && self.animations_wf()
    }

    /// Whether the definition carries an animation of this name.
    pub open spec fn has_animation_named(self, name: Seq<char>) -> bool {
        exists|k: int|
            0 <= k < self.animations@.len() && (#[trigger] self.animations@[k]).name@ == name
    }

    /// Checks a definition as loaded from a document; `get_model`
    /// accepts exactly the definitions this accepts.
    pub fn is_valid(&self) -> (b: bool)
        ensures
            b == self.wf(),
    {
        if !(0 <= self.tile_size.x && self.tile_size.x <= crate::geometry::MAX_GEOMETRY
            && 0 <= self.tile_size.y && self.tile_size.y <= crate::geometry::MAX_GEOMETRY
            && 0 <= self.padding.x && self.padding.x <= crate::geometry::MAX_GEOMETRY
            && 0 <= self.padding.y && self.padding.y <= crate::geometry::MAX_GEOMETRY
            && 0 <= self.offset_tiles.x && self.offset_tiles.x <= crate::geometry::MAX_GEOMETRY
            && 0 <= self.offset_tiles.y && self.offset_tiles.y <= crate::geometry::MAX_GEOMETRY
            && 0 <= self.offset_fixed.x && self.offset_fixed.x <= crate::geometry::MAX_GEOMETRY
            && 0 <= self.offset_fixed.y && self.offset_fixed.y <= crate::geometry::MAX_GEOMETRY) {
            return false;
        }
        let n = self.animations.len();
        let mut k: usize = 0;
        while k < n
            invariant
                n == self.animations@.len(),
                0 <= k <= n,
                self.geometry_ok(),
                forall|j: int|
                    0 <= j < k ==> (#[trigger] self.animations@[j]).indices@.len() > 0
                        && self.animations@[j].speed_ms > 0,
            decreases n - k,
        {
            if self.animations[k].indices.len() == 0 || self.animations[k].speed_ms == 0 {
                return false;
            }
            k += 1;
        }
        true
    }
}

/// A property document: an ordered list of character definitions.
#[derive(Debug)]
pub struct CharacterProperties {
    /// The characters the document defines.
    pub characters: Vec<CharacterProperty>,
}


/// How a model built by `get_model` relates to its character
/// definition: the sheet layout is carried over with the grid offset
/// computed from the tile offset, every animation definition is
/// registered as a clip, every clip comes from some animation
/// definition, the clip named "idle" (when defined) is playing and
/// looping, and the colliders are carried over in order.
pub open spec fn model_matches_character(m: Model, c: CharacterProperty) -> bool {
    &&& m.spritesheet.file_path@ == c.file_path@
    &&& m.spritesheet.flip_x == c.flip_x
    &&& m.spritesheet.atlas_index == 0
    &&& m.spritesheet.translation == (Vec2 { x: 0, y: 16000 })
    &&& m.spritesheet.layout.tile_size == c.tile_size
    &&& m.spritesheet.layout.columns == c.columns
    &&& m.spritesheet.layout.rows == c.rows
    &&& m.spritesheet.layout.padding == c.padding
    &&& m.spritesheet.layout.offset.x == c.offset_fixed.x + c.offset_tiles.x * c.tile_size.x / (
    MILLI_PER_UNIT as int)
    &&& m.spritesheet.layout.offset.y == c.offset_fixed.y + c.offset_tiles.y * c.tile_size.y / (
    MILLI_PER_UNIT as int)
    &&& forall|k: int|
        0 <= k < c.animations@.len() ==> has_clip(
            m.animation.animation_data@,
            (#[trigger] c.animations@[k]).name@,
        )
    &&& forall|j: int|
        0 <= j < m.animation.animation_data@.len() ==> exists|k: int|
            0 <= k < c.animations@.len() && (#[trigger] m.animation.animation_data@[j])@
                == anim_template(c.animations@[k])
    &&& (c.has_animation_named("idle"@) ==> m.animation.current_animation@.name == "idle"@
        && m.animation.current_animation@.cursor == 0
        && m.animation.current_animation@.elapsed_ms == 0 && m.animation.current_animation@.looped)
    &&& (c.has_animation_named("idle"@) ==> exists|k: int|
        0 <= k < c.animations@.len() && (#[trigger] c.animations@[k]).name@ == "idle"@
            && m.animation.current_animation@ == (ClipView {
            looped: true,
            ..anim_template(c.animations@[k])
        }))
    &&& (!c.has_animation_named("idle"@) ==> m.animation.current_animation@.frames.len() == 0)
    &&& m.colliders@.len() == c.colliders@.len()
    &&& forall|i: int|
        0 <= i < c.colliders@.len() ==> (#[trigger] m.colliders@[i]) == (ColliderChild {
            collider: c.colliders@[i].collider,
            transform: c.colliders@[i].translation,
        })
}

impl CharacterProperty {
    /// Builds the spawnable template this definition describes:
    /// computes the sheet's grid layout, registers every animation
    /// into a fresh animation component, queues the "idle" clip
    /// looping, and carries the colliders over.
    pub fn get_model(&self) -> (m: Model)
        requires
            self.wf(),
        ensures
            m.wf(),
            model_matches_character(m, *self),
    {
        let offset = Vec2 {
            x: self.offset_fixed.x + milli_mul(self.offset_tiles.x, self.tile_size.x),
            y: self.offset_fixed.y + milli_mul(self.offset_tiles.y, self.tile_size.y),
        };
        let layout = GridLayout {
            tile_size: self.tile_size,
            columns: self.columns,
            rows: self.rows,
            padding: self.padding,
            offset,
        };
        let mut animation = AnimatedSprite::default();
        let n = self.animations.len();
        let mut i: usize = 0;
        while i < n
            invariant
                self.wf(),
                n == self.animations@.len(),
                0 <= i <= n,
                animation.wf(),
                animation.current_animation@.frames.len() == 0,
                forall|k: int|
                    0 <= k < i ==> has_clip(
                        animation.animation_data@,
                        (#[trigger] self.animations@[k]).name@,
                    ),
                forall|j: int|
                    0 <= j < animation.animation_data@.len() ==> exists|k: int|
                        0 <= k < n && (#[trigger] animation.animation_data@[j])@ == anim_template(
                            self.animations@[k],
                        ),
            decreases n - i,
        {
            let a = &self.animations[i];
            let idx = a.indices.clone();
            proof {
                assert(idx@ =~= a.indices@);
            }
            let ghost prev = animation.animation_data@;
            animation.add_animation(a.name.as_str(), idx, a.speed_ms);
            proof {
                let ghost fin = animation.animation_data@;
                let ghost name_i = self.animations@[i as int].name@;
                assert(anim_template(self.animations@[i as int]) == (ClipView {
                    name: name_i,
                    frames: idx@,
                    cursor: 0,
                    frame_ms: self.animations@[i as int].speed_ms as nat,
                    elapsed_ms: 0,
                    looped: false,
                }));
                assert forall|k: int| 0 <= k < i + 1 implies has_clip(
                    fin,
                    (#[trigger] self.animations@[k]).name@,
                ) by {
                    let name_k = self.animations@[k].name@;
                    if k < i && name_k != name_i {
                        let t = choose|t: int|
                            0 <= t < prev.len() && (#[trigger] prev[t])@.name == name_k;
                        assert(prev[t]@.name != name_i);
                        let j0 = choose|j0: int|
                            0 <= j0 < fin.len() && (#[trigger] fin[j0])@ == prev[t]@;
                        assert(fin[j0]@.name == name_k);
                    }
                }
                assert forall|j: int| 0 <= j < fin.len() implies exists|k: int|
                    0 <= k < n && (#[trigger] fin[j])@ == anim_template(self.animations@[k]) by {
                    if fin[j]@.name == name_i {
                        assert(fin[j]@ == anim_template(self.animations@[i as int]));
                    } else {
                        let t = choose|t: int|
                            0 <= t < prev.len() && (#[trigger] prev[t])@ == fin[j]@;
                        assert(prev[t]@ == fin[j]@);
                    }
                }
            }
            i += 1;
        }
        let ghost clips = animation.animation_data@;
        proof {
            if has_clip(clips, "idle"@) {
                let j = choose|j: int| 0 <= j < clips.len() && (#[trigger] clips[j])@.name == "idle"@;
                let k = choose|k: int|
                    0 <= k < n && (#[trigger] clips[j])@ == anim_template(self.animations@[k]);
                assert(self.animations@[k].name@ == "idle"@);
                assert(self.has_animation_named("idle"@));
            }
            if self.has_animation_named("idle"@) {
                let k = choose|k: int|
                    0 <= k < self.animations@.len() && (#[trigger] self.animations@[k]).name@
                        == "idle"@;
                assert(has_clip(clips, self.animations@[k].name@));
            }
        }
        animation.queue_animation("idle", true, None);
        proof {
            if self.has_animation_named("idle"@) {
                let j = choose|j: int|
                    0 <= j < clips.len() && (#[trigger] clips[j])@.name == "idle"@
                        && animation.current_animation@ == (ClipView { looped: true, ..clips[j]@ });
                let k = choose|k: int|
                    0 <= k < n && (#[trigger] clips[j])@ == anim_template(self.animations@[k]);
                assert(self.animations@[k].name@ == "idle"@);
                assert(animation.current_animation@ == (ClipView {
                    looped: true,
                    ..anim_template(self.animations@[k])
                }));
            }
        }
        let mut colliders: Vec<ColliderChild> = Vec::new();
        let nc = self.colliders.len();
        let mut c: usize = 0;
        while c < nc
            invariant
                nc == self.colliders@.len(),
                0 <= c <= nc,
                colliders@.len() == c,
                forall|t: int|
                    0 <= t < c ==> (#[trigger] colliders@[t]) == (ColliderChild {
                        collider: self.colliders@[t].collider,
                        transform: self.colliders@[t].translation,
                    }),
            decreases nc - c,
        {
            colliders.push(
                ColliderChild {
                    collider: self.colliders[c].collider,
                    transform: self.colliders[c].translation,
                },
            );
            c += 1;
        }
        Model {
            spritesheet: SpriteSheet {
                file_path: self.file_path.clone(),
                layout,
                atlas_index: 0,
                flip_x: self.flip_x,
                translation: Vec2 { x: 0, y: 16000 },
            },
            animation,
            colliders,
        }
    }
}

} // verus!
