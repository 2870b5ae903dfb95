//! The live entity tables of one simulation.
//!
//! A `SimulationWorld` owns every live game object as plain records
//! in typed tables: one row per entity (identifier, tag, position),
//! one row per animation component, and one row per collider child
//! with an explicit back-reference to its owning entity.  Entity
//! identifiers grow monotonically and are never reused, so a stale
//! identifier can never alias a live object.

use crate::animation::AnimatedSprite;
use crate::animation::same_clips;
use crate::model::Model;
use crate::physics::ColliderChild;
use vstd::pervasive::VecAdditionalExecFns;
use vstd::prelude::*;

verus! {

/// Where the despawn sensor sits, in thousandths of a unit: well off
/// the left edge of the visible world.
pub const DESPAWN_SENSOR_X: i64 = -500_000;

/// What role a live entity plays.
#[derive(Clone, Copy, Debug, PartialEq, Eq, Structural)]
pub enum EntityTag {
    /// The player character.
    Player,
    /// A scrolling enemy.
    Enemy,
    /// The off-screen sensor that despawns what crosses it.
    Despawner,
    /// The static ground body.
    Ground,
}

/// One live entity: its identifier, role and position.
#[derive(Clone, Copy, Debug, PartialEq, Eq, Structural)]
pub struct EntityRecord {
    /// Identifier, unique for the lifetime of the world.
    pub id: u64,
    /// Role of the entity.
    pub tag: EntityTag,
    /// Horizontal position, in thousandths of a unit.
    pub x: i64,
    /// Vertical position, in thousandths of a unit.
    pub y: i64,
}

/// The animation component of one live entity.
#[derive(Debug)]
pub struct AnimationSlot {
    /// Identifier of the owning entity.
    pub id: u64,
    /// The entity's own animation state.
    pub sprite: AnimatedSprite,
}

/// One live collider child, tied to its owner by identifier.
#[derive(Clone, Copy, Debug, PartialEq, Eq, Structural)]
pub struct ColliderInstance {
    /// Identifier of the collider child itself.
    pub id: u64,
    /// Identifier of the entity that owns the collider; the owner
    /// and its colliders are despawned together.
    pub owner: u64,
    /// Shape and local offset of the collider.
    pub shape: ColliderChild,
}

/// The live entity set of one simulation run.
#[derive(Debug)]
pub struct SimulationWorld {
    next_id: u64,
    entities: Vec<EntityRecord>,
    animations: Vec<AnimationSlot>,
    colliders: Vec<ColliderInstance>,
}

impl SimulationWorld {
    /// The live entities, abstractly.
    pub closed spec fn entities(self) -> Seq<EntityRecord> {
        self.entities@
    }

    /// The live animation components, abstractly.
    pub closed spec fn animations(self) -> Seq<AnimationSlot> {
        self.animations@
    }

    /// The live collider children, abstractly.
    pub closed spec fn colliders(self) -> Seq<ColliderInstance> {
        self.colliders@
    }

    /// The next identifier to hand out.
    pub closed spec fn next_id(self) -> u64 {
        self.next_id
    }

    /// Whether an entity with this identifier is live.
    pub open spec fn has_entity(self, id: u64) -> bool {
        exists|i: int| 0 <= i < self.entities().len() && (#[trigger] self.entities()[i]).id == id
    }

    /// Whether a live entity with this identifier carries this tag.
    pub open spec fn entity_tagged(self, id: u64, tag: EntityTag) -> bool {
        exists|i: int|
            0 <= i < self.entities().len() && (#[trigger] self.entities()[i]).id == id
                && self.entities()[i].tag == tag
    }

    /// Whether a live collider child with this identifier belongs to
    /// this owner.
    pub open spec fn child_of(self, child: u64, owner: u64) -> bool {
        exists|k: int|
            0 <= k < self.colliders().len() && (#[trigger] self.colliders()[k]).id == child
                && self.colliders()[k].owner == owner
    }

    /// Structural invariant: identifiers are unique within and
    /// across the entity and collider tables, everything is below
    /// the allocation counter, and the animation components are well
    /// formed.
    pub open spec fn wf(self) -> bool {
        &&& forall|i: int, j: int|
            0 <= i < j < self.entities().len() ==> (#[trigger] self.entities()[i]).id
                != (#[trigger] self.entities()[j]).id
        &&& forall|i: int, j: int|
            0 <= i < j < self.colliders().len() ==> (#[trigger] self.colliders()[i]).id
                != (#[trigger] self.colliders()[j]).id
        &&& forall|i: int, j: int|
            0 <= i < j < self.animations().len() ==> (#[trigger] self.animations()[i]).id
                != (#[trigger] self.animations()[j]).id
        &&& forall|i: int, k: int|
            0 <= i < self.entities().len() && 0 <= k < self.colliders().len() ==> (
            #[trigger] self.entities()[i]).id != (#[trigger] self.colliders()[k]).id
        &&& forall|i: int|
            0 <= i < self.entities().len() ==> (#[trigger] self.entities()[i]).id
                < self.next_id()
        &&& forall|k: int|
            0 <= k < self.colliders().len() ==> (#[trigger] self.colliders()[k]).id
                < self.next_id() && self.colliders()[k].owner < self.next_id()
        &&& forall|k: int|
            0 <= k < self.animations().len() ==> (#[trigger] self.animations()[k]).id
                < self.next_id()
        &&& forall|k: int|
            0 <= k < self.animations().len() ==> (#[trigger] self.animations()[k]).sprite.wf()
    }

    /// An empty world.
    pub fn new() -> (w: SimulationWorld)
        ensures
            w.wf(),
            w.entities().len() == 0,
            w.animations().len() == 0,
            w.colliders().len() == 0,
            w.next_id() == 0,
    {
        SimulationWorld {
            next_id: 0,
            entities: Vec::new(),
            animations: Vec::new(),
            colliders: Vec::new(),
        }
    }

    /// One scroll step: every enemy moves 100 thousandths of a unit
    /// per millisecond towards the left edge; everything else stays
    /// where it is.
    pub fn update_world(&mut self, delta_ms: u32)
        requires
            old(self).wf(),
        ensures
            final(self).wf(),
            final(self).animations() == old(self).animations(),
            final(self).colliders() == old(self).colliders(),
            final(self).next_id() == old(self).next_id(),
            final(self).entities().len() == old(self).entities().len(),
            forall|i: int|
                0 <= i < old(self).entities().len() ==> final(self).entities()[i] == (if (
                #[trigger] old(self).entities()[i]).tag == EntityTag::Enemy {
                    (EntityRecord {
                        x: scrolled_x(old(self).entities()[i].x as int, delta_ms as nat) as i64,
                        ..old(self).entities()[i]
                    })
                } else {
                    old(self).entities()[i]
                }),
    {
        let d: i64 = 100 * (delta_ms as i64);
        let n = self.entities.len();
        let mut i: usize = 0;
        while i < n
            invariant
                old(self).wf(),
                n == self.entities@.len(),
                n == old(self).entities().len(),
                0 <= i <= n,
                d == 100 * (delta_ms as int),
                self.animations() == old(self).animations(),
                self.colliders() == old(self).colliders(),
                self.next_id() == old(self).next_id(),
                forall|t: int|
                    i <= t < n ==> self.entities()[t] == old(self).entities()[t],
                forall|t: int|
                    0 <= t < i ==> self.entities()[t] == (if (#[trigger] old(self).entities()[t]).tag == EntityTag::Enemy {
                        (EntityRecord {
                            x: scrolled_x(old(self).entities()[t].x as int, delta_ms as nat)
                                as i64,
                            ..old(self).entities()[t]
                        })
                    } else {
                        old(self).entities()[t]
                    }),
            decreases n - i,
        {
            let e = self.entities[i];
            if e.tag == EntityTag::Enemy {
                let nx: i64 = if e.x >= i64::MIN + d {
                    e.x - d
                } else {
                    i64::MIN
                };
                self.entities.set(i, EntityRecord { x: nx, ..e });
            }
            i += 1;
        }
        proof {
            lemma_wf_same_ids(*old(self), *self);
        }
    }

    /// One animation step: every live entity's active clip advances
    /// by `delta_ms` milliseconds, independently of the others.
    pub fn update_animations(&mut self, delta_ms: u32)
        requires
            old(self).wf(),
        ensures
            final(self).wf(),
            final(self).entities() == old(self).entities(),
            final(self).colliders() == old(self).colliders(),
            final(self).next_id() == old(self).next_id(),
            final(self).animations().len() == old(self).animations().len(),
            forall|k: int|
                0 <= k < old(self).animations().len() ==> (#[trigger] final(self).animations()[k]).id == old(self).animations()[k].id && final(self).animations()[k].sprite.animation_data == old(self).animations()[k].sprite.animation_data && final(self).animations()[k].sprite.current_animation@ == crate::animation::ticked_clip(
                    old(self).animations()[k].sprite.current_animation@,
                    delta_ms as nat,
                ),
    {
        let n = self.animations.len();
        let mut i: usize = 0;
        while i < n
            invariant
                old(self).wf(),
                n == self.animations@.len(),
                n == old(self).animations().len(),
                0 <= i <= n,
                self.entities() == old(self).entities(),
                self.colliders() == old(self).colliders(),
                self.next_id() == old(self).next_id(),
                forall|t: int|
                    i <= t < n ==> self.animations()[t] == old(self).animations()[t],
                forall|t: int|
                    0 <= t < i ==> (#[trigger] self.animations()[t]).id == old(self).animations()[t].id && self.animations()[t].sprite.animation_data == old(self).animations()[t].sprite.animation_data
                        && self.animations()[t].sprite.current_animation@
                        == crate::animation::ticked_clip(
                        old(self).animations()[t].sprite.current_animation@,
                        delta_ms as nat,
                    ) && self.animations()[t].sprite.wf(),
            decreases n - i,
        {
            let mut tmp = AnimationSlot { id: 0, sprite: AnimatedSprite::default() };
            self.animations.set_and_swap(i, &mut tmp);
            proof {
                assert(old(self).animations()[i as int].sprite.wf());
            }
            let _ = tmp.sprite.update(delta_ms);
            self.animations.set_and_swap(i, &mut tmp);
            i += 1;
        }
        proof {
            lemma_wf_same_ids(*old(self), *self);
        }
    }

    /// Removes the entity row with this identifier, if any; the
    /// other tables are untouched.
    fn remove_entity_row(&mut self, id: u64) -> (found: bool)
        requires
            old(self).wf(),
        ensures
            final(self).colliders() == old(self).colliders(),
            final(self).animations() == old(self).animations(),
            final(self).next_id() == old(self).next_id(),
            found == old(self).has_entity(id),
            final(self).entities().len() == old(self).entities().len() - (if found {
                1int
            } else {
                0
            }),
            forall|i: int|
                0 <= i < final(self).entities().len() ==> (#[trigger] final(self).entities()[i]).id
                    != id && record_in(final(self).entities()[i], old(self).entities()),
            forall|j: int|
                0 <= j < old(self).entities().len() && (#[trigger] old(self).entities()[j]).id
                    != id ==> record_in(old(self).entities()[j], final(self).entities()),
            forall|a: int, b: int|
                0 <= a < b < final(self).entities().len() ==> (#[trigger] final(self).entities()[a]).id != (#[trigger] final(self).entities()[b]).id,
    {
        let ghost oe = old(self).entities();
        let n = self.entities.len();
        let mut i: usize = 0;
        let mut found: bool = false;
        while i < n && !found
            invariant
                old(self).wf(),
                *self == *old(self),
                oe == old(self).entities(),
                n == self.entities@.len(),
                0 <= i <= n,
                !found ==> forall|t: int| 0 <= t < i ==> (#[trigger] oe[t]).id != id,
                found ==> i < n && oe[i as int].id == id,
            decreases n - i + (if found {
                0int
            } else {
                1
            }),
        {
            if self.entities[i].id == id {
                found = true;
            } else {
                i += 1;
            }
        }
        if found {
            let _removed = self.entities.remove(i);
            proof {
                let ghost fe = self.entities();
                assert(fe == oe.remove(i as int));
                assert(oe[i as int].id == id);
                assert(old(self).has_entity(id));
                lemma_entities_remove_distinct(oe, i as int);
                assert forall|t: int| 0 <= t < fe.len() implies (#[trigger] fe[t]).id != id
                    && record_in(fe[t], oe) by {
                    if t < i {
                        assert(oe[t] == fe[t]);
                        assert(oe[t].id != oe[i as int].id);
                    } else {
                        assert(oe[t + 1] == fe[t]);
                        assert(oe[t + 1].id != oe[i as int].id);
                    }
                }
                assert forall|j: int|
                    0 <= j < oe.len() && (#[trigger] oe[j]).id != id implies record_in(
                    oe[j],
                    fe,
                ) by {
                    if j < i {
                        assert(fe[j] == oe[j]);
                    } else {
                        assert(j != i);
                        assert(fe[j - 1] == oe[j]);
                    }
                }
            }
        } else {
            proof {
                assert(!old(self).has_entity(id));
                assert forall|t: int| 0 <= t < self.entities().len() implies (
                #[trigger] self.entities()[t]).id != id && record_in(self.entities()[t], oe) by {
                    assert(oe[t] == self.entities()[t]);
                }
                assert forall|j: int|
                    0 <= j < oe.len() && (#[trigger] oe[j]).id != id implies record_in(
                    oe[j],
                    self.entities(),
                ) by {
                    assert(self.entities()[j] == oe[j]);
                }
            }
        }
        found
    }

    /// Removes the animation row with this identifier, if any; the
    /// other tables are untouched.
    fn remove_animation_row(&mut self, id: u64)
        requires
            old(self).wf(),
        ensures
            final(self).colliders() == old(self).colliders(),
            final(self).entities() == old(self).entities(),
            final(self).next_id() == old(self).next_id(),
            forall|k: int|
                0 <= k < final(self).animations().len() ==> (#[trigger] final(self).animations()[k]).id != id && slot_in(
                    final(self).animations()[k],
                    old(self).animations(),
                ),
            forall|t: int|
                0 <= t < old(self).animations().len() && (#[trigger] old(self).animations()[t]).id
                    != id ==> slot_in(old(self).animations()[t], final(self).animations()),
            forall|a: int, b: int|
                0 <= a < b < final(self).animations().len() ==> (#[trigger] final(self).animations()[a]).id != (#[trigger] final(self).animations()[b]).id,
    {
        let ghost oa = old(self).animations();
        let na = self.animations.len();
        let mut ai: usize = 0;
        let mut afound: bool = false;
        while ai < na && !afound
            invariant
                old(self).wf(),
                *self == *old(self),
                oa == old(self).animations(),
                na == self.animations@.len(),
                0 <= ai <= na,
                !afound ==> forall|t: int| 0 <= t < ai ==> (#[trigger] oa[t]).id != id,
                afound ==> ai < na && oa[ai as int].id == id,
            decreases na - ai + (if afound {
                0int
            } else {
                1
            }),
        {
            if self.animations[ai].id == id {
                afound = true;
            } else {
                ai += 1;
            }
        }
        if afound {
            let _removed_slot = self.animations.remove(ai);
            proof {
                let ghost fa = self.animations();
                assert(fa == oa.remove(ai as int));
                lemma_slots_remove_distinct(oa, ai as int);
                assert forall|t: int| 0 <= t < fa.len() implies (#[trigger] fa[t]).id != id
                    && slot_in(fa[t], oa) by {
                    if t < ai {
                        assert(oa[t] == fa[t]);
                        assert(oa[t].id != oa[ai as int].id);
                    } else {
                        assert(oa[t + 1] == fa[t]);
                        assert(oa[t + 1].id != oa[ai as int].id);
                    }
                }
                assert forall|j: int|
                    0 <= j < oa.len() && (#[trigger] oa[j]).id != id implies slot_in(
                    oa[j],
                    fa,
                ) by {
                    if j < ai {
                        assert(fa[j] == oa[j]);
                    } else {
                        assert(j != ai);
                        assert(fa[j - 1] == oa[j]);
                    }
                }
            }
        } else {
            proof {
                assert forall|t: int| 0 <= t < self.animations().len() implies (
                #[trigger] self.animations()[t]).id != id && slot_in(self.animations()[t], oa) by {
                    assert(oa[t] == self.animations()[t]);
                }
                assert forall|j: int|
                    0 <= j < oa.len() && (#[trigger] oa[j]).id != id implies slot_in(
                    oa[j],
                    self.animations(),
                ) by {
                    assert(self.animations()[j] == oa[j]);
                }
            }
        }
    }

    /// Despawns the entity with this identifier together with every
    /// collider child it owns; everything else survives untouched.
    /// A stale identifier despawns nothing.
    pub fn despawn_recursive(&mut self, id: u64)
        requires
            old(self).wf(),
        ensures
            final(self).wf(),
            final(self).next_id() == old(self).next_id(),
            !final(self).has_entity(id),
            final(self).entities().len() == old(self).entities().len() - (if old(self).has_entity(id) {
                1int
            } else {
                0
            }),
            forall|i: int|
                0 <= i < final(self).entities().len() ==> (#[trigger] final(self).entities()[i]).id
                    != id && record_in(final(self).entities()[i], old(self).entities()),
            forall|j: int|
                0 <= j < old(self).entities().len() && (#[trigger] old(self).entities()[j]).id
                    != id ==> record_in(old(self).entities()[j], final(self).entities()),
            forall|k: int|
                0 <= k < final(self).colliders().len() ==> (#[trigger] final(self).colliders()[k]).owner != id && final(self).colliders()[k].id != id
                    && collider_in(final(self).colliders()[k], old(self).colliders()),
            forall|t: int|
                0 <= t < old(self).colliders().len() && (#[trigger] old(self).colliders()[t]).owner
                    != id && old(self).colliders()[t].id != id ==> collider_in(
                    old(self).colliders()[t],
                    final(self).colliders(),
                ),
            forall|k: int|
                0 <= k < final(self).animations().len() ==> (#[trigger] final(self).animations()[k]).id != id && slot_in(
                    final(self).animations()[k],
                    old(self).animations(),
                ),
            forall|t: int|
                0 <= t < old(self).animations().len() && (#[trigger] old(self).animations()[t]).id
                    != id ==> slot_in(old(self).animations()[t], final(self).animations()),
    {
        let _found = self.remove_entity_row(id);
        let ghost anims0 = self.animations();
        proof {
            assert(anims0 == old(self).animations());
        }
        self.remove_animation_row(id);
        let ghost anims = self.animations();
        proof {
            assert forall|a: int, b: int|
                0 <= a < b < self.colliders@.len() implies (#[trigger] self.colliders@[a]).id != (
            #[trigger] self.colliders@[b]).id by {
                assert(self.colliders@ == old(self).colliders());
            }
        }
        let kept = filter_colliders(&self.colliders, id);
        self.colliders = kept;
        proof {
            assert(self.colliders() == kept@);
            assert(self.animations() == anims);
            assert forall|k: int|
                0 <= k < self.animations().len() implies (#[trigger] self.animations()[k]).id
                != id && slot_in(self.animations()[k], old(self).animations()) by {
                assert(self.animations()[k] == anims[k]);
                assert(anims[k].id != id);
                assert(slot_in(anims[k], anims0));
            }
            assert forall|t: int|
                0 <= t < old(self).animations().len() && (#[trigger] old(self).animations()[t]).id
                    != id implies slot_in(old(self).animations()[t], self.animations()) by {
                assert(anims0[t].id != id);
                assert(slot_in(anims0[t], anims));
                let k0 = choose|k0: int|
                    0 <= k0 < anims.len() && (#[trigger] anims[k0]) == anims0[t];
                assert(self.animations()[k0] == old(self).animations()[t]);
            }
            assert forall|a: int, b: int|
                0 <= a < b < self.animations().len() implies (#[trigger] self.animations()[a]).id
                != (#[trigger] self.animations()[b]).id by {
                assert(self.animations()[a] == anims[a]);
                assert(self.animations()[b] == anims[b]);
            }
            assert forall|k: int|
                0 <= k < self.colliders().len() implies (#[trigger] self.colliders()[k]).owner
                != id && self.colliders()[k].id != id && collider_in(
                self.colliders()[k],
                old(self).colliders(),
            ) by {
                assert(self.colliders()[k] == kept@[k]);
                let t0 = choose|t0: int|
                    0 <= t0 < old(self).colliders().len() && (#[trigger] old(self).colliders()[t0])
                        == kept@[k];
                assert(old(self).colliders()[t0] == self.colliders()[k]);
            }
            assert forall|t: int|
                0 <= t < old(self).colliders().len() && (#[trigger] old(self).colliders()[t]).owner
                    != id && old(self).colliders()[t].id != id implies collider_in(
                old(self).colliders()[t],
                self.colliders(),
            ) by {
                let k0 = choose|k0: int|
                    0 <= k0 < kept@.len() && (#[trigger] kept@[k0]) == old(self).colliders()[t];
                assert(self.colliders()[k0] == old(self).colliders()[t]);
            }
            assert forall|a: int, b: int|
                0 <= a < b < self.colliders().len() implies (#[trigger] self.colliders()[a]).id
                != (#[trigger] self.colliders()[b]).id by {
                assert(self.colliders()[a] == kept@[a]);
                assert(self.colliders()[b] == kept@[b]);
            }
            lemma_wf_subset(*old(self), *self);
        }
    }

    /// The identifier of some live enemy, if any is left.
    fn find_enemy(&self) -> (r: Option<u64>)
        ensures
            match r {
                Some(id) => self.entity_tagged(id, EntityTag::Enemy),
                None => forall|i: int|
                    0 <= i < self.entities().len() ==> (#[trigger] self.entities()[i]).tag
                        != EntityTag::Enemy,
            },
    {
        let n = self.entities.len();
        let mut i: usize = 0;
        while i < n
            invariant
                n == self.entities@.len(),
                0 <= i <= n,
                forall|t: int|
                    0 <= t < i ==> (#[trigger] self.entities()[t]).tag != EntityTag::Enemy,
            decreases n - i,
        {
            if self.entities[i].tag == EntityTag::Enemy {
                return Some(self.entities[i].id);
            }
            i += 1;
        }
        None
    }

    /// Removes every enemy, each despawned recursively with its
    /// collider children and animation component, as happens when a
    /// new run starts.  Everything of any other tag survives
    /// untouched.
    pub fn cleanup_enemy(&mut self)
        requires
            old(self).wf(),
        ensures
            final(self).wf(),
            enemies_cleared(*old(self), *final(self)),
    {
        proof {
            assert forall|i: int| 0 <= i < self.entities().len() implies record_in(
                #[trigger] self.entities()[i],
                old(self).entities(),
            ) by {
                assert(old(self).entities()[i] == self.entities()[i]);
            }
            assert forall|k: int| 0 <= k < self.colliders().len() implies collider_in(
                #[trigger] self.colliders()[k],
                old(self).colliders(),
            ) by {
                assert(old(self).colliders()[k] == self.colliders()[k]);
            }
            assert forall|k: int| 0 <= k < self.animations().len() implies slot_in(
                #[trigger] self.animations()[k],
                old(self).animations(),
            ) by {
                assert(old(self).animations()[k] == self.animations()[k]);
            }
        }
        loop
            invariant
                old(self).wf(),
                self.wf(),
                self.next_id() == old(self).next_id(),
                forall|i: int|
                    0 <= i < self.entities().len() ==> record_in(
                        #[trigger] self.entities()[i],
                        old(self).entities(),
                    ),
                forall|j: int|
                    0 <= j < old(self).entities().len() && (#[trigger] old(self).entities()[j]).tag
                        != EntityTag::Enemy ==> record_in(
                        old(self).entities()[j],
                        self.entities(),
                    ),
                forall|k: int|
                    0 <= k < self.colliders().len() ==> collider_in(
                        #[trigger] self.colliders()[k],
                        old(self).colliders(),
                    ),
                forall|t: int|
                    0 <= t < old(self).colliders().len() && !old(self).entity_tagged(
                        (#[trigger] old(self).colliders()[t]).owner,
                        EntityTag::Enemy,
                    ) ==> collider_in(old(self).colliders()[t], self.colliders()),
                forall|k: int|
                    0 <= k < self.colliders().len() && old(self).entity_tagged(
                        (#[trigger] self.colliders()[k]).owner,
                        EntityTag::Enemy,
                    ) ==> self.has_entity(self.colliders()[k].owner),
                forall|k: int|
                    0 <= k < self.animations().len() ==> slot_in(
                        #[trigger] self.animations()[k],
                        old(self).animations(),
                    ),
                forall|t: int|
                    0 <= t < old(self).animations().len() && !old(self).entity_tagged(
                        (#[trigger] old(self).animations()[t]).id,
                        EntityTag::Enemy,
                    ) ==> slot_in(old(self).animations()[t], self.animations()),
                forall|k: int|
                    0 <= k < self.animations().len() && old(self).entity_tagged(
                        (#[trigger] self.animations()[k]).id,
                        EntityTag::Enemy,
                    ) ==> self.has_entity(self.animations()[k].id),
            ensures
                self.wf(),
                self.next_id() == old(self).next_id(),
                forall|i: int|
                    0 <= i < self.entities().len() ==> (#[trigger] self.entities()[i]).tag
                        != EntityTag::Enemy && record_in(
                        self.entities()[i],
                        old(self).entities(),
                    ),
                forall|j: int|
                    0 <= j < old(self).entities().len() && (#[trigger] old(self).entities()[j]).tag
                        != EntityTag::Enemy ==> record_in(
                        old(self).entities()[j],
                        self.entities(),
                    ),
                forall|k: int|
                    0 <= k < self.colliders().len() ==> collider_in(
                        #[trigger] self.colliders()[k],
                        old(self).colliders(),
                    ),
                forall|t: int|
                    0 <= t < old(self).colliders().len() && !old(self).entity_tagged(
                        (#[trigger] old(self).colliders()[t]).owner,
                        EntityTag::Enemy,
                    ) ==> collider_in(old(self).colliders()[t], self.colliders()),
                forall|k: int|
                    0 <= k < self.colliders().len() && old(self).entity_tagged(
                        (#[trigger] self.colliders()[k]).owner,
                        EntityTag::Enemy,
                    ) ==> self.has_entity(self.colliders()[k].owner),
                forall|k: int|
                    0 <= k < self.animations().len() ==> slot_in(
                        #[trigger] self.animations()[k],
                        old(self).animations(),
                    ),
                forall|t: int|
                    0 <= t < old(self).animations().len() && !old(self).entity_tagged(
                        (#[trigger] old(self).animations()[t]).id,
                        EntityTag::Enemy,
                    ) ==> slot_in(old(self).animations()[t], self.animations()),
                forall|k: int|
                    0 <= k < self.animations().len() && old(self).entity_tagged(
                        (#[trigger] self.animations()[k]).id,
                        EntityTag::Enemy,
                    ) ==> self.has_entity(self.animations()[k].id),
            decreases self.entities().len(),
        {
            let target = self.find_enemy();
            match target {
                None => {
                    break ;
                },
                Some(e) => {
                    let ghost pre = *self;
                    proof {
                        assert(self.has_entity(e));
                    }
                    self.despawn_recursive(e);
                    proof {
                        let ghost te = choose|te: int|
                            0 <= te < pre.entities().len() && (#[trigger] pre.entities()[te]).id
                                == e && pre.entities()[te].tag == EntityTag::Enemy;
                        assert(record_in(pre.entities()[te], old(self).entities()));
                        let ghost ve = choose|ve: int|
                            0 <= ve < old(self).entities().len() && (#[trigger] old(
                                self,
                            ).entities()[ve]) == pre.entities()[te];
                        assert(old(self).entity_tagged(e, EntityTag::Enemy));
                        assert forall|i: int| 0 <= i < self.entities().len() implies record_in(
                            #[trigger] self.entities()[i],
                            old(self).entities(),
                        ) by {
                            assert(record_in(self.entities()[i], pre.entities()));
                            let t = choose|t: int|
                                0 <= t < pre.entities().len() && (#[trigger] pre.entities()[t])
                                    == self.entities()[i];
                            assert(record_in(pre.entities()[t], old(self).entities()));
                        }
                        assert forall|j: int|
                            0 <= j < old(self).entities().len() && (#[trigger] old(
                                self,
                            ).entities()[j]).tag != EntityTag::Enemy implies record_in(
                            old(self).entities()[j],
                            self.entities(),
                        ) by {
                            let t = choose|t: int|
                                0 <= t < pre.entities().len() && (#[trigger] pre.entities()[t])
                                    == old(self).entities()[j];
                            assert(pre.entities()[t].id != e);
                            assert(record_in(pre.entities()[t], self.entities()));
                            let u = choose|u: int|
                                0 <= u < self.entities().len() && (#[trigger] self.entities()[u])
                                    == pre.entities()[t];
                            assert(self.entities()[u] == old(self).entities()[j]);
                        }
                        assert forall|k: int|
                            0 <= k < self.colliders().len() implies collider_in(
                            #[trigger] self.colliders()[k],
                            old(self).colliders(),
                        ) by {
                            assert(collider_in(self.colliders()[k], pre.colliders()));
                            let t = choose|t: int|
                                0 <= t < pre.colliders().len() && (#[trigger] pre.colliders()[t])
                                    == self.colliders()[k];
                            assert(collider_in(pre.colliders()[t], old(self).colliders()));
                        }
                        assert forall|t: int|
                            0 <= t < old(self).colliders().len() && !old(self).entity_tagged(
                                (#[trigger] old(self).colliders()[t]).owner,
                                EntityTag::Enemy,
                            ) implies collider_in(
                            old(self).colliders()[t],
                            self.colliders(),
                        ) by {
                            let t0 = choose|t0: int|
                                0 <= t0 < pre.colliders().len() && (#[trigger] pre.colliders()[t0])
                                    == old(self).colliders()[t];
                            assert(pre.colliders()[t0].owner != e);
                            let tc = choose|tc: int|
                                0 <= tc < old(self).colliders().len() && (#[trigger] old(
                                    self,
                                ).colliders()[tc]) == old(self).colliders()[t];
                            if pre.colliders()[t0].id == e {
                                assert(old(self).entities()[ve].id
                                    != old(self).colliders()[t].id);
                            }
                            assert(collider_in(pre.colliders()[t0], self.colliders()));
                            let u = choose|u: int|
                                0 <= u < self.colliders().len() && (#[trigger] self.colliders()[u])
                                    == pre.colliders()[t0];
                            assert(self.colliders()[u] == old(self).colliders()[t]);
                        }
                        assert forall|k: int|
                            0 <= k < self.colliders().len() && old(self).entity_tagged(
                                (#[trigger] self.colliders()[k]).owner,
                                EntityTag::Enemy,
                            ) implies self.has_entity(self.colliders()[k].owner) by {
                            let t0 = choose|t0: int|
                                0 <= t0 < pre.colliders().len() && (#[trigger] pre.colliders()[t0])
                                    == self.colliders()[k];
                            assert(pre.has_entity(pre.colliders()[t0].owner));
                            let u = choose|u: int|
                                0 <= u < pre.entities().len() && (#[trigger] pre.entities()[u]).id
                                    == pre.colliders()[t0].owner;
                            assert(self.colliders()[k].owner != e);
                            assert(pre.entities()[u].id != e);
                            assert(record_in(pre.entities()[u], self.entities()));
                            let v = choose|v: int|
                                0 <= v < self.entities().len() && (#[trigger] self.entities()[v])
                                    == pre.entities()[u];
                            assert(self.entities()[v].id == self.colliders()[k].owner);
                        }
                        assert forall|k: int|
                            0 <= k < self.animations().len() implies slot_in(
                            #[trigger] self.animations()[k],
                            old(self).animations(),
                        ) by {
                            assert(slot_in(self.animations()[k], pre.animations()));
                            let t = choose|t: int|
                                0 <= t < pre.animations().len() && (#[trigger] pre.animations()[t])
                                    == self.animations()[k];
                            assert(slot_in(pre.animations()[t], old(self).animations()));
                        }
                        assert forall|t: int|
                            0 <= t < old(self).animations().len() && !old(self).entity_tagged(
                                (#[trigger] old(self).animations()[t]).id,
                                EntityTag::Enemy,
                            ) implies slot_in(old(self).animations()[t], self.animations()) by {
                            let t0 = choose|t0: int|
                                0 <= t0 < pre.animations().len() && (
                                #[trigger] pre.animations()[t0]) == old(self).animations()[t];
                            assert(pre.animations()[t0].id != e);
                            assert(slot_in(pre.animations()[t0], self.animations()));
                            let u = choose|u: int|
                                0 <= u < self.animations().len() && (
                                #[trigger] self.animations()[u]) == pre.animations()[t0];
                            assert(self.animations()[u] == old(self).animations()[t]);
                        }
                        assert forall|k: int|
                            0 <= k < self.animations().len() && old(self).entity_tagged(
                                (#[trigger] self.animations()[k]).id,
                                EntityTag::Enemy,
                            ) implies self.has_entity(self.animations()[k].id) by {
                            let t0 = choose|t0: int|
                                0 <= t0 < pre.animations().len() && (
                                #[trigger] pre.animations()[t0]) == self.animations()[k];
                            assert(pre.has_entity(pre.animations()[t0].id));
                            let u = choose|u: int|
                                0 <= u < pre.entities().len() && (#[trigger] pre.entities()[u]).id
                                    == pre.animations()[t0].id;
                            assert(self.animations()[k].id != e);
                            assert(record_in(pre.entities()[u], self.entities()));
                            let v = choose|v: int|
                                0 <= v < self.entities().len() && (#[trigger] self.entities()[v])
                                    == pre.entities()[u];
                            assert(self.entities()[v].id == self.animations()[k].id);
                        }
                    }
                },
            }
        }
        proof {
            assert forall|k: int| 0 <= k < self.colliders().len() implies !old(
                self,
            ).entity_tagged((#[trigger] self.colliders()[k]).owner, EntityTag::Enemy) by {
                if old(self).entity_tagged(self.colliders()[k].owner, EntityTag::Enemy) {
                    assert(self.has_entity(self.colliders()[k].owner));
                    let u = choose|u: int|
                        0 <= u < self.entities().len() && (#[trigger] self.entities()[u]).id
                            == self.colliders()[k].owner;
                    assert(record_in(self.entities()[u], old(self).entities()));
                    let v = choose|v: int|
                        0 <= v < old(self).entities().len() && (#[trigger] old(self).entities()[v])
                            == self.entities()[u];
                    let w = choose|w: int|
                        0 <= w < old(self).entities().len() && (#[trigger] old(self).entities()[w]).id
                            == self.colliders()[k].owner && old(self).entities()[w].tag
                            == EntityTag::Enemy;
                    if v != w {
                        assert(old(self).entities()[v].id != old(self).entities()[w].id);
                    }
                    assert(self.entities()[u].tag == EntityTag::Enemy);
                }
            }
            assert forall|k: int| 0 <= k < self.animations().len() implies !old(
                self,
            ).entity_tagged((#[trigger] self.animations()[k]).id, EntityTag::Enemy) by {
                if old(self).entity_tagged(self.animations()[k].id, EntityTag::Enemy) {
                    assert(self.has_entity(self.animations()[k].id));
                    let u = choose|u: int|
                        0 <= u < self.entities().len() && (#[trigger] self.entities()[u]).id
                            == self.animations()[k].id;
                    assert(record_in(self.entities()[u], old(self).entities()));
                    let v = choose|v: int|
                        0 <= v < old(self).entities().len() && (#[trigger] old(self).entities()[v])
                            == self.entities()[u];
                    let w = choose|w: int|
                        0 <= w < old(self).entities().len() && (#[trigger] old(self).entities()[w]).id
                            == self.animations()[k].id && old(self).entities()[w].tag
                            == EntityTag::Enemy;
                    if v != w {
                        assert(old(self).entities()[v].id != old(self).entities()[w].id);
                    }
                    assert(self.entities()[u].tag == EntityTag::Enemy);
                }
            }
        }
    }

    /// Whether the entity with this identifier is live and carries
    /// this tag.
    fn is_tagged(&self, id: u64, tag: EntityTag) -> (b: bool)
        requires
            self.wf(),
        ensures
            b == self.entity_tagged(id, tag),
    {
        let n = self.entities.len();
        let mut i: usize = 0;
        while i < n
            invariant
                self.wf(),
                n == self.entities@.len(),
                0 <= i <= n,
                forall|t: int| 0 <= t < i ==> (#[trigger] self.entities()[t]).id != id,
            decreases n - i,
        {
            if self.entities[i].id == id {
                let b = self.entities[i].tag == tag;
                proof {
                    if !b {
                        assert forall|t: int|
                            0 <= t < self.entities().len() && (#[trigger] self.entities()[t]).id
                                == id implies self.entities()[t].tag != tag by {
                            if t != i as int {
                                assert(self.entities()[t].id != self.entities()[i as int].id);
                            }
                        }
                    }
                }
                return b;
            }
            i += 1;
        }
        false
    }

    /// The owner of the collider child with this identifier, if it
    /// is live.
    fn owner_of(&self, child: u64) -> (r: Option<u64>)
        requires
            self.wf(),
        ensures
            match r {
                Some(o) => self.child_of(child, o),
                None => forall|k: int|
                    0 <= k < self.colliders().len() ==> (#[trigger] self.colliders()[k]).id
                        != child,
            },
    {
        let n = self.colliders.len();
        let mut i: usize = 0;
        while i < n
            invariant
                self.wf(),
                n == self.colliders@.len(),
                0 <= i <= n,
                forall|t: int| 0 <= t < i ==> (#[trigger] self.colliders()[t]).id != child,
            decreases n - i,
        {
            if self.colliders[i].id == child {
                return Some(self.colliders[i].owner);
            }
            i += 1;
        }
        None
    }

    /// Appends to `cmds` the gameplay commands that one collision
    /// report gives rise to: a despawn when the report pairs the
    /// despawn sensor with an enemy's collider child, a player hit
    /// when it pairs a player's collider child with an enemy's.
    fn handle_event(&self, ev: CollisionEvent, cmds: &mut Vec<GameCommand>)
        requires
            self.wf(),
        ensures
            final(cmds)@.len() >= old(cmds)@.len(),
            forall|t: int| 0 <= t < old(cmds)@.len() ==> final(cmds)@[t] == old(cmds)@[t],
            forall|t: int|
                old(cmds)@.len() <= t < final(cmds)@.len() ==> match #[trigger] final(cmds)@[t] {
                    GameCommand::DespawnEntity(o) => despawn_target(*self, ev, o),
                    GameCommand::PlayerHit { player, enemy } => hit_pair(*self, ev, player, enemy),
                },
            forall|o: u64|
                #[trigger] despawn_target(*self, ev, o) ==> exists|t: int|
                    0 <= t < final(cmds)@.len() && (#[trigger] final(cmds)@[t])
                        == GameCommand::DespawnEntity(o),
            forall|p: u64, en: u64|
                #[trigger] hit_pair(*self, ev, p, en) ==> exists|t: int|
                    0 <= t < final(cmds)@.len() && (#[trigger] final(cmds)@[t]) == (
                    GameCommand::PlayerHit { player: p, enemy: en }),
    {
        let (x, y) = match ev {
            CollisionEvent::Started(a, b) => (a, b),
            CollisionEvent::Stopped(_, _) => {
                return ;
            },
        };
        let dx = self.is_tagged(x, EntityTag::Despawner);
        let dy = self.is_tagged(y, EntityTag::Despawner);
        let ox = self.owner_of(x);
        let oy = self.owner_of(y);
        let eox = match ox {
            Some(o) => self.is_tagged(o, EntityTag::Enemy),
            None => false,
        };
        let eoy = match oy {
            Some(o) => self.is_tagged(o, EntityTag::Enemy),
            None => false,
        };
        let pox = match ox {
            Some(o) => self.is_tagged(o, EntityTag::Player),
            None => false,
        };
        let poy = match oy {
            Some(o) => self.is_tagged(o, EntityTag::Player),
            None => false,
        };
        if dx {
            match oy {
                Some(o) => {
                    if eoy {
                        cmds.push(GameCommand::DespawnEntity(o));
                    }
                },
                None => {},
            }
        } else if dy {
            match ox {
                Some(o) => {
                    if eox {
                        cmds.push(GameCommand::DespawnEntity(o));
                    }
                },
                None => {},
            }
        }
        match (ox, oy) {
            (Some(a), Some(b)) => {
                if pox && eoy {
                    cmds.push(GameCommand::PlayerHit { player: a, enemy: b });
                } else if poy && eox {
                    cmds.push(GameCommand::PlayerHit { player: b, enemy: a });
                }
            },
            _ => {},
        }
        proof {
            assert forall|o: u64| #[trigger] despawn_target(*self, ev, o) implies exists|t: int|
                0 <= t < cmds@.len() && (#[trigger] cmds@[t]) == GameCommand::DespawnEntity(
                o,
            ) by {
                if self.entity_tagged(x, EntityTag::Despawner) && self.child_of(y, o)
                    && self.entity_tagged(o, EntityTag::Enemy) {
                    assert(dx);
                    match oy {
                        Some(o2) => {
                            lemma_owner_unique(*self, y, o, o2);
                            assert(eoy);
                            assert(cmds@[old(cmds)@.len() as int] == GameCommand::DespawnEntity(
                                o,
                            ));
                        },
                        None => {
                            let k = choose|k: int|
                                0 <= k < self.colliders().len() && (#[trigger] self.colliders()[k]).id
                                    == y && self.colliders()[k].owner == o;
                            assert(false);
                        },
                    }
                } else {
                    assert(self.entity_tagged(y, EntityTag::Despawner) && self.child_of(x, o)
                        && self.entity_tagged(o, EntityTag::Enemy));
                    assert(dy);
                    if dx {
                        lemma_entity_not_child(*self, x, o, EntityTag::Despawner);
                    }
                    match ox {
                        Some(o2) => {
                            lemma_owner_unique(*self, x, o, o2);
                            assert(eox);
                            assert(cmds@[old(cmds)@.len() as int] == GameCommand::DespawnEntity(
                                o,
                            ));
                        },
                        None => {
                            let k = choose|k: int|
                                0 <= k < self.colliders().len() && (#[trigger] self.colliders()[k]).id
                                    == x && self.colliders()[k].owner == o;
                            assert(false);
                        },
                    }
                }
            }
            assert forall|p: u64, en: u64| #[trigger] hit_pair(*self, ev, p, en) implies exists|
                t: int,
            |
                0 <= t < cmds@.len() && (#[trigger] cmds@[t]) == (GameCommand::PlayerHit {
                    player: p,
                    enemy: en,
                }) by {
                if self.child_of(x, p) && self.entity_tagged(p, EntityTag::Player) && self.child_of(
                    y,
                    en,
                ) && self.entity_tagged(en, EntityTag::Enemy) {
                    match ox {
                        Some(a) => {
                            lemma_owner_unique(*self, x, p, a);
                            assert(pox);
                            match oy {
                                Some(b) => {
                                    lemma_owner_unique(*self, y, en, b);
                                    assert(eoy);
                                    if dx {
                                        lemma_entity_not_child(*self, x, p, EntityTag::Despawner);
                                    }
                                    if dy {
                                        lemma_entity_not_child(*self, y, en, EntityTag::Despawner);
                                    }
                                    assert(cmds@[cmds@.len() - 1] == (GameCommand::PlayerHit {
                                        player: p,
                                        enemy: en,
                                    }));
                                },
                                None => {
                                    let k = choose|k: int|
                                        0 <= k < self.colliders().len() && (
                                        #[trigger] self.colliders()[k]).id == y
                                            && self.colliders()[k].owner == en;
                                    assert(false);
                                },
                            }
                        },
                        None => {
                            let k = choose|k: int|
                                0 <= k < self.colliders().len() && (#[trigger] self.colliders()[k]).id
                                    == x && self.colliders()[k].owner == p;
                            assert(false);
                        },
                    }
                } else {
                    assert(self.child_of(y, p) && self.entity_tagged(p, EntityTag::Player)
                        && self.child_of(x, en) && self.entity_tagged(en, EntityTag::Enemy));
                    match oy {
                        Some(b) => {
                            lemma_owner_unique(*self, y, p, b);
                            assert(poy);
                            match ox {
                                Some(a) => {
                                    lemma_owner_unique(*self, x, en, a);
                                    assert(eox);
                                    if dx {
                                        lemma_entity_not_child(*self, x, en, EntityTag::Despawner);
                                    }
                                    if dy {
                                        lemma_entity_not_child(*self, y, p, EntityTag::Despawner);
                                    }
                                    if pox && eoy {
                                        lemma_tag_unique(
                                            *self,
                                            a,
                                            EntityTag::Player,
                                            EntityTag::Enemy,
                                        );
                                    }
                                    assert(cmds@[cmds@.len() - 1] == (GameCommand::PlayerHit {
                                        player: p,
                                        enemy: en,
                                    }));
                                },
                                None => {
                                    let k = choose|k: int|
                                        0 <= k < self.colliders().len() && (
                                        #[trigger] self.colliders()[k]).id == x
                                            && self.colliders()[k].owner == en;
                                    assert(false);
                                },
                            }
                        },
                        None => {
                            let k = choose|k: int|
                                0 <= k < self.colliders().len() && (#[trigger] self.colliders()[k]).id
                                    == y && self.colliders()[k].owner == p;
                            assert(false);
                        },
                    }
                }
            }
        }
    }

    /// Translates one tick's collision reports into gameplay
    /// commands.  A collision of the despawn sensor with an enemy's
    /// collider child despawns exactly that enemy; a collision of a
    /// player's collider child with an enemy's collider child
    /// reports a player hit; every other report is ignored, as is a
    /// report naming objects that are no longer live.
    pub fn translate_collisions(&self, events: &Vec<CollisionEvent>) -> (cmds: Vec<GameCommand>)
        requires
            self.wf(),
        ensures
            forall|t: int|
                0 <= t < cmds@.len() ==> match #[trigger] cmds@[t] {
                    GameCommand::DespawnEntity(o) => exists|q: int|
                        0 <= q < events@.len() && despawn_target(*self, #[trigger] events@[q], o),
                    GameCommand::PlayerHit { player, enemy } => exists|q: int|
                        0 <= q < events@.len() && hit_pair(
                            *self,
                            #[trigger] events@[q],
                            player,
                            enemy,
                        ),
                },
            forall|q: int, o: u64|
                0 <= q < events@.len() && #[trigger] despawn_target(*self, events@[q], o)
                    ==> exists|t: int|
                    0 <= t < cmds@.len() && (#[trigger] cmds@[t]) == GameCommand::DespawnEntity(o),
            forall|q: int, p: u64, en: u64|
                0 <= q < events@.len() && #[trigger] hit_pair(*self, events@[q], p, en)
                    ==> exists|t: int|
                    0 <= t < cmds@.len() && (#[trigger] cmds@[t]) == (GameCommand::PlayerHit {
                        player: p,
                        enemy: en,
                    }),
    {
        let mut cmds: Vec<GameCommand> = Vec::new();
        let n = events.len();
        let mut q: usize = 0;
        while q < n
            invariant
                self.wf(),
                n == events@.len(),
                0 <= q <= n,
                forall|t: int|
                    0 <= t < cmds@.len() ==> match #[trigger] cmds@[t] {
                        GameCommand::DespawnEntity(o) => exists|e: int|
                            0 <= e < events@.len() && despawn_target(
                                *self,
                                #[trigger] events@[e],
                                o,
                            ),
                        GameCommand::PlayerHit { player, enemy } => exists|e: int|
                            0 <= e < events@.len() && hit_pair(
                                *self,
                                #[trigger] events@[e],
                                player,
                                enemy,
                            ),
                    },
                forall|e: int, o: u64|
                    0 <= e < q && #[trigger] despawn_target(*self, events@[e], o) ==> exists|
                        t: int,
                    |
                        0 <= t < cmds@.len() && (#[trigger] cmds@[t])
                            == GameCommand::DespawnEntity(o),
                forall|e: int, p: u64, en: u64|
                    0 <= e < q && #[trigger] hit_pair(*self, events@[e], p, en) ==> exists|t: int|
                        0 <= t < cmds@.len() && (#[trigger] cmds@[t]) == (GameCommand::PlayerHit {
                            player: p,
                            enemy: en,
                        }),
            decreases n - q,
        {
            let ghost prev = cmds@;
            let ev = events[q];
            self.handle_event(ev, &mut cmds);
            proof {
                assert(events@[q as int] == ev);
                assert forall|e: int, o: u64|
                    0 <= e < q + 1 && #[trigger] despawn_target(*self, events@[e], o)
                        implies exists|t: int|
                    0 <= t < cmds@.len() && (#[trigger] cmds@[t]) == GameCommand::DespawnEntity(
                        o,
                    ) by {
                    if e < q {
                        let t0 = choose|t0: int|
                            0 <= t0 < prev.len() && (#[trigger] prev[t0])
                                == GameCommand::DespawnEntity(o);
                        assert(cmds@[t0] == GameCommand::DespawnEntity(o));
                    }
                }
                assert forall|e: int, p: u64, en: u64|
                    0 <= e < q + 1 && #[trigger] hit_pair(*self, events@[e], p, en) implies exists|
                        t: int,
                    |
                        0 <= t < cmds@.len() && (#[trigger] cmds@[t]) == (GameCommand::PlayerHit {
                            player: p,
                            enemy: en,
                        }) by {
                    if e < q {
                        let t0 = choose|t0: int|
                            0 <= t0 < prev.len() && (#[trigger] prev[t0]) == (GameCommand::PlayerHit {
                                player: p,
                                enemy: en,
                            });
                        assert(cmds@[t0] == (GameCommand::PlayerHit { player: p, enemy: en }));
                    }
                }
            }
            q += 1;
        }
        cmds
    }

    /// Applies one tick's commands: every despawn target is removed
    /// together with its collider children, and the result reports
    /// whether any command was a player hit.  Entities that no
    /// command targets survive.
    pub fn apply_commands(&mut self, cmds: &Vec<GameCommand>) -> (hit: bool)
        requires
            old(self).wf(),
        ensures
            final(self).wf(),
            final(self).next_id() == old(self).next_id(),
            hit == exists|t: int|
                0 <= t < cmds@.len() && (#[trigger] cmds@[t]) matches GameCommand::PlayerHit {
                    ..
                },
            forall|t: int|
                0 <= t < cmds@.len() ==> match #[trigger] cmds@[t] {
                    GameCommand::DespawnEntity(o) => !final(self).has_entity(o),
                    GameCommand::PlayerHit { .. } => true,
                },
            forall|i: int|
                0 <= i < final(self).entities().len() ==> record_in(
                    #[trigger] final(self).entities()[i],
                    old(self).entities(),
                ),
            forall|j: int|
                0 <= j < old(self).entities().len() && !is_despawn_command(
                    cmds@,
                    (#[trigger] old(self).entities()[j]).id,
                ) ==> record_in(old(self).entities()[j], final(self).entities()),
    {
        let mut hit: bool = false;
        let n = cmds.len();
        let mut q: usize = 0;
        while q < n
            invariant
                self.wf(),
                self.next_id() == old(self).next_id(),
                n == cmds@.len(),
                0 <= q <= n,
                hit == exists|t: int|
                    0 <= t < q && (#[trigger] cmds@[t]) matches GameCommand::PlayerHit { .. },
                forall|t: int|
                    0 <= t < q ==> match #[trigger] cmds@[t] {
                        GameCommand::DespawnEntity(o) => !self.has_entity(o),
                        GameCommand::PlayerHit { .. } => true,
                    },
                forall|i: int|
                    0 <= i < self.entities().len() ==> record_in(
                        #[trigger] self.entities()[i],
                        old(self).entities(),
                    ),
                forall|j: int|
                    0 <= j < old(self).entities().len() && !is_despawn_command(
                        cmds@,
                        (#[trigger] old(self).entities()[j]).id,
                    ) ==> record_in(old(self).entities()[j], self.entities()),
            decreases n - q,
        {
            let c = cmds[q];
            let ghost pre = self.entities();
            match c {
                GameCommand::DespawnEntity(o) => {
                    self.despawn_recursive(o);
                    proof {
                        assert forall|t: int|
                            0 <= t < q + 1 implies match #[trigger] cmds@[t] {
                            GameCommand::DespawnEntity(o2) => !self.has_entity(o2),
                            GameCommand::PlayerHit { .. } => true,
                        } by {
                            match cmds@[t] {
                                GameCommand::DespawnEntity(o2) => {
                                    if t < q {
                                        if self.has_entity(o2) {
                                            let u = choose|u: int|
                                                0 <= u < self.entities().len() && (
                                                #[trigger] self.entities()[u]).id == o2;
                                            assert(record_in(self.entities()[u], pre));
                                            let v = choose|v: int|
                                                0 <= v < pre.len() && (#[trigger] pre[v])
                                                    == self.entities()[u];
                                            assert(pre[v].id == o2);
                                        }
                                    } else {
                                        if self.has_entity(o2) {
                                            let u = choose|u: int|
                                                0 <= u < self.entities().len() && (
                                                #[trigger] self.entities()[u]).id == o2;
                                        }
                                    }
                                },
                                GameCommand::PlayerHit { .. } => {},
                            }
                        }
                        assert forall|i: int| 0 <= i < self.entities().len() implies record_in(
                            #[trigger] self.entities()[i],
                            old(self).entities(),
                        ) by {
                            assert(record_in(self.entities()[i], pre));
                            let v = choose|v: int|
                                0 <= v < pre.len() && (#[trigger] pre[v]) == self.entities()[i];
                            assert(record_in(pre[v], old(self).entities()));
                        }
                        assert forall|j: int|
                            0 <= j < old(self).entities().len() && !is_despawn_command(
                                cmds@,
                                (#[trigger] old(self).entities()[j]).id,
                            ) implies record_in(old(self).entities()[j], self.entities()) by {
                            let v = choose|v: int|
                                0 <= v < pre.len() && (#[trigger] pre[v]) == old(
                                    self,
                                ).entities()[j];
                            assert(cmds@[q as int] == GameCommand::DespawnEntity(o));
                            assert(pre[v].id != o);
                            assert(record_in(pre[v], self.entities()));
                            let u = choose|u: int|
                                0 <= u < self.entities().len() && (#[trigger] self.entities()[u])
                                    == pre[v];
                            assert(self.entities()[u] == old(self).entities()[j]);
                        }
                    }
                },
                GameCommand::PlayerHit { .. } => {
                    hit = true;
                    proof {
                        assert(cmds@[q as int] matches GameCommand::PlayerHit { .. });
                    }
                },
            }
            q += 1;
        }
        hit
    }

    /// How many entities are live.
    pub fn entity_count(&self) -> (n: usize)
        ensures
            n == self.entities().len(),
    {
        self.entities.len()
    }

    /// How many collider children are live.
    pub fn collider_count(&self) -> (n: usize)
        ensures
            n == self.colliders().len(),
    {
        self.colliders.len()
    }

    /// Whether an entity with this identifier is live.
    pub fn contains_entity(&self, id: u64) -> (b: bool)
        ensures
            b == self.has_entity(id),
    {
        let n = self.entities.len();
        let mut i: usize = 0;
        while i < n
            invariant
                n == self.entities@.len(),
                0 <= i <= n,
                forall|t: int| 0 <= t < i ==> (#[trigger] self.entities()[t]).id != id,
            decreases n - i,
        {
            if self.entities[i].id == id {
                return true;
            }
            i += 1;
        }
        false
    }

    /// Whether any live entity carries this tag.
    pub fn has_tagged(&self, tag: EntityTag) -> (b: bool)
        ensures
            b == exists|i: int|
                0 <= i < self.entities().len() && (#[trigger] self.entities()[i]).tag == tag,
    {
        let n = self.entities.len();
        let mut i: usize = 0;
        while i < n
            invariant
                n == self.entities@.len(),
                0 <= i <= n,
                forall|t: int| 0 <= t < i ==> (#[trigger] self.entities()[t]).tag != tag,
            decreases n - i,
        {
            if self.entities[i].tag == tag {
                return true;
            }
            i += 1;
        }
        false
    }

    /// The position of the live entity with this identifier.
    pub fn position_of(&self, id: u64) -> (r: Option<(i64, i64)>)
        requires
            self.wf(),
        ensures
            match r {
                Some(p) => exists|i: int|
                    0 <= i < self.entities().len() && (#[trigger] self.entities()[i]).id == id
                        && self.entities()[i].x == p.0 && self.entities()[i].y == p.1,
                None => !self.has_entity(id),
            },
    {
        let n = self.entities.len();
        let mut i: usize = 0;
        while i < n
            invariant
                n == self.entities@.len(),
                0 <= i <= n,
                forall|t: int| 0 <= t < i ==> (#[trigger] self.entities()[t]).id != id,
            decreases n - i,
        {
            if self.entities[i].id == id {
                return Some((self.entities[i].x, self.entities[i].y));
            }
            i += 1;
        }
        None
    }

    /// Builds the static world of one run: the fixed ground body at
    /// the origin and the despawn sensor off the left edge of the
    /// visible world.  Returns the ground and sensor identifiers, or
    /// `None` when the identifier space is exhausted.
    pub fn setup_world(&mut self) -> (r: Option<(u64, u64)>)
        requires
            old(self).wf(),
        ensures
            final(self).wf(),
            match r {
                Some(ids) => {
                    &&& final(self).entity_tagged(ids.0, EntityTag::Ground)
                    &&& final(self).entity_tagged(ids.1, EntityTag::Despawner)
                    &&& final(self).entities().len() == old(self).entities().len() + 2
                    &&& final(self).entities()[final(self).entities().len() - 2]
                        == (EntityRecord { id: ids.0, tag: EntityTag::Ground, x: 0, y: 0 })
                    &&& final(self).entities().last() == (EntityRecord {
                        id: ids.1,
                        tag: EntityTag::Despawner,
                        x: DESPAWN_SENSOR_X,
                        y: 0,
                    })
                    &&& final(self).colliders() == old(self).colliders()
                    &&& final(self).animations() == old(self).animations()
                    &&& final(self).next_id() == old(self).next_id() + 2
                },
                None => {
                    &&& *final(self) == *old(self)
                    &&& u64::MAX - old(self).next_id() < 2
                },
            },
    {
        if u64::MAX - self.next_id < 2 {
            return None;
        }
        let ground = match self.spawn_bare(EntityTag::Ground, 0, 0) {
            Some(g) => g,
            None => {
                proof {
                    assert(false);
                }
                0
            },
        };
        let sensor = match self.spawn_bare(EntityTag::Despawner, DESPAWN_SENSOR_X, 0) {
            Some(d) => d,
            None => {
                proof {
                    assert(false);
                }
                0
            },
        };
        proof {
            let ghost fe = self.entities();
            assert(fe[fe.len() - 2] == (EntityRecord {
                id: ground,
                tag: EntityTag::Ground,
                x: 0,
                y: 0,
            }));
        }
        Some((ground, sensor))
    }

    /// Spawns a bare entity with no animation and no colliders, such
    /// as the ground body or the despawn sensor.  Returns its fresh
    /// identifier, or `None` when the identifier space is exhausted.
    pub fn spawn_bare(&mut self, tag: EntityTag, x: i64, y: i64) -> (r: Option<u64>)
        requires
            old(self).wf(),
        ensures
            final(self).wf(),
            match r {
                Some(id) => {
                    &&& !old(self).has_entity(id)
                    &&& final(self).entities() == old(self).entities().push(
                        EntityRecord { id, tag, x, y },
                    )
                    &&& final(self).animations() == old(self).animations()
                    &&& final(self).colliders() == old(self).colliders()
                    &&& final(self).next_id() == old(self).next_id() + 1
                },
                None => {
                    &&& *final(self) == *old(self)
                    &&& old(self).next_id() == u64::MAX
                },
            },
    {
        if self.next_id == u64::MAX {
            return None;
        }
        let id = self.next_id;
        self.next_id = id + 1;
        self.entities.push(EntityRecord { id, tag, x, y });
        proof {
            let ghost fe = self.entities();
            let ghost oe = old(self).entities();
            assert forall|i: int, j: int| 0 <= i < j < fe.len() implies (#[trigger] fe[i]).id
                != (#[trigger] fe[j]).id by {
                if j == fe.len() - 1 {
                    assert(fe[i] == oe[i]);
                    assert(oe[i].id < old(self).next_id());
                }
            }
            assert forall|i: int| 0 <= i < fe.len() implies (#[trigger] fe[i]).id
                < self.next_id() by {
                if i < fe.len() - 1 {
                    assert(fe[i] == oe[i]);
                    assert(oe[i].id < old(self).next_id());
                }
            }
            assert forall|i: int, k: int|
                0 <= i < fe.len() && 0 <= k < self.colliders().len() implies (
            #[trigger] fe[i]).id != (#[trigger] self.colliders()[k]).id by {
                assert(self.colliders()[k] == old(self).colliders()[k]);
                assert(old(self).colliders()[k].id < old(self).next_id());
                if i < fe.len() - 1 {
                    assert(fe[i] == oe[i]);
                }
            }
            assert forall|i: int, j: int|
                0 <= i < j < self.colliders().len() implies (#[trigger] self.colliders()[i]).id
                != (#[trigger] self.colliders()[j]).id by {
                assert(self.colliders()[i] == old(self).colliders()[i]);
                assert(self.colliders()[j] == old(self).colliders()[j]);
            }
            assert forall|i: int, j: int|
                0 <= i < j < self.animations().len() implies (#[trigger] self.animations()[i]).id
                != (#[trigger] self.animations()[j]).id by {
                assert(self.animations()[i] == old(self).animations()[i]);
                assert(self.animations()[j] == old(self).animations()[j]);
            }
            assert forall|k: int|
                0 <= k < self.colliders().len() implies (#[trigger] self.colliders()[k]).id
                < self.next_id() && self.colliders()[k].owner < self.next_id() by {
                assert(self.colliders()[k] == old(self).colliders()[k]);
                assert(old(self).colliders()[k].id < old(self).next_id());
                assert(old(self).colliders()[k].owner < old(self).next_id());
            }
            assert forall|k: int|
                0 <= k < self.animations().len() implies (#[trigger] self.animations()[k]).id
                < self.next_id() && self.animations()[k].sprite.wf() by {
                assert(self.animations()[k] == old(self).animations()[k]);
                assert(old(self).animations()[k].id < old(self).next_id());
                assert(old(self).animations()[k].sprite.wf());
            }
        }
        Some(id)
    }
}

/// The horizontal position of an enemy after the world has scrolled
/// for `delta_ms` milliseconds: 100 thousandths of a unit per
/// millisecond leftwards, clamped at the representable minimum.
pub open spec fn scrolled_x(x: int, delta_ms: nat) -> int {
    if x - 100 * delta_ms >= i64::MIN {
        x - 100 * delta_ms
    } else {
        i64::MIN as int
    }
}

/// An enemy's horizontal position after `n` scroll steps of
/// `delta_ms` milliseconds each.
pub open spec fn scrolled_x_n(x: int, delta_ms: nat, n: nat) -> int
    decreases n,
{
    if n == 0 {
        x
    } else {
        scrolled_x_n(scrolled_x(x, delta_ms), delta_ms, (n - 1) as nat)
    }
}

/// No enemy outruns the scroll: once enough ticks have passed that
/// the total scrolled distance covers the gap down to a boundary (in
/// particular the despawn sensor's position), the enemy's position
/// is at or past that boundary.  With the despawn sensor reporting
/// the crossing, every spawned enemy is eventually despawned.
pub proof fn lemma_scroll_reaches_boundary(x: int, delta_ms: nat, k: nat, bound: int)
    requires
        i64::MIN <= bound,
        x - 100 * delta_ms * k <= bound,
    ensures
        scrolled_x_n(x, delta_ms, k) <= bound,
    decreases k,
{
    if k == 0 {
        assert(100 * delta_ms * 0 == 0) by (nonlinear_arith);
    } else {
        let d = delta_ms as int;
        let x1 = scrolled_x(x, delta_ms);
        assert(100 * d * k == 100 * d + 100 * d * (k - 1)) by (nonlinear_arith);
        assert(100 * d * (k - 1) >= 0) by (nonlinear_arith)
            requires
                d >= 0,
                k >= 1,
        ;
        if x - 100 * d >= i64::MIN {
            assert(x1 == x - 100 * d);
            assert(x1 - 100 * d * (k - 1) <= bound);
        } else {
            assert(x1 == i64::MIN as int);
            assert(x1 - 100 * d * (k - 1) <= bound);
        }
        lemma_scroll_reaches_boundary(x1, delta_ms, (k - 1) as nat, bound);
    }
}

/// A world whose tables carry the same identifiers (and well-formed
/// animation components) as a well-formed one is well formed itself.
proof fn lemma_wf_same_ids(w1: SimulationWorld, w2: SimulationWorld)
    requires
        w1.wf(),
        w2.next_id() == w1.next_id(),
        w2.entities().len() == w1.entities().len(),
        forall|i: int|
            0 <= i < w2.entities().len() ==> (#[trigger] w2.entities()[i]).id
                == w1.entities()[i].id,
        w2.colliders() == w1.colliders(),
        w2.animations().len() == w1.animations().len(),
        forall|k: int|
            0 <= k < w2.animations().len() ==> (#[trigger] w2.animations()[k]).id
                == w1.animations()[k].id,
        forall|k: int|
            0 <= k < w2.animations().len() ==> (#[trigger] w2.animations()[k]).sprite.wf(),
    ensures
        w2.wf(),
{
    assert forall|i: int, j: int|
        0 <= i < j < w2.entities().len() implies (#[trigger] w2.entities()[i]).id != (
    #[trigger] w2.entities()[j]).id by {
        assert(w1.entities()[i].id != w1.entities()[j].id);
    }
    assert forall|i: int, k: int|
        0 <= i < w2.entities().len() && 0 <= k < w2.colliders().len() implies (
    #[trigger] w2.entities()[i]).id != (#[trigger] w2.colliders()[k]).id by {
        assert(w1.entities()[i].id != w1.colliders()[k].id);
    }
    assert forall|i: int| 0 <= i < w2.entities().len() implies (#[trigger] w2.entities()[i]).id
        < w2.next_id() by {
        assert(w1.entities()[i].id < w1.next_id());
    }
    assert forall|i: int, j: int|
        0 <= i < j < w2.animations().len() implies (#[trigger] w2.animations()[i]).id != (
    #[trigger] w2.animations()[j]).id by {
        assert(w1.animations()[i].id != w1.animations()[j].id);
    }
    assert forall|k: int| 0 <= k < w2.animations().len() implies (#[trigger] w2.animations()[k]).id
        < w2.next_id() by {
        assert(w1.animations()[k].id < w1.next_id());
    }
}

/// One collision report from the physics collaborator, naming the
/// two collider-bearing objects by entity identifier.
#[derive(Clone, Copy, Debug, PartialEq, Eq, Structural)]
pub enum CollisionEvent {
    /// The two objects began to touch.
    Started(u64, u64),
    /// The two objects stopped touching.
    Stopped(u64, u64),
}

/// A gameplay command derived from the collision reports of one
/// tick.
#[derive(Clone, Copy, Debug, PartialEq, Eq, Structural)]
pub enum GameCommand {
    /// Remove this entity and its collider children.
    DespawnEntity(u64),
    /// The player touched an enemy.
    PlayerHit {
        /// The player entity.
        player: u64,
        /// The enemy entity that was touched.
        enemy: u64,
    },
}

/// Whether this collision event pairs the despawn sensor with a
/// collider child owned by the live enemy `owner`: the one situation
/// that despawns an entity.
pub open spec fn despawn_target(w: SimulationWorld, e: CollisionEvent, owner: u64) -> bool {
    match e {
        CollisionEvent::Started(x, y) => {
            ||| (w.entity_tagged(x, EntityTag::Despawner) && w.child_of(y, owner)
                && w.entity_tagged(owner, EntityTag::Enemy))
            ||| (w.entity_tagged(y, EntityTag::Despawner) && w.child_of(x, owner)
                && w.entity_tagged(owner, EntityTag::Enemy))
        },
        CollisionEvent::Stopped(_, _) => false,
    }
}

/// Whether this collision event pairs a collider child of the live
/// player with a collider child of the live enemy `enemy`.
pub open spec fn hit_pair(w: SimulationWorld, e: CollisionEvent, player: u64, enemy: u64) -> bool {
    match e {
        CollisionEvent::Started(x, y) => {
            ||| (w.child_of(x, player) && w.entity_tagged(player, EntityTag::Player) && w.child_of(
                y,
                enemy,
            ) && w.entity_tagged(enemy, EntityTag::Enemy))
            ||| (w.child_of(y, player) && w.entity_tagged(player, EntityTag::Player) && w.child_of(
                x,
                enemy,
            ) && w.entity_tagged(enemy, EntityTag::Enemy))
        },
        CollisionEvent::Stopped(_, _) => false,
    }
}

/// In a well-formed world an identifier carries at most one tag.
pub proof fn lemma_tag_unique(w: SimulationWorld, id: u64, t1: EntityTag, t2: EntityTag)
    requires
        w.wf(),
        w.entity_tagged(id, t1),
        w.entity_tagged(id, t2),
    ensures
        t1 == t2,
{
    let i1 = choose|i: int|
        0 <= i < w.entities().len() && (#[trigger] w.entities()[i]).id == id && w.entities()[i].tag
            == t1;
    let i2 = choose|i: int|
        0 <= i < w.entities().len() && (#[trigger] w.entities()[i]).id == id && w.entities()[i].tag
            == t2;
    if i1 != i2 {
        assert(w.entities()[i1].id != w.entities()[i2].id);
    }
}

/// In a well-formed world a collider child has at most one owner.
pub proof fn lemma_owner_unique(w: SimulationWorld, child: u64, o1: u64, o2: u64)
    requires
        w.wf(),
        w.child_of(child, o1),
        w.child_of(child, o2),
    ensures
        o1 == o2,
{
    let k1 = choose|k: int|
        0 <= k < w.colliders().len() && (#[trigger] w.colliders()[k]).id == child
            && w.colliders()[k].owner == o1;
    let k2 = choose|k: int|
        0 <= k < w.colliders().len() && (#[trigger] w.colliders()[k]).id == child
            && w.colliders()[k].owner == o2;
    if k1 != k2 {
        assert(w.colliders()[k1].id != w.colliders()[k2].id);
    }
}

/// In a well-formed world an entity identifier is never a collider
/// child identifier.
pub proof fn lemma_entity_not_child(w: SimulationWorld, id: u64, owner: u64, tag: EntityTag)
    requires
        w.wf(),
        w.entity_tagged(id, tag),
    ensures
        !w.child_of(id, owner),
{
    let i = choose|i: int|
        0 <= i < w.entities().len() && (#[trigger] w.entities()[i]).id == id && w.entities()[i].tag
            == tag;
    if w.child_of(id, owner) {
        let k = choose|k: int|
            0 <= k < w.colliders().len() && (#[trigger] w.colliders()[k]).id == id
                && w.colliders()[k].owner == owner;
        assert(w.entities()[i].id != w.colliders()[k].id);
    }
}

/// Whether some command in the list despawns this identifier.
pub open spec fn is_despawn_command(cmds: Seq<GameCommand>, id: u64) -> bool {
    exists|t: int| 0 <= t < cmds.len() && (#[trigger] cmds[t]) == GameCommand::DespawnEntity(id)
}

/// How a world relates to the world before every enemy was
/// despawned recursively: no entity tagged as an enemy remains, the
/// collider children and animation components of the removed
/// enemies are gone with them, and every other entity, collider row
/// and animation row survives untouched.
pub open spec fn enemies_cleared(w0: SimulationWorld, w1: SimulationWorld) -> bool {
    &&& w1.next_id() == w0.next_id()
    &&& forall|i: int|
        0 <= i < w1.entities().len() ==> (#[trigger] w1.entities()[i]).tag != EntityTag::Enemy
            && record_in(w1.entities()[i], w0.entities())
    &&& forall|j: int|
        0 <= j < w0.entities().len() && (#[trigger] w0.entities()[j]).tag != EntityTag::Enemy
            ==> record_in(w0.entities()[j], w1.entities())
    &&& forall|k: int|
        0 <= k < w1.colliders().len() ==> !w0.entity_tagged(
            (#[trigger] w1.colliders()[k]).owner,
            EntityTag::Enemy,
        ) && collider_in(w1.colliders()[k], w0.colliders())
    &&& forall|t: int|
        0 <= t < w0.colliders().len() && !w0.entity_tagged(
            (#[trigger] w0.colliders()[t]).owner,
            EntityTag::Enemy,
        ) ==> collider_in(w0.colliders()[t], w1.colliders())
    &&& forall|k: int|
        0 <= k < w1.animations().len() ==> !w0.entity_tagged(
            (#[trigger] w1.animations()[k]).id,
            EntityTag::Enemy,
        ) && slot_in(w1.animations()[k], w0.animations())
    &&& forall|t: int|
        0 <= t < w0.animations().len() && !w0.entity_tagged(
            (#[trigger] w0.animations()[t]).id,
            EntityTag::Enemy,
        ) ==> slot_in(w0.animations()[t], w1.animations())
}

/// How a world relates to the world one animation step and one
/// scroll step earlier: every animation component advanced by
/// exactly `delta_ms` milliseconds, every enemy scrolled left by
/// 100 thousandths of a unit per millisecond, everything else
/// untouched.
pub open spec fn ticked_tables(w0: SimulationWorld, w1: SimulationWorld, delta_ms: nat) -> bool {
    &&& w1.next_id() == w0.next_id()
    &&& w1.colliders() == w0.colliders()
    &&& w1.entities().len() == w0.entities().len()
    &&& forall|i: int|
        0 <= i < w0.entities().len() ==> w1.entities()[i] == (if (#[trigger] w0.entities()[i]).tag
            == EntityTag::Enemy {
            (EntityRecord {
                x: scrolled_x(w0.entities()[i].x as int, delta_ms) as i64,
                ..w0.entities()[i]
            })
        } else {
            w0.entities()[i]
        })
    &&& w1.animations().len() == w0.animations().len()
    &&& forall|k: int|
        0 <= k < w0.animations().len() ==> (#[trigger] w1.animations()[k]).id
            == w0.animations()[k].id && w1.animations()[k].sprite.animation_data
            == w0.animations()[k].sprite.animation_data
            && w1.animations()[k].sprite.current_animation@ == crate::animation::ticked_clip(
            w0.animations()[k].sprite.current_animation@,
            delta_ms,
        )
}

/// Whether this entity row occurs in the sequence.
pub open spec fn record_in(e: EntityRecord, s: Seq<EntityRecord>) -> bool {
    exists|t: int| 0 <= t < s.len() && (#[trigger] s[t]) == e
}

/// Whether this collider row occurs in the sequence.
pub open spec fn collider_in(c: ColliderInstance, s: Seq<ColliderInstance>) -> bool {
    exists|t: int| 0 <= t < s.len() && (#[trigger] s[t]) == c
}

/// Whether this animation row occurs in the sequence.
pub open spec fn slot_in(a: AnimationSlot, s: Seq<AnimationSlot>) -> bool {
    exists|t: int| 0 <= t < s.len() && (#[trigger] s[t]) == a
}

/// Removing one row keeps entity identifiers pairwise distinct.
proof fn lemma_entities_remove_distinct(s: Seq<EntityRecord>, i: int)
    requires
        0 <= i < s.len(),
        forall|a: int, b: int|
            0 <= a < b < s.len() ==> (#[trigger] s[a]).id != (#[trigger] s[b]).id,
    ensures
        forall|a: int, b: int|
            0 <= a < b < s.remove(i).len() ==> (#[trigger] s.remove(i)[a]).id != (#[trigger] s.remove(
                i,
            )[b]).id,
{
    let r = s.remove(i);
    assert forall|a: int, b: int| 0 <= a < b < r.len() implies (#[trigger] r[a]).id != (
    #[trigger] r[b]).id by {
        if a < i {
            assert(r[a] == s[a]);
        } else {
            assert(r[a] == s[a + 1]);
        }
        if b < i {
            assert(r[b] == s[b]);
        } else {
            assert(r[b] == s[b + 1]);
        }
    }
}

/// Removing one row keeps animation-slot identifiers pairwise
/// distinct.
proof fn lemma_slots_remove_distinct(s: Seq<AnimationSlot>, i: int)
    requires
        0 <= i < s.len(),
        forall|a: int, b: int|
            0 <= a < b < s.len() ==> (#[trigger] s[a]).id != (#[trigger] s[b]).id,
    ensures
        forall|a: int, b: int|
            0 <= a < b < s.remove(i).len() ==> (#[trigger] s.remove(i)[a]).id != (#[trigger] s.remove(
                i,
            )[b]).id,
{
    let r = s.remove(i);
    assert forall|a: int, b: int| 0 <= a < b < r.len() implies (#[trigger] r[a]).id != (
    #[trigger] r[b]).id by {
        if a < i {
            assert(r[a] == s[a]);
        } else {
            assert(r[a] == s[a + 1]);
        }
        if b < i {
            assert(r[b] == s[b]);
        } else {
            assert(r[b] == s[b + 1]);
        }
    }
}

/// The collider rows that survive a despawn: everything not owned by
/// and not itself the despawned identifier, in order.
fn filter_colliders(colliders: &Vec<ColliderInstance>, id: u64) -> (kept: Vec<ColliderInstance>)
    requires
        forall|a: int, b: int|
            0 <= a < b < colliders@.len() ==> (#[trigger] colliders@[a]).id != (
            #[trigger] colliders@[b]).id,
    ensures
        forall|k: int|
            0 <= k < kept@.len() ==> (#[trigger] kept@[k]).owner != id && kept@[k].id != id
                && exists|t: int| 0 <= t < colliders@.len() && (#[trigger] colliders@[t]) == kept@[k],
        forall|t: int|
            0 <= t < colliders@.len() && (#[trigger] colliders@[t]).owner != id
                && colliders@[t].id != id ==> exists|k: int|
                0 <= k < kept@.len() && (#[trigger] kept@[k]) == colliders@[t],
        forall|a: int, b: int|
            0 <= a < b < kept@.len() ==> (#[trigger] kept@[a]).id != (#[trigger] kept@[b]).id,
{
    let nc = colliders.len();
    let mut kept: Vec<ColliderInstance> = Vec::new();
    let mut ci: usize = 0;
    while ci < nc
        invariant
            forall|a: int, b: int|
                0 <= a < b < colliders@.len() ==> (#[trigger] colliders@[a]).id != (
                #[trigger] colliders@[b]).id,
            nc == colliders@.len(),
            0 <= ci <= nc,
            forall|k: int|
                0 <= k < kept@.len() ==> (#[trigger] kept@[k]).owner != id && kept@[k].id != id
                    && exists|t: int| 0 <= t < ci && (#[trigger] colliders@[t]) == kept@[k],
            forall|t: int|
                0 <= t < ci && (#[trigger] colliders@[t]).owner != id && colliders@[t].id != id
                    ==> exists|k: int| 0 <= k < kept@.len() && (#[trigger] kept@[k]) == colliders@[t],
            forall|a: int, b: int|
                0 <= a < b < kept@.len() ==> (#[trigger] kept@[a]).id != (#[trigger] kept@[b]).id,
        decreases nc - ci,
    {
        let c = colliders[ci];
        if c.owner != id && c.id != id {
            let ghost prev_kept = kept@;
            kept.push(c);
            proof {
                assert forall|k1: int, k2: int|
                    0 <= k1 < k2 < kept@.len() implies (#[trigger] kept@[k1]).id != (
                #[trigger] kept@[k2]).id by {
                    if k2 == kept@.len() - 1 {
                        assert(kept@[k1] == prev_kept[k1]);
                        let t1 = choose|t1: int|
                            0 <= t1 < ci && (#[trigger] colliders@[t1]) == prev_kept[k1];
                        assert(colliders@[t1].id != colliders@[ci as int].id);
                    } else {
                        assert(kept@[k1] == prev_kept[k1]);
                        assert(kept@[k2] == prev_kept[k2]);
                    }
                }
                assert forall|t: int|
                    0 <= t < ci + 1 && (#[trigger] colliders@[t]).owner != id
                        && colliders@[t].id != id implies exists|k: int|
                    0 <= k < kept@.len() && (#[trigger] kept@[k]) == colliders@[t] by {
                    if t < ci {
                        let k0 = choose|k0: int|
                            0 <= k0 < prev_kept.len() && (#[trigger] prev_kept[k0])
                                == colliders@[t];
                        assert(kept@[k0] == colliders@[t]);
                    } else {
                        assert(kept@[kept@.len() - 1] == colliders@[t]);
                    }
                }
            }
        }
        ci += 1;
    }
    kept
}

/// A world whose tables are id-distinct selections out of a
/// well-formed world's tables, with the same allocation counter, is
/// well formed itself.
proof fn lemma_wf_subset(w1: SimulationWorld, w2: SimulationWorld)
    requires
        w1.wf(),
        w2.next_id() == w1.next_id(),
        forall|i: int|
            0 <= i < w2.entities().len() ==> record_in(
                #[trigger] w2.entities()[i],
                w1.entities(),
            ),
        forall|k: int|
            0 <= k < w2.colliders().len() ==> collider_in(
                #[trigger] w2.colliders()[k],
                w1.colliders(),
            ),
        forall|k: int|
            0 <= k < w2.animations().len() ==> slot_in(
                #[trigger] w2.animations()[k],
                w1.animations(),
            ),
        forall|a: int, b: int|
            0 <= a < b < w2.entities().len() ==> (#[trigger] w2.entities()[a]).id != (
            #[trigger] w2.entities()[b]).id,
        forall|a: int, b: int|
            0 <= a < b < w2.colliders().len() ==> (#[trigger] w2.colliders()[a]).id != (
            #[trigger] w2.colliders()[b]).id,
        forall|a: int, b: int|
            0 <= a < b < w2.animations().len() ==> (#[trigger] w2.animations()[a]).id != (
            #[trigger] w2.animations()[b]).id,
    ensures
        w2.wf(),
{
    assert forall|i: int, k: int|
        0 <= i < w2.entities().len() && 0 <= k < w2.colliders().len() implies (
    #[trigger] w2.entities()[i]).id != (#[trigger] w2.colliders()[k]).id by {
        assert(record_in(w2.entities()[i], w1.entities()));
        let j = choose|j: int|
            0 <= j < w1.entities().len() && (#[trigger] w1.entities()[j]) == w2.entities()[i];
        assert(collider_in(w2.colliders()[k], w1.colliders()));
        let t = choose|t: int|
            0 <= t < w1.colliders().len() && (#[trigger] w1.colliders()[t]) == w2.colliders()[k];
        assert(w1.entities()[j].id != w1.colliders()[t].id);
    }
    assert forall|i: int| 0 <= i < w2.entities().len() implies (#[trigger] w2.entities()[i]).id
        < w2.next_id() by {
        assert(record_in(w2.entities()[i], w1.entities()));
        let j = choose|j: int|
            0 <= j < w1.entities().len() && (#[trigger] w1.entities()[j]) == w2.entities()[i];
        assert(w1.entities()[j].id < w1.next_id());
    }
    assert forall|k: int| 0 <= k < w2.colliders().len() implies (#[trigger] w2.colliders()[k]).id
        < w2.next_id() && w2.colliders()[k].owner < w2.next_id() by {
        assert(collider_in(w2.colliders()[k], w1.colliders()));
        let t = choose|t: int|
            0 <= t < w1.colliders().len() && (#[trigger] w1.colliders()[t]) == w2.colliders()[k];
        assert(w1.colliders()[t].id < w1.next_id());
        assert(w1.colliders()[t].owner < w1.next_id());
    }
    assert forall|k: int| 0 <= k < w2.animations().len() implies (#[trigger] w2.animations()[k]).id
        < w2.next_id() && w2.animations()[k].sprite.wf() by {
        assert(slot_in(w2.animations()[k], w1.animations()));
        let t = choose|t: int|
            0 <= t < w1.animations().len() && (#[trigger] w1.animations()[t]) == w2.animations()[k];
        assert(w1.animations()[t].id < w1.next_id());
        assert(w1.animations()[t].sprite.wf());
    }
}

/// How a world that materialized the template `m` as the new entity
/// `id` relates to the world before: one fresh animation slot that
/// copies the template's animation component, and the template's
/// colliders appended as children of the new entity; everything that
/// was there before is untouched.
pub open spec fn spawned_from_model(
    w1: SimulationWorld,
    w2: SimulationWorld,
    id: u64,
    m: Model,
) -> bool {
    &&& w2.animations().len() == w1.animations().len() + 1
    &&& forall|k: int|
        0 <= k < w1.animations().len() ==> #[trigger] w2.animations()[k] == w1.animations()[k]
    &&& w2.animations().last().id == id
    &&& same_clips(w2.animations().last().sprite.animation_data@, m.animation.animation_data@)
    &&& w2.animations().last().sprite.current_animation@ == m.animation.current_animation@
    &&& w2.colliders().len() == w1.colliders().len() + m.colliders@.len()
    &&& forall|k: int|
        0 <= k < w1.colliders().len() ==> #[trigger] w2.colliders()[k] == w1.colliders()[k]
    &&& forall|k: int|
        0 <= k < m.colliders@.len() ==> #[trigger] w2.colliders()[w1.colliders().len() + k] == (
        ColliderInstance { id: (id + 1 + k) as u64, owner: id, shape: m.colliders@[k] })
}

impl Model {
    /// Materializes the template as one live entity: the entity
    /// record at the given position, an independent copy of the
    /// template's animation component, and one collider child per
    /// collider descriptor, each owned by the new entity.  Returns
    /// the new entity's identifier, or `None` when the identifier
    /// space is exhausted.
    pub fn spawn(&self, world: &mut SimulationWorld, tag: EntityTag, x: i64, y: i64) -> (r: Option<
        u64,
    >)
        requires
            old(world).wf(),
            self.wf(),
        ensures
            final(world).wf(),
            match r {
                Some(id) => {
                    &&& !old(world).has_entity(id)
                    &&& final(world).entities() == old(world).entities().push(
                        EntityRecord { id, tag, x, y },
                    )
                    &&& spawned_from_model(*old(world), *final(world), id, *self)
                    &&& final(world).next_id() == old(world).next_id() + 1 + self.colliders@.len()
                },
                None => {
                    &&& *final(world) == *old(world)
                    &&& u64::MAX - old(world).next_id() < self.colliders@.len() + 1
                },
            },
    {
        let count = self.colliders.len() as u64;
        if count > u64::MAX - 1 || world.next_id > u64::MAX - 1 - count {
            return None;
        }
        let id = world.next_id;
        world.next_id = id + 1 + count;
        world.entities.push(EntityRecord { id, tag, x, y });
        world.animations.push(AnimationSlot { id, sprite: self.animation.duplicate() });
        let n = self.colliders.len();
        let ghost base = world.colliders@.len() as int;
        let mut k: usize = 0;
        while k < n
            invariant
                old(world).wf(),
                self.wf(),
                n == self.colliders@.len(),
                n as u64 == count,
                0 <= k <= n,
                u64::MAX - old(world).next_id() >= count + 1,
                id == old(world).next_id(),
                world.next_id() == id + 1 + count,
                world.entities() == old(world).entities().push(
                    EntityRecord { id, tag, x, y },
                ),
                world.animations().len() == old(world).animations().len() + 1,
                forall|t: int|
                    0 <= t < old(world).animations().len() ==> world.animations()[t] == old(
                        world,
                    ).animations()[t],
                world.animations().last().id == id,
                same_clips(
                    world.animations().last().sprite.animation_data@,
                    self.animation.animation_data@,
                ),
                world.animations().last().sprite.current_animation@
                    == self.animation.current_animation@,
                world.animations().last().sprite.wf(),
                base == old(world).colliders().len(),
                world.colliders().len() == base + k,
                forall|t: int|
                    0 <= t < base ==> world.colliders()[t] == old(world).colliders()[t],
                forall|t: int|
                    0 <= t < k ==> world.colliders()[base + t] == (ColliderInstance {
                        id: (id + 1 + t) as u64,
                        owner: id,
                        shape: self.colliders@[t],
                    }),
            decreases n - k,
        {
            world.colliders.push(
                ColliderInstance {
                    id: id + 1 + (k as u64),
                    owner: id,
                    shape: self.colliders[k],
                },
            );
            k += 1;
        }
        proof {
            let ghost oe = old(world).entities();
            let ghost oc = old(world).colliders();
            let ghost oa = old(world).animations();
            let ghost fe = world.entities();
            let ghost fc = world.colliders();
            let ghost fa = world.animations();
            assert forall|i: int, j: int| 0 <= i < j < fe.len() implies (#[trigger] fe[i]).id
                != (#[trigger] fe[j]).id by {
                if j == fe.len() - 1 {
                    assert(fe[i] == oe[i]);
                    assert(oe[i].id < old(world).next_id());
                }
            }
            assert forall|i: int, j: int| 0 <= i < j < fc.len() implies (#[trigger] fc[i]).id
                != (#[trigger] fc[j]).id by {
                if i < base && j >= base {
                    let t = j - base;
                    assert(fc[base + t] == (ColliderInstance {
                        id: (id + 1 + t) as u64,
                        owner: id,
                        shape: self.colliders@[t],
                    }));
                    assert(fc[i] == oc[i]);
                    assert(oc[i].id < old(world).next_id());
                } else if i >= base {
                    let t1 = i - base;
                    let t2 = j - base;
                    assert(fc[base + t1] == (ColliderInstance {
                        id: (id + 1 + t1) as u64,
                        owner: id,
                        shape: self.colliders@[t1],
                    }));
                    assert(fc[base + t2] == (ColliderInstance {
                        id: (id + 1 + t2) as u64,
                        owner: id,
                        shape: self.colliders@[t2],
                    }));
                } else {
                    assert(fc[i] == oc[i]);
                    assert(fc[j] == oc[j]);
                }
            }
            assert forall|i: int, j: int| 0 <= i < j < fa.len() implies (#[trigger] fa[i]).id
                != (#[trigger] fa[j]).id by {
                if j == fa.len() - 1 {
                    assert(fa[i] == oa[i]);
                    assert(oa[i].id < old(world).next_id());
                }
            }
            assert forall|i: int, k2: int|
                0 <= i < fe.len() && 0 <= k2 < fc.len() implies (#[trigger] fe[i]).id != (
            #[trigger] fc[k2]).id by {
                if i < fe.len() - 1 {
                    assert(fe[i] == oe[i]);
                    assert(oe[i].id < old(world).next_id());
                    if k2 < base {
                        assert(fc[k2] == oc[k2]);
                    } else {
                        let t = k2 - base;
                        assert(fc[base + t] == (ColliderInstance {
                            id: (id + 1 + t) as u64,
                            owner: id,
                            shape: self.colliders@[t],
                        }));
                    }
                } else {
                    assert(fe[i].id == id);
                    if k2 < base {
                        assert(fc[k2] == oc[k2]);
                        assert(oc[k2].id < old(world).next_id());
                    } else {
                        let t = k2 - base;
                        assert(fc[base + t] == (ColliderInstance {
                            id: (id + 1 + t) as u64,
                            owner: id,
                            shape: self.colliders@[t],
                        }));
                    }
                }
            }
            assert forall|i: int| 0 <= i < fe.len() implies (#[trigger] fe[i]).id
                < world.next_id() by {
                if i < fe.len() - 1 {
                    assert(fe[i] == oe[i]);
                    assert(oe[i].id < old(world).next_id());
                }
            }
            assert forall|k2: int| 0 <= k2 < fc.len() implies (#[trigger] fc[k2]).id
                < world.next_id() && fc[k2].owner < world.next_id() by {
                if k2 < base {
                    assert(fc[k2] == oc[k2]);
                    assert(oc[k2].id < old(world).next_id());
                    assert(oc[k2].owner < old(world).next_id());
                } else {
                    let t = k2 - base;
                    assert(fc[base + t] == (ColliderInstance {
                        id: (id + 1 + t) as u64,
                        owner: id,
                        shape: self.colliders@[t],
                    }));
                }
            }
            assert forall|k2: int| 0 <= k2 < fa.len() implies (#[trigger] fa[k2]).id
                < world.next_id() by {
                if k2 < fa.len() - 1 {
                    assert(fa[k2] == oa[k2]);
                    assert(oa[k2].id < old(world).next_id());
                }
            }
            assert forall|k2: int| 0 <= k2 < fa.len() implies (
            #[trigger] fa[k2]).sprite.wf() by {
                if k2 < fa.len() - 1 {
                    assert(fa[k2] == oa[k2]);
                    assert(oa[k2].sprite.wf());
                }
            }
        }
        Some(id)
    }
}


} // verus!
