//! The enemy spawn policy.
//!
//! Enemies appear at a fixed off-screen position on the right, at
//! random intervals of 800 to 1499 milliseconds measured on the
//! pausable simulation clock, with the delay re-rolled after every
//! spawn.  Which template spawns is picked uniformly at random from
//! the registry.

use crate::model::Models;
use crate::world::EntityRecord;
use crate::world::EntityTag;
use crate::world::SimulationWorld;
use crate::world::spawned_from_model;
use vstd::prelude::*;

verus! {

/// The horizontal position where a fresh enemy appears, in
/// thousandths of a unit.
pub const ENEMY_SPAWN_X: i64 = 500_000;

/// The smallest spawn delay, in milliseconds.
pub const SPAWN_DELAY_MIN_MS: u64 = 800;

/// One past the largest spawn delay, in milliseconds.
pub const SPAWN_DELAY_END_MS: u64 = 1500;

/// Relies on rand::random for entropy; no promise is made about
/// the value that comes back.
#[verifier::external_body]
fn random_u64() -> u64 {
    rand::random::<u64>()
}

/// Whether the identifier space leaves room to spawn any registered
/// template (one identifier for the entity, one per collider).
pub open spec fn spawn_capacity_ok(w: SimulationWorld, models: Models) -> bool {
    forall|k: int|
        0 <= k < models.entries().len() ==> (#[trigger] models.entries()[k]).model.colliders@.len()
            + 1 <= u64::MAX - w.next_id()
}

/// The world effect of one spawner step: either nothing at all, or
/// exactly one fresh enemy at the fixed spawn position, materialized
/// from some registered template with its animation component and
/// collider children; whatever was live before is untouched.
pub open spec fn spawn_effect(
    w1: SimulationWorld,
    w2: SimulationWorld,
    models: Models,
    spawned: Option<u64>,
) -> bool {
    match spawned {
        Some(id) => {
            &&& !w1.has_entity(id)
            &&& w2.entity_tagged(id, EntityTag::Enemy)
            &&& w2.entities().len() == w1.entities().len() + 1
            &&& w2.entities().last() == (EntityRecord {
                id,
                tag: EntityTag::Enemy,
                x: ENEMY_SPAWN_X,
                y: 0,
            })
            &&& forall|i: int|
                0 <= i < w1.entities().len() ==> #[trigger] w2.entities()[i] == w1.entities()[i]
            &&& exists|k: int|
                0 <= k < models.entries().len() && spawned_from_model(
                    w1,
                    w2,
                    id,
                    (#[trigger] models.entries()[k]).model,
                )
        },
        None => w2 == w1,
    }
}

/// The periodic enemy spawner: when it last spawned, and how long it
/// waits before the next spawn.
#[derive(Clone, Copy, Debug, PartialEq, Eq, Structural)]
pub struct EnemySpawner {
    /// Simulation time of the last spawn, in milliseconds.
    pub last_spawn_ms: u64,
    /// The sampled delay until the next spawn, in milliseconds.
    pub next_delay_ms: u64,
}

impl EnemySpawner {
    /// Structural invariant: the pending delay was sampled from the
    /// spawn interval.
    pub open spec fn wf(self) -> bool {
        SPAWN_DELAY_MIN_MS <= self.next_delay_ms < SPAWN_DELAY_END_MS
    }

    /// Maps one random sample into the spawn interval: every
    /// resulting delay lies in 800 to 1499 milliseconds inclusive.
    pub fn delay_from_sample(sample: u64) -> (d: u64)
        ensures
            SPAWN_DELAY_MIN_MS <= d < SPAWN_DELAY_END_MS,
            d == SPAWN_DELAY_MIN_MS + (sample as int) % 700,
    {
        SPAWN_DELAY_MIN_MS + sample % (SPAWN_DELAY_END_MS - SPAWN_DELAY_MIN_MS)
    }

    /// A spawner that starts counting at simulation time zero with a
    /// freshly sampled delay.
    pub fn new() -> (r: EnemySpawner)
        ensures
            r.wf(),
            r.last_spawn_ms == 0,
    {
        let sample = random_u64();
        EnemySpawner { last_spawn_ms: 0, next_delay_ms: Self::delay_from_sample(sample) }
    }

    /// One spawner step at simulation time `now_ms`.  Once more than
    /// the sampled delay has passed since the last spawn and the
    /// registry is not empty, a uniformly picked template is
    /// materialized as an enemy at the fixed spawn position, the
    /// spawn time is recorded and a fresh delay is sampled from the
    /// spawn interval; otherwise nothing changes.
    pub fn tick(&mut self, now_ms: u64, models: &Models, world: &mut SimulationWorld) -> (spawned:
        Option<u64>)
        requires
            old(self).wf(),
            models.wf(),
            old(world).wf(),
            now_ms >= old(self).last_spawn_ms,
        ensures
            final(self).wf(),
            final(world).wf(),
            spawn_effect(*old(world), *final(world), *models, spawned),
            match spawned {
                Some(_) => {
                    &&& now_ms - old(self).last_spawn_ms > old(self).next_delay_ms
                    &&& models.entries().len() > 0
                    &&& final(self).last_spawn_ms == now_ms
                },
                None => final(self).last_spawn_ms == old(self).last_spawn_ms,
            },
            now_ms - old(self).last_spawn_ms > old(self).next_delay_ms && models.entries().len()
                > 0 && spawn_capacity_ok(*old(world), *models) ==> spawned.is_some(),
    {
        if now_ms - self.last_spawn_ms > self.next_delay_ms {
            let len = models.len();
            if len > 0 {
                let pick = random_u64();
                let idx = (pick % (len as u64)) as usize;
                let entry = models.entry_at(idx);
                proof {
                    assert(models.entries()[idx as int].model.wf());
                }
                let spawned = entry.model.spawn(world, EntityTag::Enemy, ENEMY_SPAWN_X, 0);
                match spawned {
                    Some(id) => {
                        self.last_spawn_ms = now_ms;
                        let sample = random_u64();
                        self.next_delay_ms = Self::delay_from_sample(sample);
                        proof {
                            assert(world.entities().last() == (EntityRecord {
                                id,
                                tag: EntityTag::Enemy,
                                x: ENEMY_SPAWN_X,
                                y: 0,
                            }));
                            assert(world.entity_tagged(id, EntityTag::Enemy));
                            assert(spawned_from_model(
                                *old(world),
                                *world,
                                id,
                                models.entries()[idx as int].model,
                            ));
                            assert(spawn_effect(*old(world), *world, *models, Some(id)));
                        }
                        Some(id)
                    },
                    None => {
                        proof {
                            if spawn_capacity_ok(*old(world), *models) {
                                assert(models.entries()[idx as int].model.colliders@.len() + 1
                                    <= u64::MAX - old(world).next_id());
                            }
                        }
                        None
                    },
                }
            } else {
                None
            }
        } else {
            None
        }
    }
}

} // verus!
