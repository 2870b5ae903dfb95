//! The two top-level state machines and the simulation context.
//!
//! `AppState` drives the menu/run/game-over flow; `GameState` pauses
//! and resumes the simulation.  Both are tracked side by side:
//! entering a run forces the game to run, a game over forces a
//! pause, and pausing freezes the virtual clock that animation,
//! scrolling and enemy spawning are measured against.

use crate::enemy::EnemySpawner;
use crate::model::Models;
use crate::enemy::spawn_capacity_ok;
use crate::enemy::spawn_effect;
use crate::world::CollisionEvent;
use crate::world::EntityTag;
use crate::world::GameCommand;
use crate::world::SimulationWorld;
use crate::world::despawn_target;
use crate::world::hit_pair;
use crate::world::is_despawn_command;
use crate::world::record_in;
use crate::world::ticked_tables;
use vstd::prelude::*;

verus! {

/// The application's top-level screen.
#[derive(Clone, Copy, Debug, Hash, PartialEq, Eq, Structural)]
pub enum AppState {
    /// The start menu.
    MainMenu,
    /// A run is on screen.
    Game,
    /// The run ended; the game-over menu is on screen.
    GameOver,
}

impl Default for AppState {
    /// The application starts at the main menu.
    fn default() -> (r: Self)
        ensures
            r == AppState::MainMenu,
    {
        AppState::MainMenu
    }
}

/// Whether the simulation is advancing or frozen.
#[derive(Clone, Copy, Debug, Hash, PartialEq, Eq, Structural)]
pub enum GameState {
    /// The simulation advances.
    Running,
    /// The simulation is frozen.
    Paused,
}

impl Default for GameState {
    /// The simulation starts paused, until a run begins.
    fn default() -> (r: Self)
        ensures
            r == GameState::Paused,
    {
        GameState::Paused
    }
}

/// A request to move a state machine to this state.
#[derive(Clone, Copy, Debug, PartialEq, Eq, Structural)]
pub struct StateChangeEvent<S> {
    /// The state to move to.
    pub next_state: S,
}

/// The signal that a new run begins and prior run state was cleared.
#[derive(Clone, Copy, Debug, PartialEq, Eq, Structural)]
pub struct ResetGameEvent;

/// The pausable simulation clock: virtual milliseconds that advance
/// only while the simulation runs.
#[derive(Clone, Copy, Debug, PartialEq, Eq, Structural)]
pub struct SimulationClock {
    /// Virtual time since the simulation started, in milliseconds.
    pub elapsed_ms: u64,
    /// Whether the clock is frozen.
    pub paused: bool,
}

impl SimulationClock {
    /// A paused clock at time zero.
    pub fn new() -> (r: SimulationClock)
        ensures
            r.elapsed_ms == 0,
            r.paused,
    {
        SimulationClock { elapsed_ms: 0, paused: true }
    }

    /// Freezes the clock.
    pub fn pause(&mut self)
        ensures
            final(self).paused,
            final(self).elapsed_ms == old(self).elapsed_ms,
    {
        self.paused = true;
    }

    /// Resumes the clock.
    pub fn unpause(&mut self)
        ensures
            !final(self).paused,
            final(self).elapsed_ms == old(self).elapsed_ms,
    {
        self.paused = false;
    }

    /// Advances the clock by `delta_ms` real milliseconds: virtual
    /// time accumulates only while the clock runs, and saturates at
    /// the largest representable time.
    pub fn advance(&mut self, delta_ms: u32)
        ensures
            final(self).paused == old(self).paused,
            final(self).elapsed_ms == if old(self).paused {
                old(self).elapsed_ms as int
            } else if old(self).elapsed_ms + delta_ms <= u64::MAX {
                old(self).elapsed_ms + delta_ms
            } else {
                u64::MAX as int
            },
    {
        if !self.paused {
            if self.elapsed_ms <= u64::MAX - (delta_ms as u64) {
                self.elapsed_ms = self.elapsed_ms + (delta_ms as u64);
            } else {
                self.elapsed_ms = u64::MAX;
            }
        }
    }
}

/// Where the two state machines land when the application state is
/// asked to move: entering a run forces the simulation to run,
/// entering the game-over screen forces a pause, and returning to
/// the main menu leaves the simulation state alone.
pub open spec fn app_transition(game: GameState, next: AppState) -> (AppState, GameState) {
    match next {
        AppState::Game => (AppState::Game, GameState::Running),
        AppState::GameOver => (AppState::GameOver, GameState::Paused),
        AppState::MainMenu => (AppState::MainMenu, game),
    }
}

/// A run's death followed by a restart always lands in a running
/// game, whatever the simulation state was when death struck.
pub proof fn lemma_death_then_restart(game0: GameState)
    ensures
        ({
            let (a1, g1) = app_transition(game0, AppState::GameOver);
            let (a2, g2) = app_transition(g1, AppState::Game);
            a2 == AppState::Game && g2 == GameState::Running
        }),
{
}

/// Everything one simulation owns: the two state machines, the
/// pausable clock, the template registry, the live world and the
/// enemy spawner.
#[derive(Debug)]
pub struct SimulationContext {
    /// The application's top-level screen.
    pub app_state: AppState,
    /// Whether the simulation advances.
    pub game_state: GameState,
    /// The pausable simulation clock.
    pub clock: SimulationClock,
    /// The template registry, loaded once.
    pub models: Models,
    /// The live entities.
    pub world: SimulationWorld,
    /// The periodic enemy spawner.
    pub spawner: EnemySpawner,
}

impl SimulationContext {
    /// Structural invariant: the owned pieces are well formed, the
    /// clock freezes exactly while the simulation is paused, and the
    /// spawner never lies about the future.
    pub open spec fn wf(self) -> bool {
        &&& self.models.wf()
        &&& self.world.wf()
        &&& self.spawner.wf()
        &&& (self.game_state == GameState::Running <==> !self.clock.paused)
        &&& self.spawner.last_spawn_ms <= self.clock.elapsed_ms
    }

    /// A fresh simulation over a loaded registry: main menu, paused,
    /// clock at zero, empty world.
    pub fn new(models: Models) -> (r: SimulationContext)
        requires
            models.wf(),
        ensures
            r.wf(),
            r.app_state == AppState::MainMenu,
            r.game_state == GameState::Paused,
            r.clock.elapsed_ms == 0,
            r.world.entities().len() == 0,
    {
        SimulationContext {
            app_state: AppState::MainMenu,
            game_state: GameState::Paused,
            clock: SimulationClock::new(),
            models,
            world: SimulationWorld::new(),
            spawner: EnemySpawner::new(),
        }
    }

    /// Moves the application state machine, with its side effects:
    /// entering a run clears every enemy of the previous run, resets
    /// the simulation to running and resumes the clock, reporting
    /// the reset; entering the game-over screen pauses the
    /// simulation and the clock; returning to the main menu touches
    /// nothing else.
    pub fn set_app_state(&mut self, next: AppState) -> (reset: Option<ResetGameEvent>)
        requires
            old(self).wf(),
        ensures
            final(self).wf(),
            final(self).app_state == app_transition(old(self).game_state, next).0,
            final(self).game_state == app_transition(old(self).game_state, next).1,
            final(self).models == old(self).models,
            final(self).spawner == old(self).spawner,
            final(self).clock.elapsed_ms == old(self).clock.elapsed_ms,
            reset.is_some() == (next == AppState::Game),
            next == AppState::Game ==> crate::world::enemies_cleared(
                old(self).world,
                final(self).world,
            ),
            next != AppState::Game ==> final(self).world == old(self).world,
    {
        match next {
            AppState::Game => {
                self.app_state = AppState::Game;
                self.game_state = GameState::Running;
                self.clock.unpause();
                self.world.cleanup_enemy();
                Some(ResetGameEvent)
            },
            AppState::GameOver => {
                self.app_state = AppState::GameOver;
                self.game_state = GameState::Paused;
                self.clock.pause();
                None
            },
            AppState::MainMenu => {
                self.app_state = AppState::MainMenu;
                None
            },
        }
    }

    /// Applies one queued state-change request to the application
    /// state machine, with the same side effects as `set_app_state`.
    pub fn handle_state_change(&mut self, ev: StateChangeEvent<AppState>) -> (reset: Option<
        ResetGameEvent,
    >)
        requires
            old(self).wf(),
        ensures
            final(self).wf(),
            final(self).app_state == app_transition(old(self).game_state, ev.next_state).0,
            final(self).game_state == app_transition(old(self).game_state, ev.next_state).1,
            final(self).models == old(self).models,
            reset.is_some() == (ev.next_state == AppState::Game),
    {
        self.set_app_state(ev.next_state)
    }

    /// The player's pause action: while a run is on screen it
    /// toggles the simulation between running and paused, freezing
    /// or resuming the clock with it; on any other screen it does
    /// nothing.
    pub fn toggle_pause(&mut self)
        requires
            old(self).wf(),
        ensures
            final(self).wf(),
            final(self).app_state == old(self).app_state,
            final(self).models == old(self).models,
            final(self).world == old(self).world,
            final(self).spawner == old(self).spawner,
            final(self).clock.elapsed_ms == old(self).clock.elapsed_ms,
            old(self).app_state == AppState::Game ==> final(self).game_state == (if old(self).game_state == GameState::Running {
                GameState::Paused
            } else {
                GameState::Running
            }),
            old(self).app_state != AppState::Game ==> final(self).game_state == old(self).game_state && final(self).clock == old(self).clock,
    {
        match self.app_state {
            AppState::Game => {
                match self.game_state {
                    GameState::Running => {
                        self.game_state = GameState::Paused;
                        self.clock.pause();
                    },
                    GameState::Paused => {
                        self.game_state = GameState::Running;
                        self.clock.unpause();
                    },
                }
            },
            _ => {},
        }
    }

    /// A player death ends the run: the application moves to the
    /// game-over screen and the simulation pauses.
    pub fn on_player_death(&mut self)
        requires
            old(self).wf(),
        ensures
            final(self).wf(),
            final(self).app_state == AppState::GameOver,
            final(self).game_state == GameState::Paused,
            final(self).world == old(self).world,
            final(self).models == old(self).models,
    {
        let _ = self.set_app_state(AppState::GameOver);
    }

    /// One simulation tick of `delta_ms` real milliseconds, in the
    /// fixed system order: clock, animation, world scroll, enemy
    /// spawn, collision translation, command application, state
    /// transition.  While the simulation is paused the tick changes
    /// nothing.  While it runs, the tables advance and scroll
    /// deterministically, the spawner takes one step on the advanced
    /// world, the returned commands are exactly the collision
    /// verdicts over that mid-tick world, every despawn verdict has
    /// been applied, and any player hit has ended the run.
    pub fn tick(&mut self, delta_ms: u32, collisions: &Vec<CollisionEvent>) -> (cmds: Vec<
        GameCommand,
    >)
        requires
            old(self).wf(),
        ensures
            final(self).wf(),
            old(self).game_state == GameState::Paused ==> *final(self) == *old(self)
                && cmds@.len() == 0,
            final(self).models == old(self).models,
            old(self).game_state == GameState::Running ==> {
                &&& final(self).clock.elapsed_ms == (if old(self).clock.elapsed_ms + delta_ms
                    <= u64::MAX {
                    old(self).clock.elapsed_ms + delta_ms
                } else {
                    u64::MAX as int
                })
                &&& forall|t: int|
                    0 <= t < cmds@.len() ==> match #[trigger] cmds@[t] {
                        GameCommand::DespawnEntity(o) => !final(self).world.has_entity(o),
                        GameCommand::PlayerHit { .. } => true,
                    }
                &&& (exists|t: int|
                    0 <= t < cmds@.len() && (#[trigger] cmds@[t]) matches GameCommand::PlayerHit {
                        ..
                    }) ==> final(self).app_state == AppState::GameOver && final(self).game_state
                    == GameState::Paused
                &&& !(exists|t: int|
                    0 <= t < cmds@.len() && (#[trigger] cmds@[t]) matches GameCommand::PlayerHit {
                        ..
                    }) ==> final(self).app_state == old(self).app_state && final(self).game_state
                    == GameState::Running
                &&& exists|w1: SimulationWorld, mid: SimulationWorld, spawned: Option<u64>| {
                    &&& ticked_tables(old(self).world, w1, delta_ms as nat)
                    &&& #[trigger] spawn_effect(w1, mid, old(self).models, spawned)
                    &&& (final(self).clock.elapsed_ms - old(self).spawner.last_spawn_ms > old(self).spawner.next_delay_ms && old(self).models.entries().len() > 0
                        && spawn_capacity_ok(w1, old(self).models)) ==> spawned.is_some()
                    &&& (match spawned {
                        Some(_) => final(self).spawner.last_spawn_ms == final(self).clock.elapsed_ms,
                        None => final(self).spawner.last_spawn_ms == old(self).spawner.last_spawn_ms,
                    })
                    &&& forall|t: int|
                        0 <= t < cmds@.len() ==> match #[trigger] cmds@[t] {
                            GameCommand::DespawnEntity(o) => exists|q: int|
                                0 <= q < collisions@.len() && despawn_target(
                                    mid,
                                    #[trigger] collisions@[q],
                                    o,
                                ),
                            GameCommand::PlayerHit { player, enemy } => exists|q: int|
                                0 <= q < collisions@.len() && hit_pair(
                                    mid,
                                    #[trigger] collisions@[q],
                                    player,
                                    enemy,
                                ),
                        }
                    &&& forall|q: int, o: u64|
                        0 <= q < collisions@.len() && #[trigger] despawn_target(
                            mid,
                            collisions@[q],
                            o,
                        ) ==> exists|t: int|
                            0 <= t < cmds@.len() && (#[trigger] cmds@[t])
                                == GameCommand::DespawnEntity(o)
                    &&& forall|q: int, p: u64, en: u64|
                        0 <= q < collisions@.len() && #[trigger] hit_pair(
                            mid,
                            collisions@[q],
                            p,
                            en,
                        ) ==> exists|t: int|
                            0 <= t < cmds@.len() && (#[trigger] cmds@[t]) == (
                            GameCommand::PlayerHit { player: p, enemy: en })
                    &&& forall|i: int|
                        0 <= i < final(self).world.entities().len() ==> record_in(
                            #[trigger] final(self).world.entities()[i],
                            mid.entities(),
                        )
                    &&& forall|j: int|
                        0 <= j < mid.entities().len() && !is_despawn_command(
                            cmds@,
                            (#[trigger] mid.entities()[j]).id,
                        ) ==> record_in(mid.entities()[j], final(self).world.entities())
                }
            },
    {
        match self.game_state {
            GameState::Paused => {
                Vec::new()
            },
            GameState::Running => {
                self.clock.advance(delta_ms);
                self.world.update_animations(delta_ms);
                let ghost wa = self.world;
                self.world.update_world(delta_ms);
                let ghost w1 = self.world;
                proof {
                    assert forall|i: int|
                        0 <= i < old(self).world.entities().len() implies w1.entities()[i] == (if (
                        #[trigger] old(self).world.entities()[i]).tag == EntityTag::Enemy {
                            (crate::world::EntityRecord {
                                x: crate::world::scrolled_x(
                                    old(self).world.entities()[i].x as int,
                                    delta_ms as nat,
                                ) as i64,
                                ..old(self).world.entities()[i]
                            })
                        } else {
                            old(self).world.entities()[i]
                        }) by {
                        assert(wa.entities()[i] == old(self).world.entities()[i]);
                    }
                    assert forall|k: int|
                        0 <= k < old(self).world.animations().len() implies (
                    #[trigger] w1.animations()[k]).id == old(self).world.animations()[k].id
                        && w1.animations()[k].sprite.animation_data == old(self).world.animations()[k].sprite.animation_data
                        && w1.animations()[k].sprite.current_animation@
                        == crate::animation::ticked_clip(
                        old(self).world.animations()[k].sprite.current_animation@,
                        delta_ms as nat,
                    ) by {
                        assert(w1.animations()[k] == wa.animations()[k]);
                    }
                    assert(ticked_tables(old(self).world, w1, delta_ms as nat));
                }
                let now = self.clock.elapsed_ms;
                let spawned = self.spawner.tick(now, &self.models, &mut self.world);
                let ghost mid = self.world;
                proof {
                    assert(spawn_effect(w1, mid, old(self).models, spawned));
                }
                let cmds = self.world.translate_collisions(collisions);
                let hit = self.world.apply_commands(&cmds);
                let ghost pa = self.world;
                if hit {
                    let _ = self.set_app_state(AppState::GameOver);
                }
                proof {
                    assert(self.world == pa);
                    assert forall|i: int|
                        0 <= i < self.world.entities().len() implies record_in(
                        #[trigger] self.world.entities()[i],
                        mid.entities(),
                    ) by {
                        assert(self.world.entities()[i] == pa.entities()[i]);
                    }
                    assert forall|j: int|
                        0 <= j < mid.entities().len() && !is_despawn_command(
                            cmds@,
                            (#[trigger] mid.entities()[j]).id,
                        ) implies record_in(mid.entities()[j], self.world.entities()) by {
                        assert(record_in(mid.entities()[j], pa.entities()));
                        let u = choose|u: int|
                            0 <= u < pa.entities().len() && (#[trigger] pa.entities()[u])
                                == mid.entities()[j];
                        assert(self.world.entities()[u] == mid.entities()[j]);
                    }
                    assert forall|t: int|
                        0 <= t < cmds@.len() implies match #[trigger] cmds@[t] {
                        GameCommand::DespawnEntity(o) => !self.world.has_entity(o),
                        GameCommand::PlayerHit { .. } => true,
                    } by {
                        match cmds@[t] {
                            GameCommand::DespawnEntity(o) => {
                                if self.world.has_entity(o) {
                                    let u = choose|u: int|
                                        0 <= u < self.world.entities().len() && (
                                        #[trigger] self.world.entities()[u]).id == o;
                                    assert(pa.entities()[u].id == o);
                                }
                            },
                            GameCommand::PlayerHit { .. } => {},
                        }
                    }
                }
                cmds
            },
        }
    }
}

} // verus!
