use side_scroller::animation::AnimatedSprite;
use side_scroller::character::AnimationProperties;
use side_scroller::character::CapsuleColliderY;
use side_scroller::character::CharacterProperties;
use side_scroller::character::CharacterProperty;
use side_scroller::character::ColliderProperties;
use side_scroller::character::ColliderType;
use side_scroller::enemy::EnemySpawner;
use side_scroller::geometry::Vec2;
use side_scroller::model::Model;
use side_scroller::model::Models;
use side_scroller::model::SpriteSheet;
use side_scroller::model::GridLayout;
use side_scroller::physics::ColliderChild;
use side_scroller::player::Player;
use side_scroller::state::AppState;
use side_scroller::state::GameState;
use side_scroller::state::SimulationClock;
use side_scroller::state::SimulationContext;
use side_scroller::state::StateChangeEvent;
use side_scroller::world::CollisionEvent;
use side_scroller::world::EntityTag;
use side_scroller::world::GameCommand;
use side_scroller::world::SimulationWorld;

fn capsule() -> ColliderType {
    ColliderType::CapsuleY(CapsuleColliderY { radius: 500, height: 1_000 })
}

fn bare_model(collider_count: usize) -> Model {
    let mut colliders = Vec::new();
    for _ in 0..collider_count {
        colliders.push(ColliderChild { collider: capsule(), transform: Vec2 { x: 0, y: 0 } });
    }
    Model {
        spritesheet: SpriteSheet {
            file_path: String::from("sheet.png"),
            layout: GridLayout {
                tile_size: Vec2 { x: 16_000, y: 16_000 },
                columns: 1,
                rows: 1,
                padding: Vec2 { x: 0, y: 0 },
                offset: Vec2 { x: 0, y: 0 },
            },
            atlas_index: 0,
            flip_x: false,
            translation: Vec2 { x: 0, y: 16_000 },
        },
        animation: AnimatedSprite::default(),
        colliders,
    }
}

fn enemy_doc() -> CharacterProperties {
    let mut p = CharacterProperty::default();
    p.name = String::from("crab");
    p.file_path = String::from("crab.png");
    p.tile_size = Vec2 { x: 16_000, y: 16_000 };
    p.rows = 1;
    p.columns = 4;
    p.animations = vec![AnimationProperties {
        name: String::from("idle"),
        indices: vec![0, 1],
        speed_ms: 120,
    }];
    p.colliders = vec![ColliderProperties {
        collider: capsule(),
        translation: Vec2 { x: 0, y: 0 },
    }];
    CharacterProperties { characters: vec![p] }
}

#[test]
fn despawn_sensor_removes_exactly_the_touched_enemy() {
    let mut world = SimulationWorld::new();
    let sensor = world.spawn_bare(EntityTag::Despawner, -500_000, 0).unwrap();
    let model = bare_model(1);
    let enemy_a = model.spawn(&mut world, EntityTag::Enemy, -499_000, 0).unwrap();
    let enemy_b = model.spawn(&mut world, EntityTag::Enemy, 300_000, 0).unwrap();
    let child_of_a = enemy_a + 1;
    let events = vec![CollisionEvent::Started(sensor, child_of_a)];
    let cmds = world.translate_collisions(&events);
    assert_eq!(cmds.len(), 1);
    assert!(matches!(cmds[0], GameCommand::DespawnEntity(id) if id == enemy_a));
    let hit = world.apply_commands(&cmds);
    assert!(!hit);
    assert!(!world.contains_entity(enemy_a));
    assert!(!world.contains_entity(child_of_a));
    assert!(world.contains_entity(enemy_b));
    assert!(world.contains_entity(sensor));
}

#[test]
fn stale_collision_reports_are_skipped() {
    let mut world = SimulationWorld::new();
    let sensor = world.spawn_bare(EntityTag::Despawner, -500_000, 0).unwrap();
    let events = vec![
        CollisionEvent::Started(sensor, 9_999),
        CollisionEvent::Started(7_777, 8_888),
        CollisionEvent::Stopped(sensor, sensor),
    ];
    let cmds = world.translate_collisions(&events);
    assert_eq!(cmds.len(), 0);
}

#[test]
fn player_touching_enemy_reports_a_hit() {
    let mut world = SimulationWorld::new();
    let model = bare_model(1);
    let player = model.spawn(&mut world, EntityTag::Player, 0, 0).unwrap();
    let enemy = model.spawn(&mut world, EntityTag::Enemy, 5_000, 0).unwrap();
    let events = vec![CollisionEvent::Started(player + 1, enemy + 1)];
    let cmds = world.translate_collisions(&events);
    assert_eq!(cmds.len(), 1);
    assert!(
        matches!(cmds[0], GameCommand::PlayerHit { player: p, enemy: e } if p == player && e == enemy)
    );
    let hit = world.apply_commands(&cmds);
    assert!(hit);
}

#[test]
fn world_scroll_moves_enemies_left_only() {
    let mut world = SimulationWorld::new();
    let model = bare_model(0);
    let enemy = model.spawn(&mut world, EntityTag::Enemy, 500_000, 0).unwrap();
    let ground = world.spawn_bare(EntityTag::Ground, 0, -1_000).unwrap();
    world.update_world(10);
    assert_eq!(world.position_of(enemy), Some((499_000, 0)));
    assert_eq!(world.position_of(ground), Some((0, -1_000)));
}

#[test]
fn despawn_removes_the_entity_and_its_collider_children() {
    let mut world = SimulationWorld::new();
    let model = bare_model(2);
    let id = model.spawn(&mut world, EntityTag::Enemy, 0, 0).unwrap();
    assert_eq!(world.entity_count(), 1);
    assert_eq!(world.collider_count(), 2);
    world.despawn_recursive(id);
    assert_eq!(world.entity_count(), 0);
    assert_eq!(world.collider_count(), 0);
    assert!(!world.contains_entity(id));
}

#[test]
fn spawner_samples_delays_from_the_spawn_interval() {
    for _ in 0..50 {
        let spawner = EnemySpawner::new();
        assert!(spawner.next_delay_ms >= 800);
        assert!(spawner.next_delay_ms < 1500);
    }
    assert_eq!(EnemySpawner::delay_from_sample(0), 800);
    assert_eq!(EnemySpawner::delay_from_sample(699), 1499);
    assert_eq!(EnemySpawner::delay_from_sample(700), 800);
}

#[test]
fn spawner_spawns_once_due_and_rerolls_its_delay() {
    let models = Models::from_properties(&enemy_doc());
    let mut world = SimulationWorld::new();
    let mut spawner = EnemySpawner::new();
    assert_eq!(spawner.tick(100, &models, &mut world), None);
    assert_eq!(world.entity_count(), 0);
    let spawned = spawner.tick(2_000, &models, &mut world);
    let id = spawned.expect("a spawn was due");
    assert_eq!(world.position_of(id), Some((500_000, 0)));
    // the template's one collider child came along
    assert_eq!(world.collider_count(), 1);
    assert_eq!(spawner.last_spawn_ms, 2_000);
    assert!(spawner.next_delay_ms >= 800 && spawner.next_delay_ms < 1500);
}

#[test]
fn spawner_does_nothing_with_an_empty_registry() {
    let models = Models::new();
    let mut world = SimulationWorld::new();
    let mut spawner = EnemySpawner::new();
    assert_eq!(spawner.tick(1_000_000, &models, &mut world), None);
    assert_eq!(world.entity_count(), 0);
}

#[test]
fn death_then_restart_resumes_running_with_no_enemies() {
    let models = Models::from_properties(&enemy_doc());
    let mut ctx = SimulationContext::new(models);
    ctx.set_app_state(AppState::Game);
    assert_eq!(ctx.app_state, AppState::Game);
    assert_eq!(ctx.game_state, GameState::Running);
    let model = bare_model(1);
    model.spawn(&mut ctx.world, EntityTag::Enemy, 400_000, 0).unwrap();
    assert!(ctx.world.has_tagged(EntityTag::Enemy));
    assert_eq!(ctx.world.collider_count(), 1);
    ctx.on_player_death();
    assert_eq!(ctx.app_state, AppState::GameOver);
    assert_eq!(ctx.game_state, GameState::Paused);
    let reset = ctx.set_app_state(AppState::Game);
    assert!(reset.is_some());
    assert_eq!(ctx.app_state, AppState::Game);
    assert_eq!(ctx.game_state, GameState::Running);
    assert!(!ctx.world.has_tagged(EntityTag::Enemy));
    assert_eq!(ctx.world.collider_count(), 0);
}

#[test]
fn pause_toggles_only_during_a_run() {
    let mut ctx = SimulationContext::new(Models::new());
    ctx.toggle_pause();
    assert_eq!(ctx.game_state, GameState::Paused);
    ctx.set_app_state(AppState::Game);
    ctx.toggle_pause();
    assert_eq!(ctx.game_state, GameState::Paused);
    ctx.toggle_pause();
    assert_eq!(ctx.game_state, GameState::Running);
}

#[test]
fn paused_tick_changes_nothing() {
    let mut ctx = SimulationContext::new(Models::new());
    let model = bare_model(0);
    let id = model.spawn(&mut ctx.world, EntityTag::Enemy, 123_000, 0).unwrap();
    let cmds = ctx.tick(16, &vec![]);
    assert_eq!(cmds.len(), 0);
    assert_eq!(ctx.clock.elapsed_ms, 0);
    assert_eq!(ctx.world.position_of(id), Some((123_000, 0)));
}

#[test]
fn running_tick_advances_clock_and_scrolls() {
    let mut ctx = SimulationContext::new(Models::new());
    ctx.set_app_state(AppState::Game);
    let model = bare_model(0);
    let id = model.spawn(&mut ctx.world, EntityTag::Enemy, 123_000, 0).unwrap();
    let cmds = ctx.tick(16, &vec![]);
    assert_eq!(cmds.len(), 0);
    assert_eq!(ctx.clock.elapsed_ms, 16);
    assert_eq!(ctx.world.position_of(id), Some((121_400, 0)));
    assert_eq!(ctx.app_state, AppState::Game);
    assert_eq!(ctx.game_state, GameState::Running);
}

#[test]
fn a_hit_during_a_tick_ends_the_run() {
    let mut ctx = SimulationContext::new(Models::new());
    ctx.set_app_state(AppState::Game);
    let model = bare_model(1);
    let player = model.spawn(&mut ctx.world, EntityTag::Player, 0, 0).unwrap();
    let enemy = model.spawn(&mut ctx.world, EntityTag::Enemy, 2_000, 0).unwrap();
    let events = vec![CollisionEvent::Started(player + 1, enemy + 1)];
    let cmds = ctx.tick(16, &events);
    assert!(cmds
        .iter()
        .any(|c| matches!(c, GameCommand::PlayerHit { .. })));
    assert_eq!(ctx.app_state, AppState::GameOver);
    assert_eq!(ctx.game_state, GameState::Paused);
}

#[test]
fn queued_state_change_requests_are_applied() {
    let mut ctx = SimulationContext::new(Models::new());
    let reset = ctx.handle_state_change(StateChangeEvent { next_state: AppState::Game });
    assert!(reset.is_some());
    assert_eq!(ctx.app_state, AppState::Game);
    let reset = ctx.handle_state_change(StateChangeEvent { next_state: AppState::MainMenu });
    assert!(reset.is_none());
    assert_eq!(ctx.app_state, AppState::MainMenu);
}

#[test]
fn simulation_clock_freezes_while_paused() {
    let mut clock = SimulationClock::new();
    clock.advance(100);
    assert_eq!(clock.elapsed_ms, 0);
    clock.unpause();
    clock.advance(100);
    clock.advance(16);
    assert_eq!(clock.elapsed_ms, 116);
    clock.pause();
    clock.advance(100);
    assert_eq!(clock.elapsed_ms, 116);
}

#[test]
fn grounded_player_can_jump() {
    let mut player = Player::default();
    assert_eq!(player.player_jump(true), None);
    player.ground_check(Some(42));
    assert!(player.is_grounded);
    assert_eq!(player.player_jump(true), Some(Vec2 { x: 0, y: 300_000 }));
    assert_eq!(player.player_jump(false), None);
    player.ground_check(None);
    assert!(!player.is_grounded);
    assert_eq!(player.player_jump(true), None);
}
