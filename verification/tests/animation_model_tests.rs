use side_scroller::animation::AnimatedSprite;
use side_scroller::animation::AnimationIndices;
use side_scroller::character::AnimationProperties;
use side_scroller::character::CapsuleColliderY;
use side_scroller::character::CharacterProperties;
use side_scroller::character::CharacterProperty;
use side_scroller::character::ColliderProperties;
use side_scroller::character::ColliderType;
use side_scroller::geometry::milli_mul;
use side_scroller::geometry::Vec2;
use side_scroller::model::Models;
use side_scroller::physics::CollisionGroup;

fn runner_property() -> CharacterProperty {
    let mut p = CharacterProperty::default();
    p.name = String::from("runner");
    p.file_path = String::from("runner.png");
    p.tile_size = Vec2 { x: 16_000, y: 32_000 };
    p.rows = 1;
    p.columns = 9;
    p.animations = vec![AnimationProperties {
        name: String::from("idle"),
        indices: vec![0, 1, 2],
        speed_ms: 100,
    }];
    p
}

#[test]
fn loaded_model_cycles_when_looped() {
    let p = runner_property();
    assert!(p.is_valid());
    let mut model = p.get_model();
    assert_eq!(model.animation.current_animation.name, "idle");
    assert_eq!(model.animation.current_animation.current_index, 0);
    assert!(model.animation.current_animation.looped);
    assert_eq!(model.animation.update(100), Some(1));
    assert_eq!(model.animation.current_animation.current_index, 1);
    assert_eq!(model.animation.update(100), Some(2));
    assert_eq!(model.animation.current_animation.current_index, 2);
    assert_eq!(model.animation.update(100), Some(0));
    assert_eq!(model.animation.current_animation.current_index, 0);
}

#[test]
fn non_looping_clip_clamps_at_last_frame() {
    let mut sprite = AnimatedSprite::default();
    sprite.add_animation("idle", vec![0, 1, 2], 100);
    sprite.queue_animation("idle", false, None);
    assert_eq!(sprite.update(100), Some(1));
    assert_eq!(sprite.update(100), Some(2));
    assert_eq!(sprite.update(100), Some(2));
    assert_eq!(sprite.current_animation.current_index, 2);
    assert_eq!(sprite.update(100), Some(2));
    assert_eq!(sprite.current_animation.current_index, 2);
}

#[test]
fn looped_clip_returns_to_start_after_full_cycle() {
    let mut sprite = AnimatedSprite::default();
    sprite.add_animation("spin", vec![4, 5, 6, 7], 50);
    sprite.queue_animation("spin", true, None);
    let start = sprite.current_animation.current_index;
    for _ in 0..4 {
        sprite.update(50);
    }
    assert_eq!(sprite.current_animation.current_index, start);
    assert_eq!(sprite.current_animation.elapsed_ms, 0);
}

#[test]
fn queue_animation_selects_named_clip_at_cursor_zero() {
    let mut sprite = AnimatedSprite::default();
    sprite.add_animation("idle", vec![0, 1], 100);
    sprite.add_animation("run", vec![3, 4, 5], 80);
    sprite.update(100);
    sprite.queue_animation("run", true, None);
    assert_eq!(sprite.current_animation.name, "run");
    assert_eq!(sprite.current_animation.current_index, 0);
    assert_eq!(sprite.current_animation.elapsed_ms, 0);
    assert!(sprite.current_animation.looped);
}

#[test]
fn queue_animation_with_unknown_name_is_a_no_op() {
    let mut sprite = AnimatedSprite::default();
    sprite.add_animation("idle", vec![0, 1], 100);
    sprite.queue_animation("idle", true, None);
    sprite.queue_animation("missing", false, None);
    assert_eq!(sprite.current_animation.name, "idle");
    assert!(sprite.current_animation.looped);
}

#[test]
fn add_animation_overwrites_clips_of_the_same_name() {
    let mut sprite = AnimatedSprite::default();
    sprite.add_animation("idle", vec![0, 1], 100);
    sprite.add_animation("idle", vec![5, 6, 7], 50);
    sprite.queue_animation("idle", true, None);
    assert_eq!(sprite.current_animation.indices, vec![5, 6, 7]);
    assert_eq!(sprite.current_animation.frame_duration_ms, 50);
    assert_eq!(sprite.update(50), Some(6));
}

#[test]
fn timer_fires_at_most_once_per_update() {
    let mut sprite = AnimatedSprite::default();
    sprite.add_animation("idle", vec![0, 1, 2], 100);
    sprite.queue_animation("idle", true, None);
    assert_eq!(sprite.update(250), Some(1));
    assert_eq!(sprite.current_animation.current_index, 1);
    assert_eq!(sprite.current_animation.elapsed_ms, 50);
    assert_eq!(sprite.update(50), Some(2));
}

#[test]
fn default_sprite_update_reports_no_frame() {
    let mut sprite = AnimatedSprite::default();
    assert_eq!(sprite.update(16), None);
    assert_eq!(sprite.current_animation.current_index, 0);
}

#[test]
fn static_range_indices_wrap_unconditionally() {
    let range = AnimationIndices { first: 3, last: 5 };
    assert_eq!(range.next_index(3), 4);
    assert_eq!(range.next_index(4), 5);
    assert_eq!(range.next_index(5), 3);
}

#[test]
fn validation_rejects_degenerate_animations() {
    let mut p = runner_property();
    assert!(p.is_valid());
    p.animations[0].indices = vec![];
    assert!(!p.is_valid());
    let mut q = runner_property();
    q.animations[0].speed_ms = 0;
    assert!(!q.is_valid());
    let mut r = runner_property();
    r.tile_size.x = -1;
    assert!(!r.is_valid());
    let mut s = runner_property();
    s.offset_tiles.x = 2_000_000_000;
    assert!(!s.is_valid());
}

#[test]
fn grid_layout_carries_geometry_and_computes_offset() {
    let mut p = runner_property();
    p.offset_fixed = Vec2 { x: 1_000, y: 2_000 };
    p.offset_tiles = Vec2 { x: 2_000, y: 0 };
    p.padding = Vec2 { x: 500, y: 0 };
    p.flip_x = true;
    let model = p.get_model();
    let layout = model.spritesheet.layout;
    assert_eq!(layout.tile_size, Vec2 { x: 16_000, y: 32_000 });
    assert_eq!(layout.columns, 9);
    assert_eq!(layout.rows, 1);
    assert_eq!(layout.padding, Vec2 { x: 500, y: 0 });
    assert_eq!(layout.offset, Vec2 { x: 33_000, y: 2_000 });
    assert_eq!(model.spritesheet.file_path, "runner.png");
    assert!(model.spritesheet.flip_x);
    assert_eq!(model.spritesheet.atlas_index, 0);
    assert_eq!(model.spritesheet.translation, Vec2 { x: 0, y: 16_000 });
}

#[test]
fn colliders_are_carried_over_in_order() {
    let mut p = runner_property();
    p.colliders = vec![
        ColliderProperties {
            collider: ColliderType::CapsuleY(CapsuleColliderY { radius: 500, height: 1_000 }),
            translation: Vec2 { x: 0, y: -5_000 },
        },
        ColliderProperties {
            collider: ColliderType::CapsuleY(CapsuleColliderY { radius: 250, height: 400 }),
            translation: Vec2 { x: 100, y: 0 },
        },
    ];
    let model = p.get_model();
    assert_eq!(model.colliders.len(), 2);
    assert_eq!(
        model.colliders[0].collider,
        ColliderType::CapsuleY(CapsuleColliderY { radius: 500, height: 1_000 })
    );
    assert_eq!(model.colliders[0].transform, Vec2 { x: 0, y: -5_000 });
    assert_eq!(model.colliders[1].transform, Vec2 { x: 100, y: 0 });
}

#[test]
fn registry_keeps_the_last_model_per_name() {
    let mut a = runner_property();
    a.name = String::from("a");
    let mut b = runner_property();
    b.name = String::from("b");
    let doc = CharacterProperties { characters: vec![a, b] };
    let mut models = Models::from_properties(&doc);
    assert_eq!(models.len(), 2);
    assert!(models.get("a").is_some());
    assert!(models.get("b").is_some());
    assert!(models.get("zzz").is_none());
    let mut c = runner_property();
    c.name = String::from("a");
    c.flip_x = true;
    models.insert(String::from("a"), c.get_model());
    assert_eq!(models.len(), 2);
    assert!(models.get("a").unwrap().spritesheet.flip_x);
}

#[test]
fn fixed_point_product_scales_back_to_thousandths() {
    assert_eq!(milli_mul(16_000, 2_000), 32_000);
    assert_eq!(milli_mul(0, 123_456), 0);
    assert_eq!(milli_mul(1_500, 1_500), 2_250);
}

#[test]
fn collision_groups_map_to_their_bits() {
    assert_eq!(CollisionGroup::Common.group(), 1);
    assert_eq!(CollisionGroup::Player.group(), 2);
    assert_eq!(CollisionGroup::Enemy.group(), 4);
    assert_eq!(CollisionGroup::Wall.group(), 8);
    assert_eq!(CollisionGroup::Spell.group(), 16);
    assert_eq!(CollisionGroup::Collectible.group(), 32);
    assert_eq!(CollisionGroup::All.group(), u32::MAX);
    assert_eq!(CollisionGroup::NoGroup.group(), 0);
}
