use pogo_hurdling::components::{
    ContactEvent, DespawnWithLevel, Ground, Hurdle, Level, LevelEntity, Marker, Player,
    PlayerHead, PlayerSprite,
};
use pogo_hurdling::game_systems::clear_level;
use pogo_hurdling::utils::{any_touch, entities_ordered_by_type, FrameClock, NANOS_PER_MILLI};

fn hurdle_at(x: i32) -> LevelEntity {
    let mut hurdle = LevelEntity::at(x);
    hurdle.hurdle = Some(Hurdle);
    hurdle.despawn_with_level = Some(DespawnWithLevel);
    hurdle
}

#[test]
fn a_bare_entity_carries_nothing() {
    let entity = LevelEntity::at(42);
    assert_eq!(entity.x, 42);
    assert_eq!(entity.velocity_x, 0);
    for marker in [
        Marker::DespawnWithLevel,
        Marker::CameraFollowTarget,
        Marker::PlayerSprite,
        Marker::Player,
        Marker::PlayerHead,
        Marker::Hurdle,
        Marker::Competitor,
        Marker::Ground,
        Marker::AutoBalance,
    ] {
        assert!(!entity.carries(marker));
    }
    assert_eq!(entity.jump_over_next_hurdle, None);
    assert_eq!(entity.maintain_speed, None);
}

#[test]
fn an_entity_carries_what_it_is_given() {
    let hurdle = hurdle_at(5);
    assert!(hurdle.carries(Marker::Hurdle));
    assert!(hurdle.carries(Marker::DespawnWithLevel));
    assert!(!hurdle.carries(Marker::Ground));
    assert!(!hurdle.carries(Marker::Player));
}

#[test]
fn handles_count_up_from_zero() {
    let mut level = Level::new();
    assert_eq!(level.get(0), None);
    assert_eq!(level.spawn(hurdle_at(1)), 0);
    assert_eq!(level.spawn(hurdle_at(2)), 1);
    assert_eq!(level.spawn(LevelEntity::at(3)), 2);
    assert_eq!(level.get(1), Some(hurdle_at(2)));
    assert_eq!(level.get(2), Some(LevelEntity::at(3)));
    assert_eq!(level.get(3), None);
}

#[test]
fn a_despawned_handle_finds_nothing_and_is_not_given_again() {
    let mut level = Level::new();
    level.spawn(hurdle_at(1));
    level.spawn(hurdle_at(2));
    assert!(level.despawn(0));
    assert!(!level.despawn(0));
    assert!(!level.despawn(7));
    assert_eq!(level.get(0), None);
    assert_eq!(level.get(1), Some(hurdle_at(2)));
    assert_eq!(level.spawn(hurdle_at(3)), 2);
    assert!(!level.is_marked(0, Marker::Hurdle));
    assert!(level.is_marked(1, Marker::Hurdle));
}

#[test]
fn motion_is_recorded_where_there_is_an_entity() {
    let mut level = Level::new();
    level.spawn(hurdle_at(1));
    assert!(level.set_motion(0, 77, -5));
    let mut moved = hurdle_at(77);
    moved.velocity_x = -5;
    assert_eq!(level.get(0), Some(moved));
    assert!(!level.set_motion(1, 1, 1));
    level.despawn(0);
    assert!(!level.set_motion(0, 1, 1));
    assert_eq!(level.get(0), None);
}

#[test]
fn the_position_of_a_marker_is_that_of_its_last_carrier() {
    let mut level = Level::new();
    assert_eq!(level.position_of(Marker::Hurdle), None);
    level.spawn(hurdle_at(10));
    level.spawn(LevelEntity::at(20));
    assert_eq!(level.position_of(Marker::Hurdle), Some(10));
    level.spawn(hurdle_at(-30));
    level.spawn(LevelEntity::at(40));
    assert_eq!(level.position_of(Marker::Hurdle), Some(-30));
    assert_eq!(level.position_of(Marker::Ground), None);
    level.despawn(2);
    assert_eq!(level.position_of(Marker::Hurdle), Some(10));
}

#[test]
fn clearing_removes_what_is_marked_and_nothing_else() {
    let mut level = Level::new();
    level.spawn(hurdle_at(10));
    level.spawn(LevelEntity::at(20));
    level.spawn(hurdle_at(30));
    level.despawn(0);
    let mut kept = LevelEntity::at(40);
    kept.ground = Some(Ground);
    level.spawn(kept);
    let despawned = clear_level(&mut level);
    assert_eq!(despawned, vec![2]);
    assert_eq!(level.entities, vec![None, Some(LevelEntity::at(20)), None, Some(kept)]);
    for handle in 0..level.entities.len() {
        assert!(!level.is_marked(handle, Marker::DespawnWithLevel));
    }
    assert_eq!(clear_level(&mut level), Vec::<usize>::new());
}

fn contact_level() -> Level {
    let mut level = Level::new();
    let mut ground = LevelEntity::at(0);
    ground.ground = Some(Ground);
    level.spawn(ground);
    let mut head = LevelEntity::at(0);
    head.player = Some(Player);
    head.player_head = Some(PlayerHead);
    level.spawn(head);
    let mut stick = LevelEntity::at(0);
    stick.player = Some(Player);
    level.spawn(stick);
    level.spawn(hurdle_at(5));
    let mut sprite = LevelEntity::at(0);
    sprite.player_sprite = Some(PlayerSprite);
    level.spawn(sprite);
    level
}

#[test]
fn two_entities_are_ordered_by_what_they_are() {
    let level = contact_level();
    assert_eq!(
        entities_ordered_by_type(&level, (0, 1), Marker::Ground, Marker::PlayerHead),
        Some((0, 1))
    );
    assert_eq!(
        entities_ordered_by_type(&level, (1, 0), Marker::Ground, Marker::PlayerHead),
        Some((0, 1))
    );
    assert_eq!(
        entities_ordered_by_type(&level, (0, 2), Marker::Ground, Marker::PlayerHead),
        None
    );
    assert_eq!(
        entities_ordered_by_type(&level, (2, 3), Marker::Hurdle, Marker::Player),
        Some((3, 2))
    );
    assert_eq!(
        entities_ordered_by_type(&level, (1, 2), Marker::Player, Marker::Player),
        Some((1, 2))
    );
    assert_eq!(entities_ordered_by_type(&level, (0, 9), Marker::Ground, Marker::Player), None);
    assert_eq!(entities_ordered_by_type(&level, (0, 0), Marker::Ground, Marker::Ground), Some((0, 0)));
}

#[test]
fn only_a_contact_that_starts_is_a_touch() {
    let level = contact_level();
    let none: Vec<ContactEvent> = Vec::new();
    assert!(!any_touch(&none, &level, Marker::Ground, Marker::PlayerHead));
    let stopped = vec![ContactEvent::Stopped(0, 1)];
    assert!(!any_touch(&stopped, &level, Marker::Ground, Marker::PlayerHead));
    let others = vec![ContactEvent::Started(0, 2), ContactEvent::Started(3, 0)];
    assert!(!any_touch(&others, &level, Marker::Ground, Marker::PlayerHead));
    let last = vec![
        ContactEvent::Started(0, 2),
        ContactEvent::Stopped(1, 0),
        ContactEvent::Started(1, 0),
    ];
    assert!(any_touch(&last, &level, Marker::Ground, Marker::PlayerHead));
    assert!(!any_touch(&last, &level, Marker::Hurdle, Marker::Player));
}

#[test]
fn the_clock_counts_whole_milliseconds() {
    assert_eq!(NANOS_PER_MILLI, 1_000_000);
    let mut clock = FrameClock::new();
    assert_eq!(clock.carry(), 0);
    assert_eq!(clock.tick(0), 0);
    assert_eq!(clock.tick(16_666_667), 16);
    assert_eq!(clock.carry(), 666_667);
    assert_eq!(clock.tick(16_666_667), 17);
    assert_eq!(clock.carry(), 333_334);
    assert_eq!(clock.tick(16_666_667), 17);
    assert_eq!(clock.carry(), 1);
    assert_eq!(clock.tick(999_998), 0);
    assert_eq!(clock.carry(), 999_999);
    assert_eq!(clock.tick(1), 1);
    assert_eq!(clock.carry(), 0);
}

#[test]
fn the_clock_loses_no_time_in_the_long_run() {
    let mut clock = FrameClock::new();
    let mut millis: u64 = 0;
    for _ in 0..1_000 {
        millis += clock.tick(6_944_444) as u64;
    }
    assert_eq!(millis, 6_944);
    assert_eq!(clock.carry(), 444_000);
}

#[test]
fn the_clock_holds_a_frame_too_long_for_a_tick_at_the_longest_tick() {
    let longest = u32::MAX as u128 * 1_000_000;
    let mut clock = FrameClock::new();
    assert_eq!(clock.tick(longest + 999_999), u32::MAX);
    assert_eq!(clock.carry(), 999_999);
    assert_eq!(clock.tick(longest + 1), u32::MAX);
    assert_eq!(clock.carry(), 0);
    assert_eq!(clock.tick(999_999), 0);
    assert_eq!(clock.tick(longest + 1_000_000), u32::MAX);
    assert_eq!(clock.carry(), 0);
    assert_eq!(clock.tick(u128::MAX), u32::MAX);
    assert_eq!(clock.carry(), 0);
}
