use pogo_hurdling::components::{
    Competitor, DespawnWithLevel, Hurdle, Level, LevelEntity, Marker, PlayerSprite,
};
use pogo_hurdling::game_systems::competitors::{
    add_competitors, all_jumpers_find_hurdles, can_find_hurdle, hurdle_position,
    jump_over_hurdles, jump_over_next_hurdle, maintain_speed, next_hurdle, update_player_place,
    AppliedImpulse, Impulse, JumpOverNextHurdle, MaintainSpeed, CLEARANCE, COMPETITORS,
    JUMP_DISTANCE, START_LINE,
};
use pogo_hurdling::global_types::PlayerStatus;

const LOOK: JumpOverNextHurdle = JumpOverNextHurdle::LookForHurdleToJumpOver;
const PASSED: JumpOverNextHurdle = JumpOverNextHurdle::PassedAllHurdles;
const JUMP: Impulse = Impulse { x: 40_000, y: 100_000 };
const LAND: Impulse = Impulse { x: -40_000, y: -100_000 };

fn hurdle_at(x: i32) -> LevelEntity {
    let mut hurdle = LevelEntity::at(x);
    hurdle.hurdle = Some(Hurdle);
    hurdle
}

fn runner_at(x: i32, state: JumpOverNextHurdle) -> LevelEntity {
    let mut runner = LevelEntity::at(x);
    runner.competitor = Some(Competitor);
    runner.jump_over_next_hurdle = Some(state);
    runner
}

fn level_with_hurdles(places: &[i32]) -> Level {
    let mut level = Level::new();
    for x in places {
        level.spawn(hurdle_at(*x));
    }
    level
}

#[test]
fn the_thresholds_have_their_values() {
    assert_eq!(START_LINE, 100);
    assert_eq!(JUMP_DISTANCE, 4_000);
    assert_eq!(CLEARANCE, 2_000);
    assert_eq!(COMPETITORS, 4);
}

#[test]
fn a_runner_clears_one_hurdle_and_is_done() {
    let level = level_with_hurdles(&[20_000]);
    // Looks, and finds the hurdle.
    let (state, impulse) = jump_over_next_hurdle(LOOK, 5_000, &level);
    assert_eq!(state, JumpOverNextHurdle::PrepareToJumpOverHurdle(0));
    assert_eq!(impulse, None);
    // Closes in: nothing happens at four units or more.
    let (state, impulse) = jump_over_next_hurdle(state, 16_000, &level);
    assert_eq!(state, JumpOverNextHurdle::PrepareToJumpOverHurdle(0));
    assert_eq!(impulse, None);
    // Jumps within four units.
    let (state, impulse) = jump_over_next_hurdle(state, 16_001, &level);
    assert_eq!(state, JumpOverNextHurdle::JumpingOverHurdle(0));
    assert_eq!(impulse, Some(JUMP));
    // Stays in the jump up to two units past the hurdle.
    let (state, impulse) = jump_over_next_hurdle(state, 19_000, &level);
    assert_eq!(state, JumpOverNextHurdle::JumpingOverHurdle(0));
    assert_eq!(impulse, None);
    let (state, impulse) = jump_over_next_hurdle(state, 22_000, &level);
    assert_eq!(state, JumpOverNextHurdle::JumpingOverHurdle(0));
    assert_eq!(impulse, None);
    // Lands past that.
    let (state, impulse) = jump_over_next_hurdle(state, 22_001, &level);
    assert_eq!(state, LOOK);
    assert_eq!(impulse, Some(LAND));
    // Looks again, and no hurdle is left.
    let (state, impulse) = jump_over_next_hurdle(state, 22_500, &level);
    assert_eq!(state, PASSED);
    assert_eq!(impulse, None);
    // And stays so, wherever it is.
    let (state, impulse) = jump_over_next_hurdle(state, 1_000, &level);
    assert_eq!(state, PASSED);
    assert_eq!(impulse, None);
}

#[test]
fn a_runner_that_has_not_started_does_nothing() {
    let level = level_with_hurdles(&[20_000]);
    assert_eq!(jump_over_next_hurdle(LOOK, 100, &level), (LOOK, None));
    assert_eq!(jump_over_next_hurdle(LOOK, -5_000, &level), (LOOK, None));
    let busy = JumpOverNextHurdle::PrepareToJumpOverHurdle(0);
    assert_eq!(jump_over_next_hurdle(busy, 100, &level), (busy, None));
    let gone = JumpOverNextHurdle::JumpingOverHurdle(9);
    assert_eq!(jump_over_next_hurdle(gone, 0, &level), (gone, None));
    assert_eq!(
        jump_over_next_hurdle(LOOK, 101, &level),
        (JumpOverNextHurdle::PrepareToJumpOverHurdle(0), None)
    );
}

#[test]
fn a_runner_waits_while_a_hurdle_stands_at_the_start() {
    let level = level_with_hurdles(&[20_000, 100]);
    assert_eq!(jump_over_next_hurdle(LOOK, 5_000, &level), (LOOK, None));
    let level = level_with_hurdles(&[20_000, -3]);
    assert_eq!(jump_over_next_hurdle(LOOK, 5_000, &level), (LOOK, None));
    let level = level_with_hurdles(&[20_000, 101]);
    assert_eq!(
        jump_over_next_hurdle(LOOK, 5_000, &level),
        (JumpOverNextHurdle::PrepareToJumpOverHurdle(0), None)
    );
}

#[test]
fn the_next_hurdle_is_the_nearest_ahead() {
    let level = level_with_hurdles(&[50_000, 20_000, 35_000, 20_000, 5_000]);
    assert_eq!(next_hurdle(&level, 1_000), (false, Some(4)));
    assert_eq!(next_hurdle(&level, 5_000), (false, Some(1)));
    assert_eq!(next_hurdle(&level, 19_999), (false, Some(1)));
    assert_eq!(next_hurdle(&level, 20_000), (false, Some(2)));
    assert_eq!(next_hurdle(&level, 49_999), (false, Some(0)));
    assert_eq!(next_hurdle(&level, 50_000), (false, None));
    let empty = Level::new();
    assert_eq!(next_hurdle(&empty, 0), (false, None));
    let at_start = level_with_hurdles(&[0, 9_000]);
    assert_eq!(next_hurdle(&at_start, 1_000), (true, Some(1)));
}

#[test]
fn only_hurdles_are_hurdles() {
    let mut level = level_with_hurdles(&[7_000]);
    level.spawn(runner_at(9_000, LOOK));
    level.spawn(hurdle_at(12_000));
    level.despawn(2);
    assert_eq!(hurdle_position(&level, 0), Some(7_000));
    assert_eq!(hurdle_position(&level, 1), None);
    assert_eq!(hurdle_position(&level, 2), None);
    assert_eq!(hurdle_position(&level, 3), None);
    assert_eq!(next_hurdle(&level, 8_000), (false, None));
}

#[test]
fn a_runner_finds_its_hurdle_unless_it_is_gone() {
    let mut level = level_with_hurdles(&[7_000]);
    level.spawn(runner_at(9_000, LOOK));
    assert!(can_find_hurdle(LOOK, 5_000, &level));
    assert!(can_find_hurdle(PASSED, 5_000, &level));
    assert!(can_find_hurdle(JumpOverNextHurdle::PrepareToJumpOverHurdle(0), 5_000, &level));
    assert!(can_find_hurdle(JumpOverNextHurdle::JumpingOverHurdle(0), 5_000, &level));
    assert!(!can_find_hurdle(JumpOverNextHurdle::PrepareToJumpOverHurdle(1), 5_000, &level));
    assert!(!can_find_hurdle(JumpOverNextHurdle::JumpingOverHurdle(2), 5_000, &level));
    assert!(can_find_hurdle(JumpOverNextHurdle::JumpingOverHurdle(2), 100, &level));
    assert!(all_jumpers_find_hurdles(&level));
    level.spawn(runner_at(50, JumpOverNextHurdle::PrepareToJumpOverHurdle(9)));
    assert!(all_jumpers_find_hurdles(&level));
    level.spawn(runner_at(500, JumpOverNextHurdle::PrepareToJumpOverHurdle(9)));
    assert!(!all_jumpers_find_hurdles(&level));
}

#[test]
fn every_runner_moves_on_a_tick() {
    let mut level = level_with_hurdles(&[10_000, 30_000]);
    level.spawn(runner_at(2_000, LOOK));
    level.spawn(runner_at(7_000, JumpOverNextHurdle::PrepareToJumpOverHurdle(0)));
    level.spawn(runner_at(13_000, JumpOverNextHurdle::JumpingOverHurdle(0)));
    level.spawn(runner_at(31_000, LOOK));
    level.spawn(runner_at(50, LOOK));
    level.spawn(LevelEntity::at(5_000));
    let before = level.entities.clone();
    let impulses = jump_over_hurdles(&mut level);
    assert_eq!(
        impulses,
        vec![
            AppliedImpulse { entity: 3, impulse: JUMP },
            AppliedImpulse { entity: 4, impulse: LAND },
        ]
    );
    assert_eq!(level.entities.len(), before.len());
    assert_eq!(level.entities[0], before[0]);
    assert_eq!(level.entities[1], before[1]);
    assert_eq!(
        level.entities[2],
        Some(runner_at(2_000, JumpOverNextHurdle::PrepareToJumpOverHurdle(0)))
    );
    assert_eq!(level.entities[3], Some(runner_at(7_000, JumpOverNextHurdle::JumpingOverHurdle(0))));
    assert_eq!(level.entities[4], Some(runner_at(13_000, LOOK)));
    assert_eq!(level.entities[5], Some(runner_at(31_000, PASSED)));
    assert_eq!(level.entities[6], Some(runner_at(50, LOOK)));
    assert_eq!(level.entities[7], Some(LevelEntity::at(5_000)));
}

#[test]
fn a_slow_runner_is_pushed_up_to_its_speed() {
    let mut level = Level::new();
    let mut slow = LevelEntity::at(0);
    slow.maintain_speed = Some(MaintainSpeed(3_000));
    slow.velocity_x = 1_200;
    level.spawn(slow);
    let mut fast = LevelEntity::at(0);
    fast.maintain_speed = Some(MaintainSpeed(3_000));
    fast.velocity_x = 3_000;
    level.spawn(fast);
    let mut backwards = LevelEntity::at(0);
    backwards.maintain_speed = Some(MaintainSpeed(i32::MAX));
    backwards.velocity_x = i32::MIN;
    level.spawn(backwards);
    let mut idle = LevelEntity::at(0);
    idle.velocity_x = -9_000;
    level.spawn(idle);
    assert_eq!(
        maintain_speed(&level),
        vec![
            AppliedImpulse { entity: 0, impulse: Impulse { x: 1_800, y: 0 } },
            AppliedImpulse { entity: 2, impulse: Impulse { x: 4_294_967_295, y: 0 } },
        ]
    );
}

#[test]
fn four_runners_line_up() {
    let mut level = level_with_hurdles(&[10_000]);
    add_competitors(&mut level);
    assert_eq!(level.entities.len(), 5);
    assert_eq!(level.entities[0], Some(hurdle_at(10_000)));
    let places = [2_000, 5_000, 8_000, 11_000];
    let speeds = [3_000, 3_700, 4_400, 5_100];
    for i in 0..4 {
        let mut runner = runner_at(places[i], LOOK);
        runner.despawn_with_level = Some(DespawnWithLevel);
        runner.maintain_speed = Some(MaintainSpeed(speeds[i]));
        assert_eq!(level.entities[1 + i], Some(runner));
    }
}

fn race(player_x: Option<i32>, runners: &[i32]) -> Level {
    let mut level = level_with_hurdles(&[10_000]);
    for x in runners {
        level.spawn(runner_at(*x, LOOK));
    }
    if let Some(x) = player_x {
        let mut player = LevelEntity::at(x);
        player.player_sprite = Some(PlayerSprite);
        level.spawn(player);
    }
    level
}

#[test]
fn the_player_is_ranked_among_the_runners() {
    let mut status = PlayerStatus { distance_traveled: 7, time: 9, ..PlayerStatus::default() };
    update_player_place(&race(Some(6_000), &[2_000, 5_999, 6_000, 6_001, 9_000]), &mut status);
    assert_eq!(status.competitors_after, 2);
    assert_eq!(status.competitors_before, 3);
    assert_eq!(status.place(), 4);
    assert_eq!(status.total_runners(), 6);
    assert_eq!(status.distance_traveled, 7);
    assert_eq!(status.time, 9);
    update_player_place(&race(Some(100_000), &[2_000, 5_000, 8_000, 11_000]), &mut status);
    assert_eq!((status.competitors_before, status.competitors_after), (0, 4));
    assert_eq!(status.place(), 1);
    update_player_place(&race(Some(0), &[]), &mut status);
    assert_eq!((status.competitors_before, status.competitors_after), (0, 0));
}

#[test]
fn the_two_counts_make_up_all_runners() {
    let runners = [2_000, 5_000, 8_000, 11_000, -4_000, 5_000];
    for player_x in [-10_000, -4_000, 0, 2_000, 5_000, 5_001, 11_000, 11_001, 90_000] {
        let mut status = PlayerStatus::default();
        update_player_place(&race(Some(player_x), &runners), &mut status);
        assert_eq!(status.competitors_before + status.competitors_after, runners.len());
        let behind = runners.iter().filter(|x| **x < player_x).count();
        assert_eq!(status.competitors_after, behind);
    }
}

#[test]
fn without_a_player_no_place_is_recorded() {
    let mut status = PlayerStatus {
        distance_traveled: 1,
        time: 2,
        competitors_before: 3,
        competitors_after: 4,
    };
    update_player_place(&race(None, &[2_000, 5_000]), &mut status);
    assert_eq!(
        status,
        PlayerStatus { distance_traveled: 1, time: 2, competitors_before: 3, competitors_after: 4 }
    );
}

#[test]
fn of_two_players_the_last_is_ranked() {
    let mut level = race(Some(0), &[2_000, 5_000]);
    let mut second = LevelEntity::at(3_000);
    second.player_sprite = Some(PlayerSprite);
    level.spawn(second);
    let mut status = PlayerStatus::default();
    update_player_place(&level, &mut status);
    assert_eq!((status.competitors_before, status.competitors_after), (1, 1));
    assert!(level.is_marked(4, Marker::PlayerSprite));
}
