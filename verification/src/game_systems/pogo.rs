//! The player on the pogo stick: how it enters a level, how it is turned and
//! kept upright, when it leaves the track, and what is recorded of its run.

use crate::components::{
    last_position, marked, AutoBalance, CameraFollowTarget, DespawnWithLevel, Level, LevelEntity,
    Marker, Player, PlayerHead, PlayerSprite,
};
use crate::game_systems::Session;
use crate::global_types::{AppState, GameBoundaries, GameOver, MenuState, PlayerStatus};
use crate::utils::towards_zero;
use vstd::prelude::*;

verus! {

/// The body of the player as it enters a level: at the start of the track,
/// kept upright, followed by the camera.
pub open spec fn player_sprite_entity() -> LevelEntity {
    LevelEntity {
        despawn_with_level: Some(DespawnWithLevel),
        auto_balance: Some(AutoBalance),
        camera_follow_target: Some(CameraFollowTarget),
        player_sprite: Some(PlayerSprite),
        ..LevelEntity::bare(0)
    }
}

/// The head of the player as it enters a level.
pub open spec fn player_head_entity() -> LevelEntity {
    LevelEntity {
        despawn_with_level: Some(DespawnWithLevel),
        player: Some(Player),
        player_head: Some(PlayerHead),
        ..LevelEntity::bare(0)
    }
}

/// The stick of the player as it enters a level.
pub open spec fn player_stick_entity() -> LevelEntity {
    LevelEntity {
        despawn_with_level: Some(DespawnWithLevel),
        player: Some(Player),
        ..LevelEntity::bare(0)
    }
}

/// The handles of the three entities that make up the player.
#[derive(Debug, PartialEq, Eq, Clone, Copy, Structural)]
pub struct PlayerParts {
    pub sprite: usize,
    pub head: usize,
    pub stick: usize,
}

/// Puts the player into the level: its body, its head and its stick, in
/// this order, under the next three handles.
pub fn spawn_player(level: &mut Level) -> (parts: PlayerParts)
    ensures
        parts.sprite == old(level)@.len(),
        parts.head == old(level)@.len() + 1,
        parts.stick == old(level)@.len() + 2,
        final(level)@ == old(level)@.push(Some(player_sprite_entity())).push(
            Some(player_head_entity()),
        ).push(Some(player_stick_entity())),
{
    let mut sprite: LevelEntity = LevelEntity::at(0);
    sprite.despawn_with_level = Some(DespawnWithLevel);
    sprite.auto_balance = Some(AutoBalance);
    sprite.camera_follow_target = Some(CameraFollowTarget);
    sprite.player_sprite = Some(PlayerSprite);
    let sprite_handle: usize = level.spawn(sprite);

    let mut head: LevelEntity = LevelEntity::at(0);
    head.despawn_with_level = Some(DespawnWithLevel);
    head.player = Some(Player);
    head.player_head = Some(PlayerHead);
    let head_handle: usize = level.spawn(head);

    let mut stick: LevelEntity = LevelEntity::at(0);
    stick.despawn_with_level = Some(DespawnWithLevel);
    stick.player = Some(Player);
    let stick_handle: usize = level.spawn(stick);

    PlayerParts { sprite: sprite_handle, head: head_handle, stick: stick_handle }
}

/// What one input says of turning the player: how far its axis is pushed,
/// in thousandths, and whether it has been let go.
#[derive(Debug, PartialEq, Eq, Clone, Copy, Structural)]
pub struct AxisValue {
    pub value: i16,
    pub released: bool,
}

/// The sum of the values of the first `n` of `axes` that are held.
pub open spec fn held_sum(axes: Seq<AxisValue>, n: int) -> int
    decreases n,
{
    if n <= 0 {
        0
    } else if axes[n - 1].released {
        held_sum(axes, n - 1)
    } else {
        held_sum(axes, n - 1) + axes[n - 1].value
    }
}

/// The number of the first `n` of `axes` that are held.
pub open spec fn held_count(axes: Seq<AxisValue>, n: int) -> int
    decreases n,
{
    if n <= 0 {
        0
    } else if axes[n - 1].released {
        held_count(axes, n - 1)
    } else {
        held_count(axes, n - 1) + 1
    }
}

/// The turn that the held inputs ask for together: the mean of their values
/// against the push, in thousandths, rounded towards zero.
pub open spec fn spin_value(axes: Seq<AxisValue>) -> int {
    towards_zero(-held_sum(axes, axes.len() as int), held_count(axes, axes.len() as int))
}

/// The torque impulse with which the player turns on a tick of `dt`
/// milliseconds, in millionths: thirty a second for a full push, in
/// proportion to the mean of the held inputs. Nothing while no input is
/// held.
pub fn player_controls(dt: u32, axes: &Vec<AxisValue>) -> (torque: Option<i64>)
    ensures
        torque is Some <==> held_count(axes@, axes.len() as int) > 0,
        torque matches Some(t) ==> t == dt * 30 * spin_value(axes@),
{
    let mut sum: i128 = 0;
    let mut num_participating: usize = 0;
    let mut i: usize = 0;
    while i < axes.len()
        invariant
            i <= axes.len(),
            sum == -held_sum(axes@, i as int),
            num_participating == held_count(axes@, i as int),
            0 <= num_participating <= i,
            -32767 * num_participating <= sum <= 32768 * num_participating,
        decreases axes.len() - i,
    {
        if !axes[i].released {
            num_participating = num_participating + 1;
            sum = sum - axes[i].value as i128;
        }
        i = i + 1;
    }
    if 0 < num_participating {
        let count: i128 = num_participating as i128;
        let ghost total: int = sum as int;
        let ghost among: int = count as int;
        assert(-32768 <= towards_zero(total, among) <= 32768) by (nonlinear_arith)
            requires
                among > 0,
                -32767 * among <= total <= 32768 * among,
        ;
        let spin: i128 = if sum >= 0 {
            sum / count
        } else {
            -((-sum) / count)
        };
        assert(spin == towards_zero(total, among));
        assert(-0xffff_ffff * 30 * 32768 <= dt * 30 * spin <= 0xffff_ffff * 30 * 32768)
            by (nonlinear_arith)
            requires
                0 <= dt <= 0xffff_ffff,
                -32768 <= spin <= 32768,
        ;
        let torque: i128 = (dt as i128) * 30 * spin;
        Some(torque as i64)
    } else {
        None
    }
}

/// The lean from which the player is set upright, in thousandths of a
/// radian.
pub const BALANCE_FROM: i32 = 200;

/// The lean beyond which the player is set upright no harder.
pub const BALANCE_FULL: i32 = 1000;

/// `angle` held within a full lean to either side.
pub open spec fn clamped_lean(angle: int) -> int {
    if angle < -BALANCE_FULL {
        -BALANCE_FULL
    } else if angle > BALANCE_FULL {
        BALANCE_FULL as int
    } else {
        angle
    }
}

/// The torque impulse that sets a player upright who leans by `angle`
/// thousandths of a radian, on a tick of `dt` milliseconds, in millionths:
/// twenty a second for a full lean, against the lean. Nothing for a lean of
/// less than `BALANCE_FROM`.
pub fn automatically_balance_player(angle: i32, dt: u32) -> (torque: Option<i64>)
    ensures
        torque is Some <==> (angle <= -BALANCE_FROM || BALANCE_FROM <= angle),
        torque matches Some(t) ==> t == dt * 20 * -clamped_lean(angle as int),
{
    if angle <= -BALANCE_FROM || BALANCE_FROM <= angle {
        let lean: i64 = if angle < -BALANCE_FULL {
            -(BALANCE_FULL as i64)
        } else if angle > BALANCE_FULL {
            BALANCE_FULL as i64
        } else {
            angle as i64
        };
        assert(-0xffff_ffff * 20 * 1000 <= dt * 20 * -lean <= 0xffff_ffff * 20 * 1000)
            by (nonlinear_arith)
            requires
                0 <= dt <= 0xffff_ffff,
                -1000 <= lean <= 1000,
        ;
        Some((dt as i64) * 20 * -lean)
    } else {
        None
    }
}

/// How a race ends for a player at `x`: the wrong way to the left of the
/// track, at the finish line to the right of it, not at all on it.
pub open spec fn out_of_bounds(x: int, boundaries: GameBoundaries) -> Option<GameOver> {
    if x < boundaries.left {
        Some(GameOver::WrongWay)
    } else if boundaries.right < x {
        Some(GameOver::FinishLine)
    } else {
        None
    }
}

/// How the race ends for the first of the first `n` entities that is a
/// player off the track, if there is one.
pub open spec fn first_out_of_bounds(
    entities: Seq<Option<LevelEntity>>,
    boundaries: GameBoundaries,
    n: int,
) -> Option<GameOver>
    decreases n,
{
    if n <= 0 {
        None
    } else if first_out_of_bounds(entities, boundaries, n - 1) is Some {
        first_out_of_bounds(entities, boundaries, n - 1)
    } else if marked(entities, n - 1, Marker::PlayerSprite) {
        out_of_bounds(entities[n - 1]->0.x as int, boundaries)
    } else {
        None
    }
}

/// How the race ends by the place of the player, if it does.
pub fn find_out_of_bounds(level: &Level, boundaries: &GameBoundaries) -> (reason: Option<GameOver>)
    ensures
        reason == first_out_of_bounds(level@, *boundaries, level@.len() as int),
{
    let mut i: usize = 0;
    while i < level.entities.len()
        invariant
            i <= level.entities.len(),
            first_out_of_bounds(level@, *boundaries, i as int) is None,
        decreases level.entities.len() - i,
    {
        match level.entities[i] {
            Some(entity) => {
                if entity.player_sprite.is_some() {
                    if entity.x < boundaries.left {
                        assert(first_out_of_bounds(level@, *boundaries, i + 1) == Some(
                            GameOver::WrongWay,
                        ));
                        proof {
                            lemma_first_out_of_bounds_stays(level@, *boundaries, i + 1, level@.len() as int);
                        }
                        return Some(GameOver::WrongWay);
                    } else if boundaries.right < entity.x {
                        assert(first_out_of_bounds(level@, *boundaries, i + 1) == Some(
                            GameOver::FinishLine,
                        ));
                        proof {
                            lemma_first_out_of_bounds_stays(level@, *boundaries, i + 1, level@.len() as int);
                        }
                        return Some(GameOver::FinishLine);
                    }
                }
            },
            None => {},
        }
        i = i + 1;
    }
    None
}

/// Once a player is found off the track, looking further changes nothing.
pub proof fn lemma_first_out_of_bounds_stays(
    entities: Seq<Option<LevelEntity>>,
    boundaries: GameBoundaries,
    n: int,
    m: int,
)
    requires
        n <= m,
        first_out_of_bounds(entities, boundaries, n) is Some,
    ensures
        first_out_of_bounds(entities, boundaries, m) == first_out_of_bounds(entities, boundaries, n),
    decreases m - n,
{
    if n < m {
        lemma_first_out_of_bounds_stays(entities, boundaries, n, m - 1);
    }
}

/// Ends the race if the player has left the track: the wrong way on the
/// left, over the finish line on the right. Outside a running race nothing
/// happens.
pub fn detect_out_of_bounds(level: &Level, boundaries: &GameBoundaries, session: &mut Session)
    ensures
        final(session).current() == if old(session).current() == AppState::Game
            && first_out_of_bounds(level@, *boundaries, level@.len() as int) is Some {
            AppState::Menu(MenuState::GameOver)
        } else {
            old(session).current()
        },
        final(session).outcome() == if old(session).current() == AppState::Game
            && first_out_of_bounds(level@, *boundaries, level@.len() as int) is Some {
            first_out_of_bounds(level@, *boundaries, level@.len() as int)
        } else {
            old(session).outcome()
        },
        old(session).outcome() is Some ==> *final(session) == *old(session),
{
    match find_out_of_bounds(level, boundaries) {
        Some(reason) => {
            session.end_race(reason);
        },
        None => {},
    }
}

/// Records the player's run: how far it has come, which is where it is, and
/// for how long it has raced, `dt` milliseconds more than before.
pub fn update_player_status(level: &Level, dt: u32, player_status: &mut PlayerStatus)
    requires
        old(player_status).time + dt <= u64::MAX,
    ensures
        final(player_status).distance_traveled == match last_position(
            level@,
            Marker::PlayerSprite,
            level@.len() as int,
        ) {
            Some(x) => x,
            None => old(player_status).distance_traveled,
        },
        final(player_status).time == old(player_status).time + dt,
        final(player_status).competitors_before == old(player_status).competitors_before,
        final(player_status).competitors_after == old(player_status).competitors_after,
{
    match level.position_of(Marker::PlayerSprite) {
        Some(x) => {
            player_status.distance_traveled = x;
        },
        None => {},
    }
    player_status.time = player_status.time + dt as u64;
}

} // verus!
