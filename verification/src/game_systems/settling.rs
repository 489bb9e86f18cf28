//! That the camera settles on a target that stands still.
//!
//! The camera sheds speed while it is within the dead band. Where it leaves
//! the dead band on the far side, it turns round and comes back, and it comes
//! back more slowly than it was when it last stood within the dead band. So
//! it cannot go on for ever: with ticks of one length that are short enough
//! not to carry it over the whole dead band at once, it comes to stay near
//! its target with little speed.

use crate::game_systems::camera::{
    camera_after, displacement, lemma_displacement_grows, lemma_displacement_mirrors,
    lemma_settled_camera_stays_settled, lemma_speed_stays_bounded, next_velocity, settled,
    ACCELERATION, CRUISE_SPEED, DEAD_BAND,
};
use vstd::prelude::*;

verus! {

/// The longest tick, in milliseconds, for which [`lemma_camera_settles`] is
/// stated: in one such tick the camera moves less than the dead band is
/// wide.
pub const SETTLING_TICK: u32 = 78;

/// No camera that settles is faster than this to begin with: the cruise
/// speed and what one tick adds to it.
pub open spec fn top_speed(dt: int) -> int {
    CRUISE_SPEED + ACCELERATION * dt
}

/// The speed of the camera after so many ticks.
pub open spec fn speed_after(target: int, velocity: int, camera_x: int, dt: int, ticks: nat) -> int {
    camera_after(target, velocity, camera_x, dt, ticks).0
}

/// The place of the camera after so many ticks.
pub open spec fn place_after(target: int, velocity: int, camera_x: int, dt: int, ticks: nat) -> int {
    camera_after(target, velocity, camera_x, dt, ticks).1
}

/// Ticks add up: what the camera does in some ticks and then in some more
/// it does in as many ticks as both together.
pub proof fn lemma_ticks_add_up(
    target: int,
    velocity: int,
    camera_x: int,
    dt: int,
    first: nat,
    then: nat,
)
    ensures
        camera_after(target, velocity, camera_x, dt, first + then) == camera_after(
            target,
            speed_after(target, velocity, camera_x, dt, first),
            place_after(target, velocity, camera_x, dt, first),
            dt,
            then,
        ),
    decreases first,
{
    if first > 0 {
        let next: int = next_velocity(target, velocity, camera_x, dt);
        lemma_ticks_add_up(
            target,
            next,
            camera_x + displacement(next, dt),
            dt,
            (first - 1) as nat,
            then,
        );
        assert(first + then - 1 == (first - 1) as nat + then);
    }
}

/// The camera does to the left what it does to the right.
pub proof fn lemma_mirrored(target: int, velocity: int, camera_x: int, dt: int, ticks: nat)
    ensures
        speed_after(-target, -velocity, -camera_x, dt, ticks) == -speed_after(
            target,
            velocity,
            camera_x,
            dt,
            ticks,
        ),
        place_after(-target, -velocity, -camera_x, dt, ticks) == -place_after(
            target,
            velocity,
            camera_x,
            dt,
            ticks,
        ),
        settled(-target, -velocity, -camera_x, dt) == settled(target, velocity, camera_x, dt),
    decreases ticks,
{
    if ticks > 0 {
        let next: int = next_velocity(target, velocity, camera_x, dt);
        lemma_displacement_mirrors(next, dt);
        assert(next_velocity(-target, -velocity, -camera_x, dt) == -next);
        lemma_mirrored(target, next, camera_x + displacement(next, dt), dt, (ticks - 1) as nat);
    }
}

/// In a tick of at most `SETTLING_TICK` milliseconds a camera that is no
/// faster than the top speed moves less than the width of the dead band,
/// and in the direction of its speed.
pub proof fn lemma_step_is_short(velocity: int, dt: int)
    requires
        1 <= dt <= SETTLING_TICK,
        -top_speed(dt) <= velocity <= top_speed(dt),
    ensures
        -2 * DEAD_BAND < displacement(velocity, dt) < 2 * DEAD_BAND,
        velocity >= 0 ==> displacement(velocity, dt) >= 0,
        velocity <= 0 ==> displacement(velocity, dt) <= 0,
{
    let top: int = top_speed(dt);
    assert(0 <= top * dt <= 3960999) by (nonlinear_arith)
        requires
            1 <= dt <= 78,
            top == 50000 + 10 * dt,
    ;
    assert(displacement(0, dt) == 0) by (nonlinear_arith);
    lemma_displacement_mirrors(top, dt);
    lemma_displacement_grows(velocity, top, dt);
    lemma_displacement_grows(-top, velocity, dt);
    if velocity >= 0 {
        lemma_displacement_grows(0, velocity, dt);
    }
    if velocity <= 0 {
        lemma_displacement_grows(velocity, 0, dt);
    }
}

/// Whether a camera at `camera_x` is within the dead band of `target`.
pub open spec fn in_dead_band(target: int, camera_x: int) -> bool {
    -DEAD_BAND <= target - camera_x <= DEAD_BAND
}

/// A camera to the left of the dead band is within the dead band after a
/// number of ticks, and no faster than the top speed. Returns the number.
pub proof fn lemma_reaches_dead_band(target: int, velocity: int, camera_x: int, dt: int) -> (ticks:
    nat)
    requires
        1 <= dt <= SETTLING_TICK,
        -top_speed(dt) <= velocity <= top_speed(dt),
        target - camera_x > DEAD_BAND,
    ensures
        in_dead_band(target, place_after(target, velocity, camera_x, dt, ticks)),
        -top_speed(dt) <= speed_after(target, velocity, camera_x, dt, ticks) <= top_speed(dt),
    decreases
            (if velocity < 0 {
                -velocity
            } else {
                0
            }),
            target - camera_x,
            (if velocity < 1000 {
                1000 - velocity
            } else {
                0
            }),
{
    let next: int = next_velocity(target, velocity, camera_x, dt);
    let moved_to: int = camera_x + displacement(next, dt);
    lemma_speed_stays_bounded(target, velocity, camera_x, dt);
    lemma_step_is_short(next, dt);
    assert(camera_after(target, velocity, camera_x, dt, 1) == camera_after(
        target,
        next,
        moved_to,
        dt,
        0,
    ));
    if target - moved_to <= DEAD_BAND {
        1
    } else {
        if velocity >= 0 && displacement(next, dt) == 0 {
            assert(next < 1000) by (nonlinear_arith)
                requires
                    dt >= 1,
                    next >= 0,
                    displacement(next, dt) == 0,
                    displacement(next, dt) == (next * dt) / 1000,
            ;
        }
        let rest: nat = lemma_reaches_dead_band(target, next, moved_to, dt);
        assert(camera_after(target, velocity, camera_x, dt, rest + 1) == camera_after(
            target,
            next,
            moved_to,
            dt,
            rest,
        ));
        rest + 1
    }
}

/// A camera to the left of the dead band that moves away from it comes
/// back: after a number of ticks it is within the dead band, less than a
/// step from its left edge, or it is as far to the left of the dead band as
/// a tick before it was where it set out, and then it moves to the right at
/// least as fast as it set out. Either way it moves to the right then, and
/// by less than one tick faster than it set out. Returns the number of
/// ticks.
pub proof fn lemma_comes_back(target: int, velocity: int, camera_x: int, dt: int) -> (ticks: nat)
    requires
        1 <= dt <= SETTLING_TICK,
        -CRUISE_SPEED <= velocity < 0,
        target - camera_x > DEAD_BAND,
    ensures
        ticks >= 1,
        ({
            let speed: int = speed_after(target, velocity, camera_x, dt, ticks);
            let to_move: int = target - place_after(target, velocity, camera_x, dt, ticks);
            &&& 0 < speed < -velocity + ACCELERATION * dt
            &&& to_move > DEAD_BAND - displacement(speed, dt)
            &&& to_move > DEAD_BAND ==> {
                &&& -velocity <= speed
                &&& to_move <= target - camera_x - displacement(-velocity, dt)
            }
        }),
    decreases -velocity,
{
    let gain: int = ACCELERATION * dt;
    let away: int = -velocity;
    let next: int = next_velocity(target, velocity, camera_x, dt);
    let moved_to: int = camera_x + displacement(next, dt);
    assert(next == velocity + gain);
    lemma_step_is_short(next, dt);
    lemma_step_is_short(away, dt);
    assert(camera_after(target, velocity, camera_x, dt, 1) == camera_after(
        target,
        next,
        moved_to,
        dt,
        0,
    ));
    if away <= gain {
        // The camera turns round, or stops, on this tick.
        if next > 0 && (target - moved_to <= DEAD_BAND || next >= away) {
            if next >= away {
                lemma_displacement_grows(away, next, dt);
            }
            1
        } else {
            // It has stopped, or turned round more slowly than it came.
            let second: int = next_velocity(target, next, moved_to, dt);
            assert(second == next + gain);
            lemma_step_is_short(second, dt);
            lemma_displacement_grows(away, second, dt);
            lemma_ticks_add_up(target, velocity, camera_x, dt, 1, 1);
            assert(camera_after(target, next, moved_to, dt, 1) == camera_after(
                target,
                second,
                moved_to + displacement(second, dt),
                dt,
                0,
            ));
            2
        }
    } else {
        // The camera goes on to the left, more slowly.
        let rest: nat = lemma_comes_back(target, next, moved_to, dt);
        lemma_displacement_mirrors(-next, dt);
        assert(camera_after(target, velocity, camera_x, dt, rest + 1) == camera_after(
            target,
            next,
            moved_to,
            dt,
            rest,
        ));
        let speed: int = speed_after(target, next, moved_to, dt, rest);
        let place: int = place_after(target, next, moved_to, dt, rest);
        if target - place <= DEAD_BAND {
            rest + 1
        } else {
            let last: int = next_velocity(target, speed, place, dt);
            assert(last == speed + gain);
            lemma_step_is_short(last, dt);
            lemma_displacement_grows(away, last, dt);
            lemma_ticks_add_up(target, velocity, camera_x, dt, rest + 1, 1);
            assert(camera_after(target, speed, place, dt, 1) == camera_after(
                target,
                last,
                place + displacement(last, dt),
                dt,
                0,
            ));
            rest + 2
        }
    }
}

/// A camera within the dead band has settled after a number of ticks.
/// Returns the number.
pub proof fn lemma_settles_in_dead_band(target: int, velocity: int, camera_x: int, dt: int) -> (ticks:
    nat)
    requires
        1 <= dt <= SETTLING_TICK,
        -top_speed(dt) <= velocity <= top_speed(dt),
        in_dead_band(target, camera_x),
    ensures
        settled(
            target,
            speed_after(target, velocity, camera_x, dt, ticks),
            place_after(target, velocity, camera_x, dt, ticks),
            dt,
        ),
    decreases
            (if velocity < 0 {
                -velocity
            } else {
                velocity
            }),
            1int,
{
    let gain: int = ACCELERATION * dt;
    if -2 * gain <= velocity <= 2 * gain {
        0
    } else if velocity > 0 {
        lemma_settles_moving_right(target, velocity, camera_x, dt)
    } else {
        let ticks: nat = lemma_settles_moving_right(-target, -velocity, -camera_x, dt);
        lemma_mirrored(target, velocity, camera_x, dt, ticks);
        lemma_mirrored(
            target,
            speed_after(target, velocity, camera_x, dt, ticks),
            place_after(target, velocity, camera_x, dt, ticks),
            dt,
            0,
        );
        ticks
    }
}

/// A camera within the dead band that moves to the right, faster than two
/// ticks make it, has settled after a number of ticks. It sheds speed while
/// it crosses the dead band; where it leaves the dead band on the right, it
/// comes back more slowly than it was before it left. Returns the number of
/// ticks.
pub proof fn lemma_settles_moving_right(target: int, velocity: int, camera_x: int, dt: int) -> (ticks:
    nat)
    requires
        1 <= dt <= SETTLING_TICK,
        2 * (ACCELERATION * dt) < velocity <= top_speed(dt),
        in_dead_band(target, camera_x),
    ensures
        settled(
            target,
            speed_after(target, velocity, camera_x, dt, ticks),
            place_after(target, velocity, camera_x, dt, ticks),
            dt,
        ),
    decreases velocity, 0int,
{
    let gain: int = ACCELERATION * dt;
    let next: int = next_velocity(target, velocity, camera_x, dt);
    let moved_to: int = camera_x + displacement(next, dt);
    assert(next == velocity - gain);
    lemma_step_is_short(next, dt);
    assert(camera_after(target, velocity, camera_x, dt, 1) == camera_after(
        target,
        next,
        moved_to,
        dt,
        0,
    ));
    if target - moved_to >= -DEAD_BAND {
        let rest: nat = lemma_settles_in_dead_band(target, next, moved_to, dt);
        assert(camera_after(target, velocity, camera_x, dt, rest + 1) == camera_after(
            target,
            next,
            moved_to,
            dt,
            rest,
        ));
        rest + 1
    } else {
        // The camera has left the dead band on the right. Seen in a mirror
        // it is to the left of the dead band and moves to the left.
        let back: nat = lemma_comes_back(-target, -next, -moved_to, dt);
        lemma_mirrored(target, next, moved_to, dt, back);
        lemma_displacement_mirrors(next, dt);
        let speed: int = speed_after(target, next, moved_to, dt, back);
        let place: int = place_after(target, next, moved_to, dt, back);
        lemma_displacement_mirrors(speed, dt);
        assert(camera_after(target, velocity, camera_x, dt, back + 1) == camera_after(
            target,
            next,
            moved_to,
            dt,
            back,
        ));
        assert(-velocity < speed < 0);
        lemma_step_is_short(speed, dt);
        assert(in_dead_band(target, place));
        let rest: nat = lemma_settles_in_dead_band(target, speed, place, dt);
        lemma_ticks_add_up(target, velocity, camera_x, dt, back + 1, rest);
        back + 1 + rest
    }
}

/// A camera is no faster than the top speed after a number of ticks,
/// however fast it was. Returns the number.
pub proof fn lemma_slows_down(target: int, velocity: int, camera_x: int, dt: int) -> (ticks: nat)
    requires
        1 <= dt <= SETTLING_TICK,
    ensures
        -top_speed(dt) <= speed_after(target, velocity, camera_x, dt, ticks) <= top_speed(dt),
    decreases
            (if velocity < 0 {
                -velocity
            } else {
                velocity
            }),
{
    if -top_speed(dt) <= velocity <= top_speed(dt) {
        0
    } else {
        let next: int = next_velocity(target, velocity, camera_x, dt);
        let moved_to: int = camera_x + displacement(next, dt);
        let rest: nat = lemma_slows_down(target, next, moved_to, dt);
        assert(camera_after(target, velocity, camera_x, dt, rest + 1) == camera_after(
            target,
            next,
            moved_to,
            dt,
            rest,
        ));
        rest + 1
    }
}

/// A camera that has settled after some ticks is settled after any more.
pub proof fn lemma_stays_settled(
    target: int,
    velocity: int,
    camera_x: int,
    dt: int,
    ticks: nat,
    more: nat,
)
    requires
        1 <= dt <= SETTLING_TICK,
        settled(
            target,
            speed_after(target, velocity, camera_x, dt, ticks),
            place_after(target, velocity, camera_x, dt, ticks),
            dt,
        ),
    ensures
        settled(
            target,
            speed_after(target, velocity, camera_x, dt, ticks + more),
            place_after(target, velocity, camera_x, dt, ticks + more),
            dt,
        ),
    decreases more,
{
    if more > 0 {
        let before: nat = (ticks + more - 1) as nat;
        lemma_stays_settled(target, velocity, camera_x, dt, ticks, (more - 1) as nat);
        let speed: int = speed_after(target, velocity, camera_x, dt, before);
        let place: int = place_after(target, velocity, camera_x, dt, before);
        lemma_settled_camera_stays_settled(target, speed, place, dt);
        lemma_ticks_add_up(target, velocity, camera_x, dt, before, 1);
        let next: int = next_velocity(target, speed, place, dt);
        assert(camera_after(target, speed, place, dt, 1) == camera_after(
            target,
            next,
            place + displacement(next, dt),
            dt,
            0,
        ));
    }
}

/// A camera settles on a target that stands still. From a number of ticks
/// on, and for ever after, it is no further from its target than the dead
/// band and what it moves in one tick at the speed that one tick gives, and
/// no faster than two ticks can make it. This holds for ticks of one length
/// of at least one and at most `SETTLING_TICK` milliseconds, wherever the
/// camera starts and however fast. Returns the number of ticks.
pub proof fn lemma_camera_settles(target: int, velocity: int, camera_x: int, dt: int) -> (ticks:
    nat)
    requires
        1 <= dt <= SETTLING_TICK,
    ensures
        forall|later: nat|
            later >= ticks ==> settled(
                target,
                #[trigger] speed_after(target, velocity, camera_x, dt, later),
                place_after(target, velocity, camera_x, dt, later),
                dt,
            ),
        forall|later: nat|
            later >= ticks ==> {
                &&& -DEAD_BAND - displacement(ACCELERATION * dt, dt) <= target - #[trigger] place_after(
                    target,
                    velocity,
                    camera_x,
                    dt,
                    later,
                ) <= DEAD_BAND + displacement(ACCELERATION * dt, dt)
                &&& -2 * (ACCELERATION * dt) <= speed_after(target, velocity, camera_x, dt, later)
                    <= 2 * (ACCELERATION * dt)
            },
{
    let slowing: nat = lemma_slows_down(target, velocity, camera_x, dt);
    let slow: int = speed_after(target, velocity, camera_x, dt, slowing);
    let from: int = place_after(target, velocity, camera_x, dt, slowing);
    let nearing: nat = if in_dead_band(target, from) {
        0
    } else if target - from > DEAD_BAND {
        lemma_reaches_dead_band(target, slow, from, dt)
    } else {
        let nearing: nat = lemma_reaches_dead_band(-target, -slow, -from, dt);
        lemma_mirrored(target, slow, from, dt, nearing);
        nearing
    };
    let settling: nat = lemma_settles_in_dead_band(
        target,
        speed_after(target, slow, from, dt, nearing),
        place_after(target, slow, from, dt, nearing),
        dt,
    );
    lemma_ticks_add_up(target, slow, from, dt, nearing, settling);
    lemma_ticks_add_up(target, velocity, camera_x, dt, slowing, nearing + settling);
    let ticks: nat = slowing + nearing + settling;
    assert forall|later: nat| later >= ticks implies settled(
        target,
        #[trigger] speed_after(target, velocity, camera_x, dt, later),
        place_after(target, velocity, camera_x, dt, later),
        dt,
    ) by {
        lemma_stays_settled(target, velocity, camera_x, dt, ticks, (later - ticks) as nat);
    }
    assert forall|later: nat| later >= ticks implies {
        &&& -DEAD_BAND - displacement(ACCELERATION * dt, dt) <= target - #[trigger] place_after(
            target,
            velocity,
            camera_x,
            dt,
            later,
        ) <= DEAD_BAND + displacement(ACCELERATION * dt, dt)
        &&& -2 * (ACCELERATION * dt) <= speed_after(target, velocity, camera_x, dt, later) <= 2 * (
        ACCELERATION * dt)
    } by {
        let speed: int = speed_after(target, velocity, camera_x, dt, later);
        let place: int = place_after(target, velocity, camera_x, dt, later);
        assert(settled(target, speed, place, dt));
        lemma_settled_camera_stays_settled(target, speed, place, dt);
    }
    ticks
}

} // verus!
