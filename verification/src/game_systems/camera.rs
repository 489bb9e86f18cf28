//! The camera, which follows the player along the track.
//!
//! The camera does not jump to its target. It picks a speed to aim for, at
//! rest near the target and at full speed towards it further off, and gains
//! or sheds speed at a fixed rate until it has that speed.

use crate::components::{last_position, Level, Marker};
use crate::utils::towards_zero;
use vstd::prelude::*;

verus! {

/// The camera rests while its target is no further off than this.
pub const DEAD_BAND: i64 = 2000;

/// The speed at which the camera goes after a target further off, in
/// thousandths a second.
pub const CRUISE_SPEED: i64 = 50000;

/// The speed that the camera gains or sheds in a millisecond.
pub const ACCELERATION: i64 = 10;

/// No camera is ever faster than this: the cruise speed and what the longest
/// tick adds to it.
pub const MAX_VELOCITY: i64 = 42949722950;

/// Where the camera is headed and how fast it moves.
pub struct CameraBehavior {
    target: i32,
    velocity: i64,
}

/// What a camera holds, as plain numbers.
pub struct CameraView {
    /// The position that the camera follows, in thousandths.
    pub target: int,
    /// The speed of the camera, in thousandths a second, to the right.
    pub velocity: int,
}

impl View for CameraBehavior {
    type V = CameraView;

    closed spec fn view(&self) -> CameraView {
        CameraView { target: self.target as int, velocity: self.velocity as int }
    }
}

/// The speed that a camera aims for whose target is `to_move` away.
pub open spec fn target_velocity(to_move: int) -> int {
    if to_move > DEAD_BAND {
        CRUISE_SPEED as int
    } else if to_move < -DEAD_BAND {
        -CRUISE_SPEED
    } else {
        0
    }
}

/// The speed after a tick of `dt` milliseconds of a camera at `camera_x`
/// that moves at `velocity` and follows `target`: faster by what the tick
/// allows where it is slower than it aims to be, slower by as much where it
/// is faster, and as it was where it has the speed it aims for.
pub open spec fn next_velocity(target: int, velocity: int, camera_x: int, dt: int) -> int {
    if target_velocity(target - camera_x) - velocity > 0 {
        velocity + ACCELERATION * dt
    } else if target_velocity(target - camera_x) - velocity < 0 {
        velocity - ACCELERATION * dt
    } else {
        velocity
    }
}

/// How far a camera at `velocity` moves in `dt` milliseconds, in whole
/// thousandths, rounded towards zero.
pub open spec fn displacement(velocity: int, dt: int) -> int {
    towards_zero(velocity * dt, 1000)
}

impl CameraBehavior {
    #[verifier::type_invariant]
    spec fn speed_is_bounded(self) -> bool {
        -MAX_VELOCITY <= self.velocity <= MAX_VELOCITY
    }

    /// A camera at rest that follows the start of the track.
    pub fn new() -> (camera: CameraBehavior)
        ensures
            camera@.target == 0,
            camera@.velocity == 0,
    {
        CameraBehavior { target: 0, velocity: 0 }
    }

    /// The position that the camera follows.
    pub fn target(&self) -> (target: i32)
        ensures
            target == self@.target,
    {
        self.target
    }

    /// The speed of the camera.
    pub fn velocity(&self) -> (velocity: i64)
        ensures
            velocity == self@.velocity,
            -MAX_VELOCITY <= velocity <= MAX_VELOCITY,
    {
        proof {
            use_type_invariant(self);
        }
        self.velocity
    }
}

/// A camera for a new race: as [`CameraBehavior::new`].
pub fn setup_camera() -> (camera: CameraBehavior)
    ensures
        camera@.target == 0,
        camera@.velocity == 0,
{
    CameraBehavior::new()
}

/// Brings the camera back for a new level: at rest, following the start of
/// the track. Returns where the camera is to stand, the start of the track.
pub fn reset_camera(camera: &mut CameraBehavior) -> (camera_x: i32)
    ensures
        final(camera)@.target == 0,
        final(camera)@.velocity == 0,
        camera_x == 0,
{
    *camera = CameraBehavior { target: 0, velocity: 0 };
    0
}

/// Lets the camera follow the entity that is marked for it; where several
/// are, the one with the greatest handle. Without such an entity the camera
/// follows what it followed before.
pub fn set_camera_target(camera: &mut CameraBehavior, level: &Level)
    ensures
        final(camera)@.velocity == old(camera)@.velocity,
        final(camera)@.target == match last_position(
            level@,
            Marker::CameraFollowTarget,
            level@.len() as int,
        ) {
            Some(x) => x as int,
            None => old(camera)@.target,
        },
{
    proof {
        use_type_invariant(&*camera);
    }
    match level.position_of(Marker::CameraFollowTarget) {
        Some(x) => {
            camera.target = x;
        },
        None => {},
    }
}

/// Moves the camera, which stands at `camera_x`, through a tick of `dt`
/// milliseconds: first its speed changes, then it moves at the new speed.
/// Returns where the camera stands afterwards.
pub fn handle_camera_movement(camera: &mut CameraBehavior, camera_x: i32, dt: u32) -> (moved_to:
    i64)
    ensures
        final(camera)@.target == old(camera)@.target,
        final(camera)@.velocity == next_velocity(
            old(camera)@.target,
            old(camera)@.velocity,
            camera_x as int,
            dt as int,
        ),
        moved_to == camera_x + displacement(final(camera)@.velocity, dt as int),
{
    proof {
        use_type_invariant(&*camera);
    }
    let acceleration: i64 = ACCELERATION * (dt as i64);
    let to_move: i64 = camera.target as i64 - camera_x as i64;
    let target_velocity: i64 = if DEAD_BAND < to_move {
        CRUISE_SPEED
    } else if to_move < -DEAD_BAND {
        -CRUISE_SPEED
    } else {
        0
    };
    let target_acceleration: i64 = target_velocity - camera.velocity;
    let velocity: i64 = if target_acceleration > 0 {
        camera.velocity + acceleration
    } else if target_acceleration < 0 {
        camera.velocity - acceleration
    } else {
        camera.velocity
    };
    camera.velocity = velocity;
    assert(-MAX_VELOCITY * 0xffff_ffff <= velocity * dt <= MAX_VELOCITY * 0xffff_ffff)
        by (nonlinear_arith)
        requires
            -MAX_VELOCITY <= velocity <= MAX_VELOCITY,
            0 <= dt <= 0xffff_ffff,
    ;
    let product: i128 = (velocity as i128) * (dt as i128);
    let step: i128 = if product >= 0 {
        product / 1000
    } else {
        -((-product) / 1000)
    };
    camera_x as i64 + step as i64
}

/// A camera that is no faster than the cruise speed and what one tick adds
/// to it is no faster than that after a tick of the same length.
pub proof fn lemma_speed_stays_bounded(target: int, velocity: int, camera_x: int, dt: int)
    requires
        0 <= dt,
        -(CRUISE_SPEED + ACCELERATION * dt) <= velocity <= CRUISE_SPEED + ACCELERATION * dt,
    ensures
        -(CRUISE_SPEED + ACCELERATION * dt) <= next_velocity(target, velocity, camera_x, dt)
            <= CRUISE_SPEED + ACCELERATION * dt,
{
}

/// A camera at rest within the dead band of its target stays where it is,
/// at rest, whatever the length of the tick.
pub proof fn lemma_camera_at_rest_stays_at_rest(target: int, camera_x: int, dt: int)
    requires
        -DEAD_BAND <= target - camera_x <= DEAD_BAND,
    ensures
        next_velocity(target, 0, camera_x, dt) == 0,
        displacement(next_velocity(target, 0, camera_x, dt), dt) == 0,
{
    assert(0 * dt == 0) by (nonlinear_arith);
}

/// A tick changes the speed of a camera by what the tick allows or not at
/// all, and a tick without time changes nothing.
pub proof fn lemma_speed_changes_by_a_step(target: int, velocity: int, camera_x: int, dt: int)
    ensures
        next_velocity(target, velocity, camera_x, dt) == velocity + ACCELERATION * dt
            || next_velocity(target, velocity, camera_x, dt) == velocity - ACCELERATION * dt
            || next_velocity(target, velocity, camera_x, dt) == velocity,
        next_velocity(target, velocity, camera_x, dt) == velocity <==> (dt == 0
            || target_velocity(target - camera_x) == velocity),
        dt == 0 ==> displacement(next_velocity(target, velocity, camera_x, dt), dt) == 0,
{
    assert(velocity * 0 == 0) by (nonlinear_arith);
}

/// The longest tick, in milliseconds, for which [`lemma_settled_camera_stays_settled`]
/// is stated.
pub const STEADY_TICK: u32 = 400;

/// Whether a camera at `camera_x` that moves at `velocity` has settled on
/// `target`, for ticks of `dt` milliseconds: it is within the dead band and
/// no faster than two ticks can make it, or it has just left the dead band,
/// by no more than it moves in a tick at the speed that one tick gives, and
/// is not moving further away.
pub open spec fn settled(target: int, velocity: int, camera_x: int, dt: int) -> bool {
    let gain: int = ACCELERATION * dt;
    let reach: int = displacement(gain, dt);
    let to_move: int = target - camera_x;
    ||| -DEAD_BAND <= to_move <= DEAD_BAND && -2 * gain <= velocity <= 2 * gain
    ||| DEAD_BAND < to_move <= DEAD_BAND + reach && -gain <= velocity < gain
    ||| -DEAD_BAND - reach <= to_move < -DEAD_BAND && -gain < velocity <= gain
}

/// A faster camera moves at least as far to the right in the same time.
pub proof fn lemma_displacement_grows(slower: int, faster: int, dt: int)
    requires
        slower <= faster,
        0 <= dt,
    ensures
        displacement(slower, dt) <= displacement(faster, dt),
{
    assert(slower * dt <= faster * dt) by (nonlinear_arith)
        requires
            slower <= faster,
            0 <= dt,
    ;
}

/// A camera moves as far to the left at a speed as to the right at the same
/// speed the other way.
pub proof fn lemma_displacement_mirrors(velocity: int, dt: int)
    ensures
        displacement(-velocity, dt) == -displacement(velocity, dt),
{
    assert((-velocity) * dt == -(velocity * dt)) by (nonlinear_arith);
}

/// A camera that has settled on a target that stands still stays settled:
/// after the next tick, and so after every tick, it is no further from the
/// target than the dead band and what it moves in one tick at the speed that
/// one tick gives, and no faster than two ticks can make it. This holds for
/// ticks of one length of at most `STEADY_TICK` milliseconds.
pub proof fn lemma_settled_camera_stays_settled(target: int, velocity: int, camera_x: int, dt: int)
    requires
        0 <= dt <= STEADY_TICK,
        settled(target, velocity, camera_x, dt),
    ensures
        settled(
            target,
            next_velocity(target, velocity, camera_x, dt),
            camera_x + displacement(next_velocity(target, velocity, camera_x, dt), dt),
            dt,
        ),
        -DEAD_BAND - displacement(ACCELERATION * dt, dt) <= target - camera_x <= DEAD_BAND
            + displacement(ACCELERATION * dt, dt),
        -2 * (ACCELERATION * dt) <= velocity <= 2 * (ACCELERATION * dt),
{
    let gain: int = ACCELERATION * dt;
    let next: int = next_velocity(target, velocity, camera_x, dt);
    assert(displacement(0, dt) == 0) by (nonlinear_arith);
    assert(0 <= (2 * gain) * dt <= 2 * DEAD_BAND * 1000) by (nonlinear_arith)
        requires
            0 <= dt <= 400,
            gain == 10 * dt,
    ;
    lemma_displacement_grows(0, gain, dt);
    lemma_displacement_grows(gain, 2 * gain, dt);
    lemma_displacement_mirrors(gain, dt);
    lemma_displacement_mirrors(2 * gain, dt);
    if next <= -gain {
        lemma_displacement_grows(-2 * gain, next, dt);
        lemma_displacement_grows(next, -gain, dt);
    } else if next <= 0 {
        lemma_displacement_grows(-gain, next, dt);
        lemma_displacement_grows(next, 0, dt);
    } else if next <= gain {
        lemma_displacement_grows(0, next, dt);
        lemma_displacement_grows(next, gain, dt);
    } else {
        lemma_displacement_grows(gain, next, dt);
        lemma_displacement_grows(next, 2 * gain, dt);
    }
}

/// The speed and the place of a camera after so many ticks of `dt`
/// milliseconds, which starts at `camera_x` with `velocity` and follows
/// `target`, which stands still.
pub open spec fn camera_after(target: int, velocity: int, camera_x: int, dt: int, ticks: nat) -> (
    int,
    int,
)
    decreases ticks,
{
    if ticks == 0 {
        (velocity, camera_x)
    } else {
        let next: int = next_velocity(target, velocity, camera_x, dt);
        camera_after(target, next, camera_x + displacement(next, dt), dt, (ticks - 1) as nat)
    }
}

} // verus!
