//! The ground of the track, and what happens when the player's head meets it.

use crate::components::{ContactEvent, DespawnWithLevel, Ground, Level, LevelEntity, Marker};
use crate::game_systems::Session;
use crate::global_types::{AppState, GameBoundaries, GameOver, MenuState};
use crate::utils::{any_touch, touches};
use vstd::prelude::*;

verus! {

/// The distance between two marks on the ground.
pub const MARK_EVERY: i32 = 1000;

/// The ground of a track within `boundaries`: in the middle of the track,
/// and gone with the level.
pub open spec fn ground_entity(boundaries: GameBoundaries) -> LevelEntity {
    LevelEntity {
        despawn_with_level: Some(DespawnWithLevel),
        ground: Some(Ground),
        ..LevelEntity::bare(((boundaries.right + boundaries.left) / 2) as i32)
    }
}

/// The number of marks on a track of `width`: one for each whole
/// `MARK_EVERY` of it but the first.
pub open spec fn mark_count(width: int) -> int {
    if width / (MARK_EVERY as int) >= 1 {
        width / (MARK_EVERY as int) - 1
    } else {
        0
    }
}

/// Puts the ground into the level and returns its handle.
pub fn add_ground(level: &mut Level, boundaries: &GameBoundaries) -> (handle: usize)
    ensures
        handle == old(level)@.len(),
        final(level)@ == old(level)@.push(Some(ground_entity(*boundaries))),
{
    let center: i64 = boundaries.center();
    let mut ground: LevelEntity = LevelEntity::at(center as i32);
    ground.despawn_with_level = Some(DespawnWithLevel);
    ground.ground = Some(Ground);
    level.spawn(ground)
}

/// Where the ground is marked: at every `MARK_EVERY` from the left end of
/// the track, the left end itself left out, as far as the track is long.
pub fn ground_marks(boundaries: &GameBoundaries) -> (marks: Vec<i32>)
    ensures
        marks.len() == mark_count(boundaries.right - boundaries.left),
        forall|i: int|
            0 <= i < marks.len() ==> #[trigger] marks[i] == boundaries.left + MARK_EVERY * (i + 1),
{
    let mut marks: Vec<i32> = Vec::new();
    let width: i64 = boundaries.width();
    if width < MARK_EVERY as i64 {
        return marks;
    }
    let how_many: i64 = width / (MARK_EVERY as i64);
    let mut i: i64 = 1;
    while i < how_many
        invariant
            1 <= i <= how_many,
            how_many == (boundaries.right - boundaries.left) / (MARK_EVERY as int),
            marks.len() == i - 1,
            forall|j: int|
                0 <= j < marks.len() ==> #[trigger] marks[j] == boundaries.left + MARK_EVERY * (j
                    + 1),
        decreases how_many - i,
    {
        let at: i64 = boundaries.left as i64 + (MARK_EVERY as i64) * i;
        marks.push(at as i32);
        i = i + 1;
    }
    marks
}

/// Ends the race with an injury if one of `events` says that the player's
/// head has begun to touch the ground. Outside a running race nothing
/// happens.
pub fn detect_ground_touch(events: &Vec<ContactEvent>, level: &Level, session: &mut Session)
    ensures
        final(session).current() == if old(session).current() == AppState::Game && touches(
            level@,
            events@,
            Marker::Ground,
            Marker::PlayerHead,
        ) {
            AppState::Menu(MenuState::GameOver)
        } else {
            old(session).current()
        },
        final(session).outcome() == if old(session).current() == AppState::Game && touches(
            level@,
            events@,
            Marker::Ground,
            Marker::PlayerHead,
        ) {
            Some(GameOver::Injured)
        } else {
            old(session).outcome()
        },
        old(session).outcome() is Some ==> *final(session) == *old(session),
{
    if any_touch(events, level, Marker::Ground, Marker::PlayerHead) {
        session.end_race(GameOver::Injured);
    }
}

} // verus!
