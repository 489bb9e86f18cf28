//! The runners that race against the player: how they keep their speed, how
//! they jump the hurdles, and how the player ranks among them.

use crate::components::{
    last_position, marked, Competitor, DespawnWithLevel, Level, LevelEntity, Marker,
};
use crate::global_types::PlayerStatus;
use vstd::prelude::*;

verus! {

/// A runner at or behind this position has not started yet.
pub const START_LINE: i32 = 100;

/// A runner jumps once the hurdle is nearer than this.
pub const JUMP_DISTANCE: i32 = 4000;

/// A runner has cleared a hurdle once it has passed it by more than this.
pub const CLEARANCE: i32 = 2000;

/// A sudden push on a body, along the track and upwards, in thousandths.
#[derive(Debug, PartialEq, Eq, Clone, Copy, Structural)]
pub struct Impulse {
    pub x: i64,
    pub y: i64,
}

/// An impulse and the handle of the entity that is to receive it.
#[derive(Debug, PartialEq, Eq, Clone, Copy, Structural)]
pub struct AppliedImpulse {
    pub entity: usize,
    pub impulse: Impulse,
}

/// The speed that a runner keeps up, in thousandths a second.
#[derive(Debug, PartialEq, Eq, Clone, Copy, Structural)]
pub struct MaintainSpeed(pub i32);

/// What a runner is doing about the hurdles. A hurdle is named by its handle.
#[derive(Debug, PartialEq, Eq, Clone, Copy, Structural)]
pub enum JumpOverNextHurdle {
    LookForHurdleToJumpOver,
    PrepareToJumpOverHurdle(usize),
    JumpingOverHurdle(usize),
    PassedAllHurdles,
}

/// The push that starts a jump.
pub open spec fn jump_impulse() -> Impulse {
    Impulse { x: 40000, y: 100000 }
}

/// The push that ends a jump and brings the runner back down.
pub open spec fn landing_impulse() -> Impulse {
    Impulse { x: (-40000) as i64, y: (-100000) as i64 }
}

/// The positions of the hurdles among `entities`, by handle.
pub open spec fn hurdles_of(entities: Seq<Option<LevelEntity>>) -> Map<int, int> {
    Map::new(
        |h: int| 0 <= h < entities.len() && entities[h] is Some && entities[h]->0.hurdle is Some,
        |h: int| entities[h]->0.x as int,
    )
}

/// Whether `h` is a hurdle strictly beyond `from`.
pub open spec fn is_ahead(hurdles: Map<int, int>, from: int, h: int) -> bool {
    hurdles.dom().contains(h) && from < hurdles[h]
}

/// Whether some hurdle stands at or behind the start line.
pub open spec fn hurdle_at_start(hurdles: Map<int, int>) -> bool {
    exists|h: int| #[trigger] hurdles.dom().contains(h) && hurdles[h] <= START_LINE
}

/// Whether `h` is the hurdle that a runner at `from` meets next: the nearest
/// one strictly ahead, and of several equally near the one with the least
/// handle.
pub open spec fn is_next_hurdle(hurdles: Map<int, int>, from: int, h: int) -> bool {
    &&& is_ahead(hurdles, from, h)
    &&& forall|k: int| #[trigger]
        is_ahead(hurdles, from, k) ==> hurdles[h] < hurdles[k] || (hurdles[h] == hurdles[k] && h
            <= k)
}

/// What a runner in `state` at `x` does on a tick, given the hurdles: its
/// next state, and the impulse that it receives, if any.
pub open spec fn jump_step(state: JumpOverNextHurdle, x: int, hurdles: Map<int, int>) -> (
    JumpOverNextHurdle,
    Option<Impulse>,
) {
    if x <= START_LINE {
        (state, None)
    } else {
        match state {
            JumpOverNextHurdle::LookForHurdleToJumpOver => {
                if hurdle_at_start(hurdles) {
                    (JumpOverNextHurdle::LookForHurdleToJumpOver, None)
                } else if exists|h: usize| is_next_hurdle(hurdles, x, h as int) {
                    (
                        JumpOverNextHurdle::PrepareToJumpOverHurdle(
                            choose|h: usize| is_next_hurdle(hurdles, x, h as int),
                        ),
                        None,
                    )
                } else {
                    (JumpOverNextHurdle::PassedAllHurdles, None)
                }
            },
            JumpOverNextHurdle::PrepareToJumpOverHurdle(h) => {
                if hurdles[h as int] - x < JUMP_DISTANCE {
                    (JumpOverNextHurdle::JumpingOverHurdle(h), Some(jump_impulse()))
                } else {
                    (JumpOverNextHurdle::PrepareToJumpOverHurdle(h), None)
                }
            },
            JumpOverNextHurdle::JumpingOverHurdle(h) => {
                if x - hurdles[h as int] <= CLEARANCE {
                    (JumpOverNextHurdle::JumpingOverHurdle(h), None)
                } else {
                    (JumpOverNextHurdle::LookForHurdleToJumpOver, Some(landing_impulse()))
                }
            },
            JumpOverNextHurdle::PassedAllHurdles => (JumpOverNextHurdle::PassedAllHurdles, None),
        }
    }
}

/// Whether a runner in `state` at `x` can find the hurdle it is busy with.
/// A runner that has not started, or that is busy with no hurdle, always can.
pub open spec fn finds_its_hurdle(state: JumpOverNextHurdle, x: int, hurdles: Map<int, int>) -> bool {
    x <= START_LINE || match state {
        JumpOverNextHurdle::PrepareToJumpOverHurdle(h) => hurdles.dom().contains(h as int),
        JumpOverNextHurdle::JumpingOverHurdle(h) => hurdles.dom().contains(h as int),
        _ => true,
    }
}

/// No two hurdles are the next one for a runner at `from`.
pub proof fn lemma_next_hurdle_is_unique(hurdles: Map<int, int>, from: int, h: int, k: int)
    requires
        is_next_hurdle(hurdles, from, h),
        is_next_hurdle(hurdles, from, k),
    ensures
        h == k,
{
    assert(is_ahead(hurdles, from, h));
    assert(is_ahead(hurdles, from, k));
}

/// The position of the hurdle that `handle` names, if it names one.
pub fn hurdle_position(level: &Level, handle: usize) -> (x: Option<i32>)
    ensures
        x is Some <==> hurdles_of(level@).dom().contains(handle as int),
        x matches Some(at) ==> at == hurdles_of(level@)[handle as int],
{
    match level.get(handle) {
        Some(entity) => {
            if entity.hurdle.is_some() {
                Some(entity.x)
            } else {
                None
            }
        },
        None => None,
    }
}

/// The hurdle that a runner at `from` meets next, if any is ahead, and
/// whether some hurdle still stands at or behind the start line.
pub fn next_hurdle(level: &Level, from: i32) -> (found: (bool, Option<usize>))
    ensures
        found.0 == hurdle_at_start(hurdles_of(level@)),
        found.1 matches Some(h) ==> is_next_hurdle(hurdles_of(level@), from as int, h as int),
        found.1 is None ==> forall|h: int| !is_ahead(hurdles_of(level@), from as int, h),
{
    let ghost hurdles: Map<int, int> = hurdles_of(level@);
    let mut at_start: bool = false;
    let mut best: Option<usize> = None;
    let mut best_x: i32 = 0;
    let mut k: usize = 0;
    while k < level.entities.len()
        invariant
            k <= level.entities.len(),
            hurdles == hurdles_of(level@),
            at_start == (exists|h: int|
                0 <= h < k && #[trigger] hurdles.dom().contains(h) && hurdles[h] <= START_LINE),
            best matches Some(b) ==> b < k && is_ahead(hurdles, from as int, b as int) && best_x
                == hurdles[b as int],
            best matches Some(b) ==> forall|j: int|
                0 <= j < k && #[trigger] is_ahead(hurdles, from as int, j) ==> hurdles[b as int]
                    < hurdles[j] || (hurdles[b as int] == hurdles[j] && b <= j),
            best is None ==> forall|j: int| 0 <= j < k ==> !is_ahead(hurdles, from as int, j),
        decreases level.entities.len() - k,
    {
        match hurdle_position(level, k) {
            Some(x) => {
                if x <= START_LINE {
                    at_start = true;
                }
                if from < x {
                    let nearer: bool = match best {
                        Some(_) => x < best_x,
                        None => true,
                    };
                    if nearer {
                        best = Some(k);
                        best_x = x;
                    }
                }
            },
            None => {},
        }
        k = k + 1;
    }
    (at_start, best)
}

/// Moves one runner, in `jumper` at `jumper_x`, through a tick: looks for the
/// next hurdle, jumps when it is near, lands when it is cleared.
pub fn jump_over_next_hurdle(jumper: JumpOverNextHurdle, jumper_x: i32, level: &Level) -> (next: (
    JumpOverNextHurdle,
    Option<Impulse>,
))
    requires
        finds_its_hurdle(jumper, jumper_x as int, hurdles_of(level@)),
    ensures
        next == jump_step(jumper, jumper_x as int, hurdles_of(level@)),
{
    if jumper_x <= START_LINE {
        return (jumper, None);
    }
    match jumper {
        JumpOverNextHurdle::LookForHurdleToJumpOver => {
            let (at_start, found) = next_hurdle(level, jumper_x);
            if at_start {
                (JumpOverNextHurdle::LookForHurdleToJumpOver, None)
            } else {
                match found {
                    Some(h) => {
                        proof {
                            let ghost hurdles: Map<int, int> = hurdles_of(level@);
                            let ghost chosen: usize = choose|c: usize|
                                is_next_hurdle(hurdles, jumper_x as int, c as int);
                            lemma_next_hurdle_is_unique(
                                hurdles,
                                jumper_x as int,
                                h as int,
                                chosen as int,
                            );
                        }
                        (JumpOverNextHurdle::PrepareToJumpOverHurdle(h), None)
                    },
                    None => (JumpOverNextHurdle::PassedAllHurdles, None),
                }
            }
        },
        JumpOverNextHurdle::PrepareToJumpOverHurdle(h) => {
            match hurdle_position(level, h) {
                Some(hurdle_x) => {
                    let distance_to_entity: i64 = hurdle_x as i64 - jumper_x as i64;
                    if distance_to_entity < JUMP_DISTANCE as i64 {
                        (
                            JumpOverNextHurdle::JumpingOverHurdle(h),
                            Some(Impulse { x: 40000, y: 100000 }),
                        )
                    } else {
                        (JumpOverNextHurdle::PrepareToJumpOverHurdle(h), None)
                    }
                },
                None => (jumper, None),
            }
        },
        JumpOverNextHurdle::JumpingOverHurdle(h) => {
            match hurdle_position(level, h) {
                Some(hurdle_x) => {
                    let passed_entity_by: i64 = jumper_x as i64 - hurdle_x as i64;
                    if passed_entity_by <= CLEARANCE as i64 {
                        (JumpOverNextHurdle::JumpingOverHurdle(h), None)
                    } else {
                        (
                            JumpOverNextHurdle::LookForHurdleToJumpOver,
                            Some(Impulse { x: -40000, y: -100000 }),
                        )
                    }
                },
                None => (jumper, None),
            }
        },
        JumpOverNextHurdle::PassedAllHurdles => (JumpOverNextHurdle::PassedAllHurdles, None),
    }
}

/// The entity in slot `i` after the tick: a runner has moved on through its
/// jump, everything else is as it was.
pub open spec fn jumped(entities: Seq<Option<LevelEntity>>, i: int) -> Option<LevelEntity> {
    match entities[i] {
        Some(entity) => match entity.jump_over_next_hurdle {
            Some(state) => Some(
                LevelEntity {
                    jump_over_next_hurdle: Some(
                        jump_step(state, entity.x as int, hurdles_of(entities)).0,
                    ),
                    ..entity
                },
            ),
            None => Some(entity),
        },
        None => None,
    }
}

/// The impulse that the entity in slot `i` receives for its jump, if any.
pub open spec fn jump_impulse_of(entities: Seq<Option<LevelEntity>>, i: int) -> Option<Impulse> {
    match entities[i] {
        Some(entity) => match entity.jump_over_next_hurdle {
            Some(state) => jump_step(state, entity.x as int, hurdles_of(entities)).1,
            None => None,
        },
        None => None,
    }
}

/// The impulses that the entities in the first `n` slots receive for their
/// jumps, in the order of their handles.
pub open spec fn jump_impulses(entities: Seq<Option<LevelEntity>>, n: int) -> Seq<AppliedImpulse>
    decreases n,
{
    if n <= 0 {
        Seq::empty()
    } else {
        match jump_impulse_of(entities, n - 1) {
            Some(impulse) => jump_impulses(entities, n - 1).push(
                AppliedImpulse { entity: (n - 1) as usize, impulse },
            ),
            None => jump_impulses(entities, n - 1),
        }
    }
}

/// Whether every runner can find the hurdle it is busy with.
pub open spec fn jumpers_find_their_hurdles(entities: Seq<Option<LevelEntity>>) -> bool {
    forall|i: int|
        0 <= i < entities.len() ==> (#[trigger] entities[i] matches Some(entity)
            ==> entity.jump_over_next_hurdle matches Some(state) ==> finds_its_hurdle(
            state,
            entity.x as int,
            hurdles_of(entities),
        ))
}

/// Whether a runner in `jumper` at `jumper_x` can find the hurdle it is busy
/// with.
pub fn can_find_hurdle(jumper: JumpOverNextHurdle, jumper_x: i32, level: &Level) -> (found: bool)
    ensures
        found == finds_its_hurdle(jumper, jumper_x as int, hurdles_of(level@)),
{
    if jumper_x <= START_LINE {
        true
    } else {
        match jumper {
            JumpOverNextHurdle::PrepareToJumpOverHurdle(h) => hurdle_position(level, h).is_some(),
            JumpOverNextHurdle::JumpingOverHurdle(h) => hurdle_position(level, h).is_some(),
            _ => true,
        }
    }
}

/// Whether every runner of the level can find the hurdle it is busy with.
/// Hurdles and runners go together when a level is torn down, so a runner
/// that cannot is a fault of the caller.
pub fn all_jumpers_find_hurdles(level: &Level) -> (found: bool)
    ensures
        found == jumpers_find_their_hurdles(level@),
{
    let mut i: usize = 0;
    while i < level.entities.len()
        invariant
            i <= level.entities.len(),
            forall|j: int|
                0 <= j < i ==> (#[trigger] level@[j] matches Some(entity)
                    ==> entity.jump_over_next_hurdle matches Some(state) ==> finds_its_hurdle(
                    state,
                    entity.x as int,
                    hurdles_of(level@),
                )),
        decreases level.entities.len() - i,
    {
        match level.entities[i] {
            Some(entity) => match entity.jump_over_next_hurdle {
                Some(state) => {
                    if !can_find_hurdle(state, entity.x, level) {
                        assert(level@[i as int] == Some(entity));
                        return false;
                    }
                },
                None => {},
            },
            None => {},
        }
        i = i + 1;
    }
    true
}

/// Moves every runner of the level through a tick and returns the impulses
/// that the runners are to receive, in the order of their handles.
pub fn jump_over_hurdles(level: &mut Level) -> (impulses: Vec<AppliedImpulse>)
    requires
        jumpers_find_their_hurdles(old(level)@),
    ensures
        final(level)@.len() == old(level)@.len(),
        forall|i: int|
            0 <= i < old(level)@.len() ==> #[trigger] final(level)@[i] == jumped(old(level)@, i),
        impulses@ == jump_impulses(old(level)@, old(level)@.len() as int),
{
    let ghost before: Seq<Option<LevelEntity>> = level@;
    let mut impulses: Vec<AppliedImpulse> = Vec::new();
    let mut i: usize = 0;
    while i < level.entities.len()
        invariant
            i <= level.entities.len(),
            level@.len() == before.len(),
            jumpers_find_their_hurdles(before),
            hurdles_of(level@) == hurdles_of(before),
            forall|j: int| 0 <= j < i ==> #[trigger] level@[j] == jumped(before, j),
            forall|j: int| i <= j < before.len() ==> #[trigger] level@[j] == before[j],
            impulses@ == jump_impulses(before, i as int),
        decreases level.entities.len() - i,
    {
        match level.entities[i] {
            Some(entity) => match entity.jump_over_next_hurdle {
                Some(state) => {
                    assert(before[i as int] == Some(entity));
                    let (next, impulse) = jump_over_next_hurdle(state, entity.x, level);
                    level.entities.set(
                        i,
                        Some(LevelEntity { jump_over_next_hurdle: Some(next), ..entity }),
                    );
                    match impulse {
                        Some(impulse) => {
                            impulses.push(AppliedImpulse { entity: i, impulse });
                        },
                        None => {},
                    }
                    assert(hurdles_of(level@) =~= hurdles_of(before));
                },
                None => {},
            },
            None => {},
        }
        i = i + 1;
    }
    impulses
}

/// The impulse that brings a runner at `velocity` up to `target`, if it is
/// slower.
pub open spec fn speed_impulse(target: int, velocity: int) -> Option<Impulse> {
    if velocity < target {
        Some(Impulse { x: (target - velocity) as i64, y: 0 })
    } else {
        None
    }
}

/// The impulse that the entity in slot `i` receives to keep its speed, if any.
pub open spec fn speed_impulse_of(entities: Seq<Option<LevelEntity>>, i: int) -> Option<Impulse> {
    match entities[i] {
        Some(entity) => match entity.maintain_speed {
            Some(MaintainSpeed(target)) => speed_impulse(target as int, entity.velocity_x as int),
            None => None,
        },
        None => None,
    }
}

/// The impulses that the entities in the first `n` slots receive to keep
/// their speed, in the order of their handles.
pub open spec fn speed_impulses(entities: Seq<Option<LevelEntity>>, n: int) -> Seq<AppliedImpulse>
    decreases n,
{
    if n <= 0 {
        Seq::empty()
    } else {
        match speed_impulse_of(entities, n - 1) {
            Some(impulse) => speed_impulses(entities, n - 1).push(
                AppliedImpulse { entity: (n - 1) as usize, impulse },
            ),
            None => speed_impulses(entities, n - 1),
        }
    }
}

/// Pushes every runner that has fallen below its speed: the impulse makes up
/// the difference. Returns the impulses in the order of the handles.
pub fn maintain_speed(level: &Level) -> (impulses: Vec<AppliedImpulse>)
    ensures
        impulses@ == speed_impulses(level@, level@.len() as int),
{
    let mut impulses: Vec<AppliedImpulse> = Vec::new();
    let mut i: usize = 0;
    while i < level.entities.len()
        invariant
            i <= level.entities.len(),
            impulses@ == speed_impulses(level@, i as int),
        decreases level.entities.len() - i,
    {
        match level.entities[i] {
            Some(entity) => match entity.maintain_speed {
                Some(MaintainSpeed(target_speed)) => {
                    if entity.velocity_x < target_speed {
                        let x: i64 = target_speed as i64 - entity.velocity_x as i64;
                        impulses.push(AppliedImpulse { entity: i, impulse: Impulse { x, y: 0 } });
                    }
                },
                None => {},
            },
            None => {},
        }
        i = i + 1;
    }
    impulses
}

/// The number of runners that race against the player.
pub const COMPETITORS: usize = 4;

/// The runner of number `i` as it enters a level: each three units behind
/// the next, each faster than the one before, looking for its first hurdle.
pub open spec fn competitor_entity(i: int) -> LevelEntity {
    LevelEntity {
        despawn_with_level: Some(DespawnWithLevel),
        competitor: Some(Competitor),
        jump_over_next_hurdle: Some(JumpOverNextHurdle::LookForHurdleToJumpOver),
        maintain_speed: Some(MaintainSpeed((3000 + 700 * i) as i32)),
        ..LevelEntity::bare((2000 + 3000 * i) as i32)
    }
}

/// Puts the runners into the level, under the next handles, in the order of
/// their numbers.
pub fn add_competitors(level: &mut Level)
    ensures
        final(level)@.len() == old(level)@.len() + COMPETITORS,
        forall|i: int| 0 <= i < old(level)@.len() ==> #[trigger] final(level)@[i] == old(level)@[i],
        forall|i: int|
            0 <= i < COMPETITORS ==> #[trigger] final(level)@[old(level)@.len() + i] == Some(
                competitor_entity(i),
            ),
{
    let ghost before: Seq<Option<LevelEntity>> = level@;
    let mut i: usize = 0;
    while i < COMPETITORS
        invariant
            i <= COMPETITORS,
            level@.len() == before.len() + i,
            forall|j: int| 0 <= j < before.len() ==> #[trigger] level@[j] == before[j],
            forall|j: int|
                0 <= j < i ==> #[trigger] level@[before.len() + j] == Some(competitor_entity(j)),
        decreases COMPETITORS - i,
    {
        let number: i32 = i as i32;
        let mut runner: LevelEntity = LevelEntity::at(2000 + 3000 * number);
        runner.despawn_with_level = Some(DespawnWithLevel);
        runner.competitor = Some(Competitor);
        runner.jump_over_next_hurdle = Some(JumpOverNextHurdle::LookForHurdleToJumpOver);
        runner.maintain_speed = Some(MaintainSpeed(3000 + 700 * number));
        level.spawn(runner);
        i = i + 1;
    }
}

/// The number of runners among the first `n` entities.
pub open spec fn competitor_count(entities: Seq<Option<LevelEntity>>, n: int) -> int
    decreases n,
{
    if n <= 0 {
        0
    } else if marked(entities, n - 1, Marker::Competitor) {
        competitor_count(entities, n - 1) + 1
    } else {
        competitor_count(entities, n - 1)
    }
}

/// The number of runners among the first `n` entities that are strictly
/// behind `x`.
pub open spec fn competitors_behind(entities: Seq<Option<LevelEntity>>, x: int, n: int) -> int
    decreases n,
{
    if n <= 0 {
        0
    } else if marked(entities, n - 1, Marker::Competitor) && entities[n - 1]->0.x < x {
        competitors_behind(entities, x, n - 1) + 1
    } else {
        competitors_behind(entities, x, n - 1)
    }
}

/// Of the runners, those behind a place are some and not more than all.
pub proof fn lemma_behind_is_part(entities: Seq<Option<LevelEntity>>, x: int, n: int)
    requires
        0 <= n <= entities.len(),
    ensures
        0 <= competitors_behind(entities, x, n) <= competitor_count(entities, n) <= n,
    decreases n,
{
    if n > 0 {
        lemma_behind_is_part(entities, x, n - 1);
    }
}

/// Counts the runners behind the player and the others, and records the two
/// numbers. A runner level with the player counts with those ahead. Without
/// a player in the level nothing is recorded.
pub fn update_player_place(level: &Level, player_status: &mut PlayerStatus)
    ensures
        final(player_status).distance_traveled == old(player_status).distance_traveled,
        final(player_status).time == old(player_status).time,
        match last_position(level@, Marker::PlayerSprite, level@.len() as int) {
            Some(x) => {
                &&& final(player_status).competitors_after == competitors_behind(
                    level@,
                    x as int,
                    level@.len() as int,
                )
                &&& final(player_status).competitors_before == competitor_count(
                    level@,
                    level@.len() as int,
                ) - competitors_behind(level@, x as int, level@.len() as int)
                &&& final(player_status).competitors_before + final(player_status).competitors_after
                    == competitor_count(level@, level@.len() as int)
            },
            None => *final(player_status) == *old(player_status),
        },
{
    match level.position_of(Marker::PlayerSprite) {
        Some(player_x) => {
            let mut before: usize = 0;
            let mut after: usize = 0;
            let mut i: usize = 0;
            while i < level.entities.len()
                invariant
                    i <= level.entities.len(),
                    after == competitors_behind(level@, player_x as int, i as int),
                    before + after == competitor_count(level@, i as int),
                    before + after <= i,
                decreases level.entities.len() - i,
            {
                match level.entities[i] {
                    Some(entity) => {
                        if entity.competitor.is_some() {
                            if entity.x < player_x {
                                after = after + 1;
                            } else {
                                before = before + 1;
                            }
                        }
                    },
                    None => {},
                }
                i = i + 1;
            }
            player_status.competitors_before = before;
            player_status.competitors_after = after;
        },
        None => {},
    }
}

/// A runner clears a hurdle in three steps and is done when none is left.
///
/// While no hurdle stands at or behind the start line, a runner that has
/// started and looks for a hurdle takes the next one ahead of it. Within the
/// jump distance of that hurdle it jumps, with the push of a jump. Past the
/// hurdle by more than the clearance it lands, with the push of a landing,
/// and looks again. A runner that looks with no hurdle ahead has passed all
/// hurdles, and stays so.
pub proof fn lemma_runner_clears_hurdle(
    hurdles: Map<int, int>,
    h: usize,
    looking_at: int,
    jumping_at: int,
    landing_at: int,
    done_at: int,
)
    requires
        !hurdle_at_start(hurdles),
        START_LINE < looking_at,
        is_next_hurdle(hurdles, looking_at, h as int),
        START_LINE < jumping_at,
        hurdles[h as int] - jumping_at < JUMP_DISTANCE,
        landing_at - hurdles[h as int] > CLEARANCE,
        START_LINE < done_at,
        forall|k: int| !is_ahead(hurdles, done_at, k),
    ensures
        jump_step(JumpOverNextHurdle::LookForHurdleToJumpOver, looking_at, hurdles) == (
            JumpOverNextHurdle::PrepareToJumpOverHurdle(h),
            None::<Impulse>,
        ),
        jump_step(JumpOverNextHurdle::PrepareToJumpOverHurdle(h), jumping_at, hurdles) == (
            JumpOverNextHurdle::JumpingOverHurdle(h),
            Some(jump_impulse()),
        ),
        jump_step(JumpOverNextHurdle::JumpingOverHurdle(h), landing_at, hurdles) == (
            JumpOverNextHurdle::LookForHurdleToJumpOver,
            Some(landing_impulse()),
        ),
        jump_step(JumpOverNextHurdle::LookForHurdleToJumpOver, done_at, hurdles) == (
            JumpOverNextHurdle::PassedAllHurdles,
            None::<Impulse>,
        ),
        forall|x: int|
            (#[trigger] jump_step(JumpOverNextHurdle::PassedAllHurdles, x, hurdles)).0
                == JumpOverNextHurdle::PassedAllHurdles,
{
    let chosen: usize = choose|c: usize| is_next_hurdle(hurdles, looking_at, c as int);
    lemma_next_hurdle_is_unique(hurdles, looking_at, h as int, chosen as int);
    assert(is_ahead(hurdles, looking_at, h as int));
    assert(hurdles.dom().contains(h as int));
    assert(hurdles[h as int] > START_LINE);
}

} // verus!
