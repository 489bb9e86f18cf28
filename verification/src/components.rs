//! The entities of a level and the markers that tell them apart.
//!
//! A level keeps its entities in an arena. A handle is an entity's index in
//! the arena; it is never given to another entity, so a handle that outlives
//! its entity finds nothing.

use crate::game_systems::competitors::{JumpOverNextHurdle, MaintainSpeed};
use vstd::prelude::*;

verus! {

/// Marks an entity that must not outlive its level.
#[derive(Debug, PartialEq, Eq, Clone, Copy, Structural)]
pub struct DespawnWithLevel;

/// Marks the entity that the camera follows.
#[derive(Debug, PartialEq, Eq, Clone, Copy, Structural)]
pub struct CameraFollowTarget;

/// Marks the body of the player, whose position is the player's.
#[derive(Debug, PartialEq, Eq, Clone, Copy, Structural)]
pub struct PlayerSprite;

/// Marks a part of the player that can touch things.
#[derive(Debug, PartialEq, Eq, Clone, Copy, Structural)]
pub struct Player;

/// Marks the part of the player that must not touch the ground.
#[derive(Debug, PartialEq, Eq, Clone, Copy, Structural)]
pub struct PlayerHead;

/// Marks a hurdle.
#[derive(Debug, PartialEq, Eq, Clone, Copy, Structural)]
pub struct Hurdle;

/// Marks a runner other than the player.
#[derive(Debug, PartialEq, Eq, Clone, Copy, Structural)]
pub struct Competitor;

/// Marks the ground.
#[derive(Debug, PartialEq, Eq, Clone, Copy, Structural)]
pub struct Ground;

/// Marks an entity that is kept upright.
#[derive(Debug, PartialEq, Eq, Clone, Copy, Structural)]
pub struct AutoBalance;

/// One entity of a level: the markers and data it carries, and where the
/// physics last saw it.
#[derive(Debug, PartialEq, Eq, Clone, Copy, Structural)]
pub struct LevelEntity {
    pub despawn_with_level: Option<DespawnWithLevel>,
    pub camera_follow_target: Option<CameraFollowTarget>,
    pub player_sprite: Option<PlayerSprite>,
    pub player: Option<Player>,
    pub player_head: Option<PlayerHead>,
    pub hurdle: Option<Hurdle>,
    pub competitor: Option<Competitor>,
    pub ground: Option<Ground>,
    pub auto_balance: Option<AutoBalance>,
    pub jump_over_next_hurdle: Option<JumpOverNextHurdle>,
    pub maintain_speed: Option<MaintainSpeed>,
    /// The position along the track, in thousandths.
    pub x: i32,
    /// The speed along the track, in thousandths a second.
    pub velocity_x: i32,
}

impl LevelEntity {
    /// An entity at `x`, at rest, that carries nothing.
    pub open spec fn bare(x: i32) -> LevelEntity {
        LevelEntity {
            despawn_with_level: None,
            camera_follow_target: None,
            player_sprite: None,
            player: None,
            player_head: None,
            hurdle: None,
            competitor: None,
            ground: None,
            auto_balance: None,
            jump_over_next_hurdle: None,
            maintain_speed: None,
            x,
            velocity_x: 0,
        }
    }

    /// An entity at `x`, at rest, that carries nothing.
    pub fn at(x: i32) -> (entity: LevelEntity)
        ensures
            entity == Self::bare(x),
    {
        LevelEntity {
            despawn_with_level: None,
            camera_follow_target: None,
            player_sprite: None,
            player: None,
            player_head: None,
            hurdle: None,
            competitor: None,
            ground: None,
            auto_balance: None,
            jump_over_next_hurdle: None,
            maintain_speed: None,
            x,
            velocity_x: 0,
        }
    }
}

/// The arena of a level's entities. A slot is empty once its entity is gone.
pub struct Level {
    pub entities: Vec<Option<LevelEntity>>,
}

impl View for Level {
    type V = Seq<Option<LevelEntity>>;

    open spec fn view(&self) -> Seq<Option<LevelEntity>> {
        self.entities@
    }
}

/// The entity that `handle` names among `entities`, if there is one.
pub open spec fn entity_at(entities: Seq<Option<LevelEntity>>, handle: int) -> Option<LevelEntity> {
    if 0 <= handle < entities.len() {
        entities[handle]
    } else {
        None
    }
}

impl Level {
    /// A level without entities.
    pub fn new() -> (level: Level)
        ensures
            level@ == Seq::<Option<LevelEntity>>::empty(),
    {
        Level { entities: Vec::new() }
    }

    /// Adds `entity` and returns its handle.
    pub fn spawn(&mut self, entity: LevelEntity) -> (handle: usize)
        ensures
            handle == old(self)@.len(),
            final(self)@ == old(self)@.push(Some(entity)),
    {
        let handle: usize = self.entities.len();
        self.entities.push(Some(entity));
        handle
    }

    /// The entity that `handle` names, if there is one.
    pub fn get(&self, handle: usize) -> (entity: Option<LevelEntity>)
        ensures
            entity == entity_at(self@, handle as int),
    {
        if handle < self.entities.len() {
            self.entities[handle]
        } else {
            None
        }
    }

    /// Removes the entity that `handle` names. Its slot stays, empty, so that
    /// the handle is not given out again. Says whether there was an entity.
    pub fn despawn(&mut self, handle: usize) -> (found: bool)
        ensures
            found == (entity_at(old(self)@, handle as int) is Some),
            found ==> final(self)@ == old(self)@.update(handle as int, None),
            !found ==> final(self)@ == old(self)@,
    {
        if handle < self.entities.len() {
            let found: bool = self.entities[handle].is_some();
            self.entities.set(handle, None);
            assert(!found ==> self@ =~= old(self)@);
            found
        } else {
            false
        }
    }

    /// Records where the physics sees the entity that `handle` names, and how
    /// fast. Says whether there was an entity.
    pub fn set_motion(&mut self, handle: usize, x: i32, velocity_x: i32) -> (found: bool)
        ensures
            found == (entity_at(old(self)@, handle as int) is Some),
            found ==> final(self)@ == old(self)@.update(
                handle as int,
                Some(LevelEntity { x, velocity_x, ..old(self)@[handle as int]->0 }),
            ),
            !found ==> final(self)@ == old(self)@,
    {
        match self.get(handle) {
            Some(entity) => {
                self.entities.set(handle, Some(LevelEntity { x, velocity_x, ..entity }));
                true
            },
            None => false,
        }
    }
}

/// The name of a marker, to ask for the entities that carry it.
#[derive(Debug, PartialEq, Eq, Clone, Copy, Structural)]
pub enum Marker {
    DespawnWithLevel,
    CameraFollowTarget,
    PlayerSprite,
    Player,
    PlayerHead,
    Hurdle,
    Competitor,
    Ground,
    AutoBalance,
}

impl LevelEntity {
    /// Whether the entity carries `marker`.
    pub open spec fn has(self, marker: Marker) -> bool {
        match marker {
            Marker::DespawnWithLevel => self.despawn_with_level is Some,
            Marker::CameraFollowTarget => self.camera_follow_target is Some,
            Marker::PlayerSprite => self.player_sprite is Some,
            Marker::Player => self.player is Some,
            Marker::PlayerHead => self.player_head is Some,
            Marker::Hurdle => self.hurdle is Some,
            Marker::Competitor => self.competitor is Some,
            Marker::Ground => self.ground is Some,
            Marker::AutoBalance => self.auto_balance is Some,
        }
    }

    /// Whether the entity carries `marker`.
    pub fn carries(&self, marker: Marker) -> (carried: bool)
        ensures
            carried == self.has(marker),
    {
        match marker {
            Marker::DespawnWithLevel => self.despawn_with_level.is_some(),
            Marker::CameraFollowTarget => self.camera_follow_target.is_some(),
            Marker::PlayerSprite => self.player_sprite.is_some(),
            Marker::Player => self.player.is_some(),
            Marker::PlayerHead => self.player_head.is_some(),
            Marker::Hurdle => self.hurdle.is_some(),
            Marker::Competitor => self.competitor.is_some(),
            Marker::Ground => self.ground.is_some(),
            Marker::AutoBalance => self.auto_balance.is_some(),
        }
    }
}

/// Whether `handle` names an entity that carries `marker`.
pub open spec fn marked(entities: Seq<Option<LevelEntity>>, handle: int, marker: Marker) -> bool {
    entity_at(entities, handle) matches Some(entity) && entity.has(marker)
}

/// The position of the last of the first `n` entities that carries `marker`,
/// if one of them does.
pub open spec fn last_position(entities: Seq<Option<LevelEntity>>, marker: Marker, n: int) -> Option<
    i32,
>
    decreases n,
{
    if n <= 0 {
        None
    } else if marked(entities, n - 1, marker) {
        Some(entities[n - 1]->0.x)
    } else {
        last_position(entities, marker, n - 1)
    }
}

impl Level {
    /// Whether `handle` names an entity that carries `marker`.
    pub fn is_marked(&self, handle: usize, marker: Marker) -> (carried: bool)
        ensures
            carried == marked(self@, handle as int, marker),
    {
        match self.get(handle) {
            Some(entity) => entity.carries(marker),
            None => false,
        }
    }

    /// The position of the entity that carries `marker`; where several do,
    /// of the one with the greatest handle.
    pub fn position_of(&self, marker: Marker) -> (x: Option<i32>)
        ensures
            x == last_position(self@, marker, self@.len() as int),
    {
        let mut x: Option<i32> = None;
        let mut i: usize = 0;
        while i < self.entities.len()
            invariant
                i <= self.entities.len(),
                x == last_position(self@, marker, i as int),
            decreases self.entities.len() - i,
        {
            if self.is_marked(i, marker) {
                match self.entities[i] {
                    Some(entity) => {
                        x = Some(entity.x);
                    },
                    None => {},
                }
            }
            i = i + 1;
        }
        x
    }
}

/// What the physics reports of two bodies, named by their handles.
#[derive(Debug, PartialEq, Eq, Clone, Copy, Structural)]
pub enum ContactEvent {
    /// The two have begun to touch.
    Started(usize, usize),
    /// The two have ceased to touch.
    Stopped(usize, usize),
}

} // verus!
