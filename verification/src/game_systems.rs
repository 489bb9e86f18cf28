//! The systems that run a race: one function for each thing that happens on
//! a tick or on a change of state.

pub mod camera;
pub mod competitors;
pub mod ground;
pub mod hurdles;
pub mod pogo;
pub mod settling;

use crate::components::{ContactEvent, Level, LevelEntity, Marker};
use crate::game_systems::competitors::{add_competitors, competitor_entity, COMPETITORS};
use crate::game_systems::ground::{add_ground, ground_entity};
use crate::game_systems::hurdles::{add_hurdles, gap, hurdle_count, hurdle_entity};
use crate::game_systems::pogo::{
    player_head_entity, player_sprite_entity, player_stick_entity, spawn_player, PlayerParts,
};
use crate::global_types::{AppState, GameBoundaries, GameOver, MenuState, PlayerStatus};
use crate::utils::{entities_ordered_by_type, is_touch};
use rand::rngs::StdRng;
use vstd::prelude::*;

verus! {

/// The state of the application together with the reason why the race
/// ended. A reason is on record only while the game-over menu is shown.
pub struct Session {
    state: AppState,
    game_over: Option<GameOver>,
}

impl Session {
    #[verifier::type_invariant]
    spec fn reason_only_when_over(self) -> bool {
        self.game_over is Some ==> self.state == AppState::Menu(MenuState::GameOver)
    }

    /// The state of the application.
    pub closed spec fn current(&self) -> AppState {
        self.state
    }

    /// Why the race ended, if it has.
    pub closed spec fn outcome(&self) -> Option<GameOver> {
        self.game_over
    }

    /// A session in the main menu.
    pub fn new() -> (session: Session)
        ensures
            session.current() == AppState::Menu(MenuState::Main),
            session.outcome() is None,
    {
        Session { state: AppState::Menu(MenuState::Main), game_over: None }
    }

    /// The state of the application.
    pub fn state(&self) -> (state: AppState)
        ensures
            state == self.current(),
    {
        self.state
    }

    /// Why the race ended, if it has. There is a reason only while the
    /// game-over menu is shown.
    pub fn game_over(&self) -> (reason: Option<GameOver>)
        ensures
            reason == self.outcome(),
            reason is Some ==> self.current() == AppState::Menu(MenuState::GameOver),
    {
        proof {
            use_type_invariant(self);
        }
        self.game_over
    }

    /// Moves to `new_state`. Leaving the game-over menu forgets why the race
    /// ended; no other move changes what is on record.
    pub fn move_to_state(&mut self, new_state: AppState)
        ensures
            final(self).current() == new_state,
            final(self).outcome() == if new_state == AppState::Menu(MenuState::GameOver) {
                old(self).outcome()
            } else {
                None
            },
            old(self).current() != AppState::Menu(MenuState::GameOver) ==> final(self).outcome()
                == old(self).outcome(),
    {
        proof {
            use_type_invariant(&*self);
        }
        if new_state != AppState::Menu(MenuState::GameOver) {
            self.game_over = None;
        }
        self.state = new_state;
    }

    /// Ends the running race for `reason` and shows the game-over menu.
    /// Outside a running race nothing happens: a race ends once, for the
    /// first reason.
    pub fn end_race(&mut self, reason: GameOver)
        ensures
            old(self).current() == AppState::Game ==> final(self).current() == AppState::Menu(
                MenuState::GameOver,
            ) && final(self).outcome() == Some(reason),
            old(self).current() != AppState::Game ==> *final(self) == *old(self),
            old(self).outcome() is Some ==> *final(self) == *old(self),
    {
        proof {
            use_type_invariant(&*self);
        }
        if self.state == AppState::Game {
            self.state = AppState::Menu(MenuState::GameOver);
            self.game_over = Some(reason);
        }
    }

    /// Forgets why the race ended.
    pub fn reset_game_over(&mut self)
        ensures
            final(self).current() == old(self).current(),
            final(self).outcome() is None,
    {
        self.game_over = None;
    }
}

/// Whether the physics runs in `state`: during the race, and while the
/// game-over menu is shown, so that what fell can come to rest.
pub open spec fn physics_runs(state: AppState) -> bool {
    state == AppState::Game || state == AppState::Menu(MenuState::GameOver)
}

/// Whether the physics is to run in `state`.
pub fn enable_disable_physics(state: AppState) -> (set_to: bool)
    ensures
        set_to == physics_runs(state),
{
    match state {
        AppState::Game => true,
        AppState::Menu(MenuState::GameOver) => true,
        AppState::Menu(_) | AppState::ClearLevelAndThenLoad | AppState::LoadLevel => false,
    }
}

/// Whether `state` differs from the state seen last, in `prev_state`, which
/// then takes it: so what depends on the state is done once for each change
/// and not on every tick.
pub fn run_on_state_change(state: AppState, prev_state: &mut Option<AppState>) -> (run: bool)
    ensures
        run == (*old(prev_state) != Some(state)),
        *final(prev_state) == Some(state),
{
    let seen: bool = match *prev_state {
        Some(prev) => prev == state,
        None => false,
    };
    if seen {
        return false;
    }
    *prev_state = Some(state);
    true
}

/// Whether the entity in slot `i` goes when the level is cleared.
pub open spec fn leaves_with_level(entities: Seq<Option<LevelEntity>>, i: int) -> bool {
    entities[i] matches Some(entity) && entity.despawn_with_level is Some
}

/// The handles among the first `n` of the entities that go when the level is
/// cleared, in rising order.
pub open spec fn leaving(entities: Seq<Option<LevelEntity>>, n: int) -> Seq<usize>
    decreases n,
{
    if n <= 0 {
        Seq::empty()
    } else if leaves_with_level(entities, n - 1) {
        leaving(entities, n - 1).push((n - 1) as usize)
    } else {
        leaving(entities, n - 1)
    }
}

/// Removes every entity that is marked to go with its level, and returns the
/// handles of the removed, in rising order. Other entities stay as they are.
pub fn clear_level(level: &mut Level) -> (despawned: Vec<usize>)
    ensures
        final(level)@.len() == old(level)@.len(),
        forall|i: int|
            0 <= i < old(level)@.len() ==> #[trigger] final(level)@[i] == if leaves_with_level(
                old(level)@,
                i,
            ) {
                None
            } else {
                old(level)@[i]
            },
        forall|i: int| 0 <= i < final(level)@.len() ==> !leaves_with_level(final(level)@, i),
        despawned@ == leaving(old(level)@, old(level)@.len() as int),
{
    let ghost before: Seq<Option<LevelEntity>> = level@;
    let mut despawned: Vec<usize> = Vec::new();
    let mut i: usize = 0;
    while i < level.entities.len()
        invariant
            i <= level.entities.len(),
            level@.len() == before.len(),
            forall|j: int|
                0 <= j < i ==> #[trigger] level@[j] == if leaves_with_level(before, j) {
                    None
                } else {
                    before[j]
                },
            forall|j: int| i <= j < before.len() ==> #[trigger] level@[j] == before[j],
            despawned@ == leaving(before, i as int),
        decreases level.entities.len() - i,
    {
        let leaves: bool = match level.entities[i] {
            Some(entity) => entity.despawn_with_level.is_some(),
            None => false,
        };
        if leaves {
            level.entities.set(i, None);
            despawned.push(i);
        }
        i = i + 1;
    }
    despawned
}

/// Forgets why the last race ended and how the player did in it.
pub fn reset_resources(session: &mut Session, player_status: &mut PlayerStatus)
    ensures
        final(session).current() == old(session).current(),
        final(session).outcome() is None,
        *final(player_status) == PlayerStatus::start(),
{
    session.reset_game_over();
    *player_status = PlayerStatus::default();
}

/// What happens when the application enters the state in which the level is
/// cleared: every entity of the level goes, the outcome and the player's
/// status are reset, and the application moves on to load the next level.
/// Returns the handles of the removed entities. In another state nothing
/// happens.
pub fn clear_level_and_then_load(
    session: &mut Session,
    level: &mut Level,
    player_status: &mut PlayerStatus,
) -> (despawned: Vec<usize>)
    ensures
        old(session).current() == AppState::ClearLevelAndThenLoad ==> {
            &&& final(session).current() == AppState::LoadLevel
            &&& final(session).outcome() is None
            &&& *final(player_status) == PlayerStatus::start()
            &&& final(level)@.len() == old(level)@.len()
            &&& forall|i: int|
                0 <= i < old(level)@.len() ==> #[trigger] final(level)@[i] == if leaves_with_level(
                    old(level)@,
                    i,
                ) {
                    None
                } else {
                    old(level)@[i]
                }
            &&& forall|i: int| 0 <= i < final(level)@.len() ==> !leaves_with_level(final(level)@, i)
            &&& despawned@ == leaving(old(level)@, old(level)@.len() as int)
        },
        old(session).current() != AppState::ClearLevelAndThenLoad ==> {
            &&& *final(session) == *old(session)
            &&& *final(level) == *old(level)
            &&& *final(player_status) == *old(player_status)
            &&& despawned@ == Seq::<usize>::empty()
        },
{
    if session.state() != AppState::ClearLevelAndThenLoad {
        return Vec::new();
    }
    let despawned: Vec<usize> = clear_level(level);
    reset_resources(session, player_status);
    session.move_to_state(AppState::LoadLevel);
    despawned
}

/// What a freshly loaded level holds, by handle.
pub struct LoadedLevel {
    /// The handle of the ground.
    pub ground: usize,
    /// The handles of the parts of the player.
    pub player: PlayerParts,
    /// The handle of the first hurdle; the others follow it.
    pub first_hurdle: usize,
    /// Where the hurdles stand, in the order of their handles.
    pub placements: Vec<i32>,
    /// The handle of the first runner; the others follow it.
    pub first_competitor: usize,
}

/// What happens when the application enters the state in which the level is
/// loaded: the ground, the player, the hurdles and the runners enter the
/// level, in this order and under the next handles, and the race begins.
/// The hurdles stand at random between `before_first` and the right end of
/// the track, none nearer than `hurdle_spacing` to another or to an end of
/// that stretch. In another state nothing happens.
pub fn load_level(
    session: &mut Session,
    level: &mut Level,
    boundaries: &GameBoundaries,
    before_first: i32,
    hurdle_spacing: u32,
    rng: &mut StdRng,
) -> (loaded: Option<LoadedLevel>)
    ensures
        loaded is Some <==> old(session).current() == AppState::LoadLevel,
        loaded is None ==> {
            &&& *final(session) == *old(session)
            &&& *final(level) == *old(level)
        },
        loaded matches Some(l) ==> {
            let n: int = old(level)@.len() as int;
            let hurdles: int = l.placements.len() as int;
            &&& final(session).current() == AppState::Game
            &&& final(session).outcome() is None
            &&& final(level)@.len() == n + 4 + hurdles + COMPETITORS
            &&& forall|i: int| 0 <= i < n ==> #[trigger] final(level)@[i] == old(level)@[i]
            &&& l.ground == n
            &&& final(level)@[n] == Some(ground_entity(*boundaries))
            &&& l.player == (PlayerParts { sprite: (n + 1) as usize, head: (n + 2) as usize, stick: (n + 3) as usize })
            &&& final(level)@[n + 1] == Some(player_sprite_entity())
            &&& final(level)@[n + 2] == Some(player_head_entity())
            &&& final(level)@[n + 3] == Some(player_stick_entity())
            &&& l.first_hurdle == n + 4
            &&& forall|i: int|
                0 <= i < hurdles ==> #[trigger] final(level)@[n + 4 + i] == Some(
                    hurdle_entity(l.placements[i]),
                )
            &&& l.first_competitor == n + 4 + hurdles
            &&& forall|i: int|
                0 <= i < COMPETITORS ==> #[trigger] final(level)@[n + 4 + hurdles + i] == Some(
                    competitor_entity(i),
                )
            &&& hurdles <= hurdle_count(boundaries.right - before_first, hurdle_spacing as int)
            &&& forall|i: int|
                0 <= i < hurdles ==> before_first <= #[trigger] l.placements[i] <= boundaries.right
            &&& hurdles >= 1 ==> forall|i: int|
                0 <= i <= hurdles ==> #[trigger] gap(
                    l.placements@,
                    before_first as int,
                    boundaries.right as int,
                    i,
                ) >= hurdle_spacing
            &&& hurdles < hurdle_count(boundaries.right - before_first, hurdle_spacing as int)
                ==> forall|i: int|
                0 <= i <= hurdles ==> #[trigger] gap(
                    l.placements@,
                    before_first as int,
                    boundaries.right as int,
                    i,
                ) < 2 * hurdle_spacing
            &&& hurdles >= 1 ==> (hurdles + 1) * hurdle_spacing <= boundaries.right - before_first
        },
{
    if session.state() != AppState::LoadLevel {
        return None;
    }
    let ghost before: Seq<Option<LevelEntity>> = level@;
    let ground: usize = add_ground(level, boundaries);
    let player: PlayerParts = spawn_player(level);
    let ghost with_player: Seq<Option<LevelEntity>> = level@;
    let first_hurdle: usize = level.entities.len();
    let placements: Vec<i32> = add_hurdles(level, boundaries, before_first, hurdle_spacing, rng);
    let ghost with_hurdles: Seq<Option<LevelEntity>> = level@;
    let first_competitor: usize = level.entities.len();
    add_competitors(level);
    session.move_to_state(AppState::Game);
    proof {
        let n: int = before.len() as int;
        assert forall|i: int| 0 <= i < n + 4 implies #[trigger] level@[i] == with_player[i] by {
            assert(with_hurdles[i] == with_player[i]);
        }
        assert forall|i: int| 0 <= i < placements.len() implies #[trigger] level@[n + 4 + i]
            == Some(hurdle_entity(placements[i])) by {
            assert(with_hurdles[with_player.len() + i] == Some(hurdle_entity(placements[i])));
        }
        assert forall|i: int| 0 <= i < COMPETITORS implies #[trigger] level@[n + 4
            + placements.len() + i] == Some(competitor_entity(i)) by {
            assert(level@[with_hurdles.len() + i] == Some(competitor_entity(i)));
        }
    }
    Some(LoadedLevel { ground, player, first_hurdle, placements, first_competitor })
}

/// How the race ends by what `event` reports: with an injury where the
/// player's head has begun to touch the ground, with a disqualification
/// where the player has begun to touch a hurdle, else not at all.
pub open spec fn touch_outcome(entities: Seq<Option<LevelEntity>>, event: ContactEvent) -> Option<
    GameOver,
> {
    if is_touch(entities, event, Marker::Ground, Marker::PlayerHead) {
        Some(GameOver::Injured)
    } else if is_touch(entities, event, Marker::Hurdle, Marker::Player) {
        Some(GameOver::Disqualified)
    } else {
        None
    }
}

/// How the race ends by the first of the first `n` of `events` that ends
/// it, if one does.
pub open spec fn first_touch_outcome(
    entities: Seq<Option<LevelEntity>>,
    events: Seq<ContactEvent>,
    n: int,
) -> Option<GameOver>
    decreases n,
{
    if n <= 0 {
        None
    } else if first_touch_outcome(entities, events, n - 1) is Some {
        first_touch_outcome(entities, events, n - 1)
    } else {
        touch_outcome(entities, events[n - 1])
    }
}

/// Once an event has ended the race, later events change nothing.
pub proof fn lemma_first_touch_outcome_stays(
    entities: Seq<Option<LevelEntity>>,
    events: Seq<ContactEvent>,
    n: int,
    m: int,
)
    requires
        n <= m,
        first_touch_outcome(entities, events, n) is Some,
    ensures
        first_touch_outcome(entities, events, m) == first_touch_outcome(entities, events, n),
    decreases m - n,
{
    if n < m {
        lemma_first_touch_outcome_stays(entities, events, n, m - 1);
    }
}

/// How the race ends by what `event` reports, if it does.
pub fn classify_contact(level: &Level, event: ContactEvent) -> (reason: Option<GameOver>)
    ensures
        reason == touch_outcome(level@, event),
{
    match event {
        ContactEvent::Started(handle1, handle2) => {
            if entities_ordered_by_type(
                level,
                (handle1, handle2),
                Marker::Ground,
                Marker::PlayerHead,
            ).is_some() {
                Some(GameOver::Injured)
            } else if entities_ordered_by_type(
                level,
                (handle1, handle2),
                Marker::Hurdle,
                Marker::Player,
            ).is_some() {
                Some(GameOver::Disqualified)
            } else {
                None
            }
        },
        ContactEvent::Stopped(_, _) => None,
    }
}

/// Takes the contacts of a tick off their queue, in the order in which they
/// came, and ends the race for the first that is a reason to. The queue is
/// empty afterwards. Outside a running race the contacts are dropped.
pub fn drain_contacts(events: &mut Vec<ContactEvent>, level: &Level, session: &mut Session)
    ensures
        final(events)@.len() == 0,
        final(session).current() == if old(session).current() == AppState::Game
            && first_touch_outcome(level@, old(events)@, old(events)@.len() as int) is Some {
            AppState::Menu(MenuState::GameOver)
        } else {
            old(session).current()
        },
        final(session).outcome() == if old(session).current() == AppState::Game
            && first_touch_outcome(level@, old(events)@, old(events)@.len() as int) is Some {
            first_touch_outcome(level@, old(events)@, old(events)@.len() as int)
        } else {
            old(session).outcome()
        },
        old(session).outcome() is Some ==> *final(session) == *old(session),
{
    let ghost queue: Seq<ContactEvent> = events@;
    let mut found: Option<GameOver> = None;
    let mut i: usize = 0;
    while i < events.len() && found.is_none()
        invariant
            i <= events.len(),
            events@ == queue,
            found == first_touch_outcome(level@, queue, i as int),
        decreases events.len() - i,
    {
        found = classify_contact(level, events[i]);
        i = i + 1;
    }
    proof {
        if found is Some {
            lemma_first_touch_outcome_stays(level@, queue, i as int, queue.len() as int);
        }
    }
    events.clear();
    match found {
        Some(reason) => {
            session.end_race(reason);
        },
        None => {},
    }
}

} // verus!
