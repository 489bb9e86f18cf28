//! Which gamepads take part in the game.

use vstd::prelude::*;

verus! {

/// What has happened to a gamepad.
#[derive(Debug, PartialEq, Eq, Clone, Copy, Structural)]
pub enum GamepadEventType {
    Connected,
    Disconnected,
    /// A button or an axis has moved.
    Other,
}

/// An event of the gamepad of number `gamepad`.
#[derive(Debug, PartialEq, Eq, Clone, Copy, Structural)]
pub struct GamepadEvent {
    pub gamepad: usize,
    pub event_type: GamepadEventType,
}

/// An input service that listens to the gamepad of number `gamepad`, kept
/// by the entity `entity`.
#[derive(Debug, PartialEq, Eq, Clone, Copy, Structural)]
pub struct GamepadService {
    pub entity: usize,
    pub gamepad: usize,
}

/// What is to be done about the input services.
#[derive(Debug, PartialEq, Eq, Clone, Copy, Structural)]
pub enum GamepadCommand {
    /// A service for the gamepad of this number is to be set up.
    Spawn(usize),
    /// The service that this entity keeps is to go.
    Despawn(usize),
}

/// Whether one of the first `n` of `services` listens to `gamepad`.
pub open spec fn is_served(services: Seq<GamepadService>, gamepad: usize, n: int) -> bool {
    exists|i: int| 0 <= i < n && (#[trigger] services[i]).gamepad == gamepad
}

/// The commands to remove those of the first `n` of `services` that listen
/// to `gamepad`, in their order.
pub open spec fn despawns(services: Seq<GamepadService>, gamepad: usize, n: int) -> Seq<
    GamepadCommand,
>
    decreases n,
{
    if n <= 0 {
        Seq::empty()
    } else if services[n - 1].gamepad == gamepad {
        despawns(services, gamepad, n - 1).push(GamepadCommand::Despawn(services[n - 1].entity))
    } else {
        despawns(services, gamepad, n - 1)
    }
}

/// The commands that `event` calls for: a gamepad that is connected and not
/// served yet gets a service, and the services of one that is disconnected
/// go.
pub open spec fn commands_for(event: GamepadEvent, services: Seq<GamepadService>) -> Seq<
    GamepadCommand,
> {
    match event.event_type {
        GamepadEventType::Connected => if is_served(
            services,
            event.gamepad,
            services.len() as int,
        ) {
            Seq::empty()
        } else {
            seq![GamepadCommand::Spawn(event.gamepad)]
        },
        GamepadEventType::Disconnected => despawns(services, event.gamepad, services.len() as int),
        GamepadEventType::Other => Seq::empty(),
    }
}

/// The commands that the first `n` of `events` call for, in their order.
/// Each event is judged by the services as they were before any of the
/// commands.
pub open spec fn commands_for_all(
    events: Seq<GamepadEvent>,
    services: Seq<GamepadService>,
    n: int,
) -> Seq<GamepadCommand>
    decreases n,
{
    if n <= 0 {
        Seq::empty()
    } else {
        commands_for_all(events, services, n - 1) + commands_for(events[n - 1], services)
    }
}

/// Decides what is to be done about the input services after `events`.
pub fn handle_gamepad_events(events: &Vec<GamepadEvent>, services: &Vec<GamepadService>) -> (commands:
    Vec<GamepadCommand>)
    ensures
        commands@ == commands_for_all(events@, services@, events.len() as int),
{
    let mut commands: Vec<GamepadCommand> = Vec::new();
    let mut e: usize = 0;
    while e < events.len()
        invariant
            e <= events.len(),
            commands@ == commands_for_all(events@, services@, e as int),
        decreases events.len() - e,
    {
        let event: GamepadEvent = events[e];
        let ghost so_far: Seq<GamepadCommand> = commands@;
        match event.event_type {
            GamepadEventType::Connected => {
                let mut served: bool = false;
                let mut i: usize = 0;
                while i < services.len()
                    invariant
                        i <= services.len(),
                        served == is_served(services@, event.gamepad, i as int),
                    decreases services.len() - i,
                {
                    if services[i].gamepad == event.gamepad {
                        served = true;
                    }
                    i = i + 1;
                }
                if !served {
                    commands.push(GamepadCommand::Spawn(event.gamepad));
                    assert(commands@ =~= so_far + seq![GamepadCommand::Spawn(event.gamepad)]);
                } else {
                    assert(commands@ =~= so_far + Seq::<GamepadCommand>::empty());
                }
            },
            GamepadEventType::Disconnected => {
                let mut i: usize = 0;
                assert(commands@ =~= so_far + despawns(services@, event.gamepad, 0));
                while i < services.len()
                    invariant
                        i <= services.len(),
                        commands@ == so_far + despawns(services@, event.gamepad, i as int),
                    decreases services.len() - i,
                {
                    if services[i].gamepad == event.gamepad {
                        commands.push(GamepadCommand::Despawn(services[i].entity));
                    }
                    i = i + 1;
                    assert(commands@ =~= so_far + despawns(services@, event.gamepad, i as int));
                }
            },
            GamepadEventType::Other => {
                assert(commands@ =~= so_far + Seq::<GamepadCommand>::empty());
            },
        }
        e = e + 1;
    }
    commands
}

} // verus!
