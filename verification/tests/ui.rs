use pogo_hurdling::game_systems::Session;
use pogo_hurdling::global_types::{AppState, GameOver, MenuState, PlayerStatus};
use pogo_hurdling::ui::input::{
    handle_gamepad_events, GamepadCommand, GamepadEvent, GamepadEventType, GamepadService,
};
use pogo_hurdling::ui::score::update_score_display;
use pogo_hurdling::ui::{
    game_over_menu, game_over_message, main_menu, pause_menu, pause_unpause_game,
};

const MAIN: AppState = AppState::Menu(MenuState::Main);
const PAUSE: AppState = AppState::Menu(MenuState::Pause);
const GAME_OVER: AppState = AppState::Menu(MenuState::GameOver);
const ALL: [AppState; 6] =
    [MAIN, PAUSE, GAME_OVER, AppState::ClearLevelAndThenLoad, AppState::LoadLevel, AppState::Game];

fn session_in(state: AppState) -> Session {
    let mut session = Session::new();
    if state == GAME_OVER {
        session.move_to_state(AppState::Game);
        session.end_race(GameOver::Injured);
    } else {
        session.move_to_state(state);
    }
    session
}

#[test]
fn the_pause_key_pauses_and_resumes() {
    for state in ALL {
        let expected = match state {
            AppState::Game => PAUSE,
            AppState::Menu(MenuState::Pause) => AppState::Game,
            other => other,
        };
        let mut session = session_in(state);
        let reason = session.game_over();
        pause_unpause_game(false, &mut session);
        assert_eq!(session.state(), state);
        pause_unpause_game(true, &mut session);
        assert_eq!(session.state(), expected);
        assert_eq!(session.game_over(), reason);
    }
}

#[test]
fn start_leaves_the_main_menu() {
    for state in ALL {
        let expected = if state == MAIN { AppState::ClearLevelAndThenLoad } else { state };
        let mut session = session_in(state);
        let reason = session.game_over();
        main_menu(false, &mut session);
        assert_eq!(session.state(), state);
        main_menu(true, &mut session);
        assert_eq!(session.state(), expected);
        assert_eq!(session.game_over(), reason);
    }
}

#[test]
fn the_pause_menu_resumes_or_leaves() {
    for state in ALL {
        for (resume, leave) in [(false, false), (true, false), (false, true), (true, true)] {
            let expected = if state != PAUSE {
                state
            } else if resume {
                AppState::Game
            } else if leave {
                MAIN
            } else {
                PAUSE
            };
            let mut session = session_in(state);
            let reason = session.game_over();
            pause_menu(resume, leave, &mut session);
            assert_eq!(session.state(), expected);
            assert_eq!(session.game_over(), reason);
        }
    }
}

#[test]
fn the_game_over_menu_leads_to_the_main_menu() {
    let status = PlayerStatus::default();
    for state in ALL {
        let mut session = session_in(state);
        let reason = session.game_over();
        let message = game_over_menu(false, &mut session, &status);
        assert_eq!(message.is_some(), state == GAME_OVER);
        assert_eq!(session.state(), state);
        assert_eq!(session.game_over(), reason);
        let message = game_over_menu(true, &mut session, &status);
        assert_eq!(message.is_some(), state == GAME_OVER);
        assert_eq!(session.state(), if state == GAME_OVER { MAIN } else { state });
        assert_eq!(session.game_over(), None);
        assert!(game_over_menu(true, &mut session, &status).is_none());
    }
}

#[test]
fn the_game_over_menu_says_how_the_race_ended() {
    let status = PlayerStatus {
        distance_traveled: 42_350,
        time: 83_456,
        competitors_before: 2,
        competitors_after: 2,
    };
    let message = game_over_message(GameOver::Injured, &status);
    assert_eq!(message.headline, "INJURED!");
    assert!(!message.good_news);
    assert_eq!(message.detail.unwrap(), "Traveled 42.4m before hitting your head");
    let message = game_over_message(GameOver::Disqualified, &status);
    assert_eq!(message.headline, "DISQUALIFIED!");
    assert!(!message.good_news);
    assert_eq!(message.detail.unwrap(), "Traveled 42.4m before hitting a hurdle");
    let message = game_over_message(GameOver::WrongWay, &status);
    assert_eq!(message.headline, "that's the wrong way...");
    assert!(!message.good_news);
    assert_eq!(message.detail, None);
    let message = game_over_message(GameOver::FinishLine, &status);
    assert_eq!(message.headline, "FINISH!");
    assert!(message.good_news);
    assert_eq!(message.detail.unwrap(), "Finished in 01:23.5, place 3 out of 5");

    let mut session = Session::new();
    session.move_to_state(AppState::Game);
    session.end_race(GameOver::FinishLine);
    let message = game_over_menu(true, &mut session, &status).unwrap();
    assert_eq!(message.headline, "FINISH!");
    assert_eq!(message.detail.unwrap(), "Finished in 01:23.5, place 3 out of 5");
}

#[test]
fn the_greatest_counts_are_shown() {
    let status = PlayerStatus {
        distance_traveled: -1,
        time: u64::MAX,
        competitors_before: usize::MAX,
        competitors_after: usize::MAX,
    };
    let place = usize::MAX as u128 + 1;
    let total = 2 * (usize::MAX as u128) + 1;
    let message = game_over_message(GameOver::FinishLine, &status);
    assert_eq!(
        message.detail.unwrap(),
        format!("Finished in 307445734561825:51.6, place {} out of {}", place, total)
    );
    let display = update_score_display(&status);
    assert_eq!(display.distance, "-0.0m");
    assert_eq!(display.place, format!("{}", place));
    assert_eq!(display.total_runners, format!("{}", total));
}

#[test]
fn the_score_is_shown_in_four_figures() {
    let display = update_score_display(&PlayerStatus::default());
    assert_eq!(display.distance, "0.0m");
    assert_eq!(display.time, "00:0.0");
    assert_eq!(display.place, "1");
    assert_eq!(display.total_runners, "1");
    let display = update_score_display(&PlayerStatus {
        distance_traveled: 42_350,
        time: 83_456,
        competitors_before: 2,
        competitors_after: 2,
    });
    assert_eq!(display.distance, "42.4m");
    assert_eq!(display.time, "01:23.5");
    assert_eq!(display.place, "3");
    assert_eq!(display.total_runners, "5");
}

#[test]
fn gamepads_come_and_go() {
    let services = vec![
        GamepadService { entity: 10, gamepad: 0 },
        GamepadService { entity: 11, gamepad: 2 },
        GamepadService { entity: 12, gamepad: 0 },
    ];
    let event = |gamepad: usize, event_type: GamepadEventType| GamepadEvent { gamepad, event_type };
    assert_eq!(handle_gamepad_events(&vec![], &services), vec![]);
    assert_eq!(
        handle_gamepad_events(&vec![event(1, GamepadEventType::Connected)], &services),
        vec![GamepadCommand::Spawn(1)]
    );
    assert_eq!(
        handle_gamepad_events(&vec![event(2, GamepadEventType::Connected)], &services),
        vec![]
    );
    assert_eq!(
        handle_gamepad_events(&vec![event(0, GamepadEventType::Disconnected)], &services),
        vec![GamepadCommand::Despawn(10), GamepadCommand::Despawn(12)]
    );
    assert_eq!(
        handle_gamepad_events(&vec![event(5, GamepadEventType::Disconnected)], &services),
        vec![]
    );
    assert_eq!(handle_gamepad_events(&vec![event(1, GamepadEventType::Other)], &services), vec![]);
    assert_eq!(
        handle_gamepad_events(
            &vec![
                event(1, GamepadEventType::Connected),
                event(1, GamepadEventType::Connected),
                event(2, GamepadEventType::Disconnected),
                event(2, GamepadEventType::Connected),
                event(0, GamepadEventType::Other),
                event(1, GamepadEventType::Disconnected),
            ],
            &services
        ),
        vec![GamepadCommand::Spawn(1), GamepadCommand::Spawn(1), GamepadCommand::Despawn(11)]
    );
    assert_eq!(
        handle_gamepad_events(&vec![event(3, GamepadEventType::Connected)], &vec![]),
        vec![GamepadCommand::Spawn(3)]
    );
}
