//! What the menus decide and what they say. Drawing them is the caller's.

pub mod input;
pub mod score;

use crate::game_systems::Session;
use crate::global_types::{AppState, GameOver, MenuState, PlayerStatus};
use crate::text::{decimal, decimal_text, one_decimal, one_decimal_text};
use vstd::prelude::*;
use vstd::string::StringExecFns;

verus! {

/// The state after the pause key is pressed in `state`: a running race is
/// paused, a paused race runs again, and elsewhere the key does nothing.
pub open spec fn pause_toggled(state: AppState) -> AppState {
    match state {
        AppState::Menu(MenuState::Pause) => AppState::Game,
        AppState::Game => AppState::Menu(MenuState::Pause),
        other => other,
    }
}

/// Pauses the running race or lets the paused race run again, if the pause
/// key was pressed on this tick.
pub fn pause_unpause_game(pause_pressed: bool, session: &mut Session)
    ensures
        final(session).current() == if pause_pressed {
            pause_toggled(old(session).current())
        } else {
            old(session).current()
        },
        final(session).outcome() == old(session).outcome(),
{
    if pause_pressed {
        match session.state() {
            AppState::Menu(MenuState::Pause) => {
                session.move_to_state(AppState::Game);
            },
            AppState::Menu(_) => {},
            AppState::ClearLevelAndThenLoad => {},
            AppState::LoadLevel => {},
            AppState::Game => {
                session.move_to_state(AppState::Menu(MenuState::Pause));
            },
        }
    }
}

/// The main menu: a click on "Start" makes way for a new level. Outside the
/// main menu nothing happens.
pub fn main_menu(start_clicked: bool, session: &mut Session)
    ensures
        final(session).current() == if start_clicked && old(session).current() == AppState::Menu(
            MenuState::Main,
        ) {
            AppState::ClearLevelAndThenLoad
        } else {
            old(session).current()
        },
        final(session).outcome() == old(session).outcome(),
{
    if start_clicked {
        match session.state() {
            AppState::Menu(MenuState::Main) => {
                session.move_to_state(AppState::ClearLevelAndThenLoad);
            },
            _ => {},
        }
    }
}

/// The pause menu: a click on "Resume" lets the race run again, a click on
/// "Main Menu" leaves the race; of both at once the first counts. Outside
/// the pause menu nothing happens.
pub fn pause_menu(resume_clicked: bool, main_menu_clicked: bool, session: &mut Session)
    ensures
        final(session).current() == if old(session).current() != AppState::Menu(MenuState::Pause) {
            old(session).current()
        } else if resume_clicked {
            AppState::Game
        } else if main_menu_clicked {
            AppState::Menu(MenuState::Main)
        } else {
            old(session).current()
        },
        final(session).outcome() == old(session).outcome(),
{
    match session.state() {
        AppState::Menu(MenuState::Pause) => {
            if resume_clicked {
                session.move_to_state(AppState::Game);
            } else if main_menu_clicked {
                session.move_to_state(AppState::Menu(MenuState::Main));
            }
        },
        _ => {},
    }
}

/// What the game-over menu says of the end of a race.
pub struct GameOverMessage {
    /// The headline.
    pub headline: String,
    /// Whether the headline is good news.
    pub good_news: bool,
    /// The line below the headline, if there is one.
    pub detail: Option<String>,
}

/// The headline for a race that ended for `reason`.
pub open spec fn headline_text(reason: GameOver) -> Seq<char> {
    match reason {
        GameOver::Injured => "INJURED!"@,
        GameOver::Disqualified => "DISQUALIFIED!"@,
        GameOver::WrongWay => "that's the wrong way..."@,
        GameOver::FinishLine => "FINISH!"@,
    }
}

/// The line below the headline for a race that ended for `reason` with
/// `status`: how far the player came before the mishap, or how it finished.
/// A race the wrong way gets no such line.
pub open spec fn detail_text(reason: GameOver, status: PlayerStatus) -> Option<Seq<char>> {
    match reason {
        GameOver::Injured => Some(
            "Traveled "@ + one_decimal_text(status.distance_traveled as int)
                + "m before hitting your head"@,
        ),
        GameOver::Disqualified => Some(
            "Traveled "@ + one_decimal_text(status.distance_traveled as int)
                + "m before hitting a hurdle"@,
        ),
        GameOver::WrongWay => None,
        GameOver::FinishLine => Some(
            "Finished in "@ + status.time_text() + ", place "@ + decimal_text(
                (status.competitors_before + 1) as nat,
            ) + " out of "@ + decimal_text(
                (status.competitors_before + status.competitors_after + 1) as nat,
            ),
        ),
    }
}

/// What the game-over menu says of a race that ended for `reason` with
/// `player_status`.
pub fn game_over_message(reason: GameOver, player_status: &PlayerStatus) -> (message:
    GameOverMessage)
    ensures
        message.headline@ == headline_text(reason),
        message.good_news == (reason == GameOver::FinishLine),
        message.detail is Some <==> detail_text(reason, *player_status) is Some,
        message.detail matches Some(detail) ==> Some(detail@) == detail_text(
            reason,
            *player_status,
        ),
{
    match reason {
        GameOver::Injured => {
            let mut detail: String = String::from_str("Traveled ");
            let distance: String = one_decimal(player_status.distance_traveled);
            detail.append(distance.as_str());
            detail.append("m before hitting your head");
            GameOverMessage {
                headline: String::from_str("INJURED!"),
                good_news: false,
                detail: Some(detail),
            }
        },
        GameOver::Disqualified => {
            let mut detail: String = String::from_str("Traveled ");
            let distance: String = one_decimal(player_status.distance_traveled);
            detail.append(distance.as_str());
            detail.append("m before hitting a hurdle");
            GameOverMessage {
                headline: String::from_str("DISQUALIFIED!"),
                good_news: false,
                detail: Some(detail),
            }
        },
        GameOver::WrongWay => {
            GameOverMessage {
                headline: String::from_str("that's the wrong way..."),
                good_news: false,
                detail: None,
            }
        },
        GameOver::FinishLine => {
            let mut detail: String = String::from_str("Finished in ");
            let time: String = player_status.format_time();
            detail.append(time.as_str());
            detail.append(", place ");
            let place: String = decimal(player_status.competitors_before as u128 + 1);
            detail.append(place.as_str());
            detail.append(" out of ");
            let total: String = decimal(
                player_status.competitors_before as u128 + player_status.competitors_after as u128
                    + 1,
            );
            detail.append(total.as_str());
            GameOverMessage {
                headline: String::from_str("FINISH!"),
                good_news: true,
                detail: Some(detail),
            }
        },
    }
}

/// The game-over menu: says how the race ended, and on a click on "Main
/// Menu" goes there, which forgets how the race ended. Outside the game-over
/// menu nothing happens and nothing is said.
pub fn game_over_menu(
    main_menu_clicked: bool,
    session: &mut Session,
    player_status: &PlayerStatus,
) -> (message: Option<GameOverMessage>)
    ensures
        final(session).current() == if main_menu_clicked && old(session).current()
            == AppState::Menu(MenuState::GameOver) {
            AppState::Menu(MenuState::Main)
        } else {
            old(session).current()
        },
        final(session).outcome() == if main_menu_clicked && old(session).current()
            == AppState::Menu(MenuState::GameOver) {
            None
        } else {
            old(session).outcome()
        },
        message is Some <==> old(session).outcome() is Some,
        message matches Some(m) ==> {
            &&& m.headline@ == headline_text(old(session).outcome()->0)
            &&& m.good_news == (old(session).outcome()->0 == GameOver::FinishLine)
            &&& m.detail is Some <==> detail_text(old(session).outcome()->0, *player_status) is Some
            &&& m.detail matches Some(detail) ==> Some(detail@) == detail_text(
                old(session).outcome()->0,
                *player_status,
            )
        },
{
    let message: Option<GameOverMessage> = match session.game_over() {
        Some(reason) => Some(game_over_message(reason, player_status)),
        None => None,
    };
    if main_menu_clicked {
        match session.state() {
            AppState::Menu(MenuState::GameOver) => {
                session.move_to_state(AppState::Menu(MenuState::Main));
            },
            _ => {},
        }
    }
    message
}

} // verus!
