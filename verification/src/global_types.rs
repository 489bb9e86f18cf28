//! The states of the application and the values that every system shares.

use crate::text::{decimal, decimal_text, digit, digit_char, two_digit_text, two_digits};
use vstd::prelude::*;
use vstd::string::StringExecFns;

verus! {

/// The coarse mode of the application.
#[derive(Hash, Debug, PartialEq, Eq, Clone, Copy, Structural)]
pub enum AppState {
    /// A menu is shown; the race, if any, stands still or is over.
    Menu(MenuState),
    /// The previous level is being torn down.
    ClearLevelAndThenLoad,
    /// The next level is being built.
    LoadLevel,
    /// The race is on.
    Game,
}

/// Which menu is shown.
#[derive(Hash, Debug, PartialEq, Eq, Clone, Copy, Structural)]
pub enum MenuState {
    Main,
    Pause,
    GameOver,
}

/// Why the race ended.
#[derive(Hash, Debug, PartialEq, Eq, Clone, Copy, Structural)]
pub enum GameOver {
    /// The player's head touched the ground.
    Injured,
    /// The player touched a hurdle.
    Disqualified,
    /// The player left the track on its left.
    WrongWay,
    /// The player left the track on its right, past the finish line.
    FinishLine,
}

/// The left and right ends of the track, in thousandths.
#[derive(Debug, PartialEq, Eq, Clone, Copy, Structural)]
pub struct GameBoundaries {
    pub left: i32,
    pub right: i32,
}

impl GameBoundaries {
    /// The length of the track.
    pub fn width(&self) -> (w: i64)
        ensures
            w == self.right - self.left,
    {
        self.right as i64 - self.left as i64
    }

    /// The middle of the track, rounded down to a whole thousandth.
    pub fn center(&self) -> (c: i64)
        ensures
            c == (self.right + self.left) / 2,
    {
        let sum: i64 = self.right as i64 + self.left as i64;
        if sum >= 0 {
            sum / 2
        } else {
            -((1 - sum) / 2)
        }
    }
}

/// How the player is doing in the running race.
#[derive(Debug, PartialEq, Eq, Clone, Copy, Structural)]
pub struct PlayerStatus {
    /// The player's position along the track, in thousandths.
    pub distance_traveled: i32,
    /// The time raced so far, in milliseconds.
    pub time: u64,
    /// The number of competitors that the player has not overtaken.
    pub competitors_before: usize,
    /// The number of competitors strictly behind the player.
    pub competitors_after: usize,
}

impl Default for PlayerStatus {
    fn default() -> (status: PlayerStatus)
        ensures
            status == Self::start(),
    {
        PlayerStatus { distance_traveled: 0, time: 0, competitors_before: 0, competitors_after: 0 }
    }
}

impl PlayerStatus {
    /// The status at the start of a level: nothing traveled, no time raced,
    /// no competitor counted.
    pub open spec fn start() -> PlayerStatus {
        PlayerStatus { distance_traveled: 0, time: 0, competitors_before: 0, competitors_after: 0 }
    }

    /// The text of the time raced: the whole minutes in at least two digits,
    /// a colon, and the seconds of the last minute with one decimal place.
    pub open spec fn time_text(&self) -> Seq<char> {
        let tenths: nat = ((self.time % 60000 + 50) / 100) as nat;
        two_digit_text((self.time / 60000) as nat) + seq![':'] + decimal_text(tenths / 10) + seq![
            '.',
            digit_char((tenths % 10) as int),
        ]
    }

    /// The time raced as text, minutes and seconds. The seconds are rounded
    /// to the nearest tenth, a half upwards.
    pub fn format_time(&self) -> (text: String)
        ensures
            text@ == self.time_text(),
    {
        proof {
            reveal_strlit(":");
            reveal_strlit(".");
        }
        let only_minutes: u128 = (self.time / 60000) as u128;
        let tenths: u128 = ((self.time % 60000 + 50) / 100) as u128;
        let mut text: String = two_digits(only_minutes);
        text.append(":");
        let seconds: String = decimal(tenths / 10);
        text.append(seconds.as_str());
        text.append(".");
        text.append(digit(tenths % 10));
        text
    }

    /// The player's place in the race, the first place being 1.
    pub fn place(&self) -> (place: usize)
        requires
            self.competitors_before < usize::MAX,
        ensures
            place == self.competitors_before + 1,
    {
        self.competitors_before + 1
    }

    /// The number of runners in the race, the player included.
    pub fn total_runners(&self) -> (total: usize)
        requires
            self.competitors_before + self.competitors_after < usize::MAX,
        ensures
            total == self.competitors_before + self.competitors_after + 1,
    {
        self.competitors_before + self.competitors_after + 1
    }
}

} // verus!
