//! The figures of the running race as they are shown on the screen.

use crate::global_types::PlayerStatus;
use crate::text::{decimal, decimal_text, one_decimal, one_decimal_text};
use vstd::prelude::*;
use vstd::string::StringExecFns;

verus! {

/// The four figures of the score display, as text.
pub struct ScoreDisplay {
    /// How far the player has come, with one decimal place and the unit.
    pub distance: String,
    /// For how long the player has raced.
    pub time: String,
    /// The player's place.
    pub place: String,
    /// The number of runners.
    pub total_runners: String,
}

/// The figures of the score display for `player_status`.
pub fn update_score_display(player_status: &PlayerStatus) -> (display: ScoreDisplay)
    ensures
        display.distance@ == one_decimal_text(player_status.distance_traveled as int) + "m"@,
        display.time@ == player_status.time_text(),
        display.place@ == decimal_text((player_status.competitors_before + 1) as nat),
        display.total_runners@ == decimal_text(
            (player_status.competitors_before + player_status.competitors_after + 1) as nat,
        ),
{
    let mut distance: String = one_decimal(player_status.distance_traveled);
    distance.append("m");
    ScoreDisplay {
        distance,
        time: player_status.format_time(),
        place: decimal(player_status.competitors_before as u128 + 1),
        total_runners: decimal(
            player_status.competitors_before as u128 + player_status.competitors_after as u128 + 1,
        ),
    }
}

} // verus!
