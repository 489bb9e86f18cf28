//! Race-session logic of a side-scrolling hurdle race on pogo sticks.
//!
//! The crate holds the rules of the race and none of its machinery: the level
//! life cycle, the layout of the hurdles, the competitors' jumping, the
//! player's standing, and the camera that follows the player. Physics,
//! rendering and input belong to the caller, who hands positions in and takes
//! impulses and state changes back.
//!
//! Every length and position is a whole number of thousandths of a length
//! unit, every span of time a whole number of milliseconds, so that each rule
//! is exact.

pub mod components;
pub mod game_systems;
pub mod global_types;
pub mod random;
pub mod text;
pub mod ui;
pub mod utils;
