//! A falling-block puzzle engine for an 8×8 LED grid.
//!
//! The crate holds the rules of the game: piece geometry and rotation, the
//! occupancy board with collision testing and line clearing, the per-frame
//! session state machine, and the byte framing of the grid display. Its
//! functions carry contracts that Verus proves; what is believed of the
//! `array2d` and `rand` crates is stated in `grid` and `piece`.

pub mod board;
pub mod control;
pub mod grid;
pub mod launchpad;
pub mod piece;
pub mod session;

pub use control::{input_map, ControlEvent};
pub use launchpad::Pad;
