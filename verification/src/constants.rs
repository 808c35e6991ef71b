//! The fixed geometry of the board.

use vstd::prelude::*;

verus! {

/// Pits on one player's half of the board, the goal pit included.
pub const SLOTS: usize = 7;

/// Stones that every ordinary pit holds when a game begins.
pub const STARTING_STONES: u8 = 4;

/// Pits on the whole board.
pub const BOARD_LENGTH: usize = 14;

/// Stones in play: twelve ordinary pits of four stones each.
pub const TOTAL_STONES: u8 = 48;

} // verus!
