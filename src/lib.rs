//! Match engine for two turn-based board games played per channel: a
//! disc-flipping game on an 8x8 board and a probabilistic five-in-a-row game
//! on a 19x19 board, with the store of running matches and the turn rules.
use vstd::prelude::*;

pub mod arbiter;
pub mod gomoku;
pub mod reversi;
pub mod session;

verus! {

} // verus!
