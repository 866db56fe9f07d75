//! A verified engine for the 2048 sliding-tile game.
//!
//! A board is a flat, row-major sequence of 16 cell exponents: a cell holding
//! `v > 0` stands for the tile `2^v`, and `0` stands for an empty cell. The
//! engine provides the four directional slide and merge passes, the combined
//! move transition with random tile spawning, scoring, and terminal-state
//! detection.

pub mod model;
pub mod engine;
pub mod laws;
mod board_props;
mod lines;
mod rng;

use vstd::prelude::*;

verus! {

/// One of the four directions a move can shift the board.
#[derive(Copy, Clone, PartialEq, Eq, Structural, Debug)]
pub enum Action {
    Up,
    Down,
    Left,
    Right,
}

} // verus!
