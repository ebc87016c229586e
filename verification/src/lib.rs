//! Rules engine for a two-player sandwich-capture board game on a fixed
//! odd-width square grid. Each player starts with half the pieces; a move
//! lifts a piece and lands it on an adjacent empty cell, after which flanked
//! enemy pieces are captured, and a player reduced to one piece or none loses.

use vstd::prelude::*;

pub mod board;
pub mod cell;
pub mod counting;
pub mod game;
pub mod laws;
pub mod position;
pub mod soliders_counter;

verus! {

/// Width of the square board. It is odd and fixed for the whole library.
pub const ROW_WIDTH: usize = 5;

/// Index of the middle row and column.
pub const MIDDLE: usize = ROW_WIDTH / 2;

/// Number of cells on the board.
pub const CELL_COUNT: usize = ROW_WIDTH * ROW_WIDTH;

/// Soldiers each player starts with: half the board, one cell staying empty.
pub const INITIAL_SOLDIERS: usize = (ROW_WIDTH * ROW_WIDTH - 1) / 2;

} // verus!
