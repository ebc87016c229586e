//! Players and the state a board cell can be in.

use vstd::prelude::*;
use crate::position::Position;

verus! {

/// One of the two players.
#[derive(Clone, Copy, Debug, PartialEq, Eq, Structural)]
pub enum Player {
    One,
    Two,
}

impl Player {
    /// The other player.
    pub open spec fn spec_opposite(self) -> Player {
        match self {
            Player::One => Player::Two,
            Player::Two => Player::One,
        }
    }

    /// Returns the other player.
    #[verifier::when_used_as_spec(spec_opposite)]
    pub fn opposite(self) -> (r: Player)
        ensures
            r == self.spec_opposite(),
    {
        match self {
            Player::One => Player::Two,
            Player::Two => Player::One,
        }
    }
}

/// What a single board cell holds.
///
/// `Candidate` and `Pending` exist only while a move is in progress: the
/// lifted piece's origin cell is `Pending`, and each empty neighbour of the
/// origin is a `Candidate` destination carrying the origin and the mover.
#[derive(Clone, Copy, Debug, PartialEq, Eq, Structural)]
pub enum CellState {
    /// A player's piece at rest.
    Occupied(Player),
    /// No piece.
    Empty,
    /// A reachable destination of the piece lifted from the stored origin,
    /// owned by the stored player.
    Candidate(Position, Player),
    /// The origin cell of the piece currently mid-move.
    Pending,
}

} // verus!
