//! Pure grid geometry: bounds-checked orthogonal neighbour computation over
//! the fixed odd-width square grid.

use vstd::prelude::*;
use crate::ROW_WIDTH;
use crate::CELL_COUNT;

verus! {

/// A 0-indexed (row, col) coordinate on the board.
#[derive(Clone, Copy, Debug, PartialEq, Eq, Structural)]
pub struct Position {
    pub row: usize,
    pub col: usize,
}

impl Position {
    /// True when the coordinate lies on the board.
    pub open spec fn in_bounds(self) -> bool {
        self.row < ROW_WIDTH && self.col < ROW_WIDTH
    }

    /// Linear index of this coordinate in row-major order.
    pub open spec fn idx(self) -> int {
        self.row * ROW_WIDTH + self.col
    }

    /// The coordinate one column to the left, if any.
    pub open spec fn spec_left(self) -> Option<Position> {
        if self.col > 0 {
            Some(Position { row: self.row, col: (self.col - 1) as usize })
        } else {
            None
        }
    }

    /// The coordinate one column to the right, if it is on the board.
    pub open spec fn spec_right(self) -> Option<Position> {
        if self.col + 1 < ROW_WIDTH {
            Some(Position { row: self.row, col: (self.col + 1) as usize })
        } else {
            None
        }
    }

    /// The coordinate one row up, if any.
    pub open spec fn spec_up(self) -> Option<Position> {
        if self.row > 0 {
            Some(Position { row: (self.row - 1) as usize, col: self.col })
        } else {
            None
        }
    }

    /// The coordinate one row down, if it is on the board.
    pub open spec fn spec_down(self) -> Option<Position> {
        if self.row + 1 < ROW_WIDTH {
            Some(Position { row: (self.row + 1) as usize, col: self.col })
        } else {
            None
        }
    }

    #[verifier::when_used_as_spec(spec_left)]
    pub fn left(self) -> (r: Option<Position>)
        ensures
            r == self.spec_left(),
    {
        if self.col > 0 {
            Some(Position { row: self.row, col: self.col - 1 })
        } else {
            None
        }
    }

    #[verifier::when_used_as_spec(spec_right)]
    pub fn right(self) -> (r: Option<Position>)
        requires
            self.in_bounds(),
        ensures
            r == self.spec_right(),
    {
        if self.col + 1 < ROW_WIDTH {
            Some(Position { row: self.row, col: self.col + 1 })
        } else {
            None
        }
    }

    #[verifier::when_used_as_spec(spec_up)]
    pub fn up(self) -> (r: Option<Position>)
        ensures
            r == self.spec_up(),
    {
        if self.row > 0 {
            Some(Position { row: self.row - 1, col: self.col })
        } else {
            None
        }
    }

    #[verifier::when_used_as_spec(spec_down)]
    pub fn down(self) -> (r: Option<Position>)
        requires
            self.in_bounds(),
        ensures
            r == self.spec_down(),
    {
        if self.row + 1 < ROW_WIDTH {
            Some(Position { row: self.row + 1, col: self.col })
        } else {
            None
        }
    }

    /// The in-bounds orthogonal neighbours, in the fixed order
    /// left, right, up, down; out-of-range directions are omitted.
    pub open spec fn neighbour_seq(self) -> Seq<Position> {
        opt_seq(self.spec_left()) + opt_seq(self.spec_right()) + opt_seq(self.spec_up())
            + opt_seq(self.spec_down())
    }

    /// Computes the neighbour list of this coordinate.
    pub fn explore_neighbours(self) -> (r: Vec<Position>)
        requires
            self.in_bounds(),
        ensures
            r@ == self.neighbour_seq(),
    {
        let mut result: Vec<Position> = Vec::new();
        if let Some(p) = self.left() {
            result.push(p);
        }
        if let Some(p) = self.right() {
            result.push(p);
        }
        if let Some(p) = self.up() {
            result.push(p);
        }
        if let Some(p) = self.down() {
            result.push(p);
        }
        proof {
            assert(result@ =~= self.neighbour_seq());
        }
        result
    }
}

/// A sequence holding the given coordinate, or the empty sequence.
pub open spec fn opt_seq(p: Option<Position>) -> Seq<Position> {
    match p {
        Some(q) => seq![q],
        None => Seq::empty(),
    }
}

/// The coordinate whose row-major linear index is `i`.
pub open spec fn pos_of(i: int) -> Position {
    Position { row: (i / ROW_WIDTH as int) as usize, col: (i % ROW_WIDTH as int) as usize }
}

/// Row-major indexing is a bijection between coordinates and `0..CELL_COUNT`.
pub proof fn lemma_idx_bijective(p: Position)
    requires
        p.in_bounds(),
    ensures
        0 <= p.idx() < CELL_COUNT,
        pos_of(p.idx()) == p,
{
}

/// Every linear index below `CELL_COUNT` names an in-bounds coordinate.
pub proof fn lemma_pos_of_in_bounds(i: int)
    requires
        0 <= i < CELL_COUNT,
    ensures
        pos_of(i).in_bounds(),
        pos_of(i).idx() == i,
{
}

/// Every neighbour is on the board and differs from the coordinate itself,
/// also in its linear index.
pub proof fn lemma_neighbours_in_bounds(p: Position)
    requires
        p.in_bounds(),
    ensures
        forall|k: int|
            0 <= k < p.neighbour_seq().len() ==> (#[trigger] p.neighbour_seq()[k]).in_bounds()
                && p.neighbour_seq()[k] != p && p.neighbour_seq()[k].idx() != p.idx(),
{
    assert forall|k: int| 0 <= k < p.neighbour_seq().len() implies (
    #[trigger] p.neighbour_seq()[k]).in_bounds() && p.neighbour_seq()[k] != p
        && p.neighbour_seq()[k].idx() != p.idx() by {
        let n = p.neighbour_seq()[k];
        assert(n.in_bounds() && n != p && n.idx() != p.idx());
    }
}

} // verus!
