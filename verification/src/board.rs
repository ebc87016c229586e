//! The board: one cell state per grid position, plus the precomputed
//! adjacency table, built once and never mutated.

use vstd::prelude::*;
use crate::CELL_COUNT;
use crate::INITIAL_SOLDIERS;
use crate::MIDDLE;
use crate::ROW_WIDTH;
use crate::cell::CellState;
use crate::cell::Player;
use crate::counting::occ_count;
use crate::position::Position;
use crate::position::lemma_idx_bijective;
use crate::position::lemma_pos_of_in_bounds;
use crate::position::pos_of;

verus! {

/// The deterministic starting state of the cell with linear index `i`:
/// the rows above the middle belong to player One, the rows below to player
/// Two, the middle row is split the same way, and the centre stays empty.
pub open spec fn init_cell(i: int) -> CellState {
    let p = pos_of(i);
    if p.row < MIDDLE || (p.row == MIDDLE && p.col < MIDDLE) {
        CellState::Occupied(Player::One)
    } else if p.row > MIDDLE || (p.row == MIDDLE && p.col > MIDDLE) {
        CellState::Occupied(Player::Two)
    } else {
        CellState::Empty
    }
}

/// The deterministic starting assignment of all cells, in row-major order.
pub open spec fn initial_layout() -> Seq<CellState> {
    Seq::new(CELL_COUNT as nat, |i: int| init_cell(i))
}

/// In the prefix of the first `k` cells of the initial layout, player One
/// occupies every cell up to the centre and player Two every cell after it.
proof fn lemma_initial_prefix_counts(k: int)
    requires
        0 <= k <= CELL_COUNT,
    ensures
        occ_count(initial_layout().take(k), Player::One) == if k <= INITIAL_SOLDIERS {
            k
        } else {
            INITIAL_SOLDIERS as int
        },
        occ_count(initial_layout().take(k), Player::Two) == if k <= INITIAL_SOLDIERS + 1 {
            0int
        } else {
            k - (INITIAL_SOLDIERS + 1)
        },
    decreases k,
{
    if k > 0 {
        lemma_initial_prefix_counts(k - 1);
        assert(initial_layout().take(k).drop_last() =~= initial_layout().take(k - 1));
        assert(initial_layout().take(k).last() == init_cell(k - 1));
    }
}

/// The initial layout gives each player exactly `INITIAL_SOLDIERS` pieces,
/// and holds only resting pieces and empty cells.
pub proof fn lemma_initial_layout_counts()
    ensures
        occ_count(initial_layout(), Player::One) == INITIAL_SOLDIERS,
        occ_count(initial_layout(), Player::Two) == INITIAL_SOLDIERS,
        forall|i: int|
            0 <= i < CELL_COUNT ==> (#[trigger] initial_layout()[i]) matches CellState::Occupied(_)
                || initial_layout()[i] == CellState::Empty,
{
    lemma_initial_prefix_counts(CELL_COUNT as int);
    assert(initial_layout().take(CELL_COUNT as int) =~= initial_layout());
}

/// The board: a cell state for each of the `CELL_COUNT` positions, and the
/// adjacency table mapping each position to its in-bounds orthogonal
/// neighbours in the order left, right, up, down.
pub struct Board {
    cells: Vec<CellState>,
    adjacency: Vec<Vec<Position>>,
}

impl View for Board {
    type V = Seq<CellState>;

    closed spec fn view(&self) -> Seq<CellState> {
        self.cells@
    }
}

impl Board {
    /// The adjacency table covers every position and lists exactly its
    /// neighbours.
    pub closed spec fn adjacency_ok(&self) -> bool {
        &&& self.adjacency@.len() == CELL_COUNT
        &&& forall|j: int|
            0 <= j < CELL_COUNT ==> (#[trigger] self.adjacency@[j])@ == pos_of(j).neighbour_seq()
    }

    /// A well-formed board has one cell per position and a correct
    /// adjacency table.
    pub open spec fn wf(&self) -> bool {
        self@.len() == CELL_COUNT && self.adjacency_ok()
    }

    /// Builds the board in its initial layout, with the adjacency table
    /// precomputed.
    pub fn new() -> (b: Board)
        ensures
            b.wf(),
            b@ == initial_layout(),
    {
        let mut cells: Vec<CellState> = Vec::new();
        let mut i: usize = 0;
        while i < CELL_COUNT
            invariant
                i <= CELL_COUNT,
                cells@.len() == i,
                forall|j: int| 0 <= j < i ==> cells@[j] == init_cell(j),
            decreases CELL_COUNT - i,
        {
            let row = i / ROW_WIDTH;
            let col = i % ROW_WIDTH;
            let c = if row < MIDDLE || (row == MIDDLE && col < MIDDLE) {
                CellState::Occupied(Player::One)
            } else if row > MIDDLE || (row == MIDDLE && col > MIDDLE) {
                CellState::Occupied(Player::Two)
            } else {
                CellState::Empty
            };
            cells.push(c);
            i += 1;
        }
        let mut adjacency: Vec<Vec<Position>> = Vec::new();
        let mut i: usize = 0;
        while i < CELL_COUNT
            invariant
                i <= CELL_COUNT,
                adjacency@.len() == i,
                forall|j: int|
                    0 <= j < i ==> (#[trigger] adjacency@[j])@ == pos_of(j).neighbour_seq(),
            decreases CELL_COUNT - i,
        {
            let p = Position { row: i / ROW_WIDTH, col: i % ROW_WIDTH };
            proof {
                lemma_pos_of_in_bounds(i as int);
                assert(p == pos_of(i as int));
            }
            let ns = p.explore_neighbours();
            adjacency.push(ns);
            i += 1;
        }
        let b = Board { cells, adjacency };
        proof {
            assert(b@ =~= initial_layout());
        }
        b
    }

    /// Reads the state of the cell at `p`.
    pub fn get(&self, p: Position) -> (r: CellState)
        requires
            self.wf(),
            p.in_bounds(),
        ensures
            r == self@[p.idx()],
    {
        proof {
            lemma_idx_bijective(p);
        }
        self.cells[p.row * ROW_WIDTH + p.col]
    }

    /// Overwrites the state of the cell at `p`, unconditionally; keeping the
    /// game invariants is the caller's responsibility.
    pub fn set(&mut self, p: Position, v: CellState)
        requires
            old(self).wf(),
            p.in_bounds(),
        ensures
            final(self).wf(),
            final(self)@ == old(self)@.update(p.idx(), v),
    {
        proof {
            lemma_idx_bijective(p);
        }
        self.cells[p.row * ROW_WIDTH + p.col] = v;
    }

    /// The precomputed neighbour list of `p`, in the order left, right, up,
    /// down.
    pub fn neighbours(&self, p: Position) -> (r: &Vec<Position>)
        requires
            self.wf(),
            p.in_bounds(),
        ensures
            r@ == p.neighbour_seq(),
    {
        proof {
            lemma_idx_bijective(p);
        }
        &self.adjacency[p.row * ROW_WIDTH + p.col]
    }
}

} // verus!
