//! Counting the cells a player occupies in a board snapshot.

use vstd::prelude::*;
use crate::cell::CellState;
use crate::cell::Player;

verus! {

/// How many cells of `cells` hold a piece of player `p`.
pub open spec fn occ_count(cells: Seq<CellState>, p: Player) -> nat
    decreases cells.len(),
{
    if cells.len() == 0 {
        0
    } else {
        occ_count(cells.drop_last(), p) + (if cells.last() == CellState::Occupied(p) {
            1nat
        } else {
            0nat
        })
    }
}

/// Total number of occupied cells, both players together.
pub open spec fn occ_total(cells: Seq<CellState>) -> nat {
    occ_count(cells, Player::One) + occ_count(cells, Player::Two)
}

/// Overwriting one cell changes the count by the difference the two values
/// make at that cell.
pub proof fn lemma_occ_count_update(cells: Seq<CellState>, p: Player, i: int, v: CellState)
    requires
        0 <= i < cells.len(),
    ensures
        occ_count(cells.update(i, v), p) == occ_count(cells, p) + (if v == CellState::Occupied(p) {
            1int
        } else {
            0int
        }) - (if cells[i] == CellState::Occupied(p) {
            1int
        } else {
            0int
        }),
    decreases cells.len(),
{
    let updated = cells.update(i, v);
    if i == cells.len() - 1 {
        assert(updated.drop_last() =~= cells.drop_last());
    } else {
        assert(updated.drop_last() =~= cells.drop_last().update(i, v));
        lemma_occ_count_update(cells.drop_last(), p, i, v);
    }
}

/// Two snapshots that agree cell by cell on where `p` has pieces have the
/// same count for `p`.
pub proof fn lemma_occ_count_congruent(s: Seq<CellState>, t: Seq<CellState>, p: Player)
    requires
        s.len() == t.len(),
        forall|i: int|
            0 <= i < s.len() ==> (((#[trigger] s[i]) == CellState::Occupied(p)) <==> ((
            #[trigger] t[i]) == CellState::Occupied(p))),
    ensures
        occ_count(s, p) == occ_count(t, p),
    decreases s.len(),
{
    if s.len() > 0 {
        lemma_occ_count_congruent(s.drop_last(), t.drop_last(), p);
    }
}

/// A cell that `p` occupies witnesses that `p`'s count is positive.
pub proof fn lemma_occ_count_positive(cells: Seq<CellState>, p: Player, i: int)
    requires
        0 <= i < cells.len(),
        cells[i] == CellState::Occupied(p),
    ensures
        occ_count(cells, p) >= 1,
    decreases cells.len(),
{
    if i < cells.len() - 1 {
        lemma_occ_count_positive(cells.drop_last(), p, i);
    }
}

} // verus!
