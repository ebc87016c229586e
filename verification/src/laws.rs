//! The laws the engine obeys, stated over the same spec functions its
//! contracts use, and proved once and for all.

use vstd::prelude::*;
use crate::cell::CellState;
use crate::counting::lemma_occ_count_congruent;
use crate::counting::lemma_occ_count_positive;
use crate::counting::occ_count;
use crate::counting::occ_total;
use crate::cell::Player;
use crate::game::GameV;
use crate::game::capture_sites;
use crate::game::capture_step;
use crate::game::capture_sweep;
use crate::game::captured_here;
use crate::game::clear_candidates;
use crate::game::initial_game;
use crate::game::land_enabled;
use crate::game::land_pre;
use crate::game::land_step;
use crate::game::lemma_capture_step_props;
use crate::game::lemma_land_pre_props;
use crate::game::lemma_land_step_wf;
use crate::game::lemma_lift_step_wf;
use crate::game::lemma_select_spec_wf;
use crate::game::lift_enabled;
use crate::game::lift_step;
use crate::game::select_spec;
use crate::position::Position;
use crate::position::lemma_idx_bijective;

verus! {

/// Two `Pending` cells are the same cell: at all times the board holds at
/// most one.
pub proof fn lemma_pending_unique(g: GameV, i: int, j: int)
    requires
        g.wf(),
        0 <= i < g.cells.len(),
        0 <= j < g.cells.len(),
        g.cells[i] is Pending,
        g.cells[j] is Pending,
    ensures
        i == j,
{
}

/// A `Pending` cell exists exactly while a piece is mid-move, that is,
/// exactly while `move_in_progress` reports false.
pub proof fn lemma_pending_iff_lifted(g: GameV)
    requires
        g.wf(),
    ensures
        (exists|i: int| 0 <= i < g.cells.len() && (#[trigger] g.cells[i]) is Pending) <==> (
        g.lifted is Some),
{
    if let Some((origin, _player)) = g.lifted {
        lemma_idx_bijective(origin);
        assert(g.cells[origin.idx()] is Pending);
    }
}

/// Every `Candidate` cell's stored origin is the position of the one
/// `Pending` cell; no `Candidate` exists without a `Pending` cell.
pub proof fn lemma_candidate_origin(g: GameV, i: int)
    requires
        g.wf(),
        0 <= i < g.cells.len(),
        g.cells[i] is Candidate,
    ensures
        g.lifted is Some,
        g.cells[i] matches CellState::Candidate(origin, _) ==> (g.lifted matches Some(
            (pending_origin, _),
        ) && origin == pending_origin && g.cells[origin.idx()] is Pending),
{
}

/// Capture soundness: when the sandwich rule applies at `p`, that cell
/// alone empties and exactly its owner's tally drops by one; when it does
/// not apply, a capture evaluation changes nothing at all.
pub proof fn lemma_capture_soundness(g: GameV, p: Position)
    requires
        g.cells_ok(),
        g.counts_ok(),
        g.winner_ok(),
        p.in_bounds(),
    ensures
        captured_here(g, p) ==> (g.cell(p) matches CellState::Occupied(pl) && capture_step(
            g,
            p,
        ).cells == g.cells.update(p.idx(), CellState::Empty) && capture_step(g, p).count_of(pl)
            == g.count_of(pl) - 1 && capture_step(g, p).count_of(pl.opposite()) == g.count_of(
            pl.opposite(),
        )),
        !captured_here(g, p) ==> capture_step(g, p) == g,
{
    if captured_here(g, p) {
        let pl = g.cell(p)->Occupied_0;
        lemma_occ_count_positive(g.cells, pl, p.idx());
    }
}

/// Conservation: over one full move, a lift followed by a land whose
/// capture evaluation removes nothing, the total number of occupied cells
/// is unchanged.
pub proof fn lemma_conservation_without_captures(g: GameV, from: Position, to: Position)
    requires
        g.wf(),
        lift_enabled(g, from),
        land_enabled(lift_step(g, from), to),
        capture_sweep(land_pre(lift_step(g, from), to), capture_sites(to)) == land_pre(
            lift_step(g, from),
            to,
        ),
    ensures
        occ_total(land_step(lift_step(g, from), to).cells) == occ_total(g.cells),
{
    let raised = lift_step(g, from);
    let settled = land_pre(raised, to);
    let cleared = land_step(raised, to);
    lemma_lift_step_wf(g, from);
    lemma_land_pre_props(raised, to);
    assert(cleared.cells == clear_candidates(settled.cells));
    assert forall|i: int|
        0 <= i < settled.cells.len() implies (((#[trigger] cleared.cells[i])
        == CellState::Occupied(Player::One)) <==> ((#[trigger] settled.cells[i])
        == CellState::Occupied(Player::One))) && ((cleared.cells[i] == CellState::Occupied(
        Player::Two,
    )) <==> (settled.cells[i] == CellState::Occupied(Player::Two))) by {
        assert(cleared.cells[i] == if settled.cells[i] is Candidate {
            CellState::Empty
        } else {
            settled.cells[i]
        });
    }
    lemma_occ_count_congruent(cleared.cells, settled.cells, Player::One);
    lemma_occ_count_congruent(cleared.cells, settled.cells, Player::Two);
    assert(occ_count(settled.cells, Player::One) == settled.count_one);
    assert(occ_count(settled.cells, Player::Two) == settled.count_two);
    assert(occ_count(g.cells, Player::One) == g.count_one);
    assert(occ_count(g.cells, Player::Two) == g.count_two);
}

/// One full move: the lift at `from`, then the land at `to`.
pub open spec fn apply_move(g: GameV, from: Position, to: Position) -> GameV {
    land_step(lift_step(g, from), to)
}

/// A legal move whose capture evaluation removes nothing.
pub open spec fn capture_free_move(g: GameV, from: Position, to: Position) -> bool {
    &&& lift_enabled(g, from)
    &&& land_enabled(lift_step(g, from), to)
    &&& capture_sweep(land_pre(lift_step(g, from), to), capture_sites(to)) == land_pre(
        lift_step(g, from),
        to,
    )
}

/// Every move of the list is legal and capture-free in the state the moves
/// before it produce.
pub open spec fn capture_free_run(g: GameV, moves: Seq<(Position, Position)>) -> bool
    decreases moves.len(),
{
    moves.len() == 0 || (capture_free_move(g, moves[0].0, moves[0].1) && capture_free_run(
        apply_move(g, moves[0].0, moves[0].1),
        moves.skip(1),
    ))
}

/// The state a list of moves leads to.
pub open spec fn run_moves(g: GameV, moves: Seq<(Position, Position)>) -> GameV
    decreases moves.len(),
{
    if moves.len() == 0 {
        g
    } else {
        run_moves(apply_move(g, moves[0].0, moves[0].1), moves.skip(1))
    }
}

/// Conservation over a whole game fragment: across any sequence of legal
/// moves with no captures, the total number of occupied cells is constant.
pub proof fn lemma_conservation_over_run(g: GameV, moves: Seq<(Position, Position)>)
    requires
        g.wf(),
        capture_free_run(g, moves),
    ensures
        occ_total(run_moves(g, moves).cells) == occ_total(g.cells),
        run_moves(g, moves).wf(),
    decreases moves.len(),
{
    if moves.len() > 0 {
        let (from, to) = moves[0];
        lemma_conservation_without_captures(g, from, to);
        lemma_lift_step_wf(g, from);
        lemma_land_step_wf(lift_step(g, from), to);
        lemma_conservation_over_run(apply_move(g, from, to), moves.skip(1));
    }
}

/// Termination: the winner is set exactly when some player's tally is down
/// to one soldier or none.
pub proof fn lemma_winner_characterised(g: GameV)
    requires
        g.wf(),
    ensures
        (g.winner is Some) <==> (g.count_one <= 1 || g.count_two <= 1),
{
}

/// Once set, the winner stays set across any selection; only a reset
/// clears it.
pub proof fn lemma_winner_persists(g: GameV, p: Position)
    requires
        g.wf(),
        g.winner is Some,
    ensures
        select_spec(g, p).winner is Some,
{
    lemma_select_spec_wf(g, p);
}

/// What a reset leaves behind, whatever state it found.
pub open spec fn reset_spec(g: GameV) -> GameV {
    initial_game()
}

/// Resetting twice in a row yields the same state as resetting once.
pub proof fn lemma_reset_idempotent(g: GameV)
    ensures
        reset_spec(reset_spec(g)) == reset_spec(g),
{
}

} // verus!
