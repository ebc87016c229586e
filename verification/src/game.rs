//! The game session: the two-phase move protocol (lift, then land), the
//! sandwich-capture rule, soldier counting and win detection, as one state
//! machine over the board, the tallies, the turn and the winner.

use vstd::prelude::*;
use crate::CELL_COUNT;
use crate::INITIAL_SOLDIERS;
use crate::ROW_WIDTH;
use crate::board::Board;
use crate::board::initial_layout;
use crate::board::lemma_initial_layout_counts;
use crate::cell::CellState;
use crate::cell::Player;
use crate::counting::lemma_occ_count_congruent;
use crate::counting::lemma_occ_count_positive;
use crate::counting::lemma_occ_count_update;
use crate::counting::occ_count;
use crate::position::Position;
use crate::position::lemma_neighbours_in_bounds;
use crate::position::lemma_pos_of_in_bounds;
use crate::position::pos_of;
use crate::soliders_counter::SolidersCounter;

verus! {

/// The mathematical state of a game: the board snapshot, both tallies, whose
/// turn it is, the winner if any, and the origin and owner of the piece
/// currently lifted, if a move is in progress.
#[verifier::ext_equal]
pub ghost struct GameV {
    pub cells: Seq<CellState>,
    pub count_one: nat,
    pub count_two: nat,
    pub turn: Player,
    pub winner: Option<Player>,
    pub lifted: Option<(Position, Player)>,
}

impl GameV {
    /// The state of the cell at `p`.
    pub open spec fn cell(self, p: Position) -> CellState {
        self.cells[p.idx()]
    }

    /// The same state with the cell at `p` overwritten.
    pub open spec fn with_cell(self, p: Position, v: CellState) -> GameV {
        GameV { cells: self.cells.update(p.idx(), v), ..self }
    }

    /// The tally of the given player.
    pub open spec fn count_of(self, player: Player) -> nat {
        match player {
            Player::One => self.count_one,
            Player::Two => self.count_two,
        }
    }

    /// How many cells the given player occupies.
    pub open spec fn occ(self, player: Player) -> nat {
        occ_count(self.cells, player)
    }

    /// One when the given player's piece is mid-move, zero otherwise: the
    /// lifted piece is off the board but still counted in its tally.
    pub open spec fn lift_bonus(self, player: Player) -> nat {
        if self.lifted matches Some((_, q)) && q == player {
            1nat
        } else {
            0nat
        }
    }

    /// The board has a cell per position, and every candidate's stored
    /// origin is on the board.
    pub open spec fn cells_ok(self) -> bool {
        &&& self.cells.len() == CELL_COUNT
        &&& forall|i: int|
            0 <= i < self.cells.len() ==> ((#[trigger] self.cells[i]) matches CellState::Candidate(
                o,
                _,
            ) ==> o.in_bounds())
    }

    /// The move-phase invariant: with no piece lifted there is no `Pending`
    /// and no `Candidate` cell; with a piece lifted, its origin is the one
    /// `Pending` cell and every `Candidate` carries that origin and owner.
    pub open spec fn phase_ok(self) -> bool {
        match self.lifted {
            None => forall|i: int|
                0 <= i < self.cells.len() ==> !((#[trigger] self.cells[i]) is Pending) && !(
                self.cells[i] is Candidate),
            Some((origin, player)) => {
                &&& origin.in_bounds()
                &&& self.cells[origin.idx()] is Pending
                &&& forall|i: int|
                    0 <= i < self.cells.len() && i != origin.idx() ==> !((
                    #[trigger] self.cells[i]) is Pending)
                &&& forall|i: int|
                    0 <= i < self.cells.len() ==> ((#[trigger] self.cells[i]) matches
                    CellState::Candidate(o, q) ==> o == origin && q == player)
            },
        }
    }

    /// Each tally equals the cells its player occupies, plus one for that
    /// player's piece mid-move.
    pub open spec fn counts_ok(self) -> bool {
        &&& self.count_one == self.occ(Player::One) + self.lift_bonus(Player::One)
        &&& self.count_two == self.occ(Player::Two) + self.lift_bonus(Player::Two)
    }

    /// The winner field is exactly what the tallies dictate.
    pub open spec fn winner_ok(self) -> bool {
        self.winner == winner_of(self.count_one, self.count_two)
    }

    /// Every invariant of a reachable game state.
    pub open spec fn wf(self) -> bool {
        self.cells_ok() && self.phase_ok() && self.counts_ok() && self.winner_ok()
    }
}

/// The winner a pair of tallies dictates: a player reduced to one soldier or
/// none has lost; if both are that low, player One's win prevails.
pub open spec fn winner_of(count_one: nat, count_two: nat) -> Option<Player> {
    if count_two <= 1 {
        Some(Player::One)
    } else if count_one <= 1 {
        Some(Player::Two)
    } else {
        None
    }
}

/// One winner recomputation after a tally change: each losing condition is
/// checked independently, player Two's win first.
pub open spec fn recompute_winner_spec(w: Option<Player>, count_one: nat, count_two: nat) -> Option<
    Player,
> {
    let w1 = if count_one <= 1 {
        Some(Player::Two)
    } else {
        w
    };
    if count_two <= 1 {
        Some(Player::One)
    } else {
        w1
    }
}

/// One less, stopping at zero.
pub open spec fn dec(n: nat) -> nat {
    if n >= 1 {
        (n - 1) as nat
    } else {
        0
    }
}

/// Both horizontal neighbours of `p` exist and hold a piece of `enemy`.
pub open spec fn horizontally_flanked(g: GameV, p: Position, enemy: Player) -> bool {
    &&& p.spec_left() matches Some(l) && g.cell(l) == CellState::Occupied(enemy)
    &&& p.spec_right() matches Some(r) && g.cell(r) == CellState::Occupied(enemy)
}

/// Both vertical neighbours of `p` exist and hold a piece of `enemy`.
pub open spec fn vertically_flanked(g: GameV, p: Position, enemy: Player) -> bool {
    &&& p.spec_up() matches Some(u) && g.cell(u) == CellState::Occupied(enemy)
    &&& p.spec_down() matches Some(d) && g.cell(d) == CellState::Occupied(enemy)
}

/// The sandwich rule: the piece at `p` is captured when flanked on both
/// sides of one axis by the enemy.
pub open spec fn captured_here(g: GameV, p: Position) -> bool {
    match g.cell(p) {
        CellState::Occupied(pl) => horizontally_flanked(g, p, pl.opposite()) || vertically_flanked(
            g,
            p,
            pl.opposite(),
        ),
        _ => false,
    }
}

/// One capture evaluation at `p`: if a piece rests there and the sandwich
/// rule applies, the cell empties, its owner's tally drops by one, and the
/// winner is recomputed from the new tallies; otherwise nothing changes.
pub open spec fn capture_step(g: GameV, p: Position) -> GameV {
    match g.cell(p) {
        CellState::Occupied(pl) => if p.in_bounds() && captured_here(g, p) {
            let c1 = if pl == Player::One {
                dec(g.count_one)
            } else {
                g.count_one
            };
            let c2 = if pl == Player::Two {
                dec(g.count_two)
            } else {
                g.count_two
            };
            GameV {
                cells: g.cells.update(p.idx(), CellState::Empty),
                count_one: c1,
                count_two: c2,
                winner: recompute_winner_spec(g.winner, c1, c2),
                ..g
            }
        } else {
            g
        },
        _ => g,
    }
}

/// Capture evaluation over a list of cells, in order, each evaluation seeing
/// the board the previous ones left.
pub open spec fn capture_sweep(g: GameV, ps: Seq<Position>) -> GameV
    decreases ps.len(),
{
    if ps.len() == 0 {
        g
    } else {
        capture_sweep(capture_step(g, ps[0]), ps.skip(1))
    }
}

/// The cells where a land at `p` evaluates captures: the landed cell first,
/// then each of its neighbours.
pub open spec fn capture_sites(p: Position) -> Seq<Position> {
    seq![p] + p.neighbour_seq()
}

/// Marking one prospective destination: an empty cell becomes a candidate
/// for the piece lifted at `origin`; any other cell is left alone.
pub open spec fn mark_step(g: GameV, n: Position, origin: Position, player: Player) -> GameV {
    if n.in_bounds() && g.cell(n) == CellState::Empty {
        g.with_cell(n, CellState::Candidate(origin, player))
    } else {
        g
    }
}

/// Marking a whole neighbour list as prospective destinations.
pub open spec fn mark_sweep(g: GameV, ns: Seq<Position>, origin: Position, player: Player) -> GameV
    decreases ns.len(),
{
    if ns.len() == 0 {
        g
    } else {
        mark_sweep(mark_step(g, ns[0], origin, player), ns.skip(1), origin, player)
    }
}

/// Some neighbour of `p` is empty, so the piece at `p` has a destination.
pub open spec fn has_empty_neighbour(g: GameV, p: Position) -> bool {
    exists|k: int|
        0 <= k < p.neighbour_seq().len() && g.cell(#[trigger] p.neighbour_seq()[k])
            == CellState::Empty
}

/// A lift may happen at `p`: no piece is mid-move, the cell holds a piece of
/// the player to move, and it has somewhere to go.
pub open spec fn lift_enabled(g: GameV, p: Position) -> bool {
    &&& p.in_bounds()
    &&& g.lifted is None
    &&& g.cell(p) == CellState::Occupied(g.turn)
    &&& has_empty_neighbour(g, p)
}

/// The lift: the origin becomes `Pending`, each empty neighbour becomes a
/// `Candidate` destination, and the piece is recorded as mid-move.
pub open spec fn lift_step(g: GameV, p: Position) -> GameV {
    match g.cell(p) {
        CellState::Occupied(pl) => {
            let marked = mark_sweep(
                g.with_cell(p, CellState::Pending),
                p.neighbour_seq(),
                p,
                pl,
            );
            GameV { lifted: Some((p, pl)), ..marked }
        },
        _ => g,
    }
}

/// A land may happen at `p`: a piece is mid-move and `p` is one of its
/// candidate destinations.
pub open spec fn land_enabled(g: GameV, p: Position) -> bool {
    &&& p.in_bounds()
    &&& g.lifted is Some
    &&& g.cell(p) is Candidate
}

/// The land before captures: the piece settles on `p`, its origin empties,
/// the turn flips to the opponent, and no piece is mid-move any more.
pub open spec fn land_pre(g: GameV, p: Position) -> GameV {
    match g.cell(p) {
        CellState::Candidate(origin, pl) => GameV {
            turn: pl.opposite(),
            lifted: None,
            ..g.with_cell(p, CellState::Occupied(pl)).with_cell(origin, CellState::Empty)
        },
        _ => g,
    }
}

/// Reverting every abandoned candidate destination to empty.
pub open spec fn clear_candidates(cells: Seq<CellState>) -> Seq<CellState> {
    Seq::new(
        cells.len(),
        |i: int|
            if cells[i] is Candidate {
                CellState::Empty
            } else {
                cells[i]
            },
    )
}

/// The whole land: settle the piece, evaluate captures on the landed cell
/// and each of its neighbours in order, then revert the remaining
/// candidates.
pub open spec fn land_step(g: GameV, p: Position) -> GameV {
    let settled = land_pre(g, p);
    let fought = capture_sweep(settled, capture_sites(p));
    GameV { cells: clear_candidates(fought.cells), ..fought }
}

/// What selecting the square at `p` does: a legal lift or a legal land
/// mutates the state; any other selection is rejected and changes nothing.
pub open spec fn select_spec(g: GameV, p: Position) -> GameV {
    match g.cell(p) {
        CellState::Occupied(_) => if lift_enabled(g, p) {
            lift_step(g, p)
        } else {
            g
        },
        CellState::Candidate(_, _) => if land_enabled(g, p) {
            land_step(g, p)
        } else {
            g
        },
        _ => g,
    }
}

/// Whether selecting the square at `p` is legal.
pub open spec fn select_enabled(g: GameV, p: Position) -> bool {
    lift_enabled(g, p) || land_enabled(g, p)
}

/// The state every game starts in and returns to on reset.
pub open spec fn initial_game() -> GameV {
    GameV {
        cells: initial_layout(),
        count_one: INITIAL_SOLDIERS as nat,
        count_two: INITIAL_SOLDIERS as nat,
        turn: Player::One,
        winner: None,
        lifted: None,
    }
}

/// The initial state satisfies every invariant.
pub proof fn lemma_initial_game_wf()
    ensures
        initial_game().wf(),
{
    lemma_initial_layout_counts();
}

/// One capture evaluation preserves the structural invariants, never touches
/// the phase bookkeeping, only ever empties a cell, and never raises a
/// tally.
pub proof fn lemma_capture_step_props(g: GameV, p: Position)
    requires
        g.cells_ok(),
        g.counts_ok(),
        g.winner_ok(),
    ensures
        capture_step(g, p).cells_ok(),
        capture_step(g, p).counts_ok(),
        capture_step(g, p).winner_ok(),
        capture_step(g, p).lifted == g.lifted,
        capture_step(g, p).turn == g.turn,
        capture_step(g, p).cells.len() == g.cells.len(),
        capture_step(g, p).count_one <= g.count_one,
        capture_step(g, p).count_two <= g.count_two,
        forall|i: int|
            0 <= i < g.cells.len() ==> (#[trigger] capture_step(g, p).cells[i]) == g.cells[i]
                || capture_step(g, p).cells[i] == CellState::Empty,
{
    let after = capture_step(g, p);
    if after != g {
        let pl = g.cell(p)->Occupied_0;
        lemma_occ_count_positive(g.cells, pl, p.idx());
        lemma_occ_count_update(g.cells, Player::One, p.idx(), CellState::Empty);
        lemma_occ_count_update(g.cells, Player::Two, p.idx(), CellState::Empty);
    }
}

/// A capture sweep preserves what one capture evaluation preserves.
pub proof fn lemma_capture_sweep_props(g: GameV, ps: Seq<Position>)
    requires
        g.cells_ok(),
        g.counts_ok(),
        g.winner_ok(),
    ensures
        capture_sweep(g, ps).cells_ok(),
        capture_sweep(g, ps).counts_ok(),
        capture_sweep(g, ps).winner_ok(),
        capture_sweep(g, ps).lifted == g.lifted,
        capture_sweep(g, ps).turn == g.turn,
        capture_sweep(g, ps).cells.len() == g.cells.len(),
        capture_sweep(g, ps).count_one <= g.count_one,
        capture_sweep(g, ps).count_two <= g.count_two,
        forall|i: int|
            0 <= i < g.cells.len() ==> (#[trigger] capture_sweep(g, ps).cells[i]) == g.cells[i]
                || capture_sweep(g, ps).cells[i] == CellState::Empty,
    decreases ps.len(),
{
    if ps.len() > 0 {
        lemma_capture_step_props(g, ps[0]);
        lemma_capture_sweep_props(capture_step(g, ps[0]), ps.skip(1));
    }
}

/// Marking destinations changes empty cells into candidates of the lifted
/// piece and nothing else; in particular no occupancy changes.
pub proof fn lemma_mark_sweep_props(g: GameV, ns: Seq<Position>, origin: Position, player: Player)
    requires
        g.cells.len() == CELL_COUNT,
    ensures
        mark_sweep(g, ns, origin, player).count_one == g.count_one,
        mark_sweep(g, ns, origin, player).count_two == g.count_two,
        mark_sweep(g, ns, origin, player).turn == g.turn,
        mark_sweep(g, ns, origin, player).winner == g.winner,
        mark_sweep(g, ns, origin, player).lifted == g.lifted,
        mark_sweep(g, ns, origin, player).cells.len() == g.cells.len(),
        forall|i: int|
            0 <= i < g.cells.len() ==> (#[trigger] mark_sweep(g, ns, origin, player).cells[i])
                == g.cells[i] || (g.cells[i] == CellState::Empty && mark_sweep(
                g,
                ns,
                origin,
                player,
            ).cells[i] == CellState::Candidate(origin, player)),
        occ_count(mark_sweep(g, ns, origin, player).cells, Player::One) == occ_count(
            g.cells,
            Player::One,
        ),
        occ_count(mark_sweep(g, ns, origin, player).cells, Player::Two) == occ_count(
            g.cells,
            Player::Two,
        ),
    decreases ns.len(),
{
    let after = mark_sweep(g, ns, origin, player);
    if ns.len() > 0 {
        let mid = mark_step(g, ns[0], origin, player);
        lemma_mark_sweep_props(mid, ns.skip(1), origin, player);
        assert(after == mark_sweep(mid, ns.skip(1), origin, player));
        assert(mid.cells.len() == g.cells.len());
        assert forall|i: int|
            0 <= i < g.cells.len() implies (#[trigger] after.cells[i]) == g.cells[i] || (g.cells[i]
            == CellState::Empty && after.cells[i] == CellState::Candidate(origin, player)) by {
            assert(after.cells[i] == mid.cells[i] || (mid.cells[i] == CellState::Empty
                && after.cells[i] == CellState::Candidate(origin, player)));
        }
    }
    assert forall|i: int|
        0 <= i < g.cells.len() implies (((#[trigger] after.cells[i]) == CellState::Occupied(
        Player::One,
    )) <==> ((#[trigger] g.cells[i]) == CellState::Occupied(Player::One))) && ((after.cells[i]
        == CellState::Occupied(Player::Two)) <==> (g.cells[i] == CellState::Occupied(
        Player::Two,
    ))) by {
        assert(after.cells[i] == g.cells[i] || (g.cells[i] == CellState::Empty && after.cells[i]
            == CellState::Candidate(origin, player)));
    }
    lemma_occ_count_congruent(after.cells, g.cells, Player::One);
    lemma_occ_count_congruent(after.cells, g.cells, Player::Two);
}

/// A legal lift leads from an invariant-respecting state to another, leaving
/// tallies and winner alone.
pub proof fn lemma_lift_step_wf(g: GameV, p: Position)
    requires
        g.wf(),
        lift_enabled(g, p),
    ensures
        lift_step(g, p).wf(),
        lift_step(g, p).count_one == g.count_one,
        lift_step(g, p).count_two == g.count_two,
        lift_step(g, p).winner == g.winner,
        lift_step(g, p).cells.len() == g.cells.len(),
{
    let pl = g.cell(p)->Occupied_0;
    let pending = g.with_cell(p, CellState::Pending);
    lemma_occ_count_update(g.cells, Player::One, p.idx(), CellState::Pending);
    lemma_occ_count_update(g.cells, Player::Two, p.idx(), CellState::Pending);
    lemma_mark_sweep_props(pending, p.neighbour_seq(), p, pl);
    let after = lift_step(g, p);
    assert(after.cells[p.idx()] is Pending);
    assert forall|i: int|
        0 <= i < after.cells.len() && i != p.idx() implies !((#[trigger] after.cells[i])
        is Pending) by {
        assert(pending.cells[i] == g.cells[i]);
    }
}

/// The pre-capture half of a land keeps the structural invariants (though
/// abandoned candidates may still sit on the board), empties the origin, and
/// leaves no pending cell anywhere.
pub proof fn lemma_land_pre_props(g: GameV, p: Position)
    requires
        g.wf(),
        land_enabled(g, p),
    ensures
        land_pre(g, p).cells_ok(),
        land_pre(g, p).counts_ok(),
        land_pre(g, p).winner_ok(),
        land_pre(g, p).lifted is None,
        land_pre(g, p).count_one == g.count_one,
        land_pre(g, p).count_two == g.count_two,
        land_pre(g, p).winner == g.winner,
        land_pre(g, p).cells.len() == g.cells.len(),
        forall|i: int|
            0 <= i < land_pre(g, p).cells.len() ==> !((#[trigger] land_pre(g, p).cells[i])
                is Pending),
{
    let origin = g.cell(p)->Candidate_0;
    let pl = g.cell(p)->Candidate_1;
    let (lifted_origin, lifted_player) = g.lifted->Some_0;
    assert(origin == lifted_origin && pl == lifted_player);
    assert(origin.in_bounds());
    assert(g.cells[origin.idx()] is Pending);
    assert(p.idx() != origin.idx());
    let settled1 = g.with_cell(p, CellState::Occupied(pl));
    lemma_occ_count_update(g.cells, Player::One, p.idx(), CellState::Occupied(pl));
    lemma_occ_count_update(g.cells, Player::Two, p.idx(), CellState::Occupied(pl));
    lemma_occ_count_update(settled1.cells, Player::One, origin.idx(), CellState::Empty);
    lemma_occ_count_update(settled1.cells, Player::Two, origin.idx(), CellState::Empty);
    assert(settled1.cells[origin.idx()] == g.cells[origin.idx()]);
}

/// A legal land leads from an invariant-respecting state to another, and
/// never raises a tally.
pub proof fn lemma_land_step_wf(g: GameV, p: Position)
    requires
        g.wf(),
        land_enabled(g, p),
    ensures
        land_step(g, p).wf(),
        land_step(g, p).count_one <= g.count_one,
        land_step(g, p).count_two <= g.count_two,
        land_step(g, p).cells.len() == g.cells.len(),
        land_step(g, p).lifted is None,
{
    let settled = land_pre(g, p);
    lemma_land_pre_props(g, p);
    lemma_capture_sweep_props(settled, capture_sites(p));
    let fought = capture_sweep(settled, capture_sites(p));
    let after = land_step(g, p);
    lemma_occ_count_congruent(after.cells, fought.cells, Player::One);
    lemma_occ_count_congruent(after.cells, fought.cells, Player::Two);
    assert forall|i: int| 0 <= i < after.cells.len() implies !((#[trigger] after.cells[i])
        is Pending) && !(after.cells[i] is Candidate) by {
        assert(fought.cells[i] == settled.cells[i] || fought.cells[i] == CellState::Empty);
        assert(!(settled.cells[i] is Pending));
    }
}

/// Any selection preserves the invariants and never raises a tally.
pub proof fn lemma_select_spec_wf(g: GameV, p: Position)
    requires
        g.wf(),
    ensures
        select_spec(g, p).wf(),
        select_spec(g, p).count_one <= g.count_one,
        select_spec(g, p).count_two <= g.count_two,
{
    if lift_enabled(g, p) {
        lemma_lift_step_wf(g, p);
    }
    if land_enabled(g, p) && g.cell(p) is Candidate {
        lemma_land_step_wf(g, p);
    }
}

/// The win check as a pure function of the tallies: a player down to one
/// soldier or none loses; player Two's win is assigned first and player
/// One's second, so One's condition prevails; with neither tally low the
/// winner passed in stands.
pub fn winner_from_counts(current: Option<Player>, count_one: usize, count_two: usize) -> (r:
    Option<Player>)
    ensures
        r == recompute_winner_spec(current, count_one as nat, count_two as nat),
{
    let mut w = current;
    if count_one == 0 || count_one == 1 {
        w = Some(Player::Two);
    }
    if count_two == 0 || count_two == 1 {
        w = Some(Player::One);
    }
    w
}

/// Copies a neighbour list so the board can be mutated while walking it.
fn copy_positions(src: &Vec<Position>) -> (r: Vec<Position>)
    ensures
        r@ == src@,
{
    let mut out: Vec<Position> = Vec::new();
    let mut k: usize = 0;
    while k < src.len()
        invariant
            k <= src@.len(),
            out@ == src@.take(k as int),
        decreases src@.len() - k,
    {
        out.push(src[k]);
        proof {
            assert(out@ =~= src@.take(k as int + 1));
        }
        k += 1;
    }
    proof {
        assert(src@.take(src@.len() as int) =~= src@);
    }
    out
}

/// A whole game: board, tallies, turn, winner, and the piece mid-move.
pub struct GameSession {
    board: Board,
    soliders: SolidersCounter,
    turn: Player,
    winner: Option<Player>,
    lifted: Option<(Position, Player)>,
}

impl View for GameSession {
    type V = GameV;

    closed spec fn view(&self) -> GameV {
        GameV {
            cells: self.board@,
            count_one: self.soliders@.0,
            count_two: self.soliders@.1,
            turn: self.turn,
            winner: self.winner,
            lifted: self.lifted,
        }
    }
}

impl GameSession {
    /// The session's adjacency table is correct.
    pub closed spec fn board_ok(&self) -> bool {
        self.board.wf()
    }

    /// The session's state respects the game invariants and its adjacency
    /// table is correct.
    pub open spec fn wf(&self) -> bool {
        self@.wf() && self.board_ok()
    }

    /// Starts a game: initial layout, full tallies, player One to move, no
    /// winner, no piece lifted.
    pub fn new() -> (g: GameSession)
        ensures
            g.wf(),
            g@ == initial_game(),
    {
        let g = GameSession {
            board: Board::new(),
            soliders: SolidersCounter::new(),
            turn: Player::One,
            winner: None,
            lifted: None,
        };
        proof {
            lemma_initial_game_wf();
            assert(g@ =~= initial_game());
        }
        g
    }

    /// Returns the game to its starting state, whatever state it was in.
    pub fn reset(&mut self)
        ensures
            final(self).wf(),
            final(self)@ == initial_game(),
    {
        self.board = Board::new();
        self.soliders.reset();
        self.turn = Player::One;
        self.winner = None;
        self.lifted = None;
        proof {
            lemma_initial_game_wf();
            assert(self@ =~= initial_game());
        }
    }

    /// Reads the state of the cell at `p`.
    pub fn cell_state(&self, p: Position) -> (r: CellState)
        requires
            self.wf(),
            p.in_bounds(),
        ensures
            r == self@.cell(p),
    {
        self.board.get(p)
    }

    /// The player whose turn it is.
    pub fn current_turn(&self) -> (r: Player)
        ensures
            r == self@.turn,
    {
        self.turn
    }

    /// The winner, if the game is decided.
    pub fn winner(&self) -> (r: Option<Player>)
        ensures
            r == self@.winner,
    {
        self.winner
    }

    /// How many soldiers the given player still has.
    pub fn soldier_count(&self, player: Player) -> (r: usize)
        ensures
            r as nat == self@.count_of(player),
    {
        self.soliders.get(player)
    }

    /// True while no piece is lifted, i.e. the next selection starts a move.
    pub fn move_in_progress(&self) -> (r: bool)
        ensures
            r == (self@.lifted is None),
    {
        self.lifted.is_none()
    }

    /// Recomputes the winner from the tallies: each losing condition is
    /// checked independently, player Two's win first.
    fn recompute_winner(&mut self)
        ensures
            final(self)@ == (GameV {
                winner: recompute_winner_spec(
                    old(self)@.winner,
                    old(self)@.count_one,
                    old(self)@.count_two,
                ),
                ..old(self)@
            }),
            final(self).board == old(self).board,
    {
        let count_one = self.soliders.get(Player::One);
        let count_two = self.soliders.get(Player::Two);
        self.winner = winner_from_counts(self.winner, count_one, count_two);
    }

    /// One capture evaluation at `p`, as the sandwich rule dictates: if a
    /// piece rests there flanked on both sides of one axis by the enemy,
    /// the cell empties, the owner's tally drops by one, and the winner is
    /// recomputed; otherwise nothing changes.
    pub fn evaluate_capture(&mut self, p: Position)
        requires
            old(self).board_ok(),
            old(self)@.cells_ok(),
            old(self)@.counts_ok(),
            old(self)@.winner_ok(),
            p.in_bounds(),
        ensures
            final(self).board_ok(),
            final(self)@ == capture_step(old(self)@, p),
            final(self)@.cells_ok(),
            final(self)@.counts_ok(),
            final(self)@.winner_ok(),
    {
        let st = self.board.get(p);
        if let CellState::Occupied(pl) = st {
            let enemy = pl.opposite();
            let horizontal = match (p.left(), p.right()) {
                (Some(l), Some(r)) => self.board.get(l) == CellState::Occupied(enemy)
                    && self.board.get(r) == CellState::Occupied(enemy),
                _ => false,
            };
            let vertical = match (p.up(), p.down()) {
                (Some(u), Some(d)) => self.board.get(u) == CellState::Occupied(enemy)
                    && self.board.get(d) == CellState::Occupied(enemy),
                _ => false,
            };
            if horizontal || vertical {
                proof {
                    lemma_occ_count_positive(old(self)@.cells, pl, p.idx());
                }
                self.board.set(p, CellState::Empty);
                self.soliders.decrement(pl);
                self.recompute_winner();
                proof {
                    assert(self@ =~= capture_step(old(self)@, p));
                }
            }
        }
        proof {
            lemma_capture_step_props(old(self)@, p);
        }
    }

    /// Whether some neighbour of `p` is empty, walking the precomputed
    /// neighbour list.
    fn has_empty_neighbour_exec(&self, p: Position) -> (r: bool)
        requires
            self.board_ok(),
            p.in_bounds(),
        ensures
            r == has_empty_neighbour(self@, p),
    {
        let ns = self.board.neighbours(p);
        let mut found = false;
        let mut k: usize = 0;
        while k < ns.len()
            invariant
                self.board_ok(),
                p.in_bounds(),
                ns@ == p.neighbour_seq(),
                k <= ns@.len(),
                found == exists|j: int|
                    0 <= j < k && self@.cell(#[trigger] p.neighbour_seq()[j]) == CellState::Empty,
            decreases ns@.len() - k,
        {
            let n = ns[k];
            proof {
                lemma_neighbours_in_bounds(p);
            }
            if self.board.get(n) == CellState::Empty {
                found = true;
            }
            k += 1;
        }
        found
    }

    /// The sole mutator a collaborator calls: selecting the square at `p`
    /// performs a legal lift or a legal land and reports true; any illegal
    /// selection is rejected with no state change and reports false.
    pub fn select_square(&mut self, p: Position) -> (r: bool)
        requires
            old(self).wf(),
            p.in_bounds(),
        ensures
            final(self).wf(),
            final(self)@ == select_spec(old(self)@, p),
            r == select_enabled(old(self)@, p),
    {
        proof {
            lemma_select_spec_wf(old(self)@, p);
        }
        let st = self.board.get(p);
        match st {
            CellState::Occupied(pl) => {
                if self.lifted.is_some() {
                    return false;
                }
                if pl != self.turn {
                    return false;
                }
                if !self.has_empty_neighbour_exec(p) {
                    return false;
                }
                let ns = copy_positions(self.board.neighbours(p));
                self.board.set(p, CellState::Pending);
                let ghost pend = self@;
                let mut k: usize = 0;
                proof {
                    assert(ns@.skip(0) =~= ns@);
                }
                while k < ns.len()
                    invariant
                        self.board_ok(),
                        self@.cells.len() == CELL_COUNT,
                        p.in_bounds(),
                        ns@ == p.neighbour_seq(),
                        k <= ns@.len(),
                        self@.count_one == pend.count_one,
                        self@.count_two == pend.count_two,
                        self@.turn == pend.turn,
                        self@.winner == pend.winner,
                        self@.lifted == pend.lifted,
                        mark_sweep(self@, ns@.skip(k as int), p, pl) == mark_sweep(
                            pend,
                            ns@,
                            p,
                            pl,
                        ),
                    decreases ns@.len() - k,
                {
                    let n = ns[k];
                    proof {
                        lemma_neighbours_in_bounds(p);
                    }
                    let ghost prev = self@;
                    let c = self.board.get(n);
                    if c == CellState::Empty {
                        self.board.set(n, CellState::Candidate(p, pl));
                    }
                    proof {
                        assert(self@ =~= mark_step(prev, n, p, pl));
                        assert(ns@.skip(k as int)[0] == ns@[k as int]);
                        assert(ns@.skip(k as int).skip(1) =~= ns@.skip(k as int + 1));
                    }
                    k += 1;
                }
                self.lifted = Some((p, pl));
                proof {
                    assert(ns@.skip(ns@.len() as int) =~= Seq::<Position>::empty());
                    assert(self@ =~= lift_step(old(self)@, p));
                }
                true
            },
            CellState::Candidate(origin, pl) => {
                if self.lifted.is_none() {
                    return false;
                }
                proof {
                    assert(old(self)@.cells[p.idx()] matches CellState::Candidate(o, _)
                        ==> o.in_bounds());
                    lemma_land_pre_props(old(self)@, p);
                }
                self.board.set(p, CellState::Occupied(pl));
                self.board.set(origin, CellState::Empty);
                self.turn = pl.opposite();
                self.lifted = None;
                let ghost settled = self@;
                proof {
                    assert(settled =~= land_pre(old(self)@, p));
                }
                self.evaluate_capture(p);
                let ns = copy_positions(self.board.neighbours(p));
                proof {
                    assert(capture_sites(p)[0] == p);
                    assert(capture_sites(p).skip(1) =~= ns@);
                    assert(ns@.skip(0) =~= ns@);
                    assert(capture_sweep(self@, ns@.skip(0)) == capture_sweep(
                        settled,
                        capture_sites(p),
                    ));
                }
                let mut k: usize = 0;
                while k < ns.len()
                    invariant
                        self.board_ok(),
                        self@.cells_ok(),
                        self@.counts_ok(),
                        self@.winner_ok(),
                        p.in_bounds(),
                        ns@ == p.neighbour_seq(),
                        k <= ns@.len(),
                        capture_sweep(self@, ns@.skip(k as int)) == capture_sweep(
                            settled,
                            capture_sites(p),
                        ),
                    decreases ns@.len() - k,
                {
                    let n = ns[k];
                    proof {
                        lemma_neighbours_in_bounds(p);
                    }
                    let ghost prev = self@;
                    self.evaluate_capture(n);
                    proof {
                        assert(ns@.skip(k as int)[0] == ns@[k as int]);
                        assert(ns@.skip(k as int).skip(1) =~= ns@.skip(k as int + 1));
                    }
                    k += 1;
                }
                let ghost fought = self@;
                proof {
                    assert(ns@.skip(ns@.len() as int) =~= Seq::<Position>::empty());
                    assert(fought == capture_sweep(settled, capture_sites(p)));
                }
                let mut i: usize = 0;
                while i < CELL_COUNT
                    invariant
                        self.board_ok(),
                        self@.cells.len() == CELL_COUNT,
                        fought.cells.len() == CELL_COUNT,
                        i <= CELL_COUNT,
                        self@.count_one == fought.count_one,
                        self@.count_two == fought.count_two,
                        self@.turn == fought.turn,
                        self@.winner == fought.winner,
                        self@.lifted == fought.lifted,
                        forall|j: int|
                            0 <= j < i ==> self@.cells[j] == clear_candidates(fought.cells)[j],
                        forall|j: int| i <= j < CELL_COUNT ==> self@.cells[j] == fought.cells[j],
                    decreases CELL_COUNT - i,
                {
                    let pos = Position { row: i / ROW_WIDTH, col: i % ROW_WIDTH };
                    proof {
                        lemma_pos_of_in_bounds(i as int);
                        assert(pos == pos_of(i as int));
                    }
                    let c = self.board.get(pos);
                    if let CellState::Candidate(_, _) = c {
                        self.board.set(pos, CellState::Empty);
                    }
                    i += 1;
                }
                proof {
                    assert(self@.cells =~= clear_candidates(fought.cells));
                    assert(self@ =~= land_step(old(self)@, p));
                }
                true
            },
            CellState::Empty => false,
            CellState::Pending => false,
        }
    }
}

} // verus!
