use soldiers::ROW_WIDTH;
use soldiers::cell::CellState;
use soldiers::cell::Player;
use soldiers::game::GameSession;
use soldiers::game::winner_from_counts;
use soldiers::position::Position;
use soldiers::soliders_counter::SolidersCounter;

fn at(row: usize, col: usize) -> Position {
    Position { row, col }
}

fn occupied_cells(g: &GameSession) -> usize {
    let mut n = 0;
    for row in 0..ROW_WIDTH {
        for col in 0..ROW_WIDTH {
            if matches!(g.cell_state(at(row, col)), CellState::Occupied(_)) {
                n += 1;
            }
        }
    }
    n
}

fn snapshot(g: &GameSession) -> (Vec<CellState>, usize, usize, Player, Option<Player>, bool) {
    let mut cells = Vec::new();
    for row in 0..ROW_WIDTH {
        for col in 0..ROW_WIDTH {
            cells.push(g.cell_state(at(row, col)));
        }
    }
    (
        cells,
        g.soldier_count(Player::One),
        g.soldier_count(Player::Two),
        g.current_turn(),
        g.winner(),
        g.move_in_progress(),
    )
}

#[test]
fn initial_layout_is_the_documented_one() {
    let g = GameSession::new();
    for row in 0..ROW_WIDTH {
        for col in 0..ROW_WIDTH {
            let expected = if row < 2 || (row == 2 && col < 2) {
                CellState::Occupied(Player::One)
            } else if row > 2 || (row == 2 && col > 2) {
                CellState::Occupied(Player::Two)
            } else {
                CellState::Empty
            };
            assert_eq!(g.cell_state(at(row, col)), expected);
        }
    }
    assert_eq!(g.soldier_count(Player::One), 12);
    assert_eq!(g.soldier_count(Player::Two), 12);
    assert_eq!(g.current_turn(), Player::One);
    assert_eq!(g.winner(), None);
    assert!(g.move_in_progress());
}

#[test]
fn illegal_selections_are_rejected_without_change() {
    let mut g = GameSession::new();
    let before = snapshot(&g);
    assert!(!g.select_square(at(2, 2))); // an empty cell
    assert!(!g.select_square(at(3, 1))); // the opponent's piece on One's turn
    assert!(!g.select_square(at(0, 0))); // a piece with no empty neighbour
    assert_eq!(snapshot(&g), before);
}

#[test]
fn lifting_marks_pending_and_candidates() {
    let mut g = GameSession::new();
    assert!(g.select_square(at(2, 1)));
    assert_eq!(g.cell_state(at(2, 1)), CellState::Pending);
    assert_eq!(g.cell_state(at(2, 2)), CellState::Candidate(at(2, 1), Player::One));
    assert!(!g.move_in_progress());
    // while a piece is lifted, anything but a candidate cell is rejected
    assert!(!g.select_square(at(0, 0)));
    assert!(!g.select_square(at(3, 1)));
    assert!(!g.select_square(at(2, 1))); // the pending origin itself
    assert_eq!(g.cell_state(at(2, 1)), CellState::Pending);
    assert_eq!(g.cell_state(at(2, 2)), CellState::Candidate(at(2, 1), Player::One));
}

#[test]
fn landing_completes_the_move() {
    let mut g = GameSession::new();
    assert!(g.select_square(at(2, 1)));
    assert!(g.select_square(at(2, 2)));
    assert_eq!(g.cell_state(at(2, 2)), CellState::Occupied(Player::One));
    assert_eq!(g.cell_state(at(2, 1)), CellState::Empty);
    assert_eq!(g.current_turn(), Player::Two);
    assert!(g.move_in_progress());
    assert_eq!(g.soldier_count(Player::One), 12);
    assert_eq!(g.soldier_count(Player::Two), 12);
}

#[test]
fn a_move_without_captures_conserves_occupied_cells() {
    let mut g = GameSession::new();
    let before = occupied_cells(&g);
    assert_eq!(before, 24);
    assert!(g.select_square(at(2, 1)));
    assert!(g.select_square(at(2, 2)));
    assert_eq!(occupied_cells(&g), before);
}

#[test]
fn landing_into_a_sandwich_is_immediately_fatal() {
    // One steps aside; Two's only liftable piece then lands between two of
    // One's pieces and is captured within the same selection.
    let mut g = GameSession::new();
    assert!(g.select_square(at(2, 1)));
    assert!(g.select_square(at(2, 2)));
    assert!(g.select_square(at(3, 1)));
    assert!(g.select_square(at(2, 1)));
    assert_eq!(g.cell_state(at(2, 1)), CellState::Empty);
    assert_eq!(g.cell_state(at(3, 1)), CellState::Empty);
    assert_eq!(g.soldier_count(Player::Two), 11);
    assert_eq!(g.soldier_count(Player::One), 12);
    assert_eq!(g.current_turn(), Player::One);
    assert!(g.move_in_progress());
}

#[test]
fn a_flanked_piece_falls_on_the_opponents_land() {
    let mut g = GameSession::new();
    // One: (2,1) to (2,2); Two: (3,1) to (2,1), a suicide.
    assert!(g.select_square(at(2, 1)));
    assert!(g.select_square(at(2, 2)));
    assert!(g.select_square(at(3, 1)));
    assert!(g.select_square(at(2, 1)));
    // One: (2,2) back to (2,1); Two: (3,2) up to (2,2).
    assert!(g.select_square(at(2, 2)));
    assert!(g.select_square(at(2, 1)));
    assert!(g.select_square(at(3, 2)));
    assert!(g.select_square(at(2, 2)));
    // One: (2,1) down to (3,1), between (3,0) and the empty (3,2).
    assert!(g.select_square(at(2, 1)));
    assert!(g.select_square(at(3, 1)));
    // Two: (4,2) up to (3,2) closes the horizontal sandwich around (3,1).
    assert!(g.select_square(at(4, 2)));
    assert!(g.select_square(at(3, 2)));
    assert_eq!(g.cell_state(at(3, 1)), CellState::Empty);
    assert_eq!(g.cell_state(at(3, 0)), CellState::Occupied(Player::Two));
    assert_eq!(g.cell_state(at(3, 2)), CellState::Occupied(Player::Two));
    assert_eq!(g.soldier_count(Player::One), 11);
    assert_eq!(g.soldier_count(Player::Two), 11);
    assert_eq!(g.current_turn(), Player::One);
    assert!(g.move_in_progress());
}

#[test]
fn evaluate_capture_leaves_an_unflanked_piece_alone() {
    let mut g = GameSession::new();
    let before = snapshot(&g);
    g.evaluate_capture(at(1, 1));
    g.evaluate_capture(at(2, 2));
    assert_eq!(snapshot(&g), before);
}

#[test]
fn reset_restores_the_start_and_is_idempotent() {
    let mut g = GameSession::new();
    let fresh = snapshot(&g);
    assert!(g.select_square(at(2, 1)));
    assert!(g.select_square(at(2, 2)));
    assert!(g.select_square(at(3, 1)));
    assert!(g.select_square(at(2, 1)));
    assert_ne!(snapshot(&g), fresh);
    g.reset();
    let once = snapshot(&g);
    g.reset();
    let twice = snapshot(&g);
    assert_eq!(once, twice);
    assert_eq!(once, fresh);
    assert_eq!(g.soldier_count(Player::Two), 12);
    assert_eq!(g.winner(), None);
    assert_eq!(g.current_turn(), Player::One);
}

#[test]
fn a_reset_mid_move_abandons_the_lift() {
    let mut g = GameSession::new();
    assert!(g.select_square(at(2, 1)));
    assert!(!g.move_in_progress());
    g.reset();
    assert!(g.move_in_progress());
    assert_eq!(g.cell_state(at(2, 1)), CellState::Occupied(Player::One));
    assert_eq!(g.cell_state(at(2, 2)), CellState::Empty);
}

#[test]
fn win_check_is_a_pure_function_of_the_tallies() {
    assert_eq!(winner_from_counts(None, 12, 12), None);
    assert_eq!(winner_from_counts(None, 2, 2), None);
    assert_eq!(winner_from_counts(None, 1, 5), Some(Player::Two));
    assert_eq!(winner_from_counts(None, 0, 7), Some(Player::Two));
    assert_eq!(winner_from_counts(None, 9, 1), Some(Player::One));
    assert_eq!(winner_from_counts(None, 4, 0), Some(Player::One));
    // both conditions at once: player One's win is assigned last
    assert_eq!(winner_from_counts(None, 1, 1), Some(Player::One));
    // an already decided game stays decided
    assert_eq!(winner_from_counts(Some(Player::Two), 2, 5), Some(Player::Two));
    assert_eq!(winner_from_counts(Some(Player::One), 7, 9), Some(Player::One));
}

#[test]
fn counter_tallies_and_resets() {
    let mut c = SolidersCounter::new();
    assert_eq!(c.get(Player::One), 12);
    assert_eq!(c.get(Player::Two), 12);
    c.decrement(Player::Two);
    assert_eq!(c.get(Player::One), 12);
    assert_eq!(c.get(Player::Two), 11);
    c.decrement(Player::One);
    assert_eq!(c.get(Player::One), 11);
    c.reset();
    assert_eq!(c.get(Player::One), 12);
    assert_eq!(c.get(Player::Two), 12);
}
