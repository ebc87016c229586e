use soldiers::board::Board;
use soldiers::cell::CellState;
use soldiers::cell::Player;
use soldiers::position::Position;

fn at(row: usize, col: usize) -> Position {
    Position { row, col }
}

#[test]
fn opposite_swaps_players() {
    assert_eq!(Player::One.opposite(), Player::Two);
    assert_eq!(Player::Two.opposite(), Player::One);
    assert_eq!(Player::One.opposite().opposite(), Player::One);
}

#[test]
fn direction_helpers_respect_edges() {
    let corner = at(0, 0);
    assert_eq!(corner.left(), None);
    assert_eq!(corner.up(), None);
    assert_eq!(corner.right(), Some(at(0, 1)));
    assert_eq!(corner.down(), Some(at(1, 0)));
    let far = at(4, 4);
    assert_eq!(far.right(), None);
    assert_eq!(far.down(), None);
    assert_eq!(far.left(), Some(at(4, 3)));
    assert_eq!(far.up(), Some(at(3, 4)));
    let centre = at(2, 2);
    assert_eq!(centre.left(), Some(at(2, 1)));
    assert_eq!(centre.right(), Some(at(2, 3)));
    assert_eq!(centre.up(), Some(at(1, 2)));
    assert_eq!(centre.down(), Some(at(3, 2)));
}

#[test]
fn neighbours_come_in_left_right_up_down_order() {
    let ns = at(2, 2).explore_neighbours();
    assert_eq!(ns, vec![at(2, 1), at(2, 3), at(1, 2), at(3, 2)]);
    let corner = at(0, 0).explore_neighbours();
    assert_eq!(corner, vec![at(0, 1), at(1, 0)]);
    let bottom = at(4, 2).explore_neighbours();
    assert_eq!(bottom, vec![at(4, 1), at(4, 3), at(3, 2)]);
    let right_edge = at(1, 4).explore_neighbours();
    assert_eq!(right_edge, vec![at(1, 3), at(0, 4), at(2, 4)]);
}

#[test]
fn board_neighbours_are_precomputed_in_order() {
    let b = Board::new();
    let ns = b.neighbours(at(2, 0));
    assert_eq!(*ns, vec![at(2, 1), at(1, 0), at(3, 0)]);
    let ns = b.neighbours(at(4, 4));
    assert_eq!(*ns, vec![at(4, 3), at(3, 4)]);
}

#[test]
fn board_get_set_roundtrip() {
    let mut b = Board::new();
    assert_eq!(b.get(at(2, 2)), CellState::Empty);
    assert_eq!(b.get(at(0, 3)), CellState::Occupied(Player::One));
    assert_eq!(b.get(at(4, 1)), CellState::Occupied(Player::Two));
    b.set(at(2, 2), CellState::Occupied(Player::Two));
    assert_eq!(b.get(at(2, 2)), CellState::Occupied(Player::Two));
    b.set(at(2, 2), CellState::Candidate(at(2, 1), Player::One));
    assert_eq!(b.get(at(2, 2)), CellState::Candidate(at(2, 1), Player::One));
    assert_eq!(b.get(at(2, 1)), CellState::Occupied(Player::One));
}
