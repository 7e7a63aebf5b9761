use snake_core::grid::{Coord, Direction, CELLS, COLS, ROWS};

fn at(row: usize, col: usize) -> Coord {
    Coord::new(row, col).unwrap()
}

#[test]
fn grid_has_fixed_size() {
    assert_eq!(ROWS, 22);
    assert_eq!(COLS, 39);
    assert_eq!(CELLS, ROWS * COLS);
}

#[test]
fn new_accepts_only_cells_of_the_grid() {
    let origin = Coord::new(0, 0).unwrap();
    assert_eq!((origin.row(), origin.col()), (0, 0));
    let last = Coord::new(21, 38).unwrap();
    assert_eq!((last.row(), last.col()), (21, 38));
    let inner = Coord::new(3, 7).unwrap();
    assert_eq!((inner.row(), inner.col()), (3, 7));
    assert_ne!(origin, last);
    assert_eq!(Coord::new(3, 7), Some(inner));
    assert_eq!(Coord::new(22, 0), None);
    assert_eq!(Coord::new(0, 39), None);
    assert_eq!(Coord::new(usize::MAX, usize::MAX), None);
}

#[test]
fn offset_is_row_major() {
    assert_eq!(at(0, 0).offset(), 0);
    assert_eq!(at(0, 38).offset(), 38);
    assert_eq!(at(1, 0).offset(), 39);
    assert_eq!(at(10, 15).offset(), 405);
    assert_eq!(at(21, 38).offset(), 857);
}

#[test]
fn step_moves_one_cell() {
    let c = at(10, 15);
    assert_eq!(c.stepped(Direction::Left), at(10, 14));
    assert_eq!(c.stepped(Direction::Right), at(10, 16));
    assert_eq!(c.stepped(Direction::Up), at(9, 15));
    assert_eq!(c.stepped(Direction::Down), at(11, 15));
}

#[test]
fn step_wraps_at_every_edge() {
    assert_eq!(at(0, 0).stepped(Direction::Left), at(0, 38));
    assert_eq!(at(0, 0).stepped(Direction::Up), at(21, 0));
    assert_eq!(at(21, 38).stepped(Direction::Right), at(21, 0));
    assert_eq!(at(21, 38).stepped(Direction::Down), at(0, 38));
}

#[test]
fn step_then_back_returns_everywhere() {
    let dirs = [Direction::Left, Direction::Up, Direction::Right, Direction::Down];
    for row in 0..ROWS {
        for col in 0..COLS {
            for d in dirs {
                let c = at(row, col);
                let there = c.stepped(d);
                assert!(there.row() < ROWS && there.col() < COLS);
                assert_ne!(there, c);
                assert_eq!(there.stepped(d.reversed()), c);
            }
        }
    }
}

#[test]
fn reversed_swaps_within_an_axis() {
    assert_eq!(Direction::Left.reversed(), Direction::Right);
    assert_eq!(Direction::Right.reversed(), Direction::Left);
    assert_eq!(Direction::Up.reversed(), Direction::Down);
    assert_eq!(Direction::Down.reversed(), Direction::Up);
}

#[test]
fn shares_axis_groups_horizontal_and_vertical() {
    assert!(Direction::Left.shares_axis(Direction::Right));
    assert!(Direction::Right.shares_axis(Direction::Right));
    assert!(Direction::Up.shares_axis(Direction::Down));
    assert!(!Direction::Up.shares_axis(Direction::Left));
    assert!(!Direction::Right.shares_axis(Direction::Down));
}
