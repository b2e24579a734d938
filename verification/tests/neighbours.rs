use reversi_core::board::neighbours::Neighbours;
use reversi_core::board::{Board, Disc};
use reversi_core::position::Position;

fn pos(row: u8, col: u8) -> Position {
    Position::new(row, col).unwrap()
}

#[test]
fn top_left() {
    let board = Board::default();
    let mut neighbours = Neighbours::top_left_corner(&board);
    assert_eq!(neighbours.next(), Some((pos(0, 1), Disc::Empty)));
    assert_eq!(neighbours.next(), Some((pos(1, 1), Disc::Empty)));
    assert_eq!(neighbours.next(), Some((pos(1, 0), Disc::Empty)));
    assert_eq!(neighbours.next(), None);
}

#[test]
fn top_right() {
    let board = Board::default();
    let mut neighbours = Neighbours::top_right_corner(&board);
    assert_eq!(neighbours.next(), Some((pos(1, 7), Disc::Empty)));
    assert_eq!(neighbours.next(), Some((pos(1, 6), Disc::Empty)));
    assert_eq!(neighbours.next(), Some((pos(0, 6), Disc::Empty)));
    assert_eq!(neighbours.next(), None);
}

#[test]
fn bot_left() {
    let board = Board::default();
    let mut neighbours = Neighbours::bottom_left_corner(&board);
    assert_eq!(neighbours.next(), Some((pos(6, 0), Disc::Empty)));
    assert_eq!(neighbours.next(), Some((pos(6, 1), Disc::Empty)));
    assert_eq!(neighbours.next(), Some((pos(7, 1), Disc::Empty)));
    assert_eq!(neighbours.next(), None);
}

#[test]
fn bot_right() {
    let board = Board::default();
    let mut neighbours = Neighbours::bottom_right_corner(&board);
    assert_eq!(neighbours.next(), Some((pos(6, 7), Disc::Empty)));
    assert_eq!(neighbours.next(), Some((pos(7, 6), Disc::Empty)));
    assert_eq!(neighbours.next(), Some((pos(6, 6), Disc::Empty)));
    assert_eq!(neighbours.next(), None);
}

#[test]
fn top_edge() {
    let board = Board::default();
    let mut neighbours = Neighbours::top_edge(&board, pos(0, 4));
    assert_eq!(neighbours.next(), Some((pos(0, 5), Disc::Empty)));
    assert_eq!(neighbours.next(), Some((pos(1, 5), Disc::Empty)));
    assert_eq!(neighbours.next(), Some((pos(1, 4), Disc::Empty)));
    assert_eq!(neighbours.next(), Some((pos(1, 3), Disc::Empty)));
    assert_eq!(neighbours.next(), Some((pos(0, 3), Disc::Empty)));
    assert_eq!(neighbours.next(), None);
}

#[test]
fn right_edge() {
    let board = Board::default();
    let mut neighbours = Neighbours::right_edge(&board, pos(4, 7));
    assert_eq!(neighbours.next(), Some((pos(3, 7), Disc::Empty)));
    assert_eq!(neighbours.next(), Some((pos(5, 7), Disc::Empty)));
    assert_eq!(neighbours.next(), Some((pos(5, 6), Disc::Empty)));
    assert_eq!(neighbours.next(), Some((pos(4, 6), Disc::Empty)));
    assert_eq!(neighbours.next(), Some((pos(3, 6), Disc::Empty)));
    assert_eq!(neighbours.next(), None);
}

#[test]
fn bot_edge() {
    let board = Board::default();
    let mut neighbours = Neighbours::bottom_edge(&board, pos(7, 4));
    assert_eq!(neighbours.next(), Some((pos(6, 4), Disc::Empty)));
    assert_eq!(neighbours.next(), Some((pos(6, 5), Disc::Empty)));
    assert_eq!(neighbours.next(), Some((pos(7, 5), Disc::Empty)));
    assert_eq!(neighbours.next(), Some((pos(7, 3), Disc::Empty)));
    assert_eq!(neighbours.next(), Some((pos(6, 3), Disc::Empty)));
    assert_eq!(neighbours.next(), None);
}

#[test]
fn left_edge() {
    let board = Board::default();
    let mut neighbours = Neighbours::left_edge(&board, pos(4, 0));
    assert_eq!(neighbours.next(), Some((pos(3, 0), Disc::Empty)));
    assert_eq!(neighbours.next(), Some((pos(3, 1), Disc::Empty)));
    assert_eq!(neighbours.next(), Some((pos(4, 1), Disc::Empty)));
    assert_eq!(neighbours.next(), Some((pos(5, 1), Disc::Empty)));
    assert_eq!(neighbours.next(), Some((pos(5, 0), Disc::Empty)));
    assert_eq!(neighbours.next(), None);
}

#[test]
fn inner_point() {
    let board = Board::default();
    let mut neighbours = Neighbours::inner_point(&board, pos(3, 3));
    assert_eq!(neighbours.next(), Some((pos(2, 3), Disc::Empty)));
    assert_eq!(neighbours.next(), Some((pos(2, 4), Disc::Empty)));
    assert_eq!(neighbours.next(), Some((pos(3, 4), Disc::Player1)));
    assert_eq!(neighbours.next(), Some((pos(4, 4), Disc::Player2)));
    assert_eq!(neighbours.next(), Some((pos(4, 3), Disc::Player1)));
    assert_eq!(neighbours.next(), Some((pos(4, 2), Disc::Empty)));
    assert_eq!(neighbours.next(), Some((pos(3, 2), Disc::Empty)));
    assert_eq!(neighbours.next(), Some((pos(2, 2), Disc::Empty)));
    assert_eq!(neighbours.next(), None);
}

#[test]
fn neighbour_counts_by_placement() {
    let board = Board::empty();
    for row in 0..8u8 {
        for col in 0..8u8 {
            let corner_row = row == 0 || row == 7;
            let corner_col = col == 0 || col == 7;
            let expected = if corner_row && corner_col {
                3
            } else if corner_row || corner_col {
                5
            } else {
                8
            };
            let mut neighbours = board.neighbours(pos(row, col));
            let mut count = 0;
            while let Some(_) = neighbours.next() {
                count += 1;
            }
            assert_eq!(count, expected, "cell ({}, {})", row, col);
        }
    }
}
