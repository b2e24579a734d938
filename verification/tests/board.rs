use reversi_core::board::neighbours::Neighbours;
use reversi_core::board::strider::{Direction, Strider};
use reversi_core::board::{Board, Disc, Player};
use reversi_core::position::Position;

fn pos(row: u8, col: u8) -> Position {
    Position::new(row, col).unwrap()
}

#[test]
fn test_default_impl() {
    let board = Board::default();
    let expected_p1: [u8; 8] = [0, 0, 0, 16, 8, 0, 0, 0];
    let expected_p2: [u8; 8] = [0, 0, 0, 8, 16, 0, 0, 0];
    for row in 0..8usize {
        assert_eq!(board.plane_row(Player::Player1, row), expected_p1[row]);
        assert_eq!(board.plane_row(Player::Player2, row), expected_p2[row]);
    }
}

#[test]
fn test_indexing() {
    let board = Board::default();
    assert_eq!(board.get_piece(pos(0, 5)), Disc::Empty);
    assert_eq!(board.get_piece(pos(3, 3)), Disc::Player2);
    assert_eq!(board.get_piece(pos(3, 4)), Disc::Player1);
    assert_eq!(board.get_piece(pos(4, 3)), Disc::Player1);
    assert_eq!(board.get_piece(pos(4, 4)), Disc::Player2);
    assert_eq!(board.get_piece(pos(7, 7)), Disc::Empty);
}

#[test]
fn test_from_disc_array_array_empty() {
    let init_board = [[Disc::Empty; 8]; 8];
    let new_board = Board::from_grid(init_board);
    assert_eq!(new_board, Board::empty());
}

#[test]
fn test_from_disc_array_array() {
    let e = Disc::Empty;
    let init_board = [
        [e; 8],
        [e; 8],
        [e; 8],
        [e, e, e, Disc::Player2, Disc::Player1, e, e, e],
        [e, e, e, Disc::Player1, Disc::Player2, e, e, e],
        [e; 8],
        [e; 8],
        [e; 8],
    ];
    let new_board = Board::from_grid(init_board);
    assert_eq!(new_board, Board::default());
}

#[test]
fn test_from_disc_array_empty() {
    let init_board = [Disc::Empty; 64];
    let new_board = Board::from_cells(init_board);
    assert_eq!(new_board, Board::empty());
}

#[test]
fn test_from_disc_array() {
    let mut init_board = [Disc::Empty; 64];
    init_board[27] = Disc::Player2;
    init_board[28] = Disc::Player1;
    init_board[35] = Disc::Player1;
    init_board[36] = Disc::Player2;
    let new_board = Board::from_cells(init_board);
    assert_eq!(new_board, Board::default());
}

#[test]
fn test_board_iterator() {
    let board = Board::empty();
    let mut iter = board.iter();
    let mut count = 0;
    while let Some(_) = iter.next() {
        count += 1;
    }
    assert_eq!(count, 64);
    println!("{:?}", board.iter().size_hint());
}

#[test]
fn test_value_getter_setter() {
    let mut board = Board::default();
    assert_eq!(board.get_piece(pos(0, 3)), Disc::Empty);
    assert_eq!(board.get_piece(pos(0, 3)), Disc::Empty);
    board.set_piece(pos(0, 3), Disc::Player1);
    assert_eq!(board.get_piece(pos(0, 3)), Disc::Player1);
    assert_eq!(board.get_piece(pos(0, 3)), Disc::Player1);
    assert_eq!(board.get_piece(pos(3, 3)), Disc::Player2);
    assert_eq!(board.get_piece(pos(3, 3)), Disc::Player2);
    board.set_piece(pos(3, 3), Disc::Player1);
    assert_eq!(board.get_piece(pos(3, 3)), Disc::Player1);
    assert_eq!(board.get_piece(pos(3, 3)), Disc::Player1);
}

#[test]
fn test_neighbours() {
    let board = Board::default();
    assert!(matches!(
        board.neighbours(pos(0, 0)),
        Neighbours::TopLeftCorner(_)
    ));
    assert!(matches!(
        board.neighbours(pos(0, 7)),
        Neighbours::TopRightCorner(_)
    ));
    assert!(matches!(
        board.neighbours(pos(7, 0)),
        Neighbours::BottomLeftCorner(_)
    ));
    assert!(matches!(
        board.neighbours(pos(7, 7)),
        Neighbours::BottomRightCorner(_)
    ));
    assert!(matches!(board.neighbours(pos(0, 5)), Neighbours::TopEdge(_)));
    assert!(matches!(
        board.neighbours(pos(4, 7)),
        Neighbours::RightEdge(_)
    ));
    assert!(matches!(
        board.neighbours(pos(7, 5)),
        Neighbours::BottomEdge(_)
    ));
    assert!(matches!(board.neighbours(pos(5, 0)), Neighbours::LeftEdge(_)));
    assert!(matches!(
        board.neighbours(pos(4, 6)),
        Neighbours::InnerPoint(_)
    ));
}

#[test]
fn test_striders() {
    let board = Board::default();
    assert!(matches!(
        board.get_points_in_line(pos(3, 4), pos(2, 4)),
        Strider {
            dir: Direction::Up,
            ..
        }
    ));
    assert!(matches!(
        board.get_points_in_line(pos(3, 4), pos(2, 5)),
        Strider {
            dir: Direction::UpRight,
            ..
        }
    ));
    assert!(matches!(
        board.get_points_in_line(pos(3, 4), pos(3, 5)),
        Strider {
            dir: Direction::Right,
            ..
        }
    ));
    assert!(matches!(
        board.get_points_in_line(pos(3, 4), pos(4, 5)),
        Strider {
            dir: Direction::DownRight,
            ..
        }
    ));
    assert!(matches!(
        board.get_points_in_line(pos(3, 4), pos(4, 4)),
        Strider {
            dir: Direction::Down,
            ..
        }
    ));
    assert!(matches!(
        board.get_points_in_line(pos(3, 4), pos(4, 3)),
        Strider {
            dir: Direction::DownLeft,
            ..
        }
    ));
    assert!(matches!(
        board.get_points_in_line(pos(3, 4), pos(3, 3)),
        Strider {
            dir: Direction::Left,
            ..
        }
    ));
    assert!(matches!(
        board.get_points_in_line(pos(3, 4), pos(2, 3)),
        Strider {
            dir: Direction::UpLeft,
            ..
        }
    ));
}

#[test]
fn test_legal_moves() {
    let board = Board::default();
    let player1 = Player::Player1;
    let player2 = Player::Player2;
    assert!(board.is_legal_move(pos(2, 3), player1));
    assert!(!board.is_legal_move(pos(2, 3), player2));
    assert!(board.is_legal_move(pos(2, 4), player2));
    assert!(!board.is_legal_move(pos(2, 4), player1));
    assert!(!board.is_legal_move(pos(3, 4), player1));
    assert!(!board.is_legal_move(pos(3, 4), player2));
}

#[test]
fn test_default_layout_all_cells() {
    let board = Board::default();
    for row in 0..8u8 {
        for col in 0..8u8 {
            let expected = match (row, col) {
                (3, 3) => Disc::Player2,
                (3, 4) => Disc::Player1,
                (4, 3) => Disc::Player1,
                (4, 4) => Disc::Player2,
                _ => Disc::Empty,
            };
            assert_eq!(board.get_piece(pos(row, col)), expected);
        }
    }
}

#[test]
fn test_iterator_all_empty_row_major() {
    let board = Board::empty();
    let mut iter = board.iter();
    let mut seen = 0;
    while let Some(disc) = iter.next() {
        assert_eq!(disc, Disc::Empty);
        seen += 1;
    }
    assert_eq!(seen, 64);
    assert!(iter.next().is_none());
}

#[test]
fn test_iterator_order_marks_cell() {
    let mut board = Board::empty();
    board.set_piece(pos(2, 5), Disc::Player1);
    let mut iter = board.iter();
    let mut cells = Vec::new();
    while let Some(disc) = iter.next() {
        cells.push(disc);
    }
    assert_eq!(cells.len(), 64);
    for (i, disc) in cells.iter().enumerate() {
        if i == 2 * 8 + 5 {
            assert_eq!(*disc, Disc::Player1);
        } else {
            assert_eq!(*disc, Disc::Empty);
        }
    }
}

#[test]
fn test_set_piece_empty_clears() {
    let mut board = Board::default();
    board.set_piece(pos(3, 3), Disc::Empty);
    assert_eq!(board.get_piece(pos(3, 3)), Disc::Empty);
    assert_eq!(board.get_piece(pos(3, 4)), Disc::Player1);
}

#[test]
fn test_set_piece_overwrites_either_player() {
    let mut board = Board::empty();
    board.set_piece(pos(1, 1), Disc::Player1);
    assert_eq!(board.get_piece(pos(1, 1)), Disc::Player1);
    board.set_piece(pos(1, 1), Disc::Player2);
    assert_eq!(board.get_piece(pos(1, 1)), Disc::Player2);
    board.set_piece(pos(1, 1), Disc::Player1);
    assert_eq!(board.get_piece(pos(1, 1)), Disc::Player1);
}

#[test]
fn test_no_legal_moves_on_empty_board() {
    let board = Board::empty();
    for row in 0..8u8 {
        for col in 0..8u8 {
            assert!(!board.is_legal_move(pos(row, col), Player::Player1));
            assert!(!board.is_legal_move(pos(row, col), Player::Player2));
        }
    }
}

#[test]
fn test_legal_move_along_edge() {
    // A run of opponent discs along the top edge, closed by a player disc.
    let mut board = Board::empty();
    board.set_piece(pos(0, 1), Disc::Player2);
    board.set_piece(pos(0, 2), Disc::Player2);
    board.set_piece(pos(0, 3), Disc::Player1);
    assert!(board.is_legal_move(pos(0, 0), Player::Player1));
    assert!(!board.is_legal_move(pos(0, 0), Player::Player2));
    // An unclosed run gives no capture.
    board.set_piece(pos(0, 3), Disc::Empty);
    assert!(!board.is_legal_move(pos(0, 0), Player::Player1));
}

#[test]
fn test_opponent() {
    assert_eq!(Player::Player1.opponent(), Player::Player2);
    assert_eq!(Player::Player2.opponent(), Player::Player1);
}

#[test]
fn test_player_disc_correspondence() {
    assert_eq!(Disc::from(Player::Player1), Disc::Player1);
    assert_eq!(Disc::from(Player::Player2), Disc::Player2);
    assert!(Disc::Player1.matches_player(&Player::Player1));
    assert!(!Disc::Player2.matches_player(&Player::Player1));
    assert!(!Disc::Empty.matches_player(&Player::Player1));
    assert!(!Disc::Empty.matches_player(&Player::Player2));
    assert!(Player::Player2.matches_disc(&Disc::Player2));
    assert!(!Player::Player2.matches_disc(&Disc::Player1));
    assert!(!Player::Player1.matches_disc(&Disc::Empty));
}
