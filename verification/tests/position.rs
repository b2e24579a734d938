use reversi_core::position::{BoardError, Position};

fn pos(row: u8, col: u8) -> Position {
    Position::new(row, col).unwrap()
}

#[test]
fn test_getters() {
    let pos: Position = pos(3, 6);
    assert_eq!(pos.row(), 3);
    assert_eq!(pos.col(), 6);
}

#[test]
fn test_from_impl() {
    let pos: Position = Position::new(5, 7).unwrap();
    assert_eq!(pos.row(), 5);
    assert_eq!(pos.col(), 7);
}

#[test]
fn test_from_impl_out_of_bounds() {
    let result = Position::new(9, 20);
    assert_eq!(result, Err(BoardError::IndexOutOfBounds));
}

#[test]
fn test_out_of_bounds_row_only() {
    assert_eq!(Position::new(8, 0), Err(BoardError::IndexOutOfBounds));
    assert_eq!(Position::new(0, 8), Err(BoardError::IndexOutOfBounds));
    assert!(Position::new(7, 7).is_ok());
    assert!(Position::new(0, 0).is_ok());
}

#[test]
fn test_pack_round_trip_all() {
    for row in 0..8u8 {
        for col in 0..8u8 {
            let p = Position::new(row, col).unwrap();
            assert_eq!(p.row(), row as usize);
            assert_eq!(p.col(), col as usize);
        }
    }
}
