use connect_four::position::{board_positions, column_positions, Position, SLOT_COUNT};

#[test]
fn test_position_translation() {
    for pos in board_positions().iter() {
        assert_eq!(pos, &Position::from_index(pos.translate()));
    }
}

#[test]
fn from_index_splits_into_column_and_row() {
    assert_eq!(Position::from_index(0), Position::from_coord(0, 0));
    assert_eq!(Position::from_index(10), Position::from_coord(3, 1));
    assert_eq!(Position::from_index(41), Position::from_coord(6, 5));
    assert_eq!(Position::from_index(42), Position::from_coord(0, 6));
}

#[test]
fn translate_is_column_plus_seven_rows() {
    assert_eq!(Position::from_coord(0, 0).translate(), 0);
    assert_eq!(Position::from_coord(3, 1).translate(), 10);
    assert_eq!(Position::from_coord(6, 5).translate(), 41);
    assert_eq!(Position::from_coord(0, 6).translate(), 42);
    assert_eq!(Position::from_index(Position::from_coord(5, 9).translate()), Position::from_coord(5, 9));
}

#[test]
fn board_positions_go_column_by_column_and_are_distinct() {
    let positions = board_positions();
    assert_eq!(positions.len(), SLOT_COUNT);
    assert_eq!(SLOT_COUNT, 42);
    for (i, p) in positions.iter().enumerate() {
        assert!(p.x < 7 && p.y < 6);
        assert_eq!(*p, Position::from_coord(i / 6, i % 6));
        for q in positions.iter().skip(i + 1) {
            assert_ne!(p, q);
        }
    }
}

#[test]
fn column_positions_go_up_one_column() {
    let positions = column_positions(4);
    for (y, p) in positions.iter().enumerate() {
        assert_eq!(*p, Position::from_coord(4, y));
    }
}

#[test]
fn shifts_move_along_one_axis() {
    let p = Position::from_coord(3, 2);
    assert_eq!(p.add_x(2), Position::from_coord(5, 2));
    assert_eq!(p.sub_x(3), Position::from_coord(0, 2));
    assert_eq!(p.add_y(3), Position::from_coord(3, 5));
    assert_eq!(p.sub_y(2), Position::from_coord(3, 0));
}
