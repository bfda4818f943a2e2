use todo_board::position::{Position, FIRST_ROW};

#[test]
fn new_cursor_is_bounded_by_first_row() {
    assert_eq!(Position::new(0, 1), Position { x: 0, y: 1, max_y: 1 });
    assert_eq!(Position::new(3, 7), Position { x: 3, y: 7, max_y: 1 });
    assert_eq!(FIRST_ROW, 1);
}

#[test]
fn change_moves_and_keeps_bound() {
    let mut p = Position { x: 4, y: 2, max_y: 9 };
    p.change(1, 1);
    assert_eq!(p, Position { x: 1, y: 1, max_y: 9 });
}

#[test]
fn change_max_keeps_place() {
    let mut p = Position { x: 4, y: 2, max_y: 9 };
    p.change_max(3);
    assert_eq!(p, Position { x: 4, y: 2, max_y: 3 });
}

#[test]
fn down_stops_at_bound() {
    let mut p = Position::new(0, 1);
    p.change_max(3);
    p.down();
    assert_eq!(p.y, 2);
    p.down();
    assert_eq!(p.y, 3);
    for _ in 0..10 {
        p.down();
        assert_eq!(p, Position { x: 0, y: 3, max_y: 3 });
    }
}

#[test]
fn up_stops_at_first_row() {
    let mut p = Position { x: 0, y: 3, max_y: 5 };
    p.up();
    assert_eq!(p.y, 2);
    p.up();
    assert_eq!(p.y, 1);
    for _ in 0..10 {
        p.up();
        assert_eq!(p, Position { x: 0, y: 1, max_y: 5 });
    }
}

#[test]
fn up_on_row_zero_does_nothing() {
    let mut p = Position { x: 0, y: 0, max_y: 5 };
    p.up();
    assert_eq!(p, Position { x: 0, y: 0, max_y: 5 });
}

#[test]
fn down_past_bound_does_nothing() {
    let mut p = Position { x: 0, y: 7, max_y: 5 };
    p.down();
    assert_eq!(p, Position { x: 0, y: 7, max_y: 5 });
}

#[test]
fn left_stops_at_column_zero() {
    let mut p = Position { x: 2, y: 1, max_y: 1 };
    p.left();
    assert_eq!(p.x, 1);
    p.left();
    assert_eq!(p.x, 0);
    p.left();
    assert_eq!(p, Position { x: 0, y: 1, max_y: 1 });
}

#[test]
fn right_has_no_clamp() {
    let mut p = Position::new(0, 1);
    for _ in 0..100 {
        p.right();
    }
    assert_eq!(p, Position { x: 100, y: 1, max_y: 1 });
}
