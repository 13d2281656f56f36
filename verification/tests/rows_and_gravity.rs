use tetris_core::game_loop::GameLoop;
use tetris_core::tetronimo::TetronimoShape;

// The scan returns the number of fully occupied rows of a settled arena,
// clears exactly those, and keeps the survivors' relative vertical order.
#[test]
fn scan_clears_full_rows_and_keeps_order() {
    let mut under_test = GameLoop::new(2, 3);
    // row 0: [I, empty]; rows 1 and 2 full
    under_test.arena[0] = Some(TetronimoShape::IShape);
    under_test.arena[2] = Some(TetronimoShape::JShape);
    under_test.arena[3] = Some(TetronimoShape::JShape);
    under_test.arena[4] = Some(TetronimoShape::LShape);
    under_test.arena[5] = Some(TetronimoShape::LShape);

    assert_eq!(2, under_test.remove_complete_rows());

    // the lone survivor fell to the bottom of its column
    assert_eq!(None, under_test.arena[0]);
    assert_eq!(None, under_test.arena[1]);
    assert_eq!(None, under_test.arena[2]);
    assert_eq!(None, under_test.arena[3]);
    assert_eq!(Some(TetronimoShape::IShape), under_test.arena[4]);
    assert_eq!(None, under_test.arena[5]);
}

// The end-to-end fixture: 3 wide, 2 tall, bottom row filled with I-kind
// cells; the scan reports one row and leaves the arena empty.
#[test]
fn scan_single_bottom_row_leaves_arena_empty() {
    let mut under_test = GameLoop::new(3, 2);
    under_test.arena[3] = Some(TetronimoShape::IShape);
    under_test.arena[4] = Some(TetronimoShape::IShape);
    under_test.arena[5] = Some(TetronimoShape::IShape);

    assert_eq!(1, under_test.remove_complete_rows());
    for i in 0..6 {
        assert_eq!(None, under_test.arena[i]);
    }
}

// An all-empty arena is left untouched by the scan.
#[test]
fn scan_empty_arena_unchanged() {
    let mut under_test = GameLoop::new(4, 4);

    assert_eq!(0, under_test.remove_complete_rows());
    assert_eq!(16, under_test.arena.len());
    for i in 0..16 {
        assert_eq!(None, under_test.arena[i]);
    }
}

// Gravity drops each column's cells to the bottom and keeps their
// top-to-bottom order; other columns are untouched.
#[test]
fn gravity_keeps_column_order() {
    let mut under_test = GameLoop::new(1, 3);
    under_test.arena[0] = Some(TetronimoShape::IShape);
    under_test.arena[2] = Some(TetronimoShape::JShape);

    under_test.drop_blocks();

    assert_eq!(None, under_test.arena[0]);
    assert_eq!(Some(TetronimoShape::IShape), under_test.arena[1]);
    assert_eq!(Some(TetronimoShape::JShape), under_test.arena[2]);
}
