use tetris_core::game_loop::GameLoop;
use tetris_core::tetronimo::TetronimoShape;

#[test]
fn calculate_rows_when_empty() {
    let mut under_test = GameLoop::new(2, 2);

    assert_eq!(0, under_test.remove_complete_rows());
}

#[test]
fn calculate_single_row_at_bottom() {
    let mut under_test = GameLoop::new(3, 2);
    under_test.arena[3] = Some(TetronimoShape::IShape);
    under_test.arena[4] = Some(TetronimoShape::IShape);
    under_test.arena[5] = Some(TetronimoShape::IShape);

    assert_eq!(1, under_test.remove_complete_rows());
}

#[test]
fn calculate_all_rows() {
    let mut under_test = GameLoop::new(3, 2);
    under_test.arena[0] = Some(TetronimoShape::ZShape);
    under_test.arena[1] = Some(TetronimoShape::ZShape);
    under_test.arena[2] = Some(TetronimoShape::ZShape);
    under_test.arena[3] = Some(TetronimoShape::ZShape);
    under_test.arena[4] = Some(TetronimoShape::ZShape);
    under_test.arena[5] = Some(TetronimoShape::ZShape);

    assert_eq!(2, under_test.remove_complete_rows());
}

#[test]
fn drop_single_block() {
    let mut under_test = GameLoop::new(2, 2);
    under_test.arena[0] = Some(TetronimoShape::JShape);

    under_test.drop_blocks();

    assert_eq!(None, under_test.arena[0]);
    assert_eq!(None, under_test.arena[1]);
    assert_eq!(Some(TetronimoShape::JShape), under_test.arena[2]);
    assert_eq!(None, under_test.arena[3]);
}
