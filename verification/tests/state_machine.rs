use tetris_core::game_loop::{
    GameAction, GameLoop, GameLoopState, MoveActionType, Position,
};
use tetris_core::tetronimo::{Tetronimo, TetronimoShape};

fn stats_total(gl: &GameLoop) -> u32 {
    let s = gl.shapes_statistics;
    s.i_count as u32 + s.j_count as u32 + s.l_count as u32 + s.o_count as u32 + s.s_count as u32
        + s.t_count as u32 + s.z_count as u32
}

// Clearing n rows in one CheckRows step adds n*n to the score and n to the
// line count: two rows give +4 and +2.
#[test]
fn score_two_rows_gives_four_points() {
    let mut gl = GameLoop::new(2, 2);
    for i in 0..4 {
        gl.arena[i] = Some(TetronimoShape::IShape);
    }
    gl.game_state = GameLoopState::CheckRows;

    let notes = gl.do_state_machine();

    assert_eq!(4, gl.current_score);
    assert_eq!(2, gl.current_lines);
    assert_eq!(Some(4), notes.score);
    assert_eq!(Some(2), notes.lines);
    // the machine stays in CheckRows until a scan clears nothing
    assert_eq!(GameLoopState::CheckRows, gl.game_state);

    let notes2 = gl.do_state_machine();
    assert_eq!(4, gl.current_score);
    assert_eq!(None, notes2.score);
    assert_eq!(GameLoopState::CheckGameOver, gl.game_state);
}

// One row gives +1 score and +1 line.
#[test]
fn score_one_row_gives_one_point() {
    let mut gl = GameLoop::new(3, 2);
    gl.arena[3] = Some(TetronimoShape::IShape);
    gl.arena[4] = Some(TetronimoShape::IShape);
    gl.arena[5] = Some(TetronimoShape::IShape);
    gl.game_state = GameLoopState::CheckRows;

    let notes = gl.do_state_machine();

    assert_eq!(1, gl.current_score);
    assert_eq!(1, gl.current_lines);
    assert_eq!(Some(1), notes.score);
    assert_eq!(Some(1), notes.lines);
}

// The score and line counters saturate instead of wrapping.
#[test]
fn score_saturates_at_maximum() {
    let mut gl = GameLoop::new(2, 2);
    gl.current_score = u16::MAX - 1;
    for i in 0..4 {
        gl.arena[i] = Some(TetronimoShape::IShape);
    }
    gl.game_state = GameLoopState::CheckRows;

    gl.do_state_machine();

    assert_eq!(u16::MAX, gl.current_score);
}

// A piece whose leftmost occupied column sits at arena column 0 does not
// move further left; away from the wall it moves one column.
#[test]
fn move_left_clamps_at_wall() {
    let mut gl = GameLoop::new(10, 20);
    gl.piece = Tetronimo::new(TetronimoShape::OShape);
    gl.position = Position::new(0, 5);
    gl.game_state = GameLoopState::Moving(MoveActionType::MoveLeft);
    gl.do_state_machine();
    assert_eq!(0, gl.position.x);
    assert_eq!(GameLoopState::Running, gl.game_state);

    gl.position = Position::new(4, 5);
    gl.game_state = GameLoopState::Moving(MoveActionType::MoveLeft);
    gl.do_state_machine();
    assert_eq!(3, gl.position.x);
}

// A piece whose rightmost occupied column sits at the last arena column
// does not move further right; away from the wall it moves one column.
#[test]
fn move_right_clamps_at_wall() {
    let mut gl = GameLoop::new(10, 20);
    gl.piece = Tetronimo::new(TetronimoShape::OShape);
    // O is two columns wide: columns 8 and 9 touch the right wall
    gl.position = Position::new(8, 5);
    gl.game_state = GameLoopState::Moving(MoveActionType::MoveRight);
    gl.do_state_machine();
    assert_eq!(8, gl.position.x);
    assert_eq!(GameLoopState::Running, gl.game_state);

    gl.position = Position::new(4, 5);
    gl.game_state = GameLoopState::Moving(MoveActionType::MoveRight);
    gl.do_state_machine();
    assert_eq!(5, gl.position.x);
}

// A drop request is recognized but moves nothing.
#[test]
fn drop_request_moves_nothing() {
    let mut gl = GameLoop::new(10, 20);
    gl.piece = Tetronimo::new(TetronimoShape::TShape);
    gl.position = Position::new(4, 5);
    gl.game_state = GameLoopState::Moving(MoveActionType::Drop);
    gl.do_state_machine();
    assert_eq!(4, gl.position.x);
    assert_eq!(5, gl.position.y);
    assert_eq!(GameLoopState::Running, gl.game_state);
}

// A falling piece with room below moves down one row; a blocked one heads
// for lock-down.
#[test]
fn falling_moves_down_or_blocks() {
    let mut gl = GameLoop::new(10, 20);
    gl.piece = Tetronimo::new(TetronimoShape::OShape);
    gl.position = Position::new(4, 5);
    gl.game_state = GameLoopState::Falling;
    gl.do_state_machine();
    assert_eq!(6, gl.position.y);
    assert_eq!(GameLoopState::Running, gl.game_state);

    // O is two rows tall: rows 18 and 19 touch the floor
    gl.position = Position::new(4, 18);
    gl.game_state = GameLoopState::Falling;
    gl.do_state_machine();
    assert_eq!(18, gl.position.y);
    assert_eq!(GameLoopState::PieceBlocked, gl.game_state);
}

// Locking writes the piece's cells into the arena.
#[test]
fn piece_blocked_locks_cells() {
    let mut gl = GameLoop::new(10, 20);
    gl.piece = Tetronimo::new(TetronimoShape::OShape);
    gl.position = Position::new(4, 18);
    gl.game_state = GameLoopState::PieceBlocked;
    gl.do_state_machine();
    assert_eq!(GameLoopState::CheckRows, gl.game_state);
    assert_eq!(Some(TetronimoShape::OShape), gl.arena[18 * 10 + 4]);
    assert_eq!(Some(TetronimoShape::OShape), gl.arena[18 * 10 + 5]);
    assert_eq!(Some(TetronimoShape::OShape), gl.arena[19 * 10 + 4]);
    assert_eq!(Some(TetronimoShape::OShape), gl.arena[19 * 10 + 5]);
    assert_eq!(None, gl.arena[18 * 10 + 6]);
}

// If the freshly spawned piece overlaps occupied cells, the game ends;
// on a free arena play resumes.
#[test]
fn spawn_overlap_ends_game() {
    let mut gl = GameLoop::new(10, 20);
    for i in 0..200 {
        gl.arena[i] = Some(TetronimoShape::IShape);
    }
    gl.game_state = GameLoopState::CheckGameOver;
    let notes = gl.do_state_machine();
    assert_eq!(GameLoopState::GameOver, gl.game_state);
    assert!(notes.next_piece.is_some());
    assert!(notes.statistics.is_some());
    assert!(!notes.game_over);

    let mut gl2 = GameLoop::new(10, 20);
    gl2.game_state = GameLoopState::CheckGameOver;
    gl2.do_state_machine();
    assert_eq!(GameLoopState::Running, gl2.game_state);
}

// The game-over step reports once and silently restarts.
#[test]
fn game_over_reports_and_restarts() {
    let mut gl = GameLoop::new(10, 20);
    gl.game_state = GameLoopState::GameOver;
    let notes = gl.do_state_machine();
    assert!(notes.game_over);
    assert_eq!(GameLoopState::Start, gl.game_state);
}

// After the Start step: score and lines are zero, the arena is fully
// empty, and exactly one piece-kind statistic was counted.
#[test]
fn start_resets_session() {
    let mut gl = GameLoop::new(10, 20);
    gl.current_score = 7;
    gl.current_lines = 3;
    gl.shapes_statistics.t_count = 9;
    gl.arena[42] = Some(TetronimoShape::LShape);
    gl.game_state = GameLoopState::Start;

    let notes = gl.do_state_machine();

    assert_eq!(0, gl.current_score);
    assert_eq!(0, gl.current_lines);
    assert_eq!(200, gl.arena.len());
    for i in 0..200 {
        assert_eq!(None, gl.arena[i]);
    }
    assert_eq!(1, stats_total(&gl));
    assert_eq!(GameLoopState::Running, gl.game_state);
    assert_eq!(Some(0), notes.score);
    assert_eq!(Some(0), notes.lines);
    assert!(notes.next_piece.is_some());
    assert!(notes.statistics.is_some());
    // the spawn point sits at the middle column, top row
    assert_eq!(5, gl.position.x);
    assert_eq!(0, gl.position.y);
}

// The queued lookahead kind becomes the next active piece.
#[test]
fn lookahead_is_promoted() {
    let mut gl = GameLoop::new(10, 20);
    gl.next_piece = Some(TetronimoShape::ZShape);
    gl.game_state = GameLoopState::CheckGameOver;
    gl.do_state_machine();
    assert_eq!(TetronimoShape::ZShape, gl.piece.shape);
    assert!(gl.next_piece.is_some());
}

// Pause toggles between Paused and Running; move requests are honored only
// while Running; a fall tick is effective only while Running.
#[test]
fn input_handling_per_state() {
    let mut gl = GameLoop::new(10, 20);
    gl.game_state = GameLoopState::Running;
    gl.handle_input(GameAction::Pause);
    assert_eq!(GameLoopState::Paused, gl.game_state);
    gl.handle_input(GameAction::Move(MoveActionType::MoveLeft));
    assert_eq!(GameLoopState::Paused, gl.game_state);
    gl.fall_tick();
    assert_eq!(GameLoopState::Paused, gl.game_state);
    gl.handle_input(GameAction::Pause);
    assert_eq!(GameLoopState::Running, gl.game_state);
    gl.handle_input(GameAction::Move(MoveActionType::Rotate));
    assert_eq!(
        GameLoopState::Moving(MoveActionType::Rotate),
        gl.game_state
    );
    gl.game_state = GameLoopState::Running;
    gl.fall_tick();
    assert_eq!(GameLoopState::Falling, gl.game_state);
}

// A paused or running machine steps to itself with nothing reported.
#[test]
fn idle_states_do_nothing() {
    let mut gl = GameLoop::new(10, 20);
    gl.game_state = GameLoopState::Paused;
    let notes = gl.do_state_machine();
    assert_eq!(GameLoopState::Paused, gl.game_state);
    assert_eq!(None, notes.score);
    assert!(!notes.game_over);

    gl.game_state = GameLoopState::Running;
    let notes2 = gl.do_state_machine();
    assert_eq!(GameLoopState::Running, gl.game_state);
    assert_eq!(None, notes2.lines);
}

// The draw hooks enumerate the piece's cells and the whole arena in
// row-major order.
#[test]
fn draw_hooks_enumerate_cells() {
    let mut gl = GameLoop::new(10, 20);
    gl.piece = Tetronimo::new(TetronimoShape::OShape);
    gl.position = Position::new(3, 2);
    let cells = gl.draw_piece();
    assert_eq!(vec![(3, 2), (4, 2), (3, 3), (4, 3)], cells);

    gl.arena[10 * 2 + 3] = Some(TetronimoShape::IShape);
    let arena = gl.draw_arena();
    assert_eq!(200, arena.len());
    assert_eq!((3, 2, Some(TetronimoShape::IShape)), arena[10 * 2 + 3]);
    assert_eq!((0, 0, None), arena[0]);
}
