use tetris_core::game_arena::GameArenaComponent;
use tetris_core::game_loop::{GameLoop, GameLoopState, MoveActionType, ShapeStatistics};
use tetris_core::global_state::{
    handle_main_menu, handle_pause, handle_playing, handle_selection, visibility_for, GameState,
    MainMenuAction, MainMenuChoice, MenuOutcome, PlayingDirective, SessionKey, SessionTransition,
};
use tetris_core::messages::{
    GameArenaComponentMessage, NextPieceComponentMessage, StatisticsComponentMessage,
};
use tetris_core::tetronimo::{Tetronimo, TetronimoRotation, TetronimoShape};

// The shape table: exact bitmask and width for a sample of kinds and
// rotations, including the width asymmetries collision math depends on.
#[test]
fn shape_table_entries() {
    let i_north = Tetronimo::new(TetronimoShape::IShape);
    let (cells, width) = i_north.get_chars();
    assert_eq!(vec![true, true, true, true], cells);
    assert_eq!(1, width);

    let mut i_east = Tetronimo::new(TetronimoShape::IShape);
    i_east.rotate();
    let (cells, width) = i_east.get_chars();
    assert_eq!(vec![true, true, true, true], cells);
    assert_eq!(4, width);

    let j_north = Tetronimo::new(TetronimoShape::JShape);
    let (cells, width) = j_north.get_chars();
    assert_eq!(vec![true, true, true, false, false, true], cells);
    assert_eq!(3, width);

    let o_piece = Tetronimo::new(TetronimoShape::OShape);
    let (cells, width) = o_piece.get_chars();
    assert_eq!(vec![true, true, true, true], cells);
    assert_eq!(2, width);

    let mut t_piece = Tetronimo::new(TetronimoShape::TShape);
    t_piece.rotate();
    t_piece.rotate();
    let (cells, width) = t_piece.get_chars();
    assert_eq!(vec![true, true, true, false, true, false], cells);
    assert_eq!(3, width);
}

// Rotation cycles North -> East -> South -> West -> North.
#[test]
fn rotation_cycles() {
    let mut piece = Tetronimo::new(TetronimoShape::LShape);
    assert_eq!(TetronimoRotation::North, piece.rotation);
    piece.rotate();
    assert_eq!(TetronimoRotation::East, piece.rotation);
    piece.rotate();
    assert_eq!(TetronimoRotation::South, piece.rotation);
    piece.rotate();
    assert_eq!(TetronimoRotation::West, piece.rotation);
    piece.rotate();
    assert_eq!(TetronimoRotation::North, piece.rotation);
    assert_eq!(TetronimoShape::LShape, piece.shape);
}

// Over many random spawns every one of the seven kinds appears with
// frequency close to one in seven.
#[test]
fn random_spawn_is_uniform() {
    let mut counts = [0u32; 7];
    let draws = 14000;
    for _ in 0..draws {
        let piece = Tetronimo::random();
        let slot = match piece.shape {
            TetronimoShape::IShape => 0,
            TetronimoShape::JShape => 1,
            TetronimoShape::LShape => 2,
            TetronimoShape::OShape => 3,
            TetronimoShape::SShape => 4,
            TetronimoShape::TShape => 5,
            TetronimoShape::ZShape => 6,
        };
        counts[slot] += 1;
    }
    for &c in counts.iter() {
        // expected 2000 per kind; ten standard deviations of slack
        assert!(c > 1600 && c < 2400, "skewed kind count: {}", c);
    }
}

// Each kind's display letter.
#[test]
fn shape_letters() {
    assert_eq!('I', Tetronimo::new(TetronimoShape::IShape).letter());
    assert_eq!('J', Tetronimo::new(TetronimoShape::JShape).letter());
    assert_eq!('Z', Tetronimo::new(TetronimoShape::ZShape).letter());
}

// The arena widget honors at most one pending move per move interval and
// delivers the fall tick on its own cadence.
#[test]
fn arena_core_timers_and_pending_move() {
    let mut core = GameArenaComponent::new(GameLoop::new(10, 20));
    core.game_loop.game_state = GameLoopState::Running;
    core.on_message(GameArenaComponentMessage::MoveLeft);
    assert_eq!(MoveActionType::MoveLeft, core.move_requested);
    // a second request is ignored while one is pending
    core.on_message(GameArenaComponentMessage::Rotate);
    assert_eq!(MoveActionType::MoveLeft, core.move_requested);

    // 100 ms: below both 200 ms thresholds, nothing delivered
    core.handle_moving_state(100);
    assert_eq!(MoveActionType::MoveLeft, core.move_requested);
    assert_eq!(100, core.last_move_update);

    // another 100 ms: the pending move is fed in and consumed
    core.game_loop.game_state = GameLoopState::Running;
    core.handle_moving_state(100);
    assert_eq!(MoveActionType::NoAction, core.move_requested);
    assert_eq!(0, core.last_move_update);
    assert_eq!(0, core.last_fall_update);
}

// While the driver marks the widget paused, a tick only feeds the pause
// toggle and reports nothing.
#[test]
fn arena_core_paused_tick() {
    let mut core = GameArenaComponent::new(GameLoop::new(10, 20));
    core.game_loop.game_state = GameLoopState::Running;
    let r = core.on_tick(true, 500);
    assert!(r.is_none());
    assert_eq!(GameLoopState::Paused, core.game_loop.game_state);
    assert_eq!(0, core.last_move_update);
}

// An initialise message restarts the loop and leaves the pending move.
#[test]
fn arena_core_initialise() {
    let mut core = GameArenaComponent::new(GameLoop::new(10, 20));
    core.game_loop.game_state = GameLoopState::Running;
    core.on_message(GameArenaComponentMessage::Initialise);
    assert_eq!(GameLoopState::Start, core.game_loop.game_state);
}

// Each session state shows its own widgets.
#[test]
fn session_visibility_table() {
    let menu = visibility_for(&GameState::MainMenu);
    assert!(menu.main_menu_visible && !menu.game_visible && !menu.game_over_visible);
    let paused = visibility_for(&GameState::Paused);
    assert!(!paused.main_menu_visible && paused.game_visible && !paused.game_running);
    let playing = visibility_for(&GameState::Playing);
    assert!(playing.game_visible && playing.game_running && !playing.game_over_visible);
    let over = visibility_for(&GameState::GameOver);
    assert!(!over.main_menu_visible && !over.game_visible && over.game_over_visible);
}

// Key routing per session state.
#[test]
fn session_key_routing() {
    assert_eq!(Some(SessionTransition::Playing), handle_pause(&SessionKey::Esc));
    assert_eq!(Some(SessionTransition::MainMenu), handle_pause(&SessionKey::Enter));
    assert_eq!(None, handle_pause(&SessionKey::CharA));

    assert_eq!(PlayingDirective::SendPaused, handle_playing(&SessionKey::Esc));
    assert_eq!(
        PlayingDirective::Arena(GameArenaComponentMessage::Rotate),
        handle_playing(&SessionKey::Space)
    );
    assert_eq!(
        PlayingDirective::Arena(GameArenaComponentMessage::MoveLeft),
        handle_playing(&SessionKey::CharA)
    );
    assert_eq!(
        PlayingDirective::Arena(GameArenaComponentMessage::MoveRight),
        handle_playing(&SessionKey::CharD)
    );
    assert_eq!(
        PlayingDirective::Arena(GameArenaComponentMessage::Drop),
        handle_playing(&SessionKey::CharS)
    );
    assert_eq!(PlayingDirective::Ignore, handle_playing(&SessionKey::CharW));

    assert_eq!(Some(MainMenuAction::Enter), handle_main_menu(&SessionKey::Enter));
    assert_eq!(Some(MainMenuAction::Up), handle_main_menu(&SessionKey::CharW));
    assert_eq!(Some(MainMenuAction::Down), handle_main_menu(&SessionKey::CharS));
    assert_eq!(None, handle_main_menu(&SessionKey::Space));
}

// The menu toggles its highlight and selects start or exit on enter.
#[test]
fn menu_choice_and_selection() {
    let mut choice = MainMenuChoice::Start;
    assert_eq!(MainMenuChoice::Exit, choice.up());
    assert_eq!(MainMenuChoice::Exit, choice.down());

    assert_eq!(MenuOutcome::Highlight(false), handle_selection(true, &MainMenuAction::Up));
    assert_eq!(MenuOutcome::Highlight(true), handle_selection(false, &MainMenuAction::Down));
    assert_eq!(MenuOutcome::StartPlaying, handle_selection(true, &MainMenuAction::Enter));
    assert_eq!(MenuOutcome::ExitGame, handle_selection(false, &MainMenuAction::Enter));
}

// The widget messages carry their values through unchanged.
#[test]
fn widget_messages_carry_values() {
    let next = NextPieceComponentMessage::new(TetronimoShape::SShape);
    assert_eq!(TetronimoShape::SShape, next.shape);

    let stats = ShapeStatistics {
        i_count: 1,
        j_count: 2,
        l_count: 3,
        o_count: 4,
        t_count: 5,
        s_count: 6,
        z_count: 7,
    };
    let msg = StatisticsComponentMessage::from(stats);
    assert_eq!(1, msg.i_stat);
    assert_eq!(2, msg.j_stat);
    assert_eq!(3, msg.l_stat);
    assert_eq!(4, msg.o_stat);
    assert_eq!(5, msg.t_stat);
    assert_eq!(6, msg.s_stat);
    assert_eq!(7, msg.z_stat);

    let built = StatisticsComponentMessage::new(9, 8, 7, 6, 5, 4, 3);
    assert_eq!(9, built.i_stat);
    assert_eq!(3, built.z_stat);
}
