//! The session's routing rules: which widgets each high-level state shows,
//! and what each key press does in each state. The surrounding driver owns
//! the channels and emitters; the decisions live here.

use vstd::prelude::*;
use crate::messages::GameArenaComponentMessage;

verus! {

/// A key press, reduced to the keys the session reads.
#[derive(Clone, Copy, Debug, PartialEq, Eq, Structural)]
pub enum SessionKey {
    Esc,
    Enter,
    Space,
    CharW,
    CharA,
    CharS,
    CharD,
    Other,
}

/// The session's high-level state.
#[derive(Clone, Copy, Debug, PartialEq, Eq, Structural)]
pub enum GameState {
    MainMenu,
    Paused,
    Playing,
    GameOver,
}

/// A state change requested of the session.
#[derive(Clone, Copy, Debug, PartialEq, Eq, Structural)]
pub enum SessionTransition {
    MainMenu,
    Paused,
    Playing,
    GameOver,
}

impl GameState {
    pub open spec fn spec_of_transition(t: SessionTransition) -> GameState {
        match t {
            SessionTransition::MainMenu => GameState::MainMenu,
            SessionTransition::Paused => GameState::Paused,
            SessionTransition::Playing => GameState::Playing,
            SessionTransition::GameOver => GameState::GameOver,
        }
    }

    /// The state a transition message selects.
    pub fn of_transition(t: &SessionTransition) -> (r: GameState)
        ensures
            r == GameState::spec_of_transition(*t),
    {
        match t {
            SessionTransition::MainMenu => GameState::MainMenu,
            SessionTransition::Paused => GameState::Paused,
            SessionTransition::Playing => GameState::Playing,
            SessionTransition::GameOver => GameState::GameOver,
        }
    }
}

/// Which top-level widgets a session state shows, and whether the game
/// widget runs or sits paused.
#[derive(Clone, Copy, Debug, PartialEq, Eq, Structural)]
pub struct WidgetVisibility {
    pub main_menu_visible: bool,
    pub game_visible: bool,
    pub game_running: bool,
    pub game_over_visible: bool,
}

pub open spec fn spec_visibility_for(s: GameState) -> WidgetVisibility {
    match s {
        GameState::MainMenu => WidgetVisibility {
            main_menu_visible: true,
            game_visible: false,
            game_running: false,
            game_over_visible: false,
        },
        GameState::Paused => WidgetVisibility {
            main_menu_visible: false,
            game_visible: true,
            game_running: false,
            game_over_visible: false,
        },
        GameState::Playing => WidgetVisibility {
            main_menu_visible: false,
            game_visible: true,
            game_running: true,
            game_over_visible: false,
        },
        GameState::GameOver => WidgetVisibility {
            main_menu_visible: false,
            game_visible: false,
            game_running: false,
            game_over_visible: true,
        },
    }
}

/// The widgets to show on entering a session state: only the main menu in
/// the menu, the game widget (paused or running) in play, and only the
/// game-over banner after a loss.
pub fn visibility_for(s: &GameState) -> (r: WidgetVisibility)
    ensures
        r == spec_visibility_for(*s),
{
    match s {
        GameState::MainMenu => WidgetVisibility {
            main_menu_visible: true,
            game_visible: false,
            game_running: false,
            game_over_visible: false,
        },
        GameState::Paused => WidgetVisibility {
            main_menu_visible: false,
            game_visible: true,
            game_running: false,
            game_over_visible: false,
        },
        GameState::Playing => WidgetVisibility {
            main_menu_visible: false,
            game_visible: true,
            game_running: true,
            game_over_visible: false,
        },
        GameState::GameOver => WidgetVisibility {
            main_menu_visible: false,
            game_visible: false,
            game_running: false,
            game_over_visible: true,
        },
    }
}

/// One choice on the main menu.
#[derive(Clone, Copy, Debug, PartialEq, Eq, Structural)]
pub enum MainMenuChoice {
    Start,
    Exit,
}

impl MainMenuChoice {
    pub open spec fn spec_toggled(self) -> MainMenuChoice {
        match self {
            MainMenuChoice::Start => MainMenuChoice::Exit,
            MainMenuChoice::Exit => MainMenuChoice::Start,
        }
    }

    /// The choice above this one; with two entries, the other one.
    pub fn up(&mut self) -> (r: MainMenuChoice)
        ensures
            *final(self) == *old(self),
            r == old(self).spec_toggled(),
    {
        match self {
            MainMenuChoice::Start => MainMenuChoice::Exit,
            MainMenuChoice::Exit => MainMenuChoice::Start,
        }
    }

    /// The choice below this one; with two entries, the other one.
    pub fn down(&mut self) -> (r: MainMenuChoice)
        ensures
            *final(self) == *old(self),
            r == old(self).spec_toggled(),
    {
        match self {
            MainMenuChoice::Start => MainMenuChoice::Exit,
            MainMenuChoice::Exit => MainMenuChoice::Start,
        }
    }
}

/// One action requested of the main menu.
#[derive(Clone, Copy, Debug, PartialEq, Eq, Structural)]
pub enum MainMenuAction {
    Up,
    Down,
    Enter,
}

/// What the main menu does with one action.
#[derive(Clone, Copy, Debug, PartialEq, Eq, Structural)]
pub enum MenuOutcome {
    Highlight(bool),
    StartPlaying,
    ExitGame,
}

pub open spec fn spec_handle_selection(start_highlighted: bool, action: MainMenuAction) -> MenuOutcome {
    match action {
        MainMenuAction::Up => MenuOutcome::Highlight(!start_highlighted),
        MainMenuAction::Down => MenuOutcome::Highlight(!start_highlighted),
        MainMenuAction::Enter => if start_highlighted {
            MenuOutcome::StartPlaying
        } else {
            MenuOutcome::ExitGame
        },
    }
}

/// The menu's reaction to one action: up or down toggles which of the two
/// entries is highlighted; enter starts play if the start entry is
/// highlighted, else exits.
pub fn handle_selection(start_highlighted: bool, action: &MainMenuAction) -> (r: MenuOutcome)
    ensures
        r == spec_handle_selection(start_highlighted, *action),
{
    match action {
        MainMenuAction::Up => MenuOutcome::Highlight(!start_highlighted),
        MainMenuAction::Down => MenuOutcome::Highlight(!start_highlighted),
        MainMenuAction::Enter => {
            if start_highlighted {
                MenuOutcome::StartPlaying
            } else {
                MenuOutcome::ExitGame
            }
        },
    }
}

pub open spec fn spec_handle_main_menu(key: SessionKey) -> Option<MainMenuAction> {
    match key {
        SessionKey::Enter => Some(MainMenuAction::Enter),
        SessionKey::CharW => Some(MainMenuAction::Up),
        SessionKey::CharS => Some(MainMenuAction::Down),
        _ => None,
    }
}

/// What a key press does while the main menu is up: enter selects, the up
/// and down keys move the highlight, everything else is ignored.
pub fn handle_main_menu(key: &SessionKey) -> (r: Option<MainMenuAction>)
    ensures
        r == spec_handle_main_menu(*key),
{
    match key {
        SessionKey::Enter => Some(MainMenuAction::Enter),
        SessionKey::CharW => Some(MainMenuAction::Up),
        SessionKey::CharS => Some(MainMenuAction::Down),
        _ => None,
    }
}

pub open spec fn spec_handle_pause(key: SessionKey) -> Option<SessionTransition> {
    match key {
        SessionKey::Esc => Some(SessionTransition::Playing),
        SessionKey::Enter => Some(SessionTransition::MainMenu),
        _ => None,
    }
}

/// What a key press does while paused: escape resumes play, enter leaves
/// for the main menu, everything else is ignored.
pub fn handle_pause(key: &SessionKey) -> (r: Option<SessionTransition>)
    ensures
        r == spec_handle_pause(*key),
{
    match key {
        SessionKey::Esc => Some(SessionTransition::Playing),
        SessionKey::Enter => Some(SessionTransition::MainMenu),
        _ => None,
    }
}

/// What a key press asks for during play.
#[derive(Clone, Copy, Debug, PartialEq, Eq, Structural)]
pub enum PlayingDirective {
    SendPaused,
    Arena(GameArenaComponentMessage),
    Ignore,
}

pub open spec fn spec_handle_playing(key: SessionKey) -> PlayingDirective {
    match key {
        SessionKey::Esc => PlayingDirective::SendPaused,
        SessionKey::Space => PlayingDirective::Arena(GameArenaComponentMessage::Rotate),
        SessionKey::CharA => PlayingDirective::Arena(GameArenaComponentMessage::MoveLeft),
        SessionKey::CharD => PlayingDirective::Arena(GameArenaComponentMessage::MoveRight),
        SessionKey::CharS => PlayingDirective::Arena(GameArenaComponentMessage::Drop),
        _ => PlayingDirective::Ignore,
    }
}

/// What a key press does during play: escape pauses; space rotates; the
/// left, right and down keys request the matching moves; everything else
/// is ignored.
pub fn handle_playing(key: &SessionKey) -> (r: PlayingDirective)
    ensures
        r == spec_handle_playing(*key),
{
    match key {
        SessionKey::Esc => PlayingDirective::SendPaused,
        SessionKey::Space => PlayingDirective::Arena(GameArenaComponentMessage::Rotate),
        SessionKey::CharA => PlayingDirective::Arena(GameArenaComponentMessage::MoveLeft),
        SessionKey::CharD => PlayingDirective::Arena(GameArenaComponentMessage::MoveRight),
        SessionKey::CharS => PlayingDirective::Arena(GameArenaComponentMessage::Drop),
        _ => PlayingDirective::Ignore,
    }
}

/// A game-over event needs no key handling of its own: the game-over banner
/// drives the return to the menu on a timer.
pub fn handle_game_over() {
}

} // verus!
