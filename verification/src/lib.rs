//! Core of a terminal falling-block puzzle game: the piece catalog, the
//! playfield with its row-clearing and gravity rules, and the game-loop
//! state machine, all with verified contracts. The session-routing rules
//! and the arena widget's timing logic live here too; terminal rendering
//! and input capture stay with the driver.

pub mod game_arena;
pub mod game_loop;
pub mod global_state;
pub mod grid;
pub mod messages;
pub mod tetronimo;
