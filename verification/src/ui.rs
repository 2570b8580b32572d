//! What the game and a front-end tell each other.

use crate::logic::GameState;
use crate::model::{IncompleteBoard, Ship};
use vstd::prelude::*;

pub mod cli;
pub mod gui;

verus! {

/// What the game tells a front-end: a line for the log, or what to show.
#[derive(Clone)]
pub enum UiMessage {
    Log(String),
    MainScreen,
    Lobby,
    BoardConstruction(IncompleteBoard),
    PrintGameState(GameState),
    Exit,
}

/// What a front-end tells the game.
pub enum UiInput {
    HostGame { addr: String, passwd: String },
    JoinGame { addr: String, passwd: String },
    SendMessage(String, String),
    PutShip(Ship),
    /// Take every ship off the board that is being put together.
    ResetBoard,
    Shoot(u8, u8),
    Esc,
    Exit,
}

} // verus!
