//! What a graphical front-end shows of boards and of the lobby.

pub mod common;
pub mod lobby;
