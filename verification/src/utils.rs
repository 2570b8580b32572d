//! Helpers shared by the game's parts.

pub mod log;
pub mod result;
pub mod ship_helpers;
