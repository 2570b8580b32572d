//! The channel between the two players.

pub mod connection;
pub mod message;
pub mod result;
