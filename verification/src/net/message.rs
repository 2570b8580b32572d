//! What travels between the two players.

use vstd::prelude::*;

verus! {

/// A message of the channel between the players: a remark, a fatal error,
/// or a value of the game.
#[derive(Debug, Clone)]
pub enum Message<T> {
    Info { sender: String, info: String },
    Error { sender: String, info: String },
    Value(T),
}

} // verus!
