//! The error of the game: a message for the player.

use vstd::prelude::*;

verus! {

/// An error, with the message that is shown for it.
#[derive(Debug, Clone)]
pub struct Er {
    pub message: String,
}

/// A result whose error is [`Er`].
pub type Res<T> = Result<T, Er>;

impl Er {
    /// The error with the message `message`.
    pub fn new(message: &str) -> (er: Er)
        ensures
            er.message@ == message@,
    {
        Er { message: message.to_owned() }
    }
}

} // verus!
