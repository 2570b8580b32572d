//! The error of the channel between the players.

use vstd::prelude::*;

verus! {

/// An error of the channel, with the message that is shown for it.
#[derive(Debug)]
pub struct Error {
    pub message: String,
}

} // verus!
