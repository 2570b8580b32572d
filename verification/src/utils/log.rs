//! Where the game writes what the player should read.

use crate::utils::result::Res;
use vstd::prelude::*;

verus! {

/// A sink for lines of text, such as a front-end's log.
pub trait Log {
    /// Writes `msg` to the sink.
    fn log_message(&self, msg: &str) -> Res<()>;
}

} // verus!
