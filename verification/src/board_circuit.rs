//! The circuit of a board under its first name.

use crate::circuit::board_declaration_circuit::BoardDeclarationCircuit;
use vstd::prelude::*;

verus! {

/// The circuit that proves a committed board well-formed.
pub type BoardCircuit = BoardDeclarationCircuit;

} // verus!
