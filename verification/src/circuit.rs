//! The two circuits of the game and the constraint system they are written
//! against.

pub mod board_declaration_circuit;
pub mod commons;
pub mod constraints;
pub mod field_declaration_circuit;
pub mod ordering;
