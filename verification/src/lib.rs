//! Two-player battleships in which every answer about a cell is backed by a
//! zero-knowledge proof over a committed board.

pub mod board_circuit;
pub mod circuit;
pub mod crypto;
pub mod logic;
pub mod model;
pub mod net;
pub mod ui;
pub mod utils;

pub use board_circuit::BoardCircuit;
pub use model::{Board, Direction, Ship};
