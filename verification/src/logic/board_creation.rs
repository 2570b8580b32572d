//! How a board is put together from the player's placements, and how the
//! two commitments are exchanged.

use crate::circuit::board_declaration_circuit::BoardDeclarationCircuit;
use crate::crypto::proofs::{board_declaration_input, board_declaration_values, PublicInput};
use crate::logic::GameMessage;
use crate::model::{Board, IncompleteBoard, Ship, SHIP_COUNT};
use crate::net::message::Message;
use crate::ui::UiInput;
use crate::utils::result::Er;
use vstd::prelude::*;

verus! {

/// What became of an input while a board was put together.
#[derive(Debug, Clone, Copy, PartialEq, Eq, Structural)]
pub enum Placing {
    /// The ship was placed.
    Added,
    /// The ship cannot be placed next.
    Refused,
    /// Every ship was taken off the board.
    Cleared,
    /// The input placed no ship.
    Ignored,
}

/// The ship that `input` asks to place, if it asks for one.
pub open spec fn ship_of(input: UiInput) -> Option<Ship> {
    match input {
        UiInput::PutShip(ship) => Some(ship),
        _ => None,
    }
}

/// Takes an input while the board is put together: a ship that may be
/// placed next is placed, another ship is refused, a reset takes every ship
/// off, and any other input is passed over.
pub fn place(board: &mut IncompleteBoard, input: &UiInput) -> (placing: Placing)
    requires
        old(board).placed_on_grid(),
    ensures
        final(board).placed_on_grid(),
        old(board).wf() ==> final(board).wf(),
        match ship_of(*input) {
            Some(ship) => if old(board).accepts(ship) {
                placing == Placing::Added && final(board).0@ == old(board).0@.push(ship)
            } else {
                placing == Placing::Refused && final(board).0@ == old(board).0@
            },
            None => if *input is ResetBoard {
                placing == Placing::Cleared && final(board).0@ == Seq::<Ship>::empty()
            } else {
                placing == Placing::Ignored && final(board).0@ == old(board).0@
            },
        },
{
    match input {
        UiInput::PutShip(ship) => {
            if board.can_be_extended_with(*ship) {
                board.extend(*ship);
                Placing::Added
            } else {
                Placing::Refused
            }
        },
        UiInput::ResetBoard => {
            board.0.clear();
            Placing::Cleared
        },
        _ => Placing::Ignored,
    }
}

/// What the player is told of a placement.
pub fn placing_report(placing: Placing) -> (report: Option<&'static str>)
    ensures
        match placing {
            Placing::Added => report matches Some(text) && text@ == "Ship successfully added"@,
            Placing::Refused => report matches Some(text) && text@
                == "Cannot extend the board with this ship"@,
            Placing::Cleared => report matches Some(text) && text@ == "Board cleared"@,
            Placing::Ignored => report is None,
        },
{
    match placing {
        Placing::Added => Some("Ship successfully added"),
        Placing::Refused => Some("Cannot extend the board with this ship"),
        Placing::Cleared => Some("Board cleared"),
        Placing::Ignored => None,
    }
}

/// Whether every ship has been placed.
pub fn is_complete(board: &IncompleteBoard) -> (complete: bool)
    ensures
        complete == (board.0.len() >= SHIP_COUNT),
{
    board.0.len() >= SHIP_COUNT
}

/// The circuit for a finished board under `salt`: the board is valid, so
/// the statement of the circuit is true.
pub fn commit(board: IncompleteBoard, salt: [u8; 32]) -> (circuit: BoardDeclarationCircuit)
    requires
        board.wf(),
        board.0.len() == SHIP_COUNT,
    ensures
        circuit.board.ships@ == board.0@,
        circuit.salt == salt,
        circuit.board.valid(),
        circuit.statement(),
{
    BoardDeclarationCircuit::new(board.build_board(), salt)
}

/// The message that declares our board: the proof and the hash.
pub fn declaration(proof: Vec<u8>, circuit: &BoardDeclarationCircuit) -> (message: Message<
    GameMessage,
>)
    ensures
        message matches Message::Value(GameMessage::BoardDeclaration(bytes, hash)) && bytes@
            == proof@ && hash == circuit.hash,
{
    Message::Value(GameMessage::BoardDeclaration(proof, circuit.hash))
}

/// The other player's proof and hash, and the public input against which
/// the proof is to be verified, if `message` declares a board; nothing for
/// any other message.
pub fn declared(message: Message<GameMessage>) -> (r: Option<(Vec<u8>, [u8; 32], PublicInput)>)
    ensures
        match message {
            Message::Value(GameMessage::BoardDeclaration(proof, hash)) => r matches Some(found)
                && found.0@ == proof@ && found.1 == hash && found.2@ == board_declaration_values(
                hash@,
            ),
            _ => r is None,
        },
{
    match message {
        Message::Value(GameMessage::BoardDeclaration(proof, hash)) => {
            let input = board_declaration_input(&hash);
            Some((proof, hash, input))
        },
        _ => None,
    }
}

/// The other player's hash if the verifier accepted their proof, and the
/// error that ends the game if it did not.
pub fn judge_declaration(hash: [u8; 32], verified: bool) -> (r: Result<[u8; 32], Er>)
    ensures
        verified ==> r == Ok::<[u8; 32], Er>(hash),
        !verified ==> (r matches Err(er) && er.message@ == "Invalid proof"@),
{
    if verified {
        Ok(hash)
    } else {
        Err(Er::new("Invalid proof"))
    }
}

} // verus!
