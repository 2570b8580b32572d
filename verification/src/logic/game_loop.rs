//! The two players, the record of their shots, and when a game is over.

use crate::circuit::field_declaration_circuit::FieldDeclarationCircuit;
use crate::crypto::proofs::{field_declaration_input, field_declaration_values, PublicInput};
use crate::logic::{GameMessage, GameState, GameView, Outcome};
use crate::model::FieldState;
use crate::net::message::Message;
use crate::ui::UiInput;
use crate::utils::result::Er;
use vstd::prelude::*;

verus! {

/// One of the two players of a game.
#[derive(Debug, Clone, Copy, PartialEq, Eq, Structural)]
pub enum Player {
    Client,
    Host,
}

impl Player {
    /// The other player.
    pub open spec fn opponent(self) -> Player {
        match self {
            Player::Client => Player::Host,
            Player::Host => Player::Client,
        }
    }

    /// The other player.
    pub fn other(&self) -> (player: Self)
        ensures
            player == self.opponent(),
            player != *self,
    {
        match self {
            Player::Client => Player::Host,
            Player::Host => Player::Client,
        }
    }
}

/// The number of cells that the ships of a board cover: five of one cell,
/// four of two, three of three, two of four and one of five.
pub const TOTAL_SHIP_CELLS: usize = 35;

/// The number of shots of `shots` that found a ship.
pub open spec fn occupied_count(shots: Seq<(u8, u8, FieldState)>) -> nat
    decreases shots.len(),
{
    if shots.len() == 0 {
        0
    } else {
        occupied_count(shots.drop_last()) + if shots.last().2 == FieldState::Occupied {
            1nat
        } else {
            0nat
        }
    }
}

/// One more shot raises the count by one if it found a ship, and leaves it
/// if not.
pub proof fn lemma_occupied_count_push(shots: Seq<(u8, u8, FieldState)>, shot: (u8, u8, FieldState))
    ensures
        occupied_count(shots.push(shot)) == occupied_count(shots) + if shot.2
            == FieldState::Occupied {
            1nat
        } else {
            0nat
        },
{
    assert(shots.push(shot).drop_last() =~= shots);
}

/// Whether the shots found every cell of every ship: as many of them found
/// a ship as the ships of a board have cells.
pub fn are_all_discovered(shots: &Vec<(u8, u8, FieldState)>) -> (all: bool)
    ensures
        all == (occupied_count(shots@) == TOTAL_SHIP_CELLS),
{
    let mut found: usize = 0;
    let mut i: usize = 0;
    while i < shots.len()
        invariant
            i <= shots.len(),
            found == occupied_count(shots@.take(i as int)),
            found <= i,
        decreases shots.len() - i,
    {
        proof {
            assert(shots@.take(i as int + 1) =~= shots@.take(i as int).push(shots@[i as int]));
            lemma_occupied_count_push(shots@.take(i as int), shots@[i as int]);
        }
        match shots[i].2 {
            FieldState::Occupied => {
                found += 1;
            },
            FieldState::Empty => {},
        }
        i += 1;
    }
    assert(shots@.take(i as int) =~= shots@);
    found == TOTAL_SHIP_CELLS
}

/// Where a game stands between two events.
#[derive(Debug, Clone, Copy, PartialEq, Eq, Structural)]
pub enum Phase {
    /// Our turn: the player has not chosen a cell yet.
    AwaitingShot,
    /// Our turn: the other player has been asked about the cell.
    AwaitingFieldProof { x: u8, y: u8 },
    /// Our turn: the answer is with the verifier.
    VerifyingFieldProof { x: u8, y: u8, state: FieldState },
    /// Their turn: the other player has not asked yet.
    AwaitingQuery,
    /// Their turn: the answer is with the prover.
    ProvingField { x: u8, y: u8, state: FieldState },
    /// The game has ended.
    Over(Outcome),
    /// The game was given up on an error.
    Aborted,
}

/// What happens to a game: the next thing that the front-end, the other
/// player, the verifier or the prover hands in.
pub enum GameEvent {
    Input(UiInput),
    Received(Message<GameMessage>),
    /// The verifier's word on the proof that it was given.
    Verified(bool),
    /// The prover's proof for the circuit that it was given, encoded.
    Proved(Vec<u8>),
}

/// What is to be done after an event.
pub enum GameAction {
    /// Nothing: wait for the next event.
    Wait,
    /// Ask the other player what the cell holds.
    Ask { x: u8, y: u8 },
    /// Have the proof verified against the public input.
    Verify { proof: Vec<u8>, input: PublicInput },
    /// Have a proof made for the circuit.
    Prove(FieldDeclarationCircuit),
    /// Send the other player the proof of what the cell holds.
    Answer { proof: Vec<u8>, state: FieldState },
    /// Give the game up with this error.
    Abort(Er),
}

/// What of an event matters to a game.
pub enum EventKind {
    Shot { x: u8, y: u8 },
    Query { x: u8, y: u8 },
    FieldProof { proof: Seq<u8>, state: FieldState },
    PeerError { info: Seq<char> },
    Verified(bool),
    Proved(Seq<u8>),
    Other,
}

/// What is to be done after an event, with the bytes in sequences.
pub enum ActionKind {
    Wait,
    Ask { x: u8, y: u8 },
    Verify { proof: Seq<u8>, input: Seq<u8> },
    Prove(FieldDeclarationCircuit),
    Answer { proof: Seq<u8>, state: FieldState },
    Abort { message: Seq<char> },
}

impl View for GameEvent {
    type V = EventKind;

    open spec fn view(&self) -> EventKind {
        match self {
            GameEvent::Input(UiInput::Shoot(x, y)) => EventKind::Shot { x: *x, y: *y },
            GameEvent::Received(Message::Value(GameMessage::AskForField(x, y))) => EventKind::Query {
                x: *x,
                y: *y,
            },
            GameEvent::Received(
                Message::Value(GameMessage::FieldProof(proof, state)),
            ) => EventKind::FieldProof { proof: proof@, state: *state },
            GameEvent::Received(Message::Error { sender, info }) => EventKind::PeerError {
                info: info@,
            },
            GameEvent::Verified(ok) => EventKind::Verified(*ok),
            GameEvent::Proved(proof) => EventKind::Proved(proof@),
            _ => EventKind::Other,
        }
    }
}

impl View for GameAction {
    type V = ActionKind;

    open spec fn view(&self) -> ActionKind {
        match self {
            GameAction::Wait => ActionKind::Wait,
            GameAction::Ask { x, y } => ActionKind::Ask { x: *x, y: *y },
            GameAction::Verify { proof, input } => ActionKind::Verify {
                proof: proof@,
                input: input@,
            },
            GameAction::Prove(circuit) => ActionKind::Prove(*circuit),
            GameAction::Answer { proof, state } => ActionKind::Answer {
                proof: proof@,
                state: *state,
            },
            GameAction::Abort(er) => ActionKind::Abort { message: er.message@ },
        }
    }
}

/// The phase in which a turn begins: over if the game has ended, else
/// waiting for our player's shot or for the other player's question.
pub open spec fn opening_phase(view: GameView) -> Phase {
    match view.outcome() {
        Some(outcome) => Phase::Over(outcome),
        None => if view.our_turn() {
            Phase::AwaitingShot
        } else {
            Phase::AwaitingQuery
        },
    }
}

/// The message with which a game is given up when a proof of a cell fails.
pub open spec fn invalid_field_proof() -> Seq<char> {
    "Invalid proof of the field!"@
}

/// What a game knows, where it stands and what is to be done after `event`.
///
/// On our turn a shot is asked of the other player; the answer goes to the
/// verifier with the other player's hash, the cell and the state; if the
/// verifier accepts it the shot is recorded, if not the game is given up.
/// On their turn a question is answered from our board and goes to the
/// prover; the proof is sent and the shot recorded. An error from the other
/// player gives up a game that waits for them. Anything else changes
/// nothing.
pub open spec fn step(view: GameView, phase: Phase, event: EventKind) -> (
    GameView,
    Phase,
    ActionKind,
) {
    match (phase, event) {
        (Phase::AwaitingShot, EventKind::Shot { x, y }) => (
            view,
            Phase::AwaitingFieldProof { x, y },
            ActionKind::Ask { x, y },
        ),
        (Phase::AwaitingFieldProof { x, y }, EventKind::FieldProof { proof, state }) => (
            view,
            Phase::VerifyingFieldProof { x, y, state },
            ActionKind::Verify {
                proof,
                input: field_declaration_values(view.their_hash, x, y, state),
            },
        ),
        (Phase::VerifyingFieldProof { x, y, state }, EventKind::Verified(true)) => {
            let next = view.after_our_shot(x, y, state);
            (next, opening_phase(next), ActionKind::Wait)
        },
        (Phase::VerifyingFieldProof { x, y, state }, EventKind::Verified(false)) => (
            view,
            Phase::Aborted,
            ActionKind::Abort { message: invalid_field_proof() },
        ),
        (Phase::AwaitingQuery, EventKind::Query { x, y }) => {
            let state = view.board.board.state_at(x as int, y as int);
            (
                view,
                Phase::ProvingField { x, y, state },
                ActionKind::Prove(
                    FieldDeclarationCircuit {
                        board: view.board.board,
                        salt: view.board.salt,
                        hash: view.board.hash,
                        field_x: x,
                        field_y: y,
                        field_state: state,
                    },
                ),
            )
        },
        (Phase::ProvingField { x, y, state }, EventKind::Proved(proof)) => {
            let next = view.after_their_shot(x, y, state);
            (next, opening_phase(next), ActionKind::Answer { proof, state })
        },
        (Phase::AwaitingFieldProof { x, y }, EventKind::PeerError { info }) => (
            view,
            Phase::Aborted,
            ActionKind::Abort { message: info },
        ),
        (Phase::AwaitingQuery, EventKind::PeerError { info }) => (
            view,
            Phase::Aborted,
            ActionKind::Abort { message: info },
        ),
        _ => (view, phase, ActionKind::Wait),
    }
}

/// A game in progress: what the player knows and where the game stands.
pub struct Game {
    pub state: GameState,
    pub phase: Phase,
}

impl Game {
    /// The game at its beginning, when the boards have been exchanged.
    pub fn start(state: GameState) -> (game: Game)
        ensures
            game.state@ == state@,
            game.phase == opening_phase(state@),
    {
        let phase = Game::phase_of(&state);
        Game { state, phase }
    }

    /// The phase in which a turn begins.
    fn phase_of(state: &GameState) -> (phase: Phase)
        ensures
            phase == opening_phase(state@),
    {
        match state.outcome() {
            Some(outcome) => Phase::Over(outcome),
            None => if state.is_our_turn() {
                Phase::AwaitingShot
            } else {
                Phase::AwaitingQuery
            },
        }
    }

    /// Takes `event` and says what is to be done.
    pub fn handle(&mut self, event: GameEvent) -> (action: GameAction)
        ensures
            (final(self).state@, final(self).phase, action@) == step(
                old(self).state@,
                old(self).phase,
                event@,
            ),
    {
        match (self.phase, event) {
            (Phase::AwaitingShot, GameEvent::Input(UiInput::Shoot(x, y))) => {
                self.phase = Phase::AwaitingFieldProof { x, y };
                GameAction::Ask { x, y }
            },
            (
                Phase::AwaitingFieldProof { x, y },
                GameEvent::Received(Message::Value(GameMessage::FieldProof(proof, state))),
            ) => {
                self.phase = Phase::VerifyingFieldProof { x, y, state };
                let input = field_declaration_input(&self.state.their_hash, x, y, state);
                GameAction::Verify { proof, input }
            },
            (Phase::VerifyingFieldProof { x, y, state }, GameEvent::Verified(true)) => {
                self.state.record_our_shot(x, y, state);
                self.phase = Game::phase_of(&self.state);
                GameAction::Wait
            },
            (Phase::VerifyingFieldProof { x, y, state }, GameEvent::Verified(false)) => {
                self.phase = Phase::Aborted;
                GameAction::Abort(Er::new("Invalid proof of the field!"))
            },
            (
                Phase::AwaitingQuery,
                GameEvent::Received(Message::Value(GameMessage::AskForField(x, y))),
            ) => {
                let circuit = self.state.field_declaration(x, y);
                self.phase = Phase::ProvingField { x, y, state: circuit.field_state };
                GameAction::Prove(circuit)
            },
            (Phase::ProvingField { x, y, state }, GameEvent::Proved(proof)) => {
                self.state.record_their_shot(x, y, state);
                self.phase = Game::phase_of(&self.state);
                GameAction::Answer { proof, state }
            },
            (
                Phase::AwaitingFieldProof { x, y },
                GameEvent::Received(Message::Error { sender, info }),
            ) => {
                self.phase = Phase::Aborted;
                GameAction::Abort(Er { message: info })
            },
            (Phase::AwaitingQuery, GameEvent::Received(Message::Error { sender, info })) => {
                self.phase = Phase::Aborted;
                GameAction::Abort(Er { message: info })
            },
            _ => GameAction::Wait,
        }
    }
}

/// One turn of two players who follow the protocol, from the shot to the
/// recorded answer: the shooter asks, the other player answers from their
/// board and has the proof made, the shooter has it verified and accepts it.
/// If the two were mirrored before, they are mirrored after, each is in the
/// phase in which a turn begins, and the shot was answered with what the
/// other player's board holds.
pub proof fn lemma_round_keeps_mirror(
    shooter: GameView,
    answerer: GameView,
    x: u8,
    y: u8,
    proof_bytes: Seq<u8>,
)
    requires
        shooter.mirrors(answerer),
        shooter.outcome() is None,
        answerer.outcome() is None,
        shooter.our_turn(),
    ensures
        ({
            let state = answerer.board.board.state_at(x as int, y as int);
            let asked = step(shooter, opening_phase(shooter), EventKind::Shot { x, y });
            let queried = step(answerer, opening_phase(answerer), EventKind::Query { x, y });
            let answered = step(queried.0, queried.1, EventKind::Proved(proof_bytes));
            let received = step(
                asked.0,
                asked.1,
                EventKind::FieldProof { proof: proof_bytes, state },
            );
            let accepted = step(received.0, received.1, EventKind::Verified(true));
            &&& asked.2 == ActionKind::Ask { x, y }
            &&& answered.2 == ActionKind::Answer { proof: proof_bytes, state }
            &&& received.2 == ActionKind::Verify {
                proof: proof_bytes,
                input: field_declaration_values(answerer.board.hash@, x, y, state),
            }
            &&& accepted.0 == shooter.after_our_shot(x, y, state)
            &&& answered.0 == answerer.after_their_shot(x, y, state)
            &&& accepted.0.mirrors(answered.0)
            &&& accepted.0.decided_once()
            &&& accepted.1 == opening_phase(accepted.0)
            &&& answered.1 == opening_phase(answered.0)
        }),
{
    let state = answerer.board.board.state_at(x as int, y as int);
    crate::logic::lemma_turn_keeps_mirror(shooter, answerer, x, y);
    crate::logic::lemma_turn_decides_once(shooter, x, y, state);
}

/// An answer that the verifier rejects ends the game at once: nothing is
/// recorded, and no later event changes anything.
pub proof fn lemma_rejected_answer_aborts(
    view: GameView,
    x: u8,
    y: u8,
    state: FieldState,
    later: EventKind,
)
    ensures
        ({
            let rejected = step(
                view,
                Phase::VerifyingFieldProof { x, y, state },
                EventKind::Verified(false),
            );
            &&& rejected.0 == view
            &&& rejected.1 == Phase::Aborted
            &&& rejected.2 == ActionKind::Abort { message: invalid_field_proof() }
            &&& step(rejected.0, rejected.1, later) == (view, Phase::Aborted, ActionKind::Wait)
        }),
{
}

} // verus!
