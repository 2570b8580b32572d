//! The game between the two players: what they send each other and what
//! each of them knows.

use crate::circuit::board_declaration_circuit::BoardDeclarationCircuit;
use crate::circuit::commons::commitment;
use crate::circuit::field_declaration_circuit::FieldDeclarationCircuit;
use crate::logic::game_loop::{
    are_all_discovered, lemma_occupied_count_push, occupied_count, Player, TOTAL_SHIP_CELLS,
};
use crate::model::{on_grid, FieldState};
use vstd::prelude::*;

pub mod board_creation;
pub mod game_loop;
pub mod main;

verus! {

/// What one player sends the other in the course of a game.
#[derive(Debug, Clone)]
pub enum GameMessage {
    /// The sender's commitment: a proof that the board is well-formed, in
    /// its uncompressed encoding, and the hash that it is about.
    BoardDeclaration(Vec<u8>, [u8; 32]),
    /// A shot at the cell in this column and row.
    AskForField(u8, u8),
    /// The answer to a shot: a proof, in its uncompressed encoding, that the
    /// cell holds this state.
    FieldProof(Vec<u8>, FieldState),
}

/// How a game ended for a player.
#[derive(Debug, Clone, Copy, PartialEq, Eq, Structural)]
pub enum Outcome {
    Won,
    Lost,
}

/// What a player knows in the course of a game.
#[derive(Debug, Clone)]
pub struct GameState {
    /// Our board, its salt, and the hash that commits to both.
    pub board: BoardDeclarationCircuit,
    /// The hash that commits to the other player's board.
    pub their_hash: [u8; 32],
    pub our_role: Player,
    /// The shots we fired, each with what the other player proved of it.
    pub our_shots: Vec<(u8, u8, FieldState)>,
    /// The shots the other player fired, each with what we proved of it.
    pub their_shots: Vec<(u8, u8, FieldState)>,
    pub turn_of: Player,
}

/// What a player knows in the course of a game, with the shots in sequences.
pub struct GameView {
    pub board: BoardDeclarationCircuit,
    pub their_hash: Seq<u8>,
    pub our_role: Player,
    pub our_shots: Seq<(u8, u8, FieldState)>,
    pub their_shots: Seq<(u8, u8, FieldState)>,
    pub turn_of: Player,
}

impl View for GameState {
    type V = GameView;

    open spec fn view(&self) -> GameView {
        GameView {
            board: self.board,
            their_hash: self.their_hash@,
            our_role: self.our_role,
            our_shots: self.our_shots@,
            their_shots: self.their_shots@,
            turn_of: self.turn_of,
        }
    }
}

/// Whose turn it is after a shot that was answered with `state`: the
/// shooter's again after a hit, the other player's after a miss.
pub open spec fn turn_after(turn_of: Player, state: FieldState) -> Player {
    if state == FieldState::Empty {
        turn_of.opponent()
    } else {
        turn_of
    }
}

impl GameView {
    /// What a player knows when the boards have been exchanged: no shot has
    /// been fired, and the host is to shoot.
    pub open spec fn opening(board: BoardDeclarationCircuit, their_hash: Seq<u8>, our_role: Player) -> GameView {
        GameView {
            board,
            their_hash,
            our_role,
            our_shots: Seq::empty(),
            their_shots: Seq::empty(),
            turn_of: Player::Host,
        }
    }

    /// Whether every cell of our ships has been found.
    pub open spec fn lost(self) -> bool {
        occupied_count(self.their_shots) == TOTAL_SHIP_CELLS
    }

    /// Whether we have found every cell of the other player's ships, and
    /// they have not found every cell of ours.
    pub open spec fn won(self) -> bool {
        !self.lost() && occupied_count(self.our_shots) == TOTAL_SHIP_CELLS
    }

    /// How the game has ended, if it has.
    pub open spec fn outcome(self) -> Option<Outcome> {
        if self.lost() {
            Some(Outcome::Lost)
        } else if self.won() {
            Some(Outcome::Won)
        } else {
            None
        }
    }

    /// Whether it is our turn.
    pub open spec fn our_turn(self) -> bool {
        self.our_role == self.turn_of
    }

    /// What we know after our shot at `(x, y)` was answered with `state`.
    pub open spec fn after_our_shot(self, x: u8, y: u8, state: FieldState) -> GameView {
        GameView {
            our_shots: self.our_shots.push((x, y, state)),
            turn_of: turn_after(self.turn_of, state),
            ..self
        }
    }

    /// What we know after we answered the shot at `(x, y)` with `state`.
    pub open spec fn after_their_shot(self, x: u8, y: u8, state: FieldState) -> GameView {
        GameView {
            their_shots: self.their_shots.push((x, y, state)),
            turn_of: turn_after(self.turn_of, state),
            ..self
        }
    }
}

impl GameView {
    /// Whether the two players know the same of the game, each from their
    /// own side: their roles differ, they agree on whose turn it is, each
    /// holds the other's hash, and the shots that one fired are the shots
    /// that the other answered.
    pub open spec fn mirrors(self, other: GameView) -> bool {
        &&& self.our_role == other.our_role.opponent()
        &&& self.turn_of == other.turn_of
        &&& self.their_hash == other.board.hash@
        &&& other.their_hash == self.board.hash@
        &&& self.our_shots == other.their_shots
        &&& self.their_shots == other.our_shots
    }

    /// Whether at most one of the players has found every cell of the
    /// other's ships.
    pub open spec fn decided_once(self) -> bool {
        !(occupied_count(self.our_shots) == TOTAL_SHIP_CELLS && occupied_count(self.their_shots)
            == TOTAL_SHIP_CELLS)
    }
}

/// When the boards have been exchanged, what the host knows mirrors what the
/// client knows, and neither has found anything.
pub proof fn lemma_openings_mirror(host: BoardDeclarationCircuit, client: BoardDeclarationCircuit)
    ensures
        GameView::opening(host, client.hash@, Player::Host).mirrors(
            GameView::opening(client, host.hash@, Player::Client),
        ),
        GameView::opening(host, client.hash@, Player::Host).outcome() is None,
        GameView::opening(client, host.hash@, Player::Client).outcome() is None,
        GameView::opening(host, client.hash@, Player::Host).decided_once(),
{
}

/// A turn in which the player to shoot fires at `(x, y)` and the other
/// answers with what their board holds there leaves the two mirrored, and
/// hands the turn over exactly after a miss.
pub proof fn lemma_turn_keeps_mirror(shooter: GameView, answerer: GameView, x: u8, y: u8)
    requires
        shooter.mirrors(answerer),
        shooter.our_turn(),
    ensures
        ({
            let state = answerer.board.board.state_at(x as int, y as int);
            let shot = shooter.after_our_shot(x, y, state);
            let answered = answerer.after_their_shot(x, y, state);
            &&& shot.mirrors(answered)
            &&& shot.our_turn() == (state == FieldState::Occupied)
            &&& answered.our_turn() == (state == FieldState::Empty)
        }),
{
}

/// A turn taken in a game that has not ended lets at most one player reach
/// the full count.
pub proof fn lemma_turn_decides_once(before: GameView, x: u8, y: u8, state: FieldState)
    requires
        before.outcome() is None,
    ensures
        before.after_our_shot(x, y, state).decided_once(),
        before.after_their_shot(x, y, state).decided_once(),
{
    lemma_occupied_count_push(before.our_shots, (x, y, state));
    lemma_occupied_count_push(before.their_shots, (x, y, state));
}

/// Two mirrored players agree on how the game ended: if one has won the
/// other has lost, and if it has not ended for one it has not for the other.
pub proof fn lemma_mirrored_outcomes_agree(one: GameView, other: GameView)
    requires
        one.mirrors(other),
        one.decided_once(),
    ensures
        one.outcome() == Some(Outcome::Won) <==> other.outcome() == Some(Outcome::Lost),
        one.outcome() == Some(Outcome::Lost) <==> other.outcome() == Some(Outcome::Won),
        one.outcome() is None <==> other.outcome() is None,
        one.our_shots == other.their_shots,
        one.their_shots == other.our_shots,
{
}

/// What the host and the client know after a game in which the cells
/// `shots` are shot at, one after another, each by the player whose turn it
/// is and each answered with what the other player's board holds; shots
/// after the end of the game change nothing.
pub open spec fn play(host: GameView, client: GameView, shots: Seq<(u8, u8)>) -> (GameView, GameView)
    decreases shots.len(),
{
    if shots.len() == 0 {
        (host, client)
    } else {
        let (h, c) = play(host, client, shots.drop_last());
        let (x, y) = shots.last();
        if h.outcome() is Some || c.outcome() is Some {
            (h, c)
        } else if h.our_turn() {
            let state = c.board.board.state_at(x as int, y as int);
            (h.after_our_shot(x, y, state), c.after_their_shot(x, y, state))
        } else {
            let state = h.board.board.state_at(x as int, y as int);
            (h.after_their_shot(x, y, state), c.after_our_shot(x, y, state))
        }
    }
}

/// Whatever the boards and whatever cells are shot at, the two players of a
/// game played by the rules agree at every moment: the shots that one fired
/// are the shots that the other answered, with the same answers in the same
/// order, and if the game has ended for one of them it has ended for the
/// other, one having won and the other lost.
pub proof fn lemma_players_agree(
    host: BoardDeclarationCircuit,
    client: BoardDeclarationCircuit,
    shots: Seq<(u8, u8)>,
)
    ensures
        ({
            let (h, c) = play(
                GameView::opening(host, client.hash@, Player::Host),
                GameView::opening(client, host.hash@, Player::Client),
                shots,
            );
            &&& h.mirrors(c)
            &&& h.decided_once()
            &&& h.our_shots == c.their_shots
            &&& h.their_shots == c.our_shots
            &&& h.outcome() == Some(Outcome::Won) <==> c.outcome() == Some(Outcome::Lost)
            &&& h.outcome() == Some(Outcome::Lost) <==> c.outcome() == Some(Outcome::Won)
            &&& h.outcome() is None <==> c.outcome() is None
        }),
    decreases shots.len(),
{
    let start_host = GameView::opening(host, client.hash@, Player::Host);
    let start_client = GameView::opening(client, host.hash@, Player::Client);
    if shots.len() == 0 {
        lemma_openings_mirror(host, client);
    } else {
        lemma_players_agree(host, client, shots.drop_last());
        let (h, c) = play(start_host, start_client, shots.drop_last());
        let (x, y) = shots.last();
        if h.outcome() is None && c.outcome() is None {
            if h.our_turn() {
                let state = c.board.board.state_at(x as int, y as int);
                lemma_turn_keeps_mirror(h, c, x, y);
                lemma_turn_decides_once(h, x, y, state);
            } else {
                let state = h.board.board.state_at(x as int, y as int);
                lemma_turn_keeps_mirror(c, h, x, y);
                lemma_turn_decides_once(h, x, y, state);
            }
        }
    }
}

impl GameState {
    /// What a player knows when the boards have been exchanged.
    pub fn new(board: BoardDeclarationCircuit, their_hash: [u8; 32], our_role: Player) -> (state:
        GameState)
        ensures
            state@ == GameView::opening(board, their_hash@, our_role),
    {
        GameState {
            board,
            their_hash,
            our_role,
            our_shots: Vec::new(),
            their_shots: Vec::new(),
            turn_of: Player::Host,
        }
    }

    /// How the game has ended, if it has: lost if every cell of our ships
    /// has been found, won if we found every cell of theirs.
    pub fn outcome(&self) -> (outcome: Option<Outcome>)
        ensures
            outcome == self@.outcome(),
    {
        if are_all_discovered(&self.their_shots) {
            Some(Outcome::Lost)
        } else if are_all_discovered(&self.our_shots) {
            Some(Outcome::Won)
        } else {
            None
        }
    }

    /// Whether it is our turn.
    pub fn is_our_turn(&self) -> (ours: bool)
        ensures
            ours == self@.our_turn(),
    {
        self.our_role == self.turn_of
    }

    /// Records that our shot at `(x, y)` was answered with `state`; after a
    /// miss the turn passes to the other player.
    pub fn record_our_shot(&mut self, x: u8, y: u8, state: FieldState)
        ensures
            final(self)@ == old(self)@.after_our_shot(x, y, state),
    {
        self.our_shots.push((x, y, state));
        match state {
            FieldState::Empty => {
                self.turn_of = self.turn_of.other();
            },
            FieldState::Occupied => {},
        }
    }

    /// Records that we answered the shot at `(x, y)` with `state`; after a
    /// miss the turn passes to us.
    pub fn record_their_shot(&mut self, x: u8, y: u8, state: FieldState)
        ensures
            final(self)@ == old(self)@.after_their_shot(x, y, state),
    {
        self.their_shots.push((x, y, state));
        match state {
            FieldState::Empty => {
                self.turn_of = self.turn_of.other();
            },
            FieldState::Occupied => {},
        }
    }

    /// The circuit that proves what our board holds at `(x, y)`.
    pub fn field_declaration(&self, x: u8, y: u8) -> (circuit: FieldDeclarationCircuit)
        ensures
            circuit.board == self.board.board,
            circuit.salt == self.board.salt,
            circuit.hash == self.board.hash,
            circuit.field_x == x,
            circuit.field_y == y,
            circuit.field_state == self.board.board.state_at(x as int, y as int),
            circuit.statement() == (self.board.hash@ == commitment(
                self.board.board.ships@,
                self.board.salt@,
            ) && on_grid(x as int, y as int)),
    {
        FieldDeclarationCircuit {
            board: self.board.board,
            salt: self.board.salt,
            hash: self.board.hash,
            field_x: x,
            field_y: y,
            field_state: self.board.board.get_field_state(x, y),
        }
    }
}

} // verus!
