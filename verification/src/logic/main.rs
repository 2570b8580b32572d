//! The stages that a session goes through, from the main menu to a game and
//! back, and what becomes of the front-end's inputs in each of them.

use crate::logic::game_loop::Player;
use crate::logic::GameMessage;
use crate::net::message::Message;
use crate::ui::UiInput;
use vstd::prelude::*;

verus! {

/// Where a session stands.
#[derive(Debug, Clone, Copy, PartialEq, Eq, Structural)]
pub enum Stage {
    /// The player has not chosen to host or to join.
    MainMenu,
    /// A connection is being made, in this role.
    Connecting(Player),
    /// The boards are built, proved and exchanged.
    Committing(Player),
    /// The players take turns.
    Playing,
    /// The session has ended.
    Closed,
}

/// What moves a session from one stage to another, besides the player.
#[derive(Debug, Clone, Copy, PartialEq, Eq, Structural)]
pub enum Progress {
    /// The connection stands and the password was accepted.
    Connected,
    /// The connection could not be made.
    ConnectionFailed,
    /// Both boards have been proved and verified.
    BoardsVerified,
    /// The game has ended, with a winner or on an error.
    GameEnded,
}

/// What is to be done with an input of the front-end.
pub enum Routing {
    /// Nothing.
    Ignore,
    /// Hand the input to the part that builds the board or plays the game.
    Forward(UiInput),
    /// Send the other player this remark.
    Chat(Message<GameMessage>),
    /// Wait for a player to connect to this address, with this password.
    Host { addr: String, passwd: String },
    /// Connect to this address, with this password.
    Join { addr: String, passwd: String },
    /// Give up what is going on and go back to the main menu.
    Interrupt,
    /// End the session.
    Quit,
}

/// What an input stands for when stages are told apart.
pub enum InputKind {
    Host,
    Join,
    Chat,
    Esc,
    Exit,
    Other,
}

impl UiInput {
    /// What the input stands for when stages are told apart.
    pub open spec fn kind(self) -> InputKind {
        match self {
            UiInput::HostGame { addr, passwd } => InputKind::Host,
            UiInput::JoinGame { addr, passwd } => InputKind::Join,
            UiInput::SendMessage(sender, info) => InputKind::Chat,
            UiInput::Esc => InputKind::Esc,
            UiInput::Exit => InputKind::Exit,
            _ => InputKind::Other,
        }
    }
}

/// The stage after an input: `Exit` closes the session from any stage; in
/// the main menu the player chooses to host or to join, or leaves with
/// `Esc`; `Esc` gives up a connection attempt and the exchange of boards,
/// and is passed over while the players take turns.
pub open spec fn stage_after_input(stage: Stage, input: InputKind) -> Stage {
    match (stage, input) {
        (Stage::Closed, _) => Stage::Closed,
        (_, InputKind::Exit) => Stage::Closed,
        (Stage::MainMenu, InputKind::Host) => Stage::Connecting(Player::Host),
        (Stage::MainMenu, InputKind::Join) => Stage::Connecting(Player::Client),
        (Stage::MainMenu, InputKind::Esc) => Stage::Closed,
        (Stage::Connecting(_), InputKind::Esc) => Stage::MainMenu,
        (Stage::Committing(_), InputKind::Esc) => Stage::MainMenu,
        _ => stage,
    }
}

/// The stage after the session made progress: a connection leads to the
/// exchange of boards, verified boards lead to the game, and a failed
/// connection or the end of a game lead back to the main menu.
pub open spec fn stage_after_progress(stage: Stage, progress: Progress) -> Stage {
    match (stage, progress) {
        (Stage::Connecting(role), Progress::Connected) => Stage::Committing(role),
        (Stage::Connecting(_), Progress::ConnectionFailed) => Stage::MainMenu,
        (Stage::Committing(_), Progress::BoardsVerified) => Stage::Playing,
        (Stage::Committing(_), Progress::GameEnded) => Stage::MainMenu,
        (Stage::Playing, Progress::GameEnded) => Stage::MainMenu,
        _ => stage,
    }
}

/// Whether `routing` is what is to be done with `input` in `stage`: the
/// main menu starts a connection or ends the session; while the boards are
/// exchanged and while the players take turns a remark goes to the other
/// player and the rest to the game; `Esc` interrupts but for the turns,
/// where it is passed over; `Exit` ends the session.
pub open spec fn routed(stage: Stage, input: UiInput, routing: Routing) -> bool {
    match (stage, input) {
        (Stage::Closed, _) => routing is Ignore,
        (_, UiInput::Exit) => routing is Quit,
        (Stage::MainMenu, UiInput::HostGame { addr, passwd }) => routing matches Routing::Host {
            addr: a,
            passwd: p,
        } && a == addr && p == passwd,
        (Stage::MainMenu, UiInput::JoinGame { addr, passwd }) => routing matches Routing::Join {
            addr: a,
            passwd: p,
        } && a == addr && p == passwd,
        (Stage::MainMenu, UiInput::Esc) => routing is Quit,
        (Stage::MainMenu, _) => routing is Ignore,
        (Stage::Connecting(_), UiInput::Esc) => routing is Interrupt,
        (Stage::Connecting(_), _) => routing is Ignore,
        (Stage::Committing(_), UiInput::Esc) => routing is Interrupt,
        (Stage::Playing, UiInput::Esc) => routing is Ignore,
        (_, UiInput::SendMessage(sender, info)) => routing matches Routing::Chat(
            Message::Info { sender: s, info: i },
        ) && s == sender && i == info,
        (_, other) => routing matches Routing::Forward(forwarded) && forwarded == other,
    }
}

impl Stage {
    /// The stage in which a session begins.
    pub fn new() -> (stage: Stage)
        ensures
            stage == Stage::MainMenu,
    {
        Stage::MainMenu
    }

    /// Takes an input of the front-end: says what is to be done with it and
    /// moves to the stage that follows.
    pub fn route(&mut self, input: UiInput) -> (routing: Routing)
        ensures
            routed(*old(self), input, routing),
            *final(self) == stage_after_input(*old(self), input.kind()),
    {
        match (*self, input) {
            (Stage::Closed, _) => Routing::Ignore,
            (_, UiInput::Exit) => {
                *self = Stage::Closed;
                Routing::Quit
            },
            (Stage::MainMenu, UiInput::HostGame { addr, passwd }) => {
                *self = Stage::Connecting(Player::Host);
                Routing::Host { addr, passwd }
            },
            (Stage::MainMenu, UiInput::JoinGame { addr, passwd }) => {
                *self = Stage::Connecting(Player::Client);
                Routing::Join { addr, passwd }
            },
            (Stage::MainMenu, UiInput::Esc) => {
                *self = Stage::Closed;
                Routing::Quit
            },
            (Stage::MainMenu, _) => Routing::Ignore,
            (Stage::Connecting(_), UiInput::Esc) => {
                *self = Stage::MainMenu;
                Routing::Interrupt
            },
            (Stage::Connecting(_), _) => Routing::Ignore,
            (Stage::Committing(_), UiInput::Esc) => {
                *self = Stage::MainMenu;
                Routing::Interrupt
            },
            (Stage::Playing, UiInput::Esc) => Routing::Ignore,
            (_, UiInput::SendMessage(sender, info)) => Routing::Chat(
                Message::Info { sender, info },
            ),
            (_, other) => Routing::Forward(other),
        }
    }

    /// Takes note of progress and moves to the stage that follows.
    pub fn advance(&mut self, progress: Progress)
        ensures
            *final(self) == stage_after_progress(*old(self), progress),
    {
        match (*self, progress) {
            (Stage::Connecting(role), Progress::Connected) => {
                *self = Stage::Committing(role);
            },
            (Stage::Connecting(_), Progress::ConnectionFailed) => {
                *self = Stage::MainMenu;
            },
            (Stage::Committing(_), Progress::BoardsVerified) => {
                *self = Stage::Playing;
            },
            (Stage::Committing(_), Progress::GameEnded) => {
                *self = Stage::MainMenu;
            },
            (Stage::Playing, Progress::GameEnded) => {
                *self = Stage::MainMenu;
            },
            _ => {},
        }
    }
}

/// A session that is closed stays closed, whatever comes.
pub proof fn lemma_closed_is_final(input: InputKind, progress: Progress)
    ensures
        stage_after_input(Stage::Closed, input) == Stage::Closed,
        stage_after_progress(Stage::Closed, progress) == Stage::Closed,
{
}

/// The players take turns only after a connection was made and both boards
/// were verified: the only stage from which a session comes to play is the
/// exchange of boards, and the only one from which it comes to that
/// exchange is a connection attempt.
pub proof fn lemma_play_follows_commitment(stage: Stage, progress: Progress, input: InputKind)
    ensures
        stage != Stage::Playing && stage_after_progress(stage, progress) == Stage::Playing ==> (
        stage is Committing && progress == Progress::BoardsVerified),
        stage != Stage::Playing ==> stage_after_input(stage, input) != Stage::Playing,
        !(stage is Committing) && stage_after_progress(stage, progress) is Committing ==> (
        stage is Connecting && progress == Progress::Connected),
{
}

} // verus!
