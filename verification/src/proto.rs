//! The messages that server and clients exchange.

use vstd::prelude::*;
use crate::game_objects::{GameState, GameView};

verus! {

/// Whether a request was carried out.
#[derive(Debug, Clone, Copy, PartialEq, Eq, Structural)]
pub enum Status {
    Okay,
    NotOkay,
}

/// What kind of exchange a message belongs to.
#[derive(Debug, Clone, Copy, PartialEq, Eq, Structural)]
pub enum Headers {
    Read,
    Write,
    Response,
}

/// What a message asks for or answers.
#[derive(Debug, Clone, Copy, PartialEq, Eq, Structural)]
pub enum Commands {
    InitSetup,
    ListGames,
    ListUsers,
    SetNick,
    MakeNewGame,
    JoinGame,
    LeaveGame,
    KillMe,
    KillClient,
    GetCurrentGamestate,
    MakeMove,
    GameIsOver,
    Reply,
}

/// Whether the client is at a board or at the menu.
#[derive(Debug, Clone, Copy, PartialEq, Eq, Structural)]
pub enum GameStatus {
    InGame,
    NotInGame,
}

/// One message, in either direction.
#[derive(Debug, PartialEq)]
pub struct Msg {
    pub status: Status,
    pub headers: Headers,
    pub command: Commands,
    pub game_status: GameStatus,
    pub data: String,
    pub game_state: GameState,
}

/// What a `Msg` stands for: its text as a sequence of characters and its game
/// as a `GameView`.
pub struct MsgView {
    pub status: Status,
    pub headers: Headers,
    pub command: Commands,
    pub game_status: GameStatus,
    pub data: Seq<char>,
    pub game_state: GameView,
}

impl View for Msg {
    type V = MsgView;

    open spec fn view(&self) -> MsgView {
        MsgView {
            status: self.status,
            headers: self.headers,
            command: self.command,
            game_status: self.game_status,
            data: self.data@,
            game_state: self.game_state@,
        }
    }
}

impl Clone for Msg {
    fn clone(&self) -> (copy: Msg)
        ensures
            copy == *self,
    {
        Msg {
            status: self.status,
            headers: self.headers,
            command: self.command,
            game_status: self.game_status,
            data: self.data.clone(),
            game_state: self.game_state.clone(),
        }
    }
}

} // verus!
