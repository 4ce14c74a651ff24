//! The straight-line predecessor of the session actor: one peer per
//! connection, reading raw binary frames and driving the one shared game.
//! The socket loop that feeds it lives with the I/O layer; the peer holds
//! the decisions.
use vstd::prelude::*;

use crate::game::spec_move_result;
use crate::game::Color;
use crate::game::GameError;
use crate::message::game::GameMessage;
use crate::message::lobby::LobbyMessage;
use crate::server_state::ServerState;

verus! {

/// One decoded unit of the raw binary protocol.
#[derive(Debug, PartialEq, Eq)]
pub enum Frame {
    Game(GameMessage),
    Lobby(LobbyMessage),
}

/// Whether this connection has entered a match, and under which name and
/// color.
#[derive(Debug, PartialEq, Eq)]
pub enum LobbyState {
    OutOfLobby,
    InGame { name: String, color: Color },
}

pub struct Peer {
    server_state: ServerState,
    lobby_state: LobbyState,
}

impl Peer {
    pub closed spec fn lobby_state_of(&self) -> LobbyState {
        self.lobby_state
    }

    pub closed spec fn game_spaces(&self) -> Seq<crate::game::Space> {
        self.server_state.game.spaces()
    }

    pub closed spec fn wf(&self) -> bool {
        self.server_state.game.wf()
    }

    /// A fresh peer: out of any lobby, sharing the server's game. The
    /// socket stays with the I/O layer that runs the read loop.
    pub fn new(server_state: ServerState) -> (p: Peer)
        requires
            server_state.game.wf(),
        ensures
            p.wf(),
            p.lobby_state_of() == LobbyState::OutOfLobby,
            p.game_spaces() == server_state.game.spaces(),
    {
        Peer { server_state, lobby_state: LobbyState::OutOfLobby }
    }

    /// A lobby message puts the peer into the named match as white.
    pub fn handle_lobby_message(&mut self, message: LobbyMessage)
        requires
            old(self).wf(),
        ensures
            final(self).wf(),
            final(self).game_spaces() == old(self).game_spaces(),
            match message {
                LobbyMessage::CreateLobby { name } => final(self).lobby_state_of() == (
                LobbyState::InGame { name, color: Color::W }),
            },
    {
        match message {
            LobbyMessage::CreateLobby { name } => {
                self.lobby_state = LobbyState::InGame { name, color: Color::W };
            },
        }
    }

    /// A game message moves a piece on the shared game, but only once the
    /// peer is in a match; out of one, it is ignored. The outcome of the
    /// move, if one was tried, is handed back for the I/O layer to report.
    pub fn handle_game_message(&mut self, message: GameMessage) -> (r: Option<
        Result<(), GameError>,
    >)
        requires
            old(self).wf(),
        ensures
            final(self).wf(),
            final(self).lobby_state_of() == old(self).lobby_state_of(),
            old(self).lobby_state_of() is OutOfLobby ==> r is None && final(self).game_spaces()
                == old(self).game_spaces(),
            old(self).lobby_state_of() is InGame ==> match message {
                GameMessage::MovePiece { player, from, to } => ({
                    let step = spec_move_result(old(self).game_spaces(), from, to);
                    final(self).game_spaces() == step.0 && r == Some(step.1)
                }),
            },
    {
        match &self.lobby_state {
            LobbyState::OutOfLobby => None,
            LobbyState::InGame { .. } => match message {
                GameMessage::MovePiece { player: _, from, to } => Some(
                    self.server_state.game.move_piece(from, to),
                ),
            },
        }
    }

    /// One decoded frame, dispatched to the handler of its kind.
    pub fn process_frame(&mut self, frame: Frame) -> (r: Option<Result<(), GameError>>)
        requires
            old(self).wf(),
        ensures
            final(self).wf(),
            match frame {
                Frame::Game(message) => final(self).lobby_state_of() == old(self).lobby_state_of()
                    && (old(self).lobby_state_of() is OutOfLobby ==> r is None && final(
                    self).game_spaces() == old(self).game_spaces()) && (old(self).lobby_state_of() is InGame
                    ==> match message {
                    GameMessage::MovePiece { player, from, to } => ({
                        let step = spec_move_result(old(self).game_spaces(), from, to);
                        final(self).game_spaces() == step.0 && r == Some(step.1)
                    }),
                }),
                Frame::Lobby(message) => final(self).game_spaces() == old(self).game_spaces() && r
                    is None && match message {
                    LobbyMessage::CreateLobby { name } => final(self).lobby_state_of() == (
                    LobbyState::InGame { name, color: Color::W }),
                },
            },
    {
        match frame {
            Frame::Game(message) => self.handle_game_message(message),
            Frame::Lobby(message) => {
                self.handle_lobby_message(message);
                None
            },
        }
    }
}

} // verus!
