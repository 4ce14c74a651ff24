//! The control messages that travel between client and server.
use vstd::prelude::*;

use crate::game::Color;
use crate::game::Position;

verus! {

#[derive(Debug, PartialEq, Eq)]
pub enum NetworkMessage {
    SetUsername { name: String },
    CreateLobby { name: String },
    JoinLobby { name: String },
    ListLobbiesRequest,
    ListLobbiesResponse { lobbies: Vec<String> },
    MovePiece { player: Color, from: Position, to: Position },
    ServerError(String),
}

} // verus!
