//! The per-connection coordinator. A session owns its connection's write
//! half (held by the surrounding I/O layer), translates each decoded
//! inbound message into at most one request to the directory or to its
//! lobby, and translates the reply into at most one outbound message.
//! Each inbound message is one mailbox step: it mutates only this
//! session's own state and the actor it addressed.
use vstd::prelude::*;

use crate::actor::arena::LobbyArena;
use crate::actor::lobby::spec_handle;
use crate::actor::lobby::LobbyError;
use crate::actor::lobby::LobbyMessage;
use crate::actor::lobby::LobbyResponse;
use crate::actor::lobby_manager::spec_create_lobby;
use crate::actor::lobby_manager::spec_lookup_live;
use crate::actor::lobby_manager::LobbyManager;
use crate::actor::lobby_manager::LobbyManagerError;
use crate::actor::lobby_manager::LobbyManagerMessage;
use crate::actor::lobby_manager::LobbyManagerResponse;
use crate::codec::CodecError;
use crate::messages::NetworkMessage;

verus! {

/// Messages other actors can aim at a session. None is defined yet, so a
/// session is only ever driven by its own connection; the one variant
/// below is never constructed and only gives the mailbox its type.
#[derive(Debug)]
pub enum SessionMessage {
    Never,
}

/// The process-wide source of session identities, owned by whichever loop
/// accepts connections; identities are assigned at accept time and never
/// repeat.
pub struct IdCounter {
    next: usize,
}

impl IdCounter {
    pub closed spec fn next_id(&self) -> usize {
        self.next
    }

    pub fn new() -> (c: IdCounter)
        ensures
            c.next_id() == 1,
    {
        IdCounter { next: 1 }
    }

    /// Hands out the next identity; each call returns a fresh, strictly
    /// larger number.
    pub fn get_id(&mut self) -> (id: usize)
        requires
            old(self).next_id() < usize::MAX,
        ensures
            id == old(self).next_id(),
            final(self).next_id() == id + 1,
    {
        let id = self.next;
        self.next = self.next + 1;
        id
    }
}

/// The message a lobby's refusal is reported with.
pub open spec fn lobby_error_text(e: LobbyError) -> Seq<char> {
    match e {
        LobbyError::LobbyFull => "Lobby is full"@,
        LobbyError::NotEnoughPlayers => "Not enough players"@,
        LobbyError::GameAlreadyStarted => "Game already started"@,
    }
}

pub fn lobby_error_message(e: &LobbyError) -> (r: String)
    ensures
        r@ == lobby_error_text(*e),
{
    match e {
        LobbyError::LobbyFull => String::from_str("Lobby is full"),
        LobbyError::NotEnoughPlayers => String::from_str("Not enough players"),
        LobbyError::GameAlreadyStarted => String::from_str("Game already started"),
    }
}

#[derive(Debug)]
pub struct Session {
    id: usize,
    username: Option<String>,
    lobby: Option<usize>,
}

impl Session {
    /// This session's process-unique identity.
    pub closed spec fn id(&self) -> usize {
        self.id
    }

    /// The display name, if one was set.
    pub closed spec fn username_view(&self) -> Option<Seq<char>> {
        match self.username {
            Some(s) => Some(s@),
            None => None,
        }
    }

    /// The handle of the lobby this session sits in, if any.
    pub closed spec fn lobby_of(&self) -> Option<usize> {
        self.lobby
    }

    /// A fresh session: no name, no lobby. The identity comes from the
    /// accept loop's counter.
    pub fn new(id: usize) -> (s: Session)
        ensures
            s.id() == id,
            s.username_view() is None,
            s.lobby_of() is None,
    {
        Session { id, username: None, lobby: None }
    }

    /// This session's identity, for the I/O layer.
    pub fn session_id(&self) -> (r: usize)
        ensures
            r == self.id(),
    {
        self.id
    }

    /// The display name, if one was set; setting it again overwrites it.
    pub fn username(&self) -> (r: Option<&String>)
        ensures
            match r {
                Some(s) => self.username_view() == Some(s@),
                None => self.username_view() is None,
            },
    {
        self.username.as_ref()
    }

    /// The handle of the lobby this session sits in, if any.
    pub fn lobby(&self) -> (r: Option<usize>)
        ensures
            r == self.lobby_of(),
    {
        self.lobby
    }

    /// One mailbox step of the session actor: reacts to one decoded
    /// inbound message (or a payload that would not decode), speaks to
    /// the directory where needed, applies the reply to its own state,
    /// and returns the at most one outbound message owed to the peer.
    pub fn handle(
        &mut self,
        item: Result<NetworkMessage, CodecError>,
        manager: &mut LobbyManager,
        arena: &mut LobbyArena,
    ) -> (out: Option<NetworkMessage>)
        requires
            old(manager).wf(),
            old(arena).wf(),
        ensures
            final(manager).wf(),
            final(arena).wf(),
            final(self).id() == old(self).id(),
            ({
                let e0 = old(manager).entries();
                let a0 = old(arena).summaries();
                match item {
                    Ok(msg) => match msg {
                        NetworkMessage::SetUsername { name } => final(self).username_view()
                            == Some(name@) && final(self).lobby_of() == old(self).lobby_of() && out
                            is None && final(manager).entries() == e0 && final(arena).summaries()
                            == a0,
                        NetworkMessage::CreateLobby { name } => {
                            if old(self).username_view() is None {
                                &&& *final(self) == *old(self)
                                &&& final(manager).entries() == e0
                                &&& final(arena).summaries() == a0
                                &&& (out matches Some(NetworkMessage::ServerError(t)) && t@
                                    == "Cannot create lobby without username"@)
                            } else {
                                let step = spec_create_lobby(e0, a0, name@, old(self).id());
                                &&& final(manager).entries() == step.0
                                &&& final(arena).summaries() == step.1
                                &&& match step.2 {
                                    Ok(id) => final(self).lobby_of() == Some(id) && final(self).username_view() == old(self).username_view() && out is None,
                                    Err(e) => e == LobbyManagerError::LobbyNameTaken && *final(self)
                                        == *old(self) && (out matches Some(
                                        NetworkMessage::ServerError(t),
                                    ) && t@ == "Lobby name taken"@),
                                }
                            }
                        },
                        NetworkMessage::ListLobbiesRequest => {
                            &&& *final(self) == *old(self)
                            &&& final(manager).entries() == e0
                            &&& final(arena).summaries() == a0
                            &&& (out matches Some(NetworkMessage::ListLobbiesResponse { lobbies })
                                && lobbies@.len() == e0.len() && (forall|i: int|
                                0 <= i < e0.len() ==> (#[trigger] lobbies@[i])@ == e0[i].0))
                        },
                        NetworkMessage::JoinLobby { name } => {
                            if old(self).username_view() is None {
                                &&& *final(self) == *old(self)
                                &&& final(manager).entries() == e0
                                &&& final(arena).summaries() == a0
                                &&& (out matches Some(NetworkMessage::ServerError(t)) && t@
                                    == "Cannot join lobby without username"@)
                            } else if old(self).lobby_of() is Some {
                                &&& *final(self) == *old(self)
                                &&& final(manager).entries() == e0
                                &&& final(arena).summaries() == a0
                                &&& (out matches Some(NetworkMessage::ServerError(t)) && t@
                                    == "Cannot join lobby when already in lobby."@)
                            } else {
                                match spec_lookup_live(e0, a0, name@) {
                                    None => *final(self) == *old(self) && final(manager).entries()
                                        == e0 && final(arena).summaries() == a0 && (out matches Some(
                                        NetworkMessage::ServerError(t),
                                    ) && t@ == "Unable to join lobby"@),
                                    Some(id) => {
                                        let step = spec_handle(
                                            a0[id as int].unwrap(),
                                            LobbyMessage::JoinLobby(old(self).id()),
                                        );
                                        &&& final(manager).entries() == e0
                                        &&& final(arena).summaries() == a0.update(
                                            id as int,
                                            Some(step.0),
                                        )
                                        &&& match step.1 {
                                            Ok(LobbyResponse::Accepted) => final(self).lobby_of()
                                                == Some(id) && final(self).username_view() == old(self).username_view() && out is None,
                                            Err(le) => *final(self) == *old(self) && (out matches
                                            Some(NetworkMessage::ServerError(t)) && t@
                                                == lobby_error_text(le)),
                                        }
                                    },
                                }
                            }
                        },
                        NetworkMessage::ListLobbiesResponse { .. } => *final(self) == *old(self)
                            && final(manager).entries() == e0 && final(arena).summaries() == a0
                            && out is None,
                        NetworkMessage::MovePiece { .. } => *final(self) == *old(self) && final(manager).entries() == e0 && final(arena).summaries() == a0 && out is None,
                        NetworkMessage::ServerError(_) => *final(self) == *old(self) && final(manager).entries() == e0 && final(arena).summaries() == a0 && out is None,
                    },
                    Err(_) => *final(self) == *old(self) && final(manager).entries() == e0 && final(arena).summaries() == a0 && (out matches Some(NetworkMessage::ServerError(t)) && t@
                        == "Malformed message"@),
                }
            }),
    {
        match item {
            Ok(NetworkMessage::SetUsername { name }) => {
                self.username = Some(name);
                None
            },
            Ok(NetworkMessage::CreateLobby { name }) => {
                if self.username.is_none() {
                    return Some(NetworkMessage::ServerError(String::from_str(
                        "Cannot create lobby without username",
                    )));
                }
                match manager.handle(
                    LobbyManagerMessage::CreateLobby { name, creating_session: self.id },
                    arena,
                ) {
                    Ok(LobbyManagerResponse::CreatedLobby { lobby }) => {
                        self.lobby = Some(lobby);
                        None
                    },
                    Err(LobbyManagerError::LobbyNameTaken) => Some(NetworkMessage::ServerError(
                        String::from_str("Lobby name taken"),
                    )),
                    // the directory answers a creation request in no other
                    // shape; an unexpected one is a server bug, reported
                    // generically
                    _ => Some(NetworkMessage::ServerError(String::from_str("Server error"))),
                }
            },
            Ok(NetworkMessage::ListLobbiesRequest) => {
                match manager.handle(LobbyManagerMessage::ListLobbies, arena) {
                    Ok(LobbyManagerResponse::LobbiesList { lobbies }) => Some(
                        NetworkMessage::ListLobbiesResponse { lobbies },
                    ),
                    _ => Some(NetworkMessage::ServerError(String::from_str("Server error"))),
                }
            },
            Ok(NetworkMessage::JoinLobby { name }) => {
                if self.username.is_none() {
                    return Some(NetworkMessage::ServerError(String::from_str(
                        "Cannot join lobby without username",
                    )));
                }
                if self.lobby.is_some() {
                    return Some(NetworkMessage::ServerError(String::from_str(
                        "Cannot join lobby when already in lobby.",
                    )));
                }
                match manager.handle(
                    LobbyManagerMessage::ToLobby {
                        name,
                        message: LobbyMessage::JoinLobby(self.id),
                    },
                    arena,
                ) {
                    Ok(LobbyManagerResponse::LobbyResponse {
                        response: Ok(LobbyResponse::Accepted),
                        lobby,
                        name: _,
                    }) => {
                        self.lobby = Some(lobby);
                        None
                    },
                    Ok(LobbyManagerResponse::LobbyResponse { response: Err(le), .. }) => Some(
                        NetworkMessage::ServerError(lobby_error_message(&le)),
                    ),
                    // a name that resolves to no live lobby, and a lobby
                    // that terminated between resolution and delivery, are
                    // the same answer for the peer
                    Err(LobbyManagerError::LobbyDoesNotExist)
                    | Err(LobbyManagerError::MailboxError) => Some(NetworkMessage::ServerError(
                        String::from_str("Unable to join lobby"),
                    )),
                    _ => Some(NetworkMessage::ServerError(String::from_str("Server error"))),
                }
            },
            Ok(NetworkMessage::ListLobbiesResponse { .. }) => None,
            Ok(NetworkMessage::MovePiece { .. }) => None,
            Ok(NetworkMessage::ServerError(_)) => None,
            Err(_) => Some(NetworkMessage::ServerError(String::from_str("Malformed message"))),
        }
    }
}

} // verus!
