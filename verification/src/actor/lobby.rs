//! One open match: up to two seated players, and the sole guard that may
//! start the game. A lobby is an actor with a mailbox of its own, so each
//! message is one atomic step against its state; sessions appear as
//! numeric ids.
use vstd::prelude::*;

use crate::game::initial_spaces;
use crate::game::Color;
use crate::game::Game;

verus! {

#[derive(Debug, PartialEq, Eq)]
pub enum LobbyResponse {
    Accepted,
}

/// What a session can ask of a lobby; the joiner is named by session id.
#[derive(Debug, PartialEq, Eq, Structural, Copy, Clone)]
pub enum LobbyMessage {
    JoinLobby(usize),
}

#[derive(Debug, PartialEq, Eq)]
pub enum LobbyError {
    LobbyFull,
    NotEnoughPlayers,
    GameAlreadyStarted,
}

/// The observable state of a lobby: who sits in each seat and whether a
/// match has started.
#[derive(PartialEq, Eq, Structural, Copy, Clone)]
pub struct LobbySummary {
    pub white_player: Option<usize>,
    pub black_player: Option<usize>,
    pub started: bool,
}

/// Seating a player: the white seat is filled first, then the black seat;
/// a lobby with both seats taken refuses.
pub open spec fn spec_add_player(s: LobbySummary, player: usize) -> (LobbySummary, Result<
    (),
    LobbyError,
>) {
    if s.white_player is None {
        (
            LobbySummary {
                white_player: Some(player),
                black_player: s.black_player,
                started: s.started,
            },
            Ok(()),
        )
    } else if s.black_player is None {
        (
            LobbySummary {
                white_player: s.white_player,
                black_player: Some(player),
                started: s.started,
            },
            Ok(()),
        )
    } else {
        (s, Err(LobbyError::LobbyFull))
    }
}

/// Starting the match: both seats must be taken and no match may exist
/// yet; this is the sole guard against double starts.
pub open spec fn spec_start_game(s: LobbySummary) -> (LobbySummary, Result<(), LobbyError>) {
    if s.white_player is Some && s.black_player is Some {
        if s.started {
            (s, Err(LobbyError::GameAlreadyStarted))
        } else {
            (
                LobbySummary {
                    white_player: s.white_player,
                    black_player: s.black_player,
                    started: true,
                },
                Ok(()),
            )
        }
    } else {
        (s, Err(LobbyError::NotEnoughPlayers))
    }
}

/// One mailbox step of the lobby actor.
pub open spec fn spec_handle(s: LobbySummary, msg: LobbyMessage) -> (LobbySummary, Result<
    LobbyResponse,
    LobbyError,
>) {
    match msg {
        LobbyMessage::JoinLobby(session) => {
            let (s2, r) = spec_add_player(s, session);
            (
                s2,
                match r {
                    Ok(()) => Ok(LobbyResponse::Accepted),
                    Err(e) => Err(e),
                },
            )
        },
    }
}

#[derive(Debug)]
pub struct Lobby {
    game: Option<Game>,
    white_player: Option<usize>,
    black_player: Option<usize>,
}

impl Lobby {
    pub closed spec fn summary(&self) -> LobbySummary {
        LobbySummary {
            white_player: self.white_player,
            black_player: self.black_player,
            started: self.game is Some,
        }
    }

    /// The match state, opaque but for its identity: once started it is
    /// never substituted.
    pub closed spec fn game_of(&self) -> Option<Game> {
        self.game
    }

    pub closed spec fn wf(&self) -> bool {
        match self.game {
            Some(g) => g.wf(),
            None => true,
        }
    }

    /// A new lobby is seeded with its creator in the white seat.
    pub fn new(white_player: usize) -> (l: Lobby)
        ensures
            l.wf(),
            l.summary() == (LobbySummary {
                white_player: Some(white_player),
                black_player: None,
                started: false,
            }),
    {
        Lobby { game: None, white_player: Some(white_player), black_player: None }
    }

    /// Fills the first open seat, white before black.
    pub fn add_player(&mut self, player_session: usize) -> (r: Result<(), LobbyError>)
        requires
            old(self).wf(),
        ensures
            final(self).wf(),
            (final(self).summary(), r) == spec_add_player(old(self).summary(), player_session),
            final(self).game_of() == old(self).game_of(),
    {
        if self.white_player.is_none() {
            self.white_player = Some(player_session);
            return Ok(());
        }
        if self.black_player.is_none() {
            self.black_player = Some(player_session);
            return Ok(());
        }
        Err(LobbyError::LobbyFull)
    }

    /// Constructs the fresh match once both seats are taken; refuses a
    /// second start, so the match state is never replaced.
    pub fn start_game(&mut self) -> (r: Result<(), LobbyError>)
        requires
            old(self).wf(),
        ensures
            final(self).wf(),
            (final(self).summary(), r) == spec_start_game(old(self).summary()),
            old(self).summary().started ==> final(self).game_of() == old(self).game_of(),
            r is Ok ==> (final(self).game_of() matches Some(g) && g.spaces() == initial_spaces()
                && g.turn() == Color::W),
    {
        if self.white_player.is_some() && self.black_player.is_some() {
            if self.game.is_some() {
                return Err(LobbyError::GameAlreadyStarted);
            }
            self.game = Some(Game::new());
            Ok(())
        } else {
            Err(LobbyError::NotEnoughPlayers)
        }
    }

    /// One mailbox step: the lobby's whole message interface.
    pub fn handle(&mut self, msg: LobbyMessage) -> (r: Result<LobbyResponse, LobbyError>)
        requires
            old(self).wf(),
        ensures
            final(self).wf(),
            (final(self).summary(), r) == spec_handle(old(self).summary(), msg),
            final(self).game_of() == old(self).game_of(),
    {
        match msg {
            LobbyMessage::JoinLobby(session) => match self.add_player(session) {
                Ok(()) => Ok(LobbyResponse::Accepted),
                Err(e) => Err(e),
            },
        }
    }

    /// The two seats, white then black.
    pub fn players(&self) -> (r: (Option<usize>, Option<usize>))
        ensures
            r.0 == self.summary().white_player,
            r.1 == self.summary().black_player,
    {
        (self.white_player, self.black_player)
    }

    /// Whether a match has started in this lobby.
    pub fn game_started(&self) -> (r: bool)
        ensures
            r == self.summary().started,
    {
        self.game.is_some()
    }
}

/// Law: joining a lobby whose two seats are both occupied fails with
/// `LobbyFull` and leaves the occupants unchanged.
pub proof fn lemma_join_full_lobby_unchanged(s: LobbySummary, player: usize)
    requires
        s.white_player is Some,
        s.black_player is Some,
    ensures
        spec_add_player(s, player) == (s, Err::<(), LobbyError>(LobbyError::LobbyFull)),
{
}

/// Law: on a fully seated lobby with no match yet, the first start
/// succeeds and a second start fails with `GameAlreadyStarted`, changing
/// nothing further.
pub proof fn lemma_start_game_twice(s: LobbySummary)
    requires
        s.white_player is Some,
        s.black_player is Some,
        !s.started,
    ensures
        ({
            let (s1, r1) = spec_start_game(s);
            let (s2, r2) = spec_start_game(s1);
            &&& r1 == Ok::<(), LobbyError>(())
            &&& s1.started
            &&& r2 == Err::<(), LobbyError>(LobbyError::GameAlreadyStarted)
            &&& s2 == s1
        }),
{
}

} // verus!
