//! The state one server process shares among its peers. In the running
//! server every peer reaches the one game through a lock owned by the I/O
//! layer; the state itself simply owns the game.
use vstd::prelude::*;

use crate::game::initial_spaces;
use crate::game::Color;
use crate::game::Game;

verus! {

pub struct ServerState {
    pub game: Game,
}

impl ServerState {
    pub fn new() -> (s: ServerState)
        ensures
            s.game.wf(),
            s.game.spaces() == initial_spaces(),
            s.game.turn() == Color::W,
    {
        ServerState { game: Game::new() }
    }
}

} // verus!
