//! The indirection table behind every lobby handle. Each lobby runs in a
//! scheduling context of its own that nothing else owns, so holders keep
//! only a weak handle: an index into this arena. Resolving a handle after
//! its lobby has terminated yields a well-defined "gone" answer, never a
//! dangling access; slots are never reused, so a handle can go stale but
//! never point at the wrong lobby.
use vstd::prelude::*;

use crate::actor::lobby::spec_handle;
use crate::actor::lobby::Lobby;
use crate::actor::lobby::LobbyError;
use crate::actor::lobby::LobbyMessage;
use crate::actor::lobby::LobbyResponse;
use crate::actor::lobby::LobbySummary;

verus! {

pub struct LobbyArena {
    slots: Vec<Option<Lobby>>,
}

impl LobbyArena {
    pub closed spec fn slots_view(&self) -> Seq<Option<Lobby>> {
        self.slots@
    }

    pub closed spec fn wf(&self) -> bool {
        forall|i: int|
            0 <= i < self.slots@.len() ==> ((#[trigger] self.slots@[i]) matches Some(l)
                ==> l.wf())
    }

    /// The handle still resolves to a running lobby.
    pub open spec fn live(&self, id: usize) -> bool {
        id < self.slots_view().len() && self.slots_view()[id as int] is Some
    }

    /// The observable state of every slot: the lobby's summary where one
    /// runs, nothing where it has terminated.
    pub open spec fn summaries(&self) -> Seq<Option<LobbySummary>> {
        Seq::new(
            self.slots_view().len(),
            |i: int|
                match self.slots_view()[i] {
                    Some(l) => Some(l.summary()),
                    None => None,
                },
        )
    }

    /// Whether the handle still resolves to a running lobby.
    pub fn is_live(&self, id: usize) -> (r: bool)
        ensures
            r == self.live(id),
    {
        if id < self.slots.len() {
            self.slots[id].is_some()
        } else {
            false
        }
    }

    /// The lobby a live handle resolves to.
    pub open spec fn lobby_at(&self, id: usize) -> Lobby
        recommends
            self.live(id),
    {
        self.slots_view()[id as int].unwrap()
    }

    pub fn new() -> (a: LobbyArena)
        ensures
            a.wf(),
            a.slots_view() == Seq::<Option<Lobby>>::empty(),
            a.summaries() == Seq::<Option<LobbySummary>>::empty(),
    {
        let a = LobbyArena { slots: Vec::new() };
        proof {
            assert(a.summaries() =~= Seq::<Option<LobbySummary>>::empty());
        }
        a
    }

    /// Starts a lobby in a fresh slot and hands back its handle.
    pub fn spawn(&mut self, lobby: Lobby) -> (id: usize)
        requires
            old(self).wf(),
            lobby.wf(),
        ensures
            final(self).wf(),
            id == old(self).slots_view().len(),
            final(self).slots_view() == old(self).slots_view().push(Some(lobby)),
            final(self).summaries() == old(self).summaries().push(Some(lobby.summary())),
            final(self).live(id),
            final(self).lobby_at(id) == lobby,
    {
        let id = self.slots.len();
        let ghost s0 = self.summaries();
        self.slots.push(Some(lobby));
        proof {
            assert(self.summaries() =~= s0.push(Some(lobby.summary())));
        }
        id
    }

    /// Terminates the lobby behind `id`, as a connection teardown would;
    /// the slot stays behind, empty, and every handle to it goes stale.
    pub fn stop(&mut self, id: usize)
        requires
            old(self).wf(),
        ensures
            final(self).wf(),
            id < old(self).slots_view().len() ==> final(self).slots_view() == old(
                self,
            ).slots_view().update(id as int, None) && final(self).summaries() == old(
                self,
            ).summaries().update(id as int, None),
            id >= old(self).slots_view().len() ==> final(self).slots_view() == old(
                self,
            ).slots_view() && final(self).summaries() == old(self).summaries(),
            !final(self).live(id),
    {
        let ghost s0 = self.summaries();
        if id < self.slots.len() {
            self.slots.set(id, None);
            proof {
                assert(self.summaries() =~= s0.update(id as int, None));
            }
        }
    }

    /// Reads the lobby behind a handle, if it is still running.
    pub fn lobby(&self, id: usize) -> (r: Option<&Lobby>)
        ensures
            self.live(id) ==> (r matches Some(l) && *l == self.lobby_at(id)),
            !self.live(id) ==> r is None,
    {
        if id < self.slots.len() {
            self.slots[id].as_ref()
        } else {
            None
        }
    }

    /// Delivers one message to the lobby behind `id`: one atomic step of
    /// that lobby's mailbox. `None` means the lobby is gone and nothing
    /// was delivered.
    pub fn deliver(&mut self, id: usize, msg: LobbyMessage) -> (r: Option<
        Result<LobbyResponse, LobbyError>,
    >)
        requires
            old(self).wf(),
        ensures
            final(self).wf(),
            !old(self).live(id) ==> r is None && final(self).slots_view() == old(self).slots_view()
                && final(self).summaries() == old(self).summaries(),
            old(self).live(id) ==> ({
                let step = spec_handle(old(self).lobby_at(id).summary(), msg);
                &&& r == Some(step.1)
                &&& final(self).live(id)
                &&& final(self).lobby_at(id).summary() == step.0
                &&& final(self).lobby_at(id).game_of() == old(self).lobby_at(id).game_of()
                &&& final(self).summaries() == old(self).summaries().update(
                    id as int,
                    Some(step.0),
                )
                &&& final(self).slots_view().len() == old(self).slots_view().len()
                &&& forall|j: int|
                    0 <= j < old(self).slots_view().len() && j != id
                        ==> final(self).slots_view()[j] == old(self).slots_view()[j]
            }),
    {
        if id >= self.slots.len() {
            return None;
        }
        let ghost v0 = self.slots@;
        let ghost s0 = self.summaries();
        let slot = self.slots.remove(id);
        match slot {
            None => {
                self.slots.insert(id, None);
                proof {
                    assert(self.slots@ =~= v0);
                    assert(self.summaries() =~= s0);
                }
                None
            },
            Some(mut lobby) => {
                let r = lobby.handle(msg);
                self.slots.insert(id, Some(lobby));
                proof {
                    assert(self.slots@ =~= v0.update(id as int, Some(lobby)));
                    assert(self.summaries() =~= s0.update(id as int, Some(lobby.summary())));
                }
                Some(r)
            },
        }
    }
}

} // verus!
