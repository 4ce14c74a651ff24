//! The process-wide directory from lobby name to lobby handle. The
//! directory arbitrates creation, listing and routing by name; it holds
//! only weak handles, so an entry whose lobby has terminated is stale, the
//! name is logically free again, and the stale entry is resolved lazily at
//! the next lookup rather than evicted eagerly.
use vstd::prelude::*;

use crate::actor::arena::LobbyArena;
use crate::actor::lobby::Lobby;
use crate::actor::lobby::LobbyError;
use crate::actor::lobby::LobbyMessage;
use crate::actor::lobby::LobbyResponse;
use crate::actor::lobby::LobbySummary;
use crate::actor::lobby::spec_handle;

verus! {

#[derive(Debug)]
pub enum LobbyManagerMessage {
    CreateLobby { name: String, creating_session: usize },
    ListLobbies,
    ToLobby { name: String, message: LobbyMessage },
}

#[derive(Debug, PartialEq, Eq)]
pub enum LobbyManagerResponse {
    CreatedLobby { lobby: usize },
    LobbiesList { lobbies: Vec<String> },
    LobbyResponse { response: Result<LobbyResponse, LobbyError>, lobby: usize, name: String },
}

#[derive(Debug, PartialEq, Eq)]
pub enum LobbyManagerError {
    LobbyNameTaken,
    LobbyDoesNotExist,
    MailboxError,
}

struct RegistryEntry {
    name: String,
    lobby: usize,
}

#[derive(Default)]
pub struct LobbyManager {
    lobbies: Vec<RegistryEntry>,
}

/// The index of the first entry carrying `name`.
pub open spec fn spec_find(entries: Seq<(Seq<char>, usize)>, name: Seq<char>) -> Option<int>
    decreases entries.len(),
{
    if entries.len() == 0 {
        None
    } else if entries[0].0 == name {
        Some(0)
    } else {
        match spec_find(entries.drop_first(), name) {
            Some(i) => Some(i + 1),
            None => None,
        }
    }
}

/// The handle `name` maps to, stale or not.
pub open spec fn spec_lookup(entries: Seq<(Seq<char>, usize)>, name: Seq<char>) -> Option<usize> {
    match spec_find(entries, name) {
        Some(i) => Some(entries[i].1),
        None => None,
    }
}

/// The handle `id` resolves to a running lobby in the arena `a`.
pub open spec fn reg_live(a: Seq<Option<LobbySummary>>, id: usize) -> bool {
    id < a.len() && a[id as int] is Some
}

/// The handle `name` maps to, after liveness resolution: a stale entry
/// reads as absent.
pub open spec fn spec_lookup_live(
    entries: Seq<(Seq<char>, usize)>,
    a: Seq<Option<LobbySummary>>,
    name: Seq<char>,
) -> Option<usize> {
    match spec_lookup(entries, name) {
        Some(id) => if reg_live(a, id) {
            Some(id)
        } else {
            None
        },
        None => None,
    }
}

/// No two entries carry the same name.
pub open spec fn names_unique(entries: Seq<(Seq<char>, usize)>) -> bool {
    forall|i: int, j: int|
        0 <= i < j < entries.len() ==> (#[trigger] entries[i]).0 != (#[trigger] entries[j]).0
}

/// Creating a lobby: refused while the name maps to a live lobby;
/// otherwise a lobby seeded with the creator is spawned at the arena's
/// next slot and the name is bound to it, reclaiming a stale entry in
/// place if one holds the name.
pub open spec fn spec_create_lobby(
    entries: Seq<(Seq<char>, usize)>,
    a: Seq<Option<LobbySummary>>,
    name: Seq<char>,
    creating_session: usize,
) -> (Seq<(Seq<char>, usize)>, Seq<Option<LobbySummary>>, Result<usize, LobbyManagerError>) {
    let found = spec_find(entries, name);
    if found matches Some(i) && reg_live(a, entries[i].1) {
        (entries, a, Err(LobbyManagerError::LobbyNameTaken))
    } else {
        let id = a.len() as usize;
        let seeded = LobbySummary {
            white_player: Some(creating_session),
            black_player: None,
            started: false,
        };
        let a2 = a.push(Some(seeded));
        let entries2 = match found {
            Some(i) => entries.update(i, (name, id)),
            None => entries.push((name, id)),
        };
        (entries2, a2, Ok(id))
    }
}

/// A found index is the first carrier of the name.
pub proof fn lemma_find_some(entries: Seq<(Seq<char>, usize)>, name: Seq<char>)
    requires
        spec_find(entries, name) is Some,
    ensures
        ({
            let i = spec_find(entries, name).unwrap();
            &&& 0 <= i < entries.len()
            &&& entries[i].0 == name
            &&& forall|k: int| 0 <= k < i ==> (#[trigger] entries[k]).0 != name
        }),
    decreases entries.len(),
{
    if entries.len() == 0 {
    } else if entries[0].0 == name {
    } else {
        lemma_find_some(entries.drop_first(), name);
        let i = spec_find(entries, name).unwrap();
        assert forall|k: int| 0 <= k < i implies (#[trigger] entries[k]).0 != name by {
            if k > 0 {
                assert(entries.drop_first()[k - 1] == entries[k]);
            }
        }
    }
}

/// The name is absent exactly when no entry carries it.
pub proof fn lemma_find_none(entries: Seq<(Seq<char>, usize)>, name: Seq<char>)
    requires
        spec_find(entries, name) is None,
    ensures
        forall|k: int| 0 <= k < entries.len() ==> (#[trigger] entries[k]).0 != name,
    decreases entries.len(),
{
    if entries.len() == 0 {
    } else {
        lemma_find_none(entries.drop_first(), name);
        assert forall|k: int| 0 <= k < entries.len() implies (#[trigger] entries[k]).0 != name by {
            if k > 0 {
                assert(entries.drop_first()[k - 1] == entries[k]);
            }
        }
    }
}

/// The first carrier of the name is what the search finds.
pub proof fn lemma_find_first(entries: Seq<(Seq<char>, usize)>, name: Seq<char>, i: int)
    requires
        0 <= i < entries.len(),
        entries[i].0 == name,
        forall|k: int| 0 <= k < i ==> (#[trigger] entries[k]).0 != name,
    ensures
        spec_find(entries, name) == Some(i),
    decreases entries.len(),
{
    if i == 0 {
    } else {
        assert(entries[0].0 != name);
        assert(entries.drop_first()[i - 1] == entries[i]);
        assert forall|k: int| 0 <= k < i - 1 implies (#[trigger] entries.drop_first()[k]).0
            != name by {
            assert(entries.drop_first()[k] == entries[k + 1]);
        }
        lemma_find_first(entries.drop_first(), name, i - 1);
    }
}

/// Appending an entry for a name that was absent makes the search find it
/// at the end.
pub proof fn lemma_find_push(entries: Seq<(Seq<char>, usize)>, name: Seq<char>, id: usize)
    requires
        spec_find(entries, name) is None,
    ensures
        spec_find(entries.push((name, id)), name) == Some(entries.len() as int),
{
    lemma_find_none(entries, name);
    let e2 = entries.push((name, id));
    assert(e2[entries.len() as int].0 == name);
    assert forall|k: int| 0 <= k < entries.len() implies (#[trigger] e2[k]).0 != name by {
        assert(e2[k] == entries[k]);
    }
    lemma_find_first(e2, name, entries.len() as int);
}

/// Appending an entry for one name leaves the search for another alone.
pub proof fn lemma_find_push_other(
    entries: Seq<(Seq<char>, usize)>,
    other: Seq<char>,
    x: (Seq<char>, usize),
)
    requires
        x.0 != other,
    ensures
        spec_find(entries.push(x), other) == spec_find(entries, other),
    decreases entries.len(),
{
    let e2 = entries.push(x);
    if entries.len() == 0 {
        assert(e2[0] == x);
        assert(e2.drop_first() =~= Seq::<(Seq<char>, usize)>::empty());
    } else {
        assert(e2[0] == entries[0]);
        assert(e2.drop_first() =~= entries.drop_first().push(x));
        lemma_find_push_other(entries.drop_first(), other, x);
    }
}

/// Rebinding the entry of one name leaves the search for another alone.
pub proof fn lemma_find_update_other(
    entries: Seq<(Seq<char>, usize)>,
    other: Seq<char>,
    i: int,
    x: (Seq<char>, usize),
)
    requires
        0 <= i < entries.len(),
        x.0 != other,
        entries[i].0 != other,
    ensures
        spec_find(entries.update(i, x), other) == spec_find(entries, other),
    decreases entries.len(),
{
    let e2 = entries.update(i, x);
    if i == 0 {
        assert(e2[0] == x);
        assert(e2.drop_first() =~= entries.drop_first());
    } else {
        assert(e2[0] == entries[0]);
        assert(e2.drop_first() =~= entries.drop_first().update(i - 1, x));
        lemma_find_update_other(entries.drop_first(), other, i - 1, x);
    }
}

/// Rebinding the found entry to another handle keeps it the one found.
pub proof fn lemma_find_update_same(entries: Seq<(Seq<char>, usize)>, name: Seq<char>, id: usize)
    requires
        spec_find(entries, name) is Some,
    ensures
        ({
            let i = spec_find(entries, name).unwrap();
            spec_find(entries.update(i, (name, id)), name) == Some(i)
        }),
{
    lemma_find_some(entries, name);
    let i = spec_find(entries, name).unwrap();
    let e2 = entries.update(i, (name, id));
    assert(e2[i].0 == name);
    assert forall|k: int| 0 <= k < i implies (#[trigger] e2[k]).0 != name by {
        assert(e2[k] == entries[k]);
    }
    lemma_find_first(e2, name, i);
}

impl LobbyManager {
    /// The directory as ordered name-to-handle pairs.
    pub closed spec fn entries(&self) -> Seq<(Seq<char>, usize)> {
        Seq::new(self.lobbies@.len(), |i: int| (self.lobbies@[i].name@, self.lobbies@[i].lobby))
    }

    pub open spec fn wf(&self) -> bool {
        names_unique(self.entries())
    }

    pub fn new() -> (m: LobbyManager)
        ensures
            m.wf(),
            m.entries() == Seq::<(Seq<char>, usize)>::empty(),
    {
        let m = LobbyManager { lobbies: Vec::new() };
        proof {
            assert(m.entries() =~= Seq::<(Seq<char>, usize)>::empty());
        }
        m
    }

    /// The index of the entry carrying `name`, if any.
    fn find_entry(&self, name: &String) -> (r: Option<usize>)
        ensures
            match r {
                Some(i) => spec_find(self.entries(), name@) == Some(i as int),
                None => spec_find(self.entries(), name@) is None,
            },
    {
        let mut i: usize = 0;
        while i < self.lobbies.len()
            invariant
                i <= self.lobbies@.len(),
                forall|k: int| 0 <= k < i ==> (#[trigger] self.entries()[k]).0 != name@,
            decreases self.lobbies@.len() - i,
        {
            if self.lobbies[i].name == *name {
                proof {
                    assert(self.entries()[i as int].0 == name@);
                    lemma_find_first(self.entries(), name@, i as int);
                }
                return Some(i);
            }
            proof {
                assert(self.entries()[i as int].0 == self.lobbies@[i as int].name@);
            }
            i = i + 1;
        }
        proof {
            if spec_find(self.entries(), name@) is Some {
                lemma_find_some(self.entries(), name@);
            }
        }
        None
    }

    /// Resolves `name` to a live lobby handle; a missing or stale entry is
    /// the same answer, the lobby does not exist.
    pub fn get_lobby(&self, name: &String, arena: &LobbyArena) -> (r: Result<
        usize,
        LobbyManagerError,
    >)
        ensures
            match spec_lookup_live(self.entries(), arena.summaries(), name@) {
                Some(id) => r == Ok::<usize, LobbyManagerError>(id),
                None => r == Err::<usize, LobbyManagerError>(LobbyManagerError::LobbyDoesNotExist),
            },
    {
        match self.find_entry(name) {
            None => Err(LobbyManagerError::LobbyDoesNotExist),
            Some(i) => {
                proof {
                    lemma_find_some(self.entries(), name@);
                }
                let id = self.lobbies[i].lobby;
                if arena.is_live(id) {
                    Ok(id)
                } else {
                    Err(LobbyManagerError::LobbyDoesNotExist)
                }
            },
        }
    }

    /// Creates and registers a lobby under `name`, seeded with the
    /// creating session; refused while the name maps to a live lobby.
    pub fn create_lobby(&mut self, name: String, creating_session: usize, arena: &mut LobbyArena) -> (r:
        Result<usize, LobbyManagerError>)
        requires
            old(self).wf(),
            old(arena).wf(),
        ensures
            final(self).wf(),
            final(arena).wf(),
            (final(self).entries(), final(arena).summaries(), r) == spec_create_lobby(
                old(self).entries(),
                old(arena).summaries(),
                name@,
                creating_session,
            ),
            r is Err ==> final(arena).slots_view() == old(arena).slots_view(),
            r is Ok ==> final(arena).slots_view().len() == old(arena).slots_view().len() + 1
                && (forall|j: int|
                0 <= j < old(arena).slots_view().len() ==> final(arena).slots_view()[j] == old(
                    arena,
                ).slots_view()[j]),
    {
        let ghost nm = name@;
        let found = self.find_entry(&name);
        if let Some(i) = found {
            proof {
                lemma_find_some(self.entries(), nm);
            }
            let id = self.lobbies[i].lobby;
            if arena.is_live(id) {
                return Err(LobbyManagerError::LobbyNameTaken);
            }
            let ghost e0 = self.entries();
            let new_id = arena.spawn(Lobby::new(creating_session));
            proof {
                lemma_find_update_same(e0, nm, new_id);
            }
            self.lobbies.set(i, RegistryEntry { name, lobby: new_id });
            proof {
                assert(self.entries() =~= e0.update(i as int, (nm, new_id)));
            }
            Ok(new_id)
        } else {
            proof {
                lemma_find_none(self.entries(), nm);
            }
            let ghost e0 = self.entries();
            let new_id = arena.spawn(Lobby::new(creating_session));
            proof {
                lemma_find_push(e0, nm, new_id);
            }
            self.lobbies.push(RegistryEntry { name, lobby: new_id });
            proof {
                assert(self.entries() =~= e0.push((nm, new_id)));
            }
            Ok(new_id)
        }
    }

    /// The registered names, in insertion order, stale entries included:
    /// cleanup is lazy and happens at lookup, not here.
    pub fn list_lobbies(&self) -> (r: Vec<String>)
        ensures
            r@.len() == self.entries().len(),
            forall|i: int| 0 <= i < r@.len() ==> (#[trigger] r@[i])@ == self.entries()[i].0,
    {
        let mut names: Vec<String> = Vec::new();
        let mut i: usize = 0;
        while i < self.lobbies.len()
            invariant
                i <= self.lobbies@.len(),
                names@.len() == i,
                forall|k: int| 0 <= k < i ==> (#[trigger] names@[k])@ == self.entries()[k].0,
            decreases self.lobbies@.len() - i,
        {
            names.push(self.lobbies[i].name.clone());
            i = i + 1;
        }
        names
    }

    /// One mailbox step of the directory actor: create, list, or route to
    /// a lobby by name and relay what it answered.
    pub fn handle(&mut self, msg: LobbyManagerMessage, arena: &mut LobbyArena) -> (r: Result<
        LobbyManagerResponse,
        LobbyManagerError,
    >)
        requires
            old(self).wf(),
            old(arena).wf(),
        ensures
            final(self).wf(),
            final(arena).wf(),
            ({
                let e0 = old(self).entries();
                let a0 = old(arena).summaries();
                match msg {
                    LobbyManagerMessage::CreateLobby { name, creating_session } => {
                        let step = spec_create_lobby(e0, a0, name@, creating_session);
                        &&& final(self).entries() == step.0
                        &&& final(arena).summaries() == step.1
                        &&& match step.2 {
                            Ok(id) => r == Ok::<LobbyManagerResponse, LobbyManagerError>(
                                LobbyManagerResponse::CreatedLobby { lobby: id },
                            ),
                            Err(e) => r == Err::<LobbyManagerResponse, LobbyManagerError>(e),
                        }
                    },
                    LobbyManagerMessage::ListLobbies => {
                        &&& final(self).entries() == e0
                        &&& final(arena).summaries() == a0
                        &&& r matches Ok(LobbyManagerResponse::LobbiesList { lobbies })
                            && lobbies@.len() == e0.len() && (forall|i: int|
                            0 <= i < e0.len() ==> (#[trigger] lobbies@[i])@ == e0[i].0)
                    },
                    LobbyManagerMessage::ToLobby { name, message } => match spec_lookup_live(
                        e0,
                        a0,
                        name@,
                    ) {
                        None => final(self).entries() == e0 && final(arena).summaries() == a0 && r
                            == Err::<LobbyManagerResponse, LobbyManagerError>(
                            LobbyManagerError::LobbyDoesNotExist,
                        ),
                        Some(id) => {
                            let step = spec_handle(a0[id as int].unwrap(), message);
                            &&& final(self).entries() == e0
                            &&& final(arena).summaries() == a0.update(id as int, Some(step.0))
                            &&& r matches Ok(LobbyManagerResponse::LobbyResponse {
                                response,
                                lobby,
                                name: rname,
                            }) && response == step.1 && lobby == id && rname == name
                        },
                    },
                }
            }),
    {
        match msg {
            LobbyManagerMessage::CreateLobby { name, creating_session } => {
                match self.create_lobby(name, creating_session, arena) {
                    Ok(id) => Ok(LobbyManagerResponse::CreatedLobby { lobby: id }),
                    Err(e) => Err(e),
                }
            },
            LobbyManagerMessage::ListLobbies => {
                let lobby_names = self.list_lobbies();
                Ok(LobbyManagerResponse::LobbiesList { lobbies: lobby_names })
            },
            LobbyManagerMessage::ToLobby { name, message } => {
                let id = match self.get_lobby(&name, arena) {
                    Ok(id) => id,
                    Err(e) => {
                        return Err(e);
                    },
                };
                match arena.deliver(id, message) {
                    Some(response) => Ok(LobbyManagerResponse::LobbyResponse {
                        response,
                        lobby: id,
                        name,
                    }),
                    None => Err(LobbyManagerError::MailboxError),
                }
            },
        }
    }
}

/// Law: a name that maps to a live lobby is never rebound: whatever
/// creation runs next, under whatever name and for whatever session, the
/// live binding comes out of it unchanged, and its lobby still runs.
pub proof fn lemma_create_preserves_live_bindings(
    entries: Seq<(Seq<char>, usize)>,
    a: Seq<Option<LobbySummary>>,
    name: Seq<char>,
    creating_session: usize,
    other: Seq<char>,
)
    requires
        a.len() <= usize::MAX,
        spec_lookup(entries, other) matches Some(id) && reg_live(a, id),
    ensures
        ({
            let (e1, a1, r1) = spec_create_lobby(entries, a, name, creating_session);
            &&& spec_lookup(e1, other) == spec_lookup(entries, other)
            &&& reg_live(a1, spec_lookup(entries, other).unwrap())
        }),
{
    let found = spec_find(entries, name);
    lemma_find_some(entries, other);
    let oi = spec_find(entries, other).unwrap();
    if found matches Some(i) && reg_live(a, entries[i].1) {
    } else {
        assert(other != name);
        let id = a.len() as usize;
        let (e1, a1, r1) = spec_create_lobby(entries, a, name, creating_session);
        match found {
            Some(i) => {
                lemma_find_some(entries, name);
                assert(entries[i].0 == name && i != oi);
                lemma_find_update_other(entries, other, i, (name, id));
                assert(e1[oi] == entries[oi]);
            },
            None => {
                lemma_find_push_other(entries, other, (name, id));
                assert(e1[oi] == entries[oi]);
            },
        }
        assert(a1[entries[oi].1 as int] == a[entries[oi].1 as int]);
    }
}

/// Law: creating the same name twice, by whichever two sessions: the
/// first creation succeeds; the second fails with name-taken, changes
/// neither the directory nor any lobby, and the name still maps to the
/// lobby the first creation registered.
pub proof fn lemma_create_lobby_twice(
    entries: Seq<(Seq<char>, usize)>,
    a: Seq<Option<LobbySummary>>,
    name: Seq<char>,
    s1: usize,
    s2: usize,
)
    requires
        a.len() <= usize::MAX,
        match spec_find(entries, name) {
            Some(i) => !reg_live(a, entries[i].1),
            None => true,
        },
    ensures
        ({
            let (e1, a1, r1) = spec_create_lobby(entries, a, name, s1);
            let (e2, a2, r2) = spec_create_lobby(e1, a1, name, s2);
            &&& r1 == Ok::<usize, LobbyManagerError>(a.len() as usize)
            &&& r2 == Err::<usize, LobbyManagerError>(LobbyManagerError::LobbyNameTaken)
            &&& e2 == e1
            &&& a2 == a1
            &&& spec_lookup(e1, name) == Some(a.len() as usize)
            &&& reg_live(a1, a.len() as usize)
        }),
{
    let id = a.len() as usize;
    let (e1, a1, r1) = spec_create_lobby(entries, a, name, s1);
    match spec_find(entries, name) {
        Some(i) => {
            lemma_find_some(entries, name);
            lemma_find_update_same(entries, name, id);
            assert(e1[i].1 == id);
        },
        None => {
            lemma_find_push(entries, name, id);
            assert(e1[entries.len() as int].1 == id);
        },
    }
    assert(reg_live(a1, id));
}

} // verus!
