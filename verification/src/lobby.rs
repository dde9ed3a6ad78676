//! One match session: its players, the addresses they are reached at, the
//! set of players changed in the current tick and the last synchronised
//! snapshot of each.

use crate::player::{Endpoint, Player, PlayerSyncState};
use std::collections::{HashMap, HashSet};
use vstd::prelude::*;
use vstd::std_specs::iter::IteratorSpec;

verus! {

broadcast use vstd::std_specs::hash::group_hash_axioms;

/// A lobby. All four collections are keyed by player id.
pub struct Lobby {
    pub code: String,
    pub max_players: u32,
    pub scene: String,
    pub players: HashMap<u32, Player>,
    pub client_addresses: HashMap<u32, Endpoint>,
    pub dirty_players: HashSet<u32>,
    pub last_sync_state: HashMap<u32, PlayerSyncState>,
}

/// The mathematical content of a lobby.
#[verifier::ext_equal]
pub struct LobbyView {
    pub code: Seq<char>,
    pub max_players: u32,
    pub scene: Seq<char>,
    pub players: Map<u32, Player>,
    pub client_addresses: Map<u32, Endpoint>,
    pub dirty_players: Set<u32>,
    pub last_sync_state: Map<u32, PlayerSyncState>,
}

impl View for Lobby {
    type V = LobbyView;

    open spec fn view(&self) -> LobbyView {
        LobbyView {
            code: self.code@,
            max_players: self.max_players,
            scene: self.scene@,
            players: self.players@,
            client_addresses: self.client_addresses@,
            dirty_players: self.dirty_players@,
            last_sync_state: self.last_sync_state@,
        }
    }
}

impl LobbyView {
    /// The invariants a lobby keeps between operations: every stored player
    /// is well formed and stored under its own id, only players of the lobby
    /// have an address or are marked as changed, and the lobby holds no more
    /// players than it admits.
    pub open spec fn wf(self) -> bool {
        &&& forall|id: u32| #[trigger]
            self.players.contains_key(id) ==> self.players[id].wf() && self.players[id].id == id
        &&& self.client_addresses.dom().subset_of(self.players.dom())
        &&& self.dirty_players.subset_of(self.players.dom())
        &&& self.players.dom().finite()
        &&& self.players.dom().len() <= self.max_players
    }

    /// The lobby with `p` stored under `id` and `id` marked as changed.
    pub open spec fn put(self, id: u32, p: Player) -> LobbyView {
        LobbyView {
            players: self.players.insert(id, p),
            dirty_players: self.dirty_players.insert(id),
            ..self
        }
    }

    /// The lobby with `p` stored under `id`, nothing else touched.
    pub open spec fn store(self, id: u32, p: Player) -> LobbyView {
        LobbyView { players: self.players.insert(id, p), ..self }
    }

    /// The lobby with `id` marked as changed.
    pub open spec fn mark(self, id: u32) -> LobbyView {
        LobbyView { dirty_players: self.dirty_players.insert(id), ..self }
    }

    /// The lobby with `addr` bound to `id`.
    pub open spec fn bind(self, id: u32, addr: Endpoint) -> LobbyView {
        LobbyView { client_addresses: self.client_addresses.insert(id, addr), ..self }
    }

    /// The lobby without any trace of player `id`.
    pub open spec fn without(self, id: u32) -> LobbyView {
        LobbyView {
            players: self.players.remove(id),
            client_addresses: self.client_addresses.remove(id),
            dirty_players: self.dirty_players.remove(id),
            last_sync_state: self.last_sync_state.remove(id),
            ..self
        }
    }
}

impl Lobby {
    /// An empty lobby.
    pub fn new(code: String, max_players: u32, scene: String) -> (lobby: Lobby)
        ensures
            lobby@ == (LobbyView {
                code: code@,
                max_players,
                scene: scene@,
                players: Map::empty(),
                client_addresses: Map::empty(),
                dirty_players: Set::empty(),
                last_sync_state: Map::empty(),
            }),
            lobby@.wf(),
    {
        Lobby {
            code,
            max_players,
            scene,
            players: HashMap::new(),
            client_addresses: HashMap::new(),
            dirty_players: HashSet::new(),
            last_sync_state: HashMap::new(),
        }
    }

    /// Records that `player_id` changed in this tick.
    pub fn mark_dirty(&mut self, player_id: u32)
        ensures
            final(self)@ == old(self)@.mark(player_id),
    {
        self.dirty_players.insert(player_id);
    }

    /// Forgets which players changed.
    pub fn clear_dirty(&mut self)
        ensures
            final(self)@ == (LobbyView { dirty_players: Set::empty(), ..old(self)@ }),
            old(self)@.wf() ==> final(self)@.wf(),
    {
        self.dirty_players.clear();
    }
}

/// The keys of `m`, each exactly once, in the order the map yields them.
pub fn keys_of<V>(m: &HashMap<u32, V>) -> (keys: Vec<u32>)
    ensures
        keys@.no_duplicates(),
        keys@.to_set() == m@.dom(),
{
    let mut keys: Vec<u32> = Vec::new();
    let ghost all: Seq<&u32> = IteratorSpec::remaining(&m.keys());
    for k in it: m.keys()
        invariant
            it.seq() == all,
            keys@.len() == it.index(),
            forall|j: int| 0 <= j < keys@.len() ==> keys@[j] == *all[j],
    {
        keys.push(*k);
    }
    assert(keys@ =~= all.unref());
    keys
}

/// The members of `s`, each exactly once, in the order the set yields them.
pub fn members_of(s: &HashSet<u32>) -> (members: Vec<u32>)
    ensures
        members@.no_duplicates(),
        members@.to_set() == s@,
{
    let mut members: Vec<u32> = Vec::new();
    let ghost all: Seq<&u32> = IteratorSpec::remaining(&s.iter());
    for k in it: s.iter()
        invariant
            it.seq() == all,
            members@.len() == it.index(),
            forall|j: int| 0 <= j < members@.len() ==> members@[j] == *all[j],
    {
        members.push(*k);
    }
    assert(members@ =~= all.unref());
    members
}

} // verus!
