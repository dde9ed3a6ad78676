//! Delta synchronisation: what changed for each player since the last
//! snapshot, told as one event per changed field.

use crate::lobby::{members_of, Lobby, LobbyView};
use crate::player::{PlayerSyncState, Vec3};
use vstd::prelude::*;

verus! {

broadcast use vstd::std_specs::hash::group_hash_axioms;

/// Why a player was removed by the server.
#[derive(Clone, Copy, Debug, PartialEq, Eq, Structural)]
pub enum KickReason {
    /// The player was idle for longer than the timeout.
    Inactivity,
}

impl KickReason {
    /// The reason as it is written in a message.
    pub fn as_str(&self) -> (s: &'static str)
        ensures
            s@ == "inactivity"@,
    {
        "inactivity"
    }
}

/// What the server tells the clients of a lobby about its players.
#[derive(Debug)]
pub enum SyncEvent {
    HealthChanged { player_id: u32, health: u32 },
    AmmoChanged { player_id: u32, ammo: u32 },
    MaxAmmoChanged { player_id: u32, max_ammo: u32 },
    WeaponChanged { player_id: u32, weapon_id: u32 },
    ReloadStateChanged { player_id: u32, is_reloading: bool },
    PositionChanged { player_id: u32, position: Vec3, rotation: Vec3 },
    PlayerKilled {
        killer_id: u32,
        killer_name: String,
        victim_id: u32,
        victim_name: String,
        weapon_id: u32,
        weapon_name: String,
        killer_killstreak: u32,
    },
    PlayerRespawned { player_id: u32 },
    ScoreChanged { player_id: u32, score: u32, kills: u32, deaths: u32, killstreak: u32 },
    PlayerKicked { player_id: u32, reason: KickReason },
    InactivityWarning { player_id: u32, seconds_remaining: u64 },
}

/// Whether the score group differs between two snapshots.
pub open spec fn score_differs(a: PlayerSyncState, b: PlayerSyncState) -> bool {
    a.score != b.score || a.kills != b.kills || a.deaths != b.deaths || a.killstreak != b.killstreak
}

/// The events that tell how `cur` differs from `prev`, one per changed field
/// in the order health, ammunition, magazine size, weapon, reload state,
/// score group. A player without an earlier snapshot is told in full, except
/// that a reload state is only reported when a reload is running.
pub open spec fn field_events(prev: Option<PlayerSyncState>, cur: PlayerSyncState) -> Seq<
    SyncEvent,
> {
    let id = cur.player_id;
    let health = if prev is None || prev->Some_0.health != cur.health {
        seq![SyncEvent::HealthChanged { player_id: id, health: cur.health }]
    } else {
        Seq::empty()
    };
    let ammo = if prev is None || prev->Some_0.ammo != cur.ammo {
        seq![SyncEvent::AmmoChanged { player_id: id, ammo: cur.ammo }]
    } else {
        Seq::empty()
    };
    let max_ammo = if prev is None || prev->Some_0.max_ammo != cur.max_ammo {
        seq![SyncEvent::MaxAmmoChanged { player_id: id, max_ammo: cur.max_ammo }]
    } else {
        Seq::empty()
    };
    let weapon = if prev is None || prev->Some_0.weapon_id != cur.weapon_id {
        seq![SyncEvent::WeaponChanged { player_id: id, weapon_id: cur.weapon_id }]
    } else {
        Seq::empty()
    };
    let reload = if (prev is None && cur.is_reloading) || (prev is Some
        && prev->Some_0.is_reloading != cur.is_reloading) {
        seq![SyncEvent::ReloadStateChanged { player_id: id, is_reloading: cur.is_reloading }]
    } else {
        Seq::empty()
    };
    let score = if prev is None || score_differs(prev->Some_0, cur) {
        seq![
            SyncEvent::ScoreChanged {
                player_id: id,
                score: cur.score,
                kills: cur.kills,
                deaths: cur.deaths,
                killstreak: cur.killstreak,
            },
        ]
    } else {
        Seq::empty()
    };
    health + ammo + max_ammo + weapon + reload + score
}

/// The snapshot last synchronised for player `id`, if there is one.
pub open spec fn last_snapshot(v: LobbyView, id: u32) -> Option<PlayerSyncState> {
    if v.last_sync_state.contains_key(id) {
        Some(v.last_sync_state[id])
    } else {
        None
    }
}

/// The events due for player `id`: none for an id that is not in the lobby.
pub open spec fn player_events(v: LobbyView, id: u32) -> Seq<SyncEvent> {
    if v.players.contains_key(id) {
        field_events(last_snapshot(v, id), v.players[id].sync_state())
    } else {
        Seq::empty()
    }
}

/// The events due for the players `ids`, player by player in that order.
pub open spec fn events_for(v: LobbyView, ids: Seq<u32>) -> Seq<SyncEvent>
    decreases ids.len(),
{
    if ids.len() == 0 {
        Seq::empty()
    } else {
        events_for(v, ids.drop_last()) + player_events(v, ids.last())
    }
}

/// The lobby once the snapshots of the players in `ids` that are in the
/// lobby match their current state.
pub open spec fn synced(v: LobbyView, ids: Set<u32>) -> LobbyView {
    LobbyView {
        last_sync_state: Map::new(
            |id: u32|
                v.last_sync_state.contains_key(id) || (ids.contains(id) && v.players.contains_key(
                    id,
                )),
            |id: u32|
                if ids.contains(id) && v.players.contains_key(id) {
                    v.players[id].sync_state()
                } else {
                    v.last_sync_state[id]
                },
        ),
        ..v
    }
}

fn push_field_events(out: &mut Vec<SyncEvent>, prev: Option<PlayerSyncState>, cur: PlayerSyncState)
    ensures
        final(out)@ == old(out)@ + field_events(prev, cur),
{
    let id: u32 = cur.player_id;
    let ghost start = out@;
    let fresh: bool = prev.is_none();
    let was: PlayerSyncState = match prev {
        Some(p) => p,
        None => cur,
    };
    if fresh || was.health != cur.health {
        out.push(SyncEvent::HealthChanged { player_id: id, health: cur.health });
    }
    if fresh || was.ammo != cur.ammo {
        out.push(SyncEvent::AmmoChanged { player_id: id, ammo: cur.ammo });
    }
    if fresh || was.max_ammo != cur.max_ammo {
        out.push(SyncEvent::MaxAmmoChanged { player_id: id, max_ammo: cur.max_ammo });
    }
    if fresh || was.weapon_id != cur.weapon_id {
        out.push(SyncEvent::WeaponChanged { player_id: id, weapon_id: cur.weapon_id });
    }
    if (fresh && cur.is_reloading) || (!fresh && was.is_reloading != cur.is_reloading) {
        out.push(SyncEvent::ReloadStateChanged { player_id: id, is_reloading: cur.is_reloading });
    }
    if fresh || was.score != cur.score || was.kills != cur.kills || was.deaths != cur.deaths
        || was.killstreak != cur.killstreak {
        out.push(
            SyncEvent::ScoreChanged {
                player_id: id,
                score: cur.score,
                kills: cur.kills,
                deaths: cur.deaths,
                killstreak: cur.killstreak,
            },
        );
    }
    assert(out@ =~= start + field_events(prev, cur));
}

/// Tells what changed for every player marked as changed, and brings the
/// snapshots up to date.
///
/// The events are those of [`events_for`] for the marked players taken in
/// some order, each player once. Afterwards the snapshot of every marked
/// player of the lobby equals its current state. The marks themselves stay.
pub fn collect_dirty_events(lobby: &mut Lobby) -> (events: Vec<SyncEvent>)
    ensures
        exists|ids: Seq<u32>|
            ids.no_duplicates() && ids.to_set() == old(lobby)@.dirty_players && events@
                == events_for(old(lobby)@, ids),
        final(lobby)@ == synced(old(lobby)@, old(lobby)@.dirty_players),
        old(lobby)@.wf() ==> final(lobby)@.wf(),
{
    let ids = members_of(&lobby.dirty_players);
    let mut events: Vec<SyncEvent> = Vec::new();
    let mut i: usize = 0;
    assert(ids@.take(0) =~= Seq::<u32>::empty());
    assert(lobby@ =~= synced(old(lobby)@, ids@.take(0).to_set()));
    while i < ids.len()
        invariant
            0 <= i <= ids.len(),
            ids@.no_duplicates(),
            events@ == events_for(old(lobby)@, ids@.take(i as int)),
            lobby@ == synced(old(lobby)@, ids@.take(i as int).to_set()),
        decreases ids.len() - i,
    {
        let id: u32 = ids[i];
        proof {
            crate::collect::lemma_prefix_set_grows(ids@, i as int);
            assert(ids@.take(i + 1).drop_last() =~= ids@.take(i as int));
            assert(ids@.take(i + 1).last() == id);
        }
        let current: Option<PlayerSyncState> = match lobby.players.get(&id) {
            Some(p) => Some(p.to_sync_state()),
            None => None,
        };
        match current {
            None => {},
            Some(cur) => {
                let prev: Option<PlayerSyncState> = match lobby.last_sync_state.get(&id) {
                    Some(s) => Some(*s),
                    None => None,
                };
                push_field_events(&mut events, prev, cur);
                lobby.last_sync_state.insert(id, cur);
            },
        }
        assert(lobby@ =~= synced(old(lobby)@, ids@.take(i + 1).to_set()));
        i = i + 1;
    }
    proof {
        assert(ids@.take(ids@.len() as int) =~= ids@);
        assert(old(lobby)@.wf() ==> lobby@.wf());
    }
    events
}

} // verus!
