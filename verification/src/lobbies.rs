//! Membership of a lobby: joining, leaving, moving, address binding and the
//! supervision of idle players.

use crate::collect::{
    gathering, lemma_gathering_end, lemma_gathering_start, lemma_gathering_step,
    lemma_prefix_set_grows,
};
use crate::error::GameError;
use crate::lobby::{keys_of, Lobby, LobbyView};
use crate::player::{Endpoint, Player, Vec3, BOT_PLAYER_ID};
use crate::weapons::WeaponDb;
use vstd::prelude::*;

verus! {

broadcast use vstd::std_specs::hash::group_hash_axioms;

/// Replacing a player of the lobby by a well-formed player with the same id
/// keeps the lobby well formed, whether or not the player is marked.
pub proof fn lemma_put_keeps_wf(v: LobbyView, id: u32, p: Player)
    requires
        v.wf(),
        v.players.contains_key(id),
        p.wf(),
        p.id == id,
    ensures
        v.put(id, p).wf(),
        v.store(id, p).wf(),
{
    assert(v.players.dom().insert(id) =~= v.players.dom());
    assert(v.put(id, p).players.dom() =~= v.players.dom());
    assert(v.store(id, p).players.dom() =~= v.players.dom());
    assert forall|k: u32| #[trigger] v.put(id, p).players.contains_key(k) implies v.put(
        id,
        p,
    ).players[k].wf() && v.put(id, p).players[k].id == k by {
        if k != id {
            assert(v.players.contains_key(k));
        }
    }
    assert forall|k: u32| #[trigger] v.store(id, p).players.contains_key(k) implies v.store(
        id,
        p,
    ).players[k].wf() && v.store(id, p).players[k].id == k by {
        if k != id {
            assert(v.players.contains_key(k));
        }
    }
}

/// Checks that `lobby` is the lobby that `code` names. The lobby is never
/// changed.
pub fn create_lobby(lobby: &mut Lobby, code: String, _max_players: u32, _scene: String) -> (r:
    Result<(), GameError>)
    ensures
        final(lobby)@ == old(lobby)@,
        old(lobby)@.code == code@ ==> r is Ok,
        old(lobby)@.code != code@ ==> r == Err::<(), GameError>(GameError::LobbyCodeMismatch),
{
    if lobby.code != code {
        return Err(GameError::LobbyCodeMismatch);
    }
    Ok(())
}

/// Admits a player at time `now`.
///
/// The checks come in this order: a full lobby, an id already present, a
/// starting weapon missing from the catalog. On success the player is stored
/// fresh (full health, a full magazine of the starting weapon, spawn
/// position) and marked as changed; on failure nothing changes.
pub fn add_player(
    lobby: &mut Lobby,
    player_id: u32,
    name: String,
    default_weapon_id: u32,
    weapon_data: &WeaponDb,
    now: u64,
) -> (r: Result<(), GameError>)
    ensures
        r == add_player_result(old(lobby)@, player_id, default_weapon_id, weapon_data@),
        r is Err ==> final(lobby)@ == old(lobby)@,
        r is Ok ==> final(lobby)@ == old(lobby)@.put(
            player_id,
            Player::fresh(player_id, name, default_weapon_id, weapon_data@[default_weapon_id].ammo, now),
        ),
        old(lobby)@.wf() ==> final(lobby)@.wf(),
{
    if lobby.players.len() >= lobby.max_players as usize {
        return Err(GameError::LobbyFull);
    }
    if lobby.players.contains_key(&player_id) {
        return Err(GameError::PlayerExists);
    }
    let ammo: u32 = match weapon_data.get(default_weapon_id) {
        Some(weapon) => weapon.ammo,
        None => {
            return Err(GameError::InvalidDefaultWeapon);
        },
    };
    let player = Player::new(player_id, name, default_weapon_id, ammo, now);
    lobby.players.insert(player_id, player);
    lobby.mark_dirty(player_id);
    proof {
        if old(lobby)@.wf() {
            assert forall|k: u32| #[trigger] lobby@.players.contains_key(k) implies lobby@.players[k].wf()
                && lobby@.players[k].id == k by {
                if k != player_id {
                    assert(old(lobby)@.players.contains_key(k));
                }
            }
            assert(lobby@.players.dom() =~= old(lobby)@.players.dom().insert(player_id));
        }
    }
    Ok(())
}

/// What `add_player` answers on a given lobby.
pub open spec fn add_player_result(
    v: LobbyView,
    player_id: u32,
    weapon_id: u32,
    weapons: Map<u32, crate::weapons::Weapon>,
) -> Result<(), GameError> {
    if v.players.dom().len() >= v.max_players {
        Err(GameError::LobbyFull)
    } else if v.players.contains_key(player_id) {
        Err(GameError::PlayerExists)
    } else if !weapons.contains_key(weapon_id) {
        Err(GameError::InvalidDefaultWeapon)
    } else {
        Ok(())
    }
}

/// Removes every trace of a player: the player itself, its address, its
/// snapshot and its mark in the set of changed players. Removing an unknown
/// id changes nothing.
pub fn remove_player(lobby: &mut Lobby, player_id: u32)
    ensures
        final(lobby)@ == old(lobby)@.without(player_id),
        old(lobby)@.wf() ==> final(lobby)@.wf(),
{
    lobby.players.remove(&player_id);
    lobby.client_addresses.remove(&player_id);
    lobby.last_sync_state.remove(&player_id);
    lobby.dirty_players.remove(&player_id);
    proof {
        assert(lobby@ =~= old(lobby)@.without(player_id));
        if old(lobby)@.wf() {
            assert forall|k: u32| #[trigger] lobby@.players.contains_key(k) implies lobby@.players[k].wf()
                && lobby@.players[k].id == k by {
                assert(old(lobby)@.players.contains_key(k));
            }
            assert(lobby@.players.dom() =~= old(lobby)@.players.dom().remove(player_id));
        }
    }
}

/// The player after moving to `position`, facing `rotation`, at time `now`.
pub open spec fn moved(p: Player, position: Vec3, rotation: Vec3, now: u64) -> Player {
    Player { position, rotation, last_update: now, ..p }
}

/// Overwrites a player's position and rotation, refreshes its activity
/// timestamp and marks it as changed. Fails, changing nothing, exactly when
/// the player is unknown.
pub fn update_position(
    lobby: &mut Lobby,
    player_id: u32,
    position: Vec3,
    rotation: Vec3,
    now: u64,
) -> (r: Result<(), GameError>)
    ensures
        !old(lobby)@.players.contains_key(player_id) ==> r == Err::<(), GameError>(
            GameError::PlayerNotFound,
        ) && final(lobby)@ == old(lobby)@,
        old(lobby)@.players.contains_key(player_id) ==> r is Ok && final(lobby)@ == old(lobby)@.put(
            player_id,
            moved(old(lobby)@.players[player_id], position, rotation, now),
        ),
        old(lobby)@.wf() ==> final(lobby)@.wf(),
{
    match lobby.players.remove(&player_id) {
        None => {
            assert(lobby@ =~= old(lobby)@);
            Err(GameError::PlayerNotFound)
        },
        Some(mut player) => {
            player.position = position;
            player.rotation = rotation;
            player.last_update = now;
            proof {
                if old(lobby)@.wf() {
                    lemma_put_keeps_wf(old(lobby)@, player_id, player);
                }
            }
            lobby.players.insert(player_id, player);
            lobby.dirty_players.insert(player_id);
            assert(lobby@ =~= old(lobby)@.put(
                player_id,
                moved(old(lobby)@.players[player_id], position, rotation, now),
            ));
            Ok(())
        },
    }
}

/// Binds `addr` to a player of the lobby, replacing an earlier binding.
/// Fails, changing nothing, exactly when the player is unknown.
pub fn set_player_address(lobby: &mut Lobby, player_id: u32, addr: Endpoint) -> (r: Result<
    (),
    GameError,
>)
    ensures
        !old(lobby)@.players.contains_key(player_id) ==> r == Err::<(), GameError>(
            GameError::PlayerNotFound,
        ) && final(lobby)@ == old(lobby)@,
        old(lobby)@.players.contains_key(player_id) ==> r is Ok && final(lobby)@ == old(lobby)@.bind(
            player_id,
            addr,
        ),
        old(lobby)@.wf() ==> final(lobby)@.wf(),
{
    if !lobby.players.contains_key(&player_id) {
        return Err(GameError::PlayerNotFound);
    }
    lobby.client_addresses.insert(player_id, addr);
    Ok(())
}

/// Milliseconds between the player's last activity and `now`.
pub open spec fn idle_ms(p: Player, now: u64) -> int {
    now - p.last_update
}

/// Whether player `id` has been idle for longer than `timeout_secs`
/// seconds. The calibration bot never is, nor a player whose last activity
/// lies after `now`.
pub open spec fn expired(id: u32, p: Player, timeout_secs: u64, now: u64) -> bool {
    id != BOT_PLAYER_ID && now >= p.last_update && idle_ms(p, now) > timeout_secs * 1000
}

/// The idle time, in milliseconds, beyond which a warning is due: the given
/// thousandths of the timeout.
pub open spec fn warning_after_ms(timeout_secs: u64, warning_permille: u32) -> int {
    timeout_secs * warning_permille
}

/// Whether player `id` is to be warned now: idle for longer than the warning
/// threshold, not yet for longer than the timeout, and not warned before.
pub open spec fn warning_due(
    id: u32,
    p: Player,
    timeout_secs: u64,
    warning_permille: u32,
    now: u64,
) -> bool {
    &&& id != BOT_PLAYER_ID
    &&& now >= p.last_update
    &&& idle_ms(p, now) <= timeout_secs * 1000
    &&& idle_ms(p, now) > warning_after_ms(timeout_secs, warning_permille)
    &&& p.warned_at is None
}

/// The players of `v` that have timed out at `now`.
pub open spec fn expired_players(v: LobbyView, timeout_secs: u64, now: u64) -> Set<u32> {
    Set::new(|id: u32| v.players.contains_key(id) && expired(id, v.players[id], timeout_secs, now))
}

/// The players of `v` that are to be warned at `now`.
pub open spec fn players_to_warn(
    v: LobbyView,
    timeout_secs: u64,
    warning_permille: u32,
    now: u64,
) -> Set<u32> {
    Set::new(
        |id: u32|
            v.players.contains_key(id) && warning_due(
                id,
                v.players[id],
                timeout_secs,
                warning_permille,
                now,
            ),
    )
}

/// The lobby without any trace of the players in `ids`.
pub open spec fn without_all(v: LobbyView, ids: Set<u32>) -> LobbyView {
    LobbyView {
        players: v.players.remove_keys(ids),
        client_addresses: v.client_addresses.remove_keys(ids),
        dirty_players: v.dirty_players.difference(ids),
        last_sync_state: v.last_sync_state.remove_keys(ids),
        ..v
    }
}

/// The lobby after the players in `ids` have been warned at `now`.
pub open spec fn warned(v: LobbyView, ids: Set<u32>, now: u64) -> LobbyView {
    LobbyView {
        players: Map::new(
            |id: u32| v.players.contains_key(id),
            |id: u32|
                if ids.contains(id) {
                    Player { warned_at: Some(now), ..v.players[id] }
                } else {
                    v.players[id]
                },
        ),
        ..v
    }
}

/// The lobby after inactivity supervision at `now`: timed-out players are
/// gone, players due a warning carry `now` as the time they were warned.
pub open spec fn supervised(
    v: LobbyView,
    timeout_secs: u64,
    warning_permille: u32,
    now: u64,
) -> LobbyView {
    warned(
        without_all(v, expired_players(v, timeout_secs, now)),
        players_to_warn(v, timeout_secs, warning_permille, now),
        now,
    )
}

/// Supervises idle players at time `now`.
///
/// A player whose last activity lies more than `timeout_secs` seconds back
/// is removed as by [`remove_player`]. A player idle for more than
/// `warning_permille` thousandths of the timeout, but not yet timed out and
/// not warned before, has `now` recorded as the time of its warning. Idle
/// time is compared to the millisecond. The calibration bot and players
/// whose last activity lies in the future are left alone. Answers the
/// removed and the warned ids, each list without repetition and in no
/// particular order.
pub fn cleanup_inactive(lobby: &mut Lobby, timeout_secs: u64, warning_permille: u32, now: u64) -> (r:
    (Vec<u32>, Vec<u32>))
    ensures
        r.0@.no_duplicates(),
        r.0@.to_set() == expired_players(old(lobby)@, timeout_secs, now),
        r.1@.no_duplicates(),
        r.1@.to_set() == players_to_warn(old(lobby)@, timeout_secs, warning_permille, now),
        final(lobby)@ == supervised(old(lobby)@, timeout_secs, warning_permille, now),
        old(lobby)@.wf() ==> final(lobby)@.wf(),
{
    let keys = keys_of(&lobby.players);
    let mut inactive: Vec<u32> = Vec::new();
    let mut to_warn: Vec<u32> = Vec::new();
    let ghost gone = expired_players(old(lobby)@, timeout_secs, now);
    let ghost due = players_to_warn(old(lobby)@, timeout_secs, warning_permille, now);
    assert(timeout_secs as u128 * warning_permille as u128 <= 0xffff_ffff_ffff_ffff * 0xffff_ffff)
        by (nonlinear_arith)
        requires
            timeout_secs <= 0xffff_ffff_ffff_ffff,
            warning_permille <= 0xffff_ffff,
    ;
    let threshold: u128 = timeout_secs as u128 * warning_permille as u128;
    let limit: u128 = timeout_secs as u128 * 1000;
    let mut i: usize = 0;
    proof {
        lemma_gathering_start(keys@, gone);
        lemma_gathering_start(keys@, due);
    }
    while i < keys.len()
        invariant
            keys@.to_set() == old(lobby)@.players.dom(),
            lobby@ == old(lobby)@,
            gone == expired_players(old(lobby)@, timeout_secs, now),
            due == players_to_warn(old(lobby)@, timeout_secs, warning_permille, now),
            threshold == warning_after_ms(timeout_secs, warning_permille),
            limit == timeout_secs * 1000,
            gathering(keys@, i as int, inactive@, gone),
            gathering(keys@, i as int, to_warn@, due),
        decreases keys.len() - i,
    {
        let id: u32 = keys[i];
        proof {
            lemma_gathering_step(keys@, i as int, inactive@, gone);
            lemma_gathering_step(keys@, i as int, to_warn@, due);
            assert(keys@.to_set().contains(keys@[i as int]));
        }
        match lobby.players.get(&id) {
            None => {},
            Some(p) => {
                if id != BOT_PLAYER_ID && now >= p.last_update {
                    let elapsed: u128 = (now - p.last_update) as u128;
                    if elapsed > limit {
                        inactive.push(id);
                    } else if elapsed > threshold && p.warned_at.is_none() {
                        to_warn.push(id);
                    }
                }
            },
        }
        i = i + 1;
    }
    proof {
        lemma_gathering_end(keys@, inactive@, gone);
        lemma_gathering_end(keys@, to_warn@, due);
        assert(lobby@ =~= without_all(old(lobby)@, inactive@.take(0).to_set()));
    }
    let mut j: usize = 0;
    while j < inactive.len()
        invariant
            0 <= j <= inactive.len(),
            lobby@ == without_all(old(lobby)@, inactive@.take(j as int).to_set()),
            old(lobby)@.wf() ==> lobby@.wf(),
        decreases inactive.len() - j,
    {
        remove_player(lobby, inactive[j]);
        proof {
            lemma_prefix_set_grows(inactive@, j as int);
            assert(lobby@ =~= without_all(old(lobby)@, inactive@.take(j + 1).to_set()));
        }
        j = j + 1;
    }
    let ghost cleared = without_all(old(lobby)@, gone);
    proof {
        assert(inactive@.take(inactive@.len() as int) =~= inactive@);
        assert(lobby@ =~= warned(cleared, to_warn@.take(0).to_set(), now));
    }
    let mut k: usize = 0;
    while k < to_warn.len()
        invariant
            0 <= k <= to_warn.len(),
            to_warn@.no_duplicates(),
            to_warn@.to_set() == due,
            due == players_to_warn(old(lobby)@, timeout_secs, warning_permille, now),
            gone == expired_players(old(lobby)@, timeout_secs, now),
            cleared == without_all(old(lobby)@, gone),
            lobby@ == warned(cleared, to_warn@.take(k as int).to_set(), now),
            old(lobby)@.wf() ==> lobby@.wf(),
        decreases to_warn.len() - k,
    {
        let id: u32 = to_warn[k];
        let ghost before = lobby@;
        proof {
            lemma_prefix_set_grows(to_warn@, k as int);
            assert(to_warn@.to_set().contains(to_warn@[k as int]));
            assert(due.contains(id));
            assert(!gone.contains(id));
            assert(cleared.players.contains_key(id));
        }
        match lobby.players.remove(&id) {
            None => {},
            Some(mut player) => {
                player.warned_at = Some(now);
                proof {
                    if old(lobby)@.wf() {
                        lemma_put_keeps_wf(before, id, player);
                    }
                }
                lobby.players.insert(id, player);
            },
        }
        assert(lobby@ =~= warned(cleared, to_warn@.take(k + 1).to_set(), now));
        k = k + 1;
    }
    proof {
        assert(to_warn@.take(to_warn@.len() as int) =~= to_warn@);
    }
    (inactive, to_warn)
}

} // verus!
