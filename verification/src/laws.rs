//! Laws of the rules, stated over the same transitions that the contracts
//! of the rules use.

use crate::error::GameError;
use crate::fanout::{addresses_in_order, reaches, Audience};
use crate::lobbies::{
    expired, expired_players, lemma_put_keeps_wf, moved, players_to_warn, supervised, warning_due,
};
use crate::lobby::LobbyView;
use crate::logic::{
    after_kill, credited, deadline, fired, gate_open, kill_refusal, kill_score, reload_done,
    reload_outcome, reloaded, reloading_until, reloads_due, respawns_due, revived, shoot_outcome,
    slain,
};
use crate::player::{Endpoint, Player, Vec3, RESPAWN_DELAY_MS};
use crate::weapons::Weapon;
use vstd::prelude::*;

verus! {

/// In a well-formed lobby every player's health and ammunition lie between
/// zero and their maxima, a player reloads exactly when a reload deadline is
/// set, and a player is dead exactly when its health is zero and a respawn
/// is scheduled.
pub proof fn lemma_player_invariants(v: LobbyView, id: u32)
    requires
        v.wf(),
        v.players.contains_key(id),
    ensures
        0 <= v.players[id].current_health <= v.players[id].max_health,
        0 <= v.players[id].current_ammo <= v.players[id].max_ammo,
        v.players[id].is_reloading <==> v.players[id].reload_end_time is Some,
        v.players[id].is_dead <==> (v.players[id].current_health == 0
            && v.players[id].respawn_time is Some),
{
}

/// In a well-formed lobby only players of the lobby have an address, only
/// players of the lobby are marked as changed, and there are no more
/// players than the lobby admits.
pub proof fn lemma_lobby_invariants(v: LobbyView, id: u32)
    requires
        v.wf(),
    ensures
        v.client_addresses.contains_key(id) ==> v.players.contains_key(id),
        v.dirty_players.contains(id) ==> v.players.contains_key(id),
        v.players.dom().len() <= v.max_players,
{
    if v.client_addresses.contains_key(id) {
        assert(v.client_addresses.dom().contains(id));
    }
}

/// The player after trying to shoot at each of `times` in turn, and the
/// number of shots that went off.
pub open spec fn after_attempts(p: Player, weapons: Map<u32, Weapon>, times: Seq<u64>) -> (Player, nat)
    decreases times.len(),
{
    if times.len() == 0 {
        (p, 0)
    } else {
        let (q, n) = after_attempts(p, weapons, times.drop_last());
        if shoot_outcome(q, weapons, times.last()) == Ok::<bool, GameError>(true) {
            (fired(q, times.last()), n + 1)
        } else {
            (q, n)
        }
    }
}

proof fn lemma_attempts(p: Player, weapons: Map<u32, Weapon>, times: Seq<u64>)
    requires
        times.len() > 0,
        forall|i: int, j: int| 0 <= i <= j < times.len() ==> times[i] <= times[j],
        weapons.contains_key(p.current_weapon_id),
    ensures
        ({
            let (q, n) = after_attempts(p, weapons, times);
            let rate = weapons[p.current_weapon_id].fire_rate_mhz;
            &&& q.current_weapon_id == p.current_weapon_id
            &&& n >= 1 ==> times[0] <= q.last_shot_time <= times.last() && (n - 1) * 1_000_000 <= (
            q.last_shot_time - times[0]) * rate
        }),
    decreases times.len(),
{
    let rate = weapons[p.current_weapon_id].fire_rate_mhz as int;
    let t = times.last() as int;
    let t0 = times[0] as int;
    let earlier = times.drop_last();
    let (q, n) = after_attempts(p, weapons, earlier);
    if earlier.len() > 0 {
        assert forall|i: int, j: int| 0 <= i <= j < earlier.len() implies earlier[i] <= earlier[j] by {
            assert(earlier[i] == times[i] && earlier[j] == times[j]);
        }
        lemma_attempts(p, weapons, earlier);
        assert(earlier[0] == times[0]);
        assert(earlier.last() == times[times.len() - 2]);
    }
    if shoot_outcome(q, weapons, times.last()) == Ok::<bool, GameError>(true) {
        if n >= 1 {
            let last = q.last_shot_time as int;
            assert(gate_open(q.last_shot_time, weapons[q.current_weapon_id].fire_rate_mhz, times.last()));
            assert((t - last) * rate >= 1_000_000);
            assert((n - 1) * 1_000_000 <= (last - t0) * rate);
            assert((t - t0) * rate == (t - last) * rate + (last - t0) * rate) by (nonlinear_arith);
        } else {
            assert(0 <= (t - t0) * rate) by (nonlinear_arith)
                requires
                    t >= t0,
                    rate >= 0,
            ;
        }
    }
}

/// The fire-rate gate: of any attempts to shoot made in time order with one
/// weapon, at most one more goes off than the weapon's rate allows in the
/// time between the first and the last attempt. With times in milliseconds
/// and the rate in shots per thousand seconds, `count - 1` shots take at
/// least `(count - 1) / rate` seconds.
pub proof fn lemma_fire_rate_bound(p: Player, weapons: Map<u32, Weapon>, times: Seq<u64>)
    requires
        times.len() > 0,
        forall|i: int, j: int| 0 <= i <= j < times.len() ==> times[i] <= times[j],
        weapons.contains_key(p.current_weapon_id),
    ensures
        after_attempts(p, weapons, times).1 >= 1 ==> (after_attempts(p, weapons, times).1 - 1)
            * 1_000_000 <= (times.last() - times[0]) * weapons[p.current_weapon_id].fire_rate_mhz,
{
    lemma_attempts(p, weapons, times);
    let (q, n) = after_attempts(p, weapons, times);
    let rate = weapons[p.current_weapon_id].fire_rate_mhz as int;
    let t = times.last() as int;
    let t0 = times[0] as int;
    let last = q.last_shot_time as int;
    if n >= 1 {
        assert((last - t0) * rate <= (t - t0) * rate) by (nonlinear_arith)
            requires
                last <= t,
                rate >= 0,
        ;
    }
}

/// A reload started at `start` with a reload time of `reload_ms` has run its
/// time at every `now` from `start + reload_ms` on, and not before, as long
/// as that moment lies within the clock's range.
pub proof fn lemma_started_reload_runs_out(p: Player, start: u64, reload_ms: u32, now: u64)
    ensures
        now >= start + reload_ms ==> reload_done(
            reloading_until(p, deadline(start, reload_ms as int)),
            now,
        ),
        now < start + reload_ms <= u64::MAX ==> !reload_done(
            reloading_until(p, deadline(start, reload_ms as int)),
            now,
        ),
{
}

/// Reload completion: a player whose reload has run its time at `now` has a
/// full magazine and is not reloading once the tick's reload phase is over;
/// every other player is as before.
pub proof fn lemma_reload_completion(v: LobbyView, id: u32, now: u64)
    requires
        v.players.contains_key(id),
    ensures
        reload_done(v.players[id], now) ==> {
            let after = reloaded(v, reloads_due(v, now)).players[id];
            after.current_ammo == after.max_ammo && !after.is_reloading && after.reload_end_time is None
        },
        !reload_done(v.players[id], now) ==> reloaded(v, reloads_due(v, now)).players[id]
            == v.players[id],
{
}

/// Kill accounting: a registered kill adds exactly one kill and
/// `100 + 25 * min(previous killstreak, 5)` points to the killer and exactly
/// one death to the victim.
pub proof fn lemma_kill_accounting(
    v: LobbyView,
    weapons: Map<u32, Weapon>,
    killer_id: u32,
    victim_id: u32,
    now: u64,
)
    requires
        kill_refusal(v, weapons, killer_id, victim_id) is None,
    ensures
        after_kill(v, killer_id, victim_id, now).players[killer_id].kills == v.players[killer_id].kills
            + 1,
        after_kill(v, killer_id, victim_id, now).players[victim_id].deaths
            == v.players[victim_id].deaths + 1,
        after_kill(v, killer_id, victim_id, now).players[killer_id].score
            == v.players[killer_id].score + kill_score(v.players[killer_id].killstreak),
        killer_id != victim_id ==> after_kill(v, killer_id, victim_id, now).players[killer_id].killstreak
            == v.players[killer_id].killstreak + 1,
        after_kill(v, killer_id, victim_id, now).players[victim_id].killstreak == 0,
        after_kill(v, killer_id, victim_id, now).players[victim_id].is_dead,
{
}

/// The victim of a registered kill is dead: it has no health, no
/// killstreak and a respawn scheduled, three seconds after the kill where
/// that moment lies within the clock's range; and a well-formed lobby stays
/// well formed.
pub proof fn lemma_victim_is_dead(
    v: LobbyView,
    weapons: Map<u32, Weapon>,
    killer_id: u32,
    victim_id: u32,
    now: u64,
)
    requires
        kill_refusal(v, weapons, killer_id, victim_id) is None,
    ensures
        ({
            let victim = after_kill(v, killer_id, victim_id, now).players[victim_id];
            &&& victim.is_dead
            &&& victim.current_health == 0
            &&& victim.killstreak == 0
            &&& victim.respawn_time is Some
            &&& now + RESPAWN_DELAY_MS <= u64::MAX ==> victim.respawn_time == Some(
                (now + RESPAWN_DELAY_MS) as u64,
            )
        }),
        v.wf() ==> after_kill(v, killer_id, victim_id, now).wf(),
{
    if v.wf() {
        let credit = v.put(killer_id, credited(v.players[killer_id]));
        lemma_put_keeps_wf(v, killer_id, credited(v.players[killer_id]));
        lemma_put_keeps_wf(credit, victim_id, slain(credit.players[victim_id], now));
    }
}

/// Respawn: a victim killed at `killed_at` stays dead until three seconds
/// have passed; the respawn phase of any tick from then on makes it alive
/// with full health and a full magazine.
pub proof fn lemma_respawn_after_three_seconds(v: LobbyView, id: u32, killed_at: u64, now: u64)
    requires
        v.players.contains_key(id),
        killed_at + RESPAWN_DELAY_MS <= u64::MAX,
    ensures
        ({
            let dead = v.store(id, slain(v.players[id], killed_at));
            let after = revived(dead, respawns_due(dead, now)).players[id];
            &&& now < killed_at + RESPAWN_DELAY_MS ==> after == dead.players[id] && after.is_dead
            &&& now >= killed_at + RESPAWN_DELAY_MS ==> !after.is_dead && after.current_health
                == after.max_health && after.current_ammo == after.max_ammo
        }),
{
}

/// The reload cycle: a reload that `start_reload` accepts at `start` leaves
/// the magazine as it was, marks the player as changed and ends `reload
/// time` later (at the end of the clock's range if that moment lies beyond
/// it); the reload phase of any tick at or after `start` plus the reload
/// time fills the magazine and ends the reload.
pub proof fn lemma_reload_cycle(v: LobbyView, weapons: Map<u32, Weapon>, id: u32, start: u64, now: u64)
    requires
        v.players.contains_key(id),
        reload_outcome(v.players[id], weapons) is Ok,
    ensures
        ({
            let reload_ms = weapons[v.players[id].current_weapon_id].reload_time_ms;
            let started = v.put(id, reloading_until(v.players[id], deadline(start, reload_ms as int)));
            let after = reloaded(started, reloads_due(started, now)).players[id];
            &&& started.players[id].current_ammo == v.players[id].current_ammo
            &&& started.players[id].is_reloading
            &&& started.dirty_players.contains(id)
            &&& start + reload_ms <= u64::MAX ==> started.players[id].reload_end_time == Some(
                (start + reload_ms) as u64,
            )
            &&& now >= start + reload_ms ==> after.current_ammo == after.max_ammo
                && !after.is_reloading && after.reload_end_time is None
        }),
{
}

/// A position update as it arrives: where the player stands, where it
/// looks, and when.
pub struct Move {
    pub position: Vec3,
    pub rotation: Vec3,
    pub at: u64,
}

/// The lobby after the position updates `moves` of player `id` have been
/// applied one after the other.
pub open spec fn after_moves(v: LobbyView, id: u32, moves: Seq<Move>) -> LobbyView
    decreases moves.len(),
{
    if moves.len() == 0 {
        v
    } else {
        let earlier = after_moves(v, id, moves.drop_last());
        earlier.put(
            id,
            moved(earlier.players[id], moves.last().position, moves.last().rotation, moves.last().at),
        )
    }
}

/// Any number of position updates of one player, applied back to back, leave
/// the lobby as the last of them alone would.
pub proof fn lemma_last_move_wins(v: LobbyView, id: u32, moves: Seq<Move>)
    requires
        v.players.contains_key(id),
        moves.len() > 0,
    ensures
        after_moves(v, id, moves) == v.put(
            id,
            moved(v.players[id], moves.last().position, moves.last().rotation, moves.last().at),
        ),
    decreases moves.len(),
{
    let last = moves.last();
    let earlier = moves.drop_last();
    if earlier.len() > 0 {
        lemma_last_move_wins(v, id, earlier);
    }
    let mid = after_moves(v, id, earlier);
    assert(mid.put(id, moved(mid.players[id], last.position, last.rotation, last.at)) =~= v.put(
        id,
        moved(v.players[id], last.position, last.rotation, last.at),
    ));
}

/// Whether `addr` is the address of a player other than `id`.
pub open spec fn is_address_of_other(v: LobbyView, id: u32, addr: Endpoint) -> bool {
    exists|other: u32|
        other != id && #[trigger] v.client_addresses.contains_key(other) && addr
            == v.client_addresses[other]
}

/// A message for all but one player goes once to every other player that
/// has an address, and to nobody else: there are as many recipients as other
/// bound players, every recipient is the address of one of them, and the
/// address of each of them is among the recipients.
pub proof fn lemma_others_are_reached_once(v: LobbyView, id: u32, to: Seq<Endpoint>)
    requires
        reaches(v, Audience::AllBut(id), to),
    ensures
        to.len() == v.client_addresses.dom().remove(id).len(),
        forall|j: int| 0 <= j < to.len() ==> is_address_of_other(v, id, #[trigger] to[j]),
        forall|other: u32|
            other != id && #[trigger] v.client_addresses.contains_key(other) ==> to.contains(
                v.client_addresses[other],
            ),
{
    let others = v.client_addresses.dom().remove(id);
    let ids = choose|ids: Seq<u32>| ids.to_set() == others && addresses_in_order(v, ids, to);
    ids.unique_seq_to_set();
    assert forall|j: int| 0 <= j < to.len() implies is_address_of_other(v, id, #[trigger] to[j]) by {
        assert(ids.to_set().contains(ids[j]));
        assert(to[j] == v.client_addresses[ids[j]]);
        assert(v.client_addresses.contains_key(ids[j]));
    }
    assert forall|other: u32|
        other != id && #[trigger] v.client_addresses.contains_key(other) implies to.contains(
        v.client_addresses[other],
    ) by {
        assert(others.contains(other));
        assert(ids.to_set().contains(other));
        let j = choose|j: int| 0 <= j < ids.len() && ids[j] == other;
        assert(to[j] == v.client_addresses[other]);
    }
}

/// A warning is given once: a player that supervision warns carries the
/// time of the warning afterwards and is not due a warning at any later
/// supervision, whatever the time.
pub proof fn lemma_warned_once(
    v: LobbyView,
    id: u32,
    timeout_secs: u64,
    warning_permille: u32,
    now: u64,
    later: u64,
)
    requires
        players_to_warn(v, timeout_secs, warning_permille, now).contains(id),
    ensures
        ({
            let after = supervised(v, timeout_secs, warning_permille, now);
            &&& after.players.contains_key(id)
            &&& after.players[id].warned_at == Some(now)
            &&& !players_to_warn(after, timeout_secs, warning_permille, later).contains(id)
        }),
{
}

/// A player idle for longer than the timeout is removed with its address
/// and its snapshot; a player that is not stays in the lobby.
pub proof fn lemma_idle_player_is_removed(
    v: LobbyView,
    id: u32,
    timeout_secs: u64,
    warning_permille: u32,
    now: u64,
)
    requires
        v.players.contains_key(id),
    ensures
        ({
            let after = supervised(v, timeout_secs, warning_permille, now);
            &&& expired(id, v.players[id], timeout_secs, now) ==> !after.players.contains_key(id)
                && !after.client_addresses.contains_key(id) && !after.last_sync_state.contains_key(id)
                && !after.dirty_players.contains(id)
            &&& !expired(id, v.players[id], timeout_secs, now) ==> after.players.contains_key(id)
            &&& !expired(id, v.players[id], timeout_secs, now) && !warning_due(
                id,
                v.players[id],
                timeout_secs,
                warning_permille,
                now,
            ) ==> after.players[id] == v.players[id]
        }),
{
    assert(expired_players(v, timeout_secs, now).contains(id) == expired(
        id,
        v.players[id],
        timeout_secs,
        now,
    ));
}

} // verus!
