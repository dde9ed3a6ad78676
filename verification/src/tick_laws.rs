//! Laws of a whole tick: what a tick does to one player whatever else the
//! batch holds.

use crate::commands::LobbyCommand;
use crate::delta_sync::{last_snapshot, player_events, SyncEvent};
use crate::fanout::{noticed, state_messages, Audience, Notice, Outbound, ServerMessage};
use crate::lobbies::{expired, expired_players, players_to_warn};
use crate::lobby::LobbyView;
use crate::logic::{reload_done, reloaded, reloads_due, respawn_due, respawns_due};
use crate::tick::{after_command, after_commands, after_tick, after_timers, before_sync, Config};
use crate::weapons::Weapon;
use crate::wire::event_name;
use vstd::prelude::*;

verus! {

/// Whether `cmd` lets player `id` stay: it is not that player's leave.
pub open spec fn lets_stay(cmd: LobbyCommand, id: u32) -> bool {
    !(cmd matches LobbyCommand::PlayerLeave { player_id } && player_id == id)
}

/// Whether `cmd` leaves the reload of player `id` alone: it is neither that
/// player's leave nor its reload nor its weapon switch.
pub open spec fn spares_reload(cmd: LobbyCommand, id: u32) -> bool {
    &&& lets_stay(cmd, id)
    &&& !(cmd matches LobbyCommand::Reload { player_id } && player_id == id)
    &&& !(cmd matches LobbyCommand::WeaponSwitch { player_id, .. } && player_id == id)
}

/// Whether `cmd` is no sign of life of player `id`: it is neither that
/// player's leave nor its position update, heartbeat or UDP connect.
pub open spec fn is_silent(cmd: LobbyCommand, id: u32) -> bool {
    &&& lets_stay(cmd, id)
    &&& !(cmd matches LobbyCommand::PositionUpdate { player_id, .. } && player_id == id)
    &&& !(cmd matches LobbyCommand::Heartbeat { player_id, .. } && player_id == id)
    &&& !(cmd matches LobbyCommand::UdpConnect { player_id, .. } && player_id == id)
}

/// What commands that let a player stay keep of it: the player itself, its
/// snapshot, and a time of last activity that is the old one or `now`.
pub open spec fn kept(v: LobbyView, s: LobbyView, id: u32, now: u64) -> bool {
    &&& s.players.contains_key(id)
    &&& s.players[id].last_update == v.players[id].last_update || s.players[id].last_update == now
    &&& s.players[id].warned_at == v.players[id].warned_at
    &&& s.last_sync_state.contains_key(id) == v.last_sync_state.contains_key(id)
    &&& s.last_sync_state[id] == v.last_sync_state[id]
}

proof fn lemma_command_keeps(
    v: LobbyView,
    s: LobbyView,
    weapons: Map<u32, Weapon>,
    cmd: LobbyCommand,
    id: u32,
    now: u64,
)
    requires
        kept(v, s, id, now),
        lets_stay(cmd, id),
    ensures
        kept(v, after_command(s, weapons, cmd, now), id, now),
        s.players[id].is_dead ==> after_command(s, weapons, cmd, now).players[id].is_dead
            && after_command(s, weapons, cmd, now).players[id].respawn_time
            == s.players[id].respawn_time,
        spares_reload(cmd, id) && s.players[id].is_reloading ==> after_command(
            s,
            weapons,
            cmd,
            now,
        ).players[id].is_reloading && after_command(s, weapons, cmd, now).players[id].reload_end_time
            == s.players[id].reload_end_time,
        is_silent(cmd, id) ==> after_command(s, weapons, cmd, now).players[id].last_update
            == s.players[id].last_update,
{
}

proof fn lemma_commands_keep(
    v: LobbyView,
    weapons: Map<u32, Weapon>,
    cmds: Seq<LobbyCommand>,
    id: u32,
    now: u64,
)
    requires
        v.players.contains_key(id),
        forall|k: int| 0 <= k < cmds.len() ==> lets_stay(#[trigger] cmds[k], id),
    ensures
        kept(v, after_commands(v, weapons, cmds, now), id, now),
        v.players[id].is_dead ==> after_commands(v, weapons, cmds, now).players[id].is_dead
            && after_commands(v, weapons, cmds, now).players[id].respawn_time
            == v.players[id].respawn_time,
        (forall|k: int| 0 <= k < cmds.len() ==> spares_reload(#[trigger] cmds[k], id))
            && v.players[id].is_reloading ==> after_commands(
            v,
            weapons,
            cmds,
            now,
        ).players[id].is_reloading && after_commands(v, weapons, cmds, now).players[id].reload_end_time
            == v.players[id].reload_end_time,
        (forall|k: int| 0 <= k < cmds.len() ==> is_silent(#[trigger] cmds[k], id)) ==> after_commands(
            v,
            weapons,
            cmds,
            now,
        ).players[id].last_update == v.players[id].last_update,
    decreases cmds.len(),
{
    if cmds.len() > 0 {
        let earlier = cmds.drop_last();
        if forall|k: int| 0 <= k < cmds.len() ==> is_silent(#[trigger] cmds[k], id) {
            assert forall|k: int| 0 <= k < earlier.len() implies is_silent(#[trigger] earlier[k], id) by {
                assert(earlier[k] == cmds[k]);
            }
            assert(is_silent(cmds[cmds.len() - 1], id));
        }
        assert forall|k: int| 0 <= k < earlier.len() implies lets_stay(#[trigger] earlier[k], id) by {
            assert(earlier[k] == cmds[k]);
        }
        if forall|k: int| 0 <= k < cmds.len() ==> spares_reload(#[trigger] cmds[k], id) {
            assert forall|k: int| 0 <= k < earlier.len() implies spares_reload(
                #[trigger] earlier[k],
                id,
            ) by {
                assert(earlier[k] == cmds[k]);
            }
            assert(spares_reload(cmds[cmds.len() - 1], id));
        }
        lemma_commands_keep(v, weapons, earlier, id, now);
        assert(lets_stay(cmds[cmds.len() - 1], id));
        lemma_command_keeps(v, after_commands(v, weapons, earlier, now), weapons, cmds.last(), id, now);
    }
}

/// Whether supervision at `now` lets a player stay whose last activity was
/// at `last_update` or during this tick.
pub open spec fn not_idle(id: u32, last_update: u64, timeout_secs: u64, now: u64) -> bool {
    id == crate::player::BOT_PLAYER_ID || now < last_update || now - last_update <= timeout_secs
        * 1000
}

/// A reload that has run its time is completed by the tick and told once.
///
/// Take a player that is reloading, whose reload has run its time at `now`,
/// that is not idle beyond the timeout, and whose last snapshot shows it
/// reloading; take any batch that holds neither a leave nor a reload nor a
/// weapon switch of that player. After the tick the player has a full
/// magazine and is not reloading, it was marked as changed when delta
/// synchronisation began, its events were told against the old snapshot,
/// and its new snapshot shows it not reloading.
pub proof fn lemma_tick_completes_reload(
    v: LobbyView,
    weapons: Map<u32, Weapon>,
    config: Config,
    cmds: Seq<LobbyCommand>,
    id: u32,
    now: u64,
)
    requires
        v.players.contains_key(id),
        reload_done(v.players[id], now),
        not_idle(id, v.players[id].last_update, config.player_inactivity_timeout_secs, now),
        v.last_sync_state.contains_key(id),
        v.last_sync_state[id].is_reloading,
        forall|k: int| 0 <= k < cmds.len() ==> spares_reload(#[trigger] cmds[k], id),
    ensures
        ({
            let ready = before_sync(v, weapons, config, cmds, now);
            let after = after_tick(v, weapons, config, cmds, now);
            &&& ready.players.contains_key(id)
            &&& ready.dirty_players.contains(id)
            &&& !ready.players[id].is_reloading
            &&& ready.players[id].current_ammo == ready.players[id].max_ammo
            &&& last_snapshot(ready, id) == Some(v.last_sync_state[id])
            &&& player_events(ready, id).contains(
                SyncEvent::ReloadStateChanged {
                    player_id: ready.players[id].id,
                    is_reloading: false,
                },
            )
            &&& forall|a: int, b: int|
                0 <= a < player_events(ready, id).len() && 0 <= b < player_events(ready, id).len()
                    && (#[trigger] player_events(ready, id)[a]) is ReloadStateChanged
                    && (#[trigger] player_events(ready, id)[b]) is ReloadStateChanged ==> a == b
            &&& after.players[id] == ready.players[id]
            &&& after.last_sync_state.contains_key(id)
            &&& !after.last_sync_state[id].is_reloading
        }),
        forall|player_id: u32|
            event_name(SyncEvent::ReloadStateChanged { player_id, is_reloading: false })
                == "reload_finished"@,
        forall|event: SyncEvent| (#[trigger] state_messages(seq![event]))[0].audience == Audience::All,
{
    lemma_commands_keep(v, weapons, cmds, id, now);
    let dispatched = after_commands(v, weapons, cmds, now);
    assert(reload_done(dispatched.players[id], now));
    assert(reloads_due(dispatched, now).contains(id));
    let loaded = reloaded(dispatched, reloads_due(dispatched, now));
    let timed = after_timers(dispatched, now);
    assert(timed.players.contains_key(id));
    assert(!expired(id, timed.players[id], config.player_inactivity_timeout_secs, now));
    let ready = before_sync(v, weapons, config, cmds, now);
    assert(ready.players.contains_key(id));
    assert(ready.dirty_players.contains(id));
    let events = player_events(ready, id);
    let told = SyncEvent::ReloadStateChanged { player_id: ready.players[id].id, is_reloading: false };
    let cur = ready.players[id].sync_state();
    let prev = v.last_sync_state[id];
    let before_reload = (if prev.health != cur.health {
        1int
    } else {
        0int
    }) + (if prev.ammo != cur.ammo {
        1int
    } else {
        0int
    }) + (if prev.max_ammo != cur.max_ammo {
        1int
    } else {
        0int
    }) + (if prev.weapon_id != cur.weapon_id {
        1int
    } else {
        0int
    });
    assert(events[before_reload] == told);
    assert forall|a: int|
        0 <= a < events.len() && (#[trigger] events[a]) is ReloadStateChanged implies a
        == before_reload by {
        if a < before_reload {
            assert(!(events[a] is ReloadStateChanged));
        } else if a > before_reload {
            assert(events[a] is ScoreChanged);
        }
    }
}

/// A dead player respawns in the first tick after its time has come.
///
/// Take a dead player that is not idle beyond the timeout and any batch that
/// does not hold that player's leave. If its respawn time has not come at
/// `now`, it is still dead after the tick, with the same respawn time. If
/// it has come, the tick's respawn phase respawns it, and after the tick
/// it is alive with full health and a full magazine.
pub proof fn lemma_tick_respawns(
    v: LobbyView,
    weapons: Map<u32, Weapon>,
    config: Config,
    cmds: Seq<LobbyCommand>,
    id: u32,
    now: u64,
)
    requires
        v.players.contains_key(id),
        v.players[id].is_dead,
        not_idle(id, v.players[id].last_update, config.player_inactivity_timeout_secs, now),
        forall|k: int| 0 <= k < cmds.len() ==> lets_stay(#[trigger] cmds[k], id),
    ensures
        ({
            let dispatched = after_commands(v, weapons, cmds, now);
            let loaded = reloaded(dispatched, reloads_due(dispatched, now));
            let after = after_tick(v, weapons, config, cmds, now);
            &&& after.players.contains_key(id)
            &&& respawns_due(loaded, now).contains(id) == respawn_due(v.players[id], now)
            &&& !respawn_due(v.players[id], now) ==> after.players[id].is_dead
                && after.players[id].respawn_time == v.players[id].respawn_time
            &&& respawn_due(v.players[id], now) ==> !after.players[id].is_dead
                && after.players[id].current_health == after.players[id].max_health
                && after.players[id].current_ammo == after.players[id].max_ammo
        }),
        forall|w: LobbyView, t: u64, at: u64| #[trigger]
            noticed(Notice::Respawned, w, t, at, id) == seq![
                Outbound {
                    audience: Audience::All,
                    message: ServerMessage::Event(SyncEvent::PlayerRespawned { player_id: id }),
                },
            ],
{
    lemma_commands_keep(v, weapons, cmds, id, now);
    let dispatched = after_commands(v, weapons, cmds, now);
    let loaded = reloaded(dispatched, reloads_due(dispatched, now));
    assert(loaded.players.contains_key(id));
    assert(loaded.players[id].is_dead && loaded.players[id].respawn_time
        == v.players[id].respawn_time);
    assert(respawns_due(loaded, now).contains(id) == respawn_due(v.players[id], now));
    let timed = after_timers(dispatched, now);
    assert(timed.players.contains_key(id));
    assert(!expired(id, timed.players[id], config.player_inactivity_timeout_secs, now));
}

/// A warning is not repeated: a player that carries the time of a warning
/// is not warned by the tick, whatever the batch holds short of that
/// player's leave.
pub proof fn lemma_tick_warns_once(
    v: LobbyView,
    weapons: Map<u32, Weapon>,
    config: Config,
    cmds: Seq<LobbyCommand>,
    id: u32,
    now: u64,
)
    requires
        v.players.contains_key(id),
        v.players[id].warned_at is Some,
        forall|k: int| 0 <= k < cmds.len() ==> lets_stay(#[trigger] cmds[k], id),
    ensures
        !players_to_warn(
            after_timers(after_commands(v, weapons, cmds, now), now),
            config.player_inactivity_timeout_secs,
            config.inactivity_warning_permille,
            now,
        ).contains(id),
{
    lemma_commands_keep(v, weapons, cmds, id, now);
}

/// A player that gave no sign of life for longer than the timeout is
/// removed by the tick and announced to all as gone and as kicked.
///
/// Take a player, other than the calibration bot, whose last activity lies
/// more than the timeout before `now`, and any batch without a leave, a
/// position update, a heartbeat or a UDP connect of that player. The tick's
/// supervision removes the player, with its address and its snapshot.
pub proof fn lemma_tick_removes_idle(
    v: LobbyView,
    weapons: Map<u32, Weapon>,
    config: Config,
    cmds: Seq<LobbyCommand>,
    id: u32,
    now: u64,
)
    requires
        v.players.contains_key(id),
        expired(id, v.players[id], config.player_inactivity_timeout_secs, now),
        forall|k: int| 0 <= k < cmds.len() ==> is_silent(#[trigger] cmds[k], id),
    ensures
        ({
            let timed = after_timers(after_commands(v, weapons, cmds, now), now);
            let after = after_tick(v, weapons, config, cmds, now);
            &&& expired_players(timed, config.player_inactivity_timeout_secs, now).contains(id)
            &&& !after.players.contains_key(id)
            &&& !after.client_addresses.contains_key(id)
            &&& !after.last_sync_state.contains_key(id)
        }),
        forall|w: LobbyView, t: u64, at: u64| #[trigger]
            noticed(Notice::Gone, w, t, at, id) == seq![
                Outbound {
                    audience: Audience::All,
                    message: ServerMessage::PlayerLeft { player_id: id },
                },
            ],
        forall|w: LobbyView, t: u64, at: u64| #[trigger]
            noticed(Notice::Kicked, w, t, at, id) == seq![
                Outbound {
                    audience: Audience::All,
                    message: ServerMessage::Event(
                        SyncEvent::PlayerKicked {
                            player_id: id,
                            reason: crate::delta_sync::KickReason::Inactivity,
                        },
                    ),
                },
            ],
{
    assert forall|k: int| 0 <= k < cmds.len() implies lets_stay(#[trigger] cmds[k], id) by {
        assert(is_silent(cmds[k], id));
    }
    lemma_commands_keep(v, weapons, cmds, id, now);
    let timed = after_timers(after_commands(v, weapons, cmds, now), now);
    assert(timed.players.contains_key(id));
    assert(expired(id, timed.players[id], config.player_inactivity_timeout_secs, now));
}

} // verus!
