//! One tick of a lobby: dispatch of the drained commands, the time-triggered
//! transitions, inactivity supervision, delta synchronisation and the
//! clearing of the change marks.

use crate::commands::LobbyCommand;
use crate::delta_sync::{collect_dirty_events, events_for, synced, SyncEvent};
use crate::lobbies::{
    add_player, add_player_result, cleanup_inactive, expired_players, lemma_put_keeps_wf, moved,
    players_to_warn, remove_player, set_player_address, supervised, update_position,
};
use crate::lobby::{keys_of, Lobby, LobbyView};
use crate::logic::{
    after_shot, announces, deadline, hit, kills, rearmed, reload_outcome, reloaded,
    reloading_until, reloads_due, respawns_due, revived, shoot, shoots, shot, start_reload,
    switch_weapon, update_reload_states, update_respawn_states, weapon_damage, KillEvent, Shot,
};
use crate::player::{Endpoint, Player, Vec3, BOT_PLAYER_ID};
use crate::weapons::{Weapon, WeaponDb, DEFAULT_WEAPON_ID};
use vstd::prelude::*;

verus! {

broadcast use vstd::std_specs::hash::group_hash_axioms;

/// The options the tick engine recognises.
#[derive(Clone, Copy, Debug)]
pub struct Config {
    pub udp_port: u16,
    pub tick_interval_ms: u64,
    pub player_inactivity_timeout_secs: u64,
    /// Thousandths of the timeout after which an idle player is warned.
    pub inactivity_warning_permille: u32,
    pub max_packet_size: usize,
    pub rate_limit_per_second: u32,
}

impl Default for Config {
    fn default() -> (c: Config)
        ensures
            c.udp_port == 8081,
            c.tick_interval_ms == 20,
            c.player_inactivity_timeout_secs == 15,
            c.inactivity_warning_permille == 500,
            c.max_packet_size == 1024,
            c.rate_limit_per_second == 100,
    {
        Config {
            udp_port: 8081,
            tick_interval_ms: 20,
            player_inactivity_timeout_secs: 15,
            inactivity_warning_permille: 500,
            max_packet_size: 1024,
            rate_limit_per_second: 100,
        }
    }
}

impl Config {
    /// Milliseconds between two ticks.
    pub fn tick_interval_ms(&self) -> (ms: u64)
        ensures
            ms == self.tick_interval_ms,
    {
        self.tick_interval_ms
    }
}

/// What a joining player is told about each player already there.
#[derive(Debug)]
pub struct PlayerBrief {
    pub id: u32,
    pub name: String,
    pub position: Vec3,
    pub rotation: Vec3,
}

/// What became of a command, as far as the rest of the tick needs to know.
#[derive(Debug)]
pub enum Effect {
    /// Nothing to announce: the command failed softly or changed only what
    /// delta synchronisation reports.
    Nothing,
    /// A player joined; `roster` lists the other players at that moment.
    Joined { player_id: u32, name: String, addr: Endpoint, roster: Vec<PlayerBrief> },
    /// A player of the lobby connected over UDP.
    Connected { player_id: u32, name: String, addr: Endpoint, roster: Vec<PlayerBrief> },
    /// A player left.
    Left { player_id: u32 },
    /// A player moved.
    Moved { player_id: u32 },
    /// A shot killed its target.
    Killed { event: KillEvent },
}

/// The brief of a player.
pub open spec fn brief(p: Player) -> PlayerBrief {
    PlayerBrief { id: p.id, name: p.name, position: p.position, rotation: p.rotation }
}

/// Whether `roster` lists every player of `v` other than `except` exactly
/// once, in the order of `ids`.
pub open spec fn roster_in_order(
    v: LobbyView,
    except: u32,
    ids: Seq<u32>,
    roster: Seq<PlayerBrief>,
) -> bool {
    &&& ids.no_duplicates()
    &&& ids.to_set() == v.players.dom().remove(except)
    &&& roster.len() == ids.len()
    &&& forall|j: int| 0 <= j < ids.len() ==> #[trigger] roster[j] == brief(v.players[ids[j]])
}

/// Whether `roster` lists every player of `v` other than `except` exactly
/// once.
pub open spec fn is_roster(v: LobbyView, except: u32, roster: Seq<PlayerBrief>) -> bool {
    exists|ids: Seq<u32>| roster_in_order(v, except, ids, roster)
}

/// Lists every player of the lobby other than `except`, in no particular
/// order.
pub fn roster_except(lobby: &Lobby, except: u32) -> (roster: Vec<PlayerBrief>)
    ensures
        is_roster(lobby@, except, roster@),
{
    let keys = keys_of(&lobby.players);
    let mut roster: Vec<PlayerBrief> = Vec::new();
    let mut ids: Vec<u32> = Vec::new();
    let mut i: usize = 0;
    let ghost want = lobby@.players.dom().remove(except);
    proof {
        crate::collect::lemma_gathering_start(keys@, want);
    }
    while i < keys.len()
        invariant
            keys@.to_set() == lobby@.players.dom(),
            want == lobby@.players.dom().remove(except),
            crate::collect::gathering(keys@, i as int, ids@, want),
            roster@.len() == ids@.len(),
            forall|j: int|
                0 <= j < ids@.len() ==> #[trigger] roster@[j] == brief(lobby@.players[ids@[j]]),
        decreases keys.len() - i,
    {
        let id: u32 = keys[i];
        proof {
            crate::collect::lemma_gathering_step(keys@, i as int, ids@, want);
            assert(keys@.to_set().contains(keys@[i as int]));
        }
        if id != except {
            match lobby.players.get(&id) {
                None => {},
                Some(p) => {
                    roster.push(
                        PlayerBrief {
                            id: p.id,
                            name: p.name.clone(),
                            position: p.position,
                            rotation: p.rotation,
                        },
                    );
                    ids.push(id);
                },
            }
        }
        i = i + 1;
    }
    proof {
        crate::collect::lemma_gathering_end(keys@, ids@, want);
        assert(roster_in_order(lobby@, except, ids@, roster@));
    }
    roster
}

/// The player with `now` as the time of its last activity.
pub open spec fn touched(p: Player, now: u64) -> Player {
    Player { last_update: now, ..p }
}

/// The lobby after one command has been dispatched at time `now`. A command
/// that fails leaves the lobby as it was.
pub open spec fn after_command(
    v: LobbyView,
    weapons: Map<u32, Weapon>,
    cmd: LobbyCommand,
    now: u64,
) -> LobbyView {
    match cmd {
        LobbyCommand::PlayerJoin { player_id, name, addr } => if add_player_result(
            v,
            player_id,
            DEFAULT_WEAPON_ID,
            weapons,
        ) is Ok {
            v.put(
                player_id,
                Player::fresh(player_id, name, DEFAULT_WEAPON_ID, weapons[DEFAULT_WEAPON_ID].ammo, now),
            ).bind(player_id, addr)
        } else {
            v
        },
        LobbyCommand::PlayerLeave { player_id } => v.without(player_id),
        LobbyCommand::UdpConnect { player_id, name, addr } => if v.players.contains_key(player_id) {
            v.bind(player_id, addr).store(player_id, touched(v.players[player_id], now))
        } else {
            v
        },
        LobbyCommand::PositionUpdate { player_id, position, rotation, addr } => if v.players.contains_key(
            player_id,
        ) {
            v.bind(player_id, addr).put(player_id, moved(v.players[player_id], position, rotation, now))
        } else {
            v
        },
        LobbyCommand::Shoot { player_id, target_id } => after_shot(
            v,
            weapons,
            player_id,
            target_id,
            now,
        ),
        LobbyCommand::Reload { player_id } => if v.players.contains_key(player_id) && reload_outcome(
            v.players[player_id],
            weapons,
        ) is Ok {
            v.put(
                player_id,
                reloading_until(
                    v.players[player_id],
                    deadline(now, weapons[v.players[player_id].current_weapon_id].reload_time_ms as int),
                ),
            )
        } else {
            v
        },
        LobbyCommand::WeaponSwitch { player_id, weapon_id } => if v.players.contains_key(player_id)
            && weapons.contains_key(weapon_id) {
            v.put(player_id, rearmed(v.players[player_id], weapon_id, weapons[weapon_id].ammo))
        } else {
            v
        },
        LobbyCommand::Heartbeat { player_id, addr } => if v.players.contains_key(player_id) {
            v.bind(player_id, addr).store(player_id, touched(v.players[player_id], now))
        } else {
            v
        },
    }
}

/// Whether `effect` is what dispatching `cmd` on lobby `v` at `now` reports.
pub open spec fn effect_matches(
    effect: Effect,
    v: LobbyView,
    weapons: Map<u32, Weapon>,
    cmd: LobbyCommand,
    now: u64,
) -> bool {
    let after = after_command(v, weapons, cmd, now);
    match cmd {
        LobbyCommand::PlayerJoin { player_id, name, addr } => if add_player_result(
            v,
            player_id,
            DEFAULT_WEAPON_ID,
            weapons,
        ) is Ok {
            &&& effect is Joined
            &&& effect->Joined_player_id == player_id
            &&& effect->Joined_name == name
            &&& effect->Joined_addr == addr
            &&& is_roster(after, player_id, effect->Joined_roster@)
        } else {
            effect is Nothing
        },
        LobbyCommand::PlayerLeave { player_id } => if v.players.contains_key(player_id) {
            effect is Left && effect->Left_player_id == player_id
        } else {
            effect is Nothing
        },
        LobbyCommand::UdpConnect { player_id, name, addr } => if v.players.contains_key(player_id) {
            &&& effect is Connected
            &&& effect->Connected_player_id == player_id
            &&& effect->Connected_name == name
            &&& effect->Connected_addr == addr
            &&& is_roster(after, player_id, effect->Connected_roster@)
        } else {
            effect is Nothing
        },
        LobbyCommand::PositionUpdate { player_id, .. } => if v.players.contains_key(player_id) {
            effect is Moved && effect->Moved_player_id == player_id
        } else {
            effect is Nothing
        },
        LobbyCommand::Shoot { player_id, target_id } => if shoots(v, weapons, player_id, now) && kills(
            shot(v, player_id, now),
            weapons,
            player_id,
            target_id,
            weapon_damage(v, weapons, player_id),
        ) {
            effect is Killed && announces(
                effect->Killed_event,
                hit(shot(v, player_id, now), target_id, weapon_damage(v, weapons, player_id)),
                weapons,
                player_id,
                target_id,
            )
        } else {
            effect is Nothing
        },
        _ => effect is Nothing,
    }
}

fn touch_player(lobby: &mut Lobby, player_id: u32, now: u64)
    requires
        old(lobby)@.players.contains_key(player_id),
    ensures
        final(lobby)@ == old(lobby)@.store(player_id, touched(old(lobby)@.players[player_id], now)),
        old(lobby)@.wf() ==> final(lobby)@.wf(),
{
    match lobby.players.remove(&player_id) {
        None => {},
        Some(mut player) => {
            player.last_update = now;
            proof {
                if old(lobby)@.wf() {
                    lemma_put_keeps_wf(old(lobby)@, player_id, player);
                }
            }
            lobby.players.insert(player_id, player);
        },
    }
    assert(lobby@ =~= old(lobby)@.store(player_id, touched(old(lobby)@.players[player_id], now)));
}

/// Dispatches one command to the rules at time `now`.
///
/// A command that fails (an unknown player, a closed fire-rate gate, a full
/// lobby) changes nothing and reports nothing. A join, a UDP connect, a
/// position update and a heartbeat also bind the sender's address to the
/// player. A shot that goes off deals the damage of the shooter's weapon to
/// the target and registers the kill when it is lethal.
pub fn process_command(lobby: &mut Lobby, weapons: &WeaponDb, cmd: LobbyCommand, now: u64) -> (effect:
    Effect)
    ensures
        final(lobby)@ == after_command(old(lobby)@, weapons@, cmd, now),
        effect_matches(effect, old(lobby)@, weapons@, cmd, now),
        old(lobby)@.wf() ==> final(lobby)@.wf(),
{
    match cmd {
        LobbyCommand::PlayerJoin { player_id, name, addr } => {
            let kept: String = name.clone();
            match add_player(lobby, player_id, name, DEFAULT_WEAPON_ID, weapons, now) {
                Err(_) => Effect::Nothing,
                Ok(()) => {
                    let _ = set_player_address(lobby, player_id, addr);
                    let roster = roster_except(lobby, player_id);
                    Effect::Joined { player_id, name: kept, addr, roster }
                },
            }
        },
        LobbyCommand::PlayerLeave { player_id } => {
            let known: bool = lobby.players.contains_key(&player_id);
            remove_player(lobby, player_id);
            if known {
                Effect::Left { player_id }
            } else {
                Effect::Nothing
            }
        },
        LobbyCommand::UdpConnect { player_id, name, addr } => {
            if lobby.players.contains_key(&player_id) {
                lobby.client_addresses.insert(player_id, addr);
                touch_player(lobby, player_id, now);
                let roster = roster_except(lobby, player_id);
                Effect::Connected { player_id, name, addr, roster }
            } else {
                Effect::Nothing
            }
        },
        LobbyCommand::PositionUpdate { player_id, position, rotation, addr } => {
            if lobby.players.contains_key(&player_id) {
                lobby.client_addresses.insert(player_id, addr);
                let _ = update_position(lobby, player_id, position, rotation, now);
                Effect::Moved { player_id }
            } else {
                Effect::Nothing
            }
        },
        LobbyCommand::Shoot { player_id, target_id } => {
            match shoot(lobby, weapons, player_id, target_id, now) {
                Ok(Shot::Killed(event)) => Effect::Killed { event },
                _ => Effect::Nothing,
            }
        },
        LobbyCommand::Reload { player_id } => {
            let _ = start_reload(lobby, weapons, player_id, now);
            Effect::Nothing
        },
        LobbyCommand::WeaponSwitch { player_id, weapon_id } => {
            let _ = switch_weapon(lobby, weapons, player_id, weapon_id);
            Effect::Nothing
        },
        LobbyCommand::Heartbeat { player_id, addr } => {
            if lobby.players.contains_key(&player_id) {
                lobby.client_addresses.insert(player_id, addr);
                touch_player(lobby, player_id, now);
            }
            Effect::Nothing
        },
    }
}

/// The lobby after the commands `cmds` have been dispatched in order at time
/// `now`.
pub open spec fn after_commands(
    v: LobbyView,
    weapons: Map<u32, Weapon>,
    cmds: Seq<LobbyCommand>,
    now: u64,
) -> LobbyView
    decreases cmds.len(),
{
    if cmds.len() == 0 {
        v
    } else {
        after_command(after_commands(v, weapons, cmds.drop_last(), now), weapons, cmds.last(), now)
    }
}

/// Whether `effects` reports, command by command, what dispatching `cmds` in
/// order does: each effect matches its command on the lobby as the commands
/// before it left it.
pub open spec fn effects_match(
    effects: Seq<Effect>,
    v: LobbyView,
    weapons: Map<u32, Weapon>,
    cmds: Seq<LobbyCommand>,
    now: u64,
) -> bool {
    &&& effects.len() == cmds.len()
    &&& forall|k: int|
        0 <= k < cmds.len() ==> effect_matches(
            #[trigger] effects[k],
            after_commands(v, weapons, cmds.take(k), now),
            weapons,
            cmds[k],
            now,
        )
}

/// Dispatches a batch of commands in order at time `now` and reports the
/// effect of each.
pub fn apply_commands(
    lobby: &mut Lobby,
    weapons: &WeaponDb,
    commands: Vec<LobbyCommand>,
    now: u64,
) -> (effects: Vec<Effect>)
    ensures
        final(lobby)@ == after_commands(old(lobby)@, weapons@, commands@, now),
        effects_match(effects@, old(lobby)@, weapons@, commands@, now),
        old(lobby)@.wf() ==> final(lobby)@.wf(),
{
    let ghost all = commands@;
    let mut effects: Vec<Effect> = Vec::new();
    assert(all.take(0) =~= Seq::<LobbyCommand>::empty());
    for cmd in it: commands.into_iter()
        invariant
            it.seq() == all,
            effects@.len() == it.index(),
            lobby@ == after_commands(old(lobby)@, weapons@, all.take(it.index()), now),
            forall|k: int|
                0 <= k < it.index() ==> effect_matches(
                    #[trigger] effects@[k],
                    after_commands(old(lobby)@, weapons@, all.take(k), now),
                    weapons@,
                    all[k],
                    now,
                ),
            old(lobby)@.wf() ==> lobby@.wf(),
    {
        let ghost i = it.index();
        proof {
            assert(all.take(i + 1).drop_last() =~= all.take(i));
            assert(all.take(i + 1).last() == all[i]);
        }
        let effect = process_command(lobby, weapons, cmd, now);
        effects.push(effect);
    }
    assert(all.take(all.len() as int) =~= all);
    effects
}

/// The totals of a player as they stood when a tick began; kept for the
/// players that depart in the tick.
#[derive(Debug)]
pub struct Departure {
    pub player_id: u32,
    pub name: String,
    pub kills: u32,
    pub deaths: u32,
    pub score: u32,
}

/// The totals of player `p`, stored under `id`.
pub open spec fn totals_of(id: u32, p: Player) -> Departure {
    Departure { player_id: id, name: p.name, kills: p.kills, deaths: p.deaths, score: p.score }
}

/// Whether `out` lists the totals of exactly the players `want` of `v`,
/// each once.
pub open spec fn lists_totals(v: LobbyView, want: Set<u32>, out: Seq<Departure>) -> bool {
    &&& forall|a: int, b: int|
        0 <= a < out.len() && 0 <= b < out.len() && a != b ==> out[a].player_id != out[b].player_id
    &&& forall|j: int|
        0 <= j < out.len() ==> want.contains((#[trigger] out[j]).player_id) && out[j] == totals_of(
            out[j].player_id,
            v.players[out[j].player_id],
        )
    &&& forall|id: u32|
        want.contains(id) ==> exists|j: int| 0 <= j < out.len() && (#[trigger] out[j]).player_id == id
}

/// The totals of every player of the lobby, each once, in no particular
/// order.
pub fn standings(lobby: &Lobby) -> (out: Vec<Departure>)
    ensures
        lists_totals(lobby@, lobby@.players.dom(), out@),
{
    let keys = keys_of(&lobby.players);
    let mut out: Vec<Departure> = Vec::new();
    let mut i: usize = 0;
    while i < keys.len()
        invariant
            0 <= i <= keys.len(),
            keys@.no_duplicates(),
            keys@.to_set() == lobby@.players.dom(),
            out@.len() == i,
            forall|j: int|
                0 <= j < i ==> (#[trigger] out@[j]) == totals_of(keys@[j], lobby@.players[keys@[j]]),
        decreases keys.len() - i,
    {
        assert(keys@.to_set().contains(keys@[i as int]));
        match lobby.players.get(&keys[i]) {
            Some(p) => {
                out.push(
                    Departure {
                        player_id: keys[i],
                        name: p.name.clone(),
                        kills: p.kills,
                        deaths: p.deaths,
                        score: p.score,
                    },
                );
            },
            None => {},
        }
        i = i + 1;
    }
    proof {
        assert forall|j: int| 0 <= j < out@.len() implies lobby@.players.dom().contains(
            (#[trigger] out@[j]).player_id,
        ) by {
            assert(keys@.to_set().contains(keys@[j]));
        }
        assert forall|id: u32| lobby@.players.dom().contains(id) implies exists|j: int|
            0 <= j < out@.len() && (#[trigger] out@[j]).player_id == id by {
            assert(keys@.to_set().contains(id));
            let k = choose|k: int| 0 <= k < keys@.len() && keys@[k] == id;
            assert(out@[k].player_id == id);
        }
    }
    out
}

/// Whether `e` reports that player `id` left.
pub open spec fn leaves(e: Effect, id: u32) -> bool {
    e matches Effect::Left { player_id } && player_id == id
}

/// The players that the effects report as having left.
pub open spec fn left_ids(effects: Seq<Effect>) -> Set<u32> {
    Set::new(|id: u32| exists|k: int| 0 <= k < effects.len() && leaves(#[trigger] effects[k], id))
}

/// Whether player `id` departed: it left or was removed for inactivity, and
/// it is not the calibration bot.
pub open spec fn departs(id: u32, effects: Seq<Effect>, kicked: Seq<u32>) -> bool {
    id != BOT_PLAYER_ID && (kicked.contains(id) || left_ids(effects).contains(id))
}

/// The entries of `before` whose player departed, in their order.
pub open spec fn departed_of(before: Seq<Departure>, effects: Seq<Effect>, kicked: Seq<u32>) -> Seq<
    Departure,
>
    decreases before.len(),
{
    if before.len() == 0 {
        Seq::empty()
    } else if departs(before.last().player_id, effects, kicked) {
        departed_of(before.drop_last(), effects, kicked).push(before.last())
    } else {
        departed_of(before.drop_last(), effects, kicked)
    }
}

/// The players of `v` that departed.
pub open spec fn departing(v: LobbyView, effects: Seq<Effect>, kicked: Seq<u32>) -> Set<u32> {
    Set::new(|id: u32| v.players.contains_key(id) && departs(id, effects, kicked))
}

fn among(ids: &Vec<u32>, id: u32) -> (found: bool)
    ensures
        found == ids@.contains(id),
{
    let mut i: usize = 0;
    while i < ids.len()
        invariant
            0 <= i <= ids.len(),
            forall|j: int| 0 <= j < i ==> ids@[j] != id,
        decreases ids.len() - i,
    {
        if ids[i] == id {
            return true;
        }
        i = i + 1;
    }
    false
}

fn has_left(effects: &Vec<Effect>, id: u32) -> (found: bool)
    ensures
        found == left_ids(effects@).contains(id),
{
    let mut i: usize = 0;
    while i < effects.len()
        invariant
            0 <= i <= effects.len(),
            forall|j: int| 0 <= j < i ==> !leaves(#[trigger] effects@[j], id),
        decreases effects.len() - i,
    {
        let here: bool = match &effects[i] {
            Effect::Left { player_id } => *player_id == id,
            _ => false,
        };
        if here {
            assert(leaves(effects@[i as int], id));
            return true;
        }
        i = i + 1;
    }
    false
}

/// Picks from the totals taken before a tick those of the players that
/// departed in it: the players that left or were removed for inactivity,
/// but never the calibration bot.
pub fn departures(before: Vec<Departure>, effects: &Vec<Effect>, kicked: &Vec<u32>) -> (out: Vec<
    Departure,
>)
    ensures
        out@ == departed_of(before@, effects@, kicked@),
{
    let ghost all = before@;
    let mut out: Vec<Departure> = Vec::new();
    assert(all.take(0) =~= Seq::<Departure>::empty());
    for entry in it: before.into_iter()
        invariant
            it.seq() == all,
            out@ == departed_of(all.take(it.index()), effects@, kicked@),
    {
        let ghost i = it.index();
        proof {
            assert(all.take(i + 1).drop_last() =~= all.take(i));
            assert(all.take(i + 1).last() == all[i]);
        }
        let id: u32 = entry.player_id;
        if id != BOT_PLAYER_ID && (among(kicked, id) || has_left(effects, id)) {
            out.push(entry);
        }
    }
    assert(all.take(all.len() as int) =~= all);
    out
}

proof fn lemma_departed_is_a_choice(before: Seq<Departure>, effects: Seq<Effect>, kicked: Seq<u32>)
    ensures
        forall|j: int|
            0 <= j < departed_of(before, effects, kicked).len() ==> before.contains(
                #[trigger] departed_of(before, effects, kicked)[j],
            ) && departs(departed_of(before, effects, kicked)[j].player_id, effects, kicked),
        forall|k: int|
            0 <= k < before.len() && departs((#[trigger] before[k]).player_id, effects, kicked)
                ==> departed_of(before, effects, kicked).contains(before[k]),
        (forall|a: int, b: int|
            0 <= a < before.len() && 0 <= b < before.len() && a != b ==> before[a].player_id
                != before[b].player_id) ==> (forall|a: int, b: int|
            0 <= a < departed_of(before, effects, kicked).len() && 0 <= b < departed_of(
                before,
                effects,
                kicked,
            ).len() && a != b ==> departed_of(before, effects, kicked)[a].player_id != departed_of(
                before,
                effects,
                kicked,
            )[b].player_id),
    decreases before.len(),
{
    let out = departed_of(before, effects, kicked);
    if before.len() > 0 {
        let earlier = before.drop_last();
        let rest = departed_of(earlier, effects, kicked);
        lemma_departed_is_a_choice(earlier, effects, kicked);
        assert forall|j: int| 0 <= j < out.len() implies before.contains(#[trigger] out[j]) && departs(
            out[j].player_id,
            effects,
            kicked,
        ) by {
            if j < rest.len() {
                assert(out[j] == rest[j]);
                assert(earlier.contains(rest[j]));
                let k = choose|k: int| 0 <= k < earlier.len() && earlier[k] == rest[j];
                assert(before[k] == out[j]);
            } else {
                assert(out[j] == before[before.len() - 1]);
            }
        }
        assert forall|k: int|
            0 <= k < before.len() && departs(
                (#[trigger] before[k]).player_id,
                effects,
                kicked,
            ) implies out.contains(before[k]) by {
            if k < earlier.len() {
                assert(earlier[k] == before[k]);
                assert(rest.contains(earlier[k]));
                let j = choose|j: int| 0 <= j < rest.len() && rest[j] == earlier[k];
                assert(out[j] == before[k]);
            } else {
                assert(out[out.len() - 1] == before[k]);
            }
        }
        if forall|a: int, b: int|
            0 <= a < before.len() && 0 <= b < before.len() && a != b ==> before[a].player_id
                != before[b].player_id {
            assert forall|a: int, b: int|
                0 <= a < earlier.len() && 0 <= b < earlier.len() && a != b implies earlier[a].player_id
                != earlier[b].player_id by {
                assert(earlier[a] == before[a] && earlier[b] == before[b]);
            }
            assert forall|a: int, b: int| 0 <= a < out.len() && 0 <= b < out.len() && a != b implies out[a].player_id
                != out[b].player_id by {
                if a < rest.len() && b < rest.len() {
                    assert(out[a] == rest[a] && out[b] == rest[b]);
                } else {
                    let inner = if a < rest.len() { a } else { b };
                    assert(out[inner] == rest[inner]);
                    assert(earlier.contains(rest[inner]));
                    let k = choose|k: int| 0 <= k < earlier.len() && earlier[k] == rest[inner];
                    assert(before[k] == rest[inner]);
                    assert(before[k].player_id != before[before.len() - 1].player_id);
                }
            }
        }
    }
}

/// Picking the departures from the totals of all players of a lobby gives
/// the totals of exactly the players of that lobby that departed, each once.
pub proof fn lemma_departures_of_standings(
    v: LobbyView,
    before: Seq<Departure>,
    effects: Seq<Effect>,
    kicked: Seq<u32>,
)
    requires
        lists_totals(v, v.players.dom(), before),
    ensures
        lists_totals(v, departing(v, effects, kicked), departed_of(before, effects, kicked)),
{
    let out = departed_of(before, effects, kicked);
    let want = departing(v, effects, kicked);
    lemma_departed_is_a_choice(before, effects, kicked);
    assert forall|j: int| 0 <= j < out.len() implies want.contains((#[trigger] out[j]).player_id)
        && out[j] == totals_of(out[j].player_id, v.players[out[j].player_id]) by {
        assert(before.contains(out[j]));
        let k = choose|k: int| 0 <= k < before.len() && before[k] == out[j];
        assert(v.players.dom().contains(before[k].player_id));
    }
    assert forall|id: u32| want.contains(id) implies exists|j: int|
        0 <= j < out.len() && (#[trigger] out[j]).player_id == id by {
        assert(v.players.dom().contains(id));
        let k = choose|k: int| 0 <= k < before.len() && (#[trigger] before[k]).player_id == id;
        assert(out.contains(before[k]));
        let j = choose|j: int| 0 <= j < out.len() && out[j] == before[k];
        assert(out[j].player_id == id);
    }
}

/// What a tick reports: the effect of each command, the players touched by
/// each time-triggered phase (each list without repetition), the state
/// events, and the totals of the players that departed.
#[derive(Debug)]
pub struct TickReport {
    pub effects: Vec<Effect>,
    pub reloaded: Vec<u32>,
    pub respawned: Vec<u32>,
    pub kicked: Vec<u32>,
    pub warned: Vec<u32>,
    pub events: Vec<SyncEvent>,
    /// Whose session ended in this tick, with the totals each player had
    /// when the tick began.
    pub departed: Vec<Departure>,
}

/// The lobby after the time-triggered transitions at `now`: completed
/// reloads first, then respawns.
pub open spec fn after_timers(v: LobbyView, now: u64) -> LobbyView {
    let loaded = reloaded(v, reloads_due(v, now));
    revived(loaded, respawns_due(loaded, now))
}

/// The lobby at the moment delta synchronisation starts: commands
/// dispatched, timers run, idle players supervised.
pub open spec fn before_sync(
    v: LobbyView,
    weapons: Map<u32, Weapon>,
    config: Config,
    cmds: Seq<LobbyCommand>,
    now: u64,
) -> LobbyView {
    supervised(
        after_timers(after_commands(v, weapons, cmds, now), now),
        config.player_inactivity_timeout_secs,
        config.inactivity_warning_permille,
        now,
    )
}

/// The lobby a tick leaves behind: snapshots up to date and no player
/// marked as changed.
pub open spec fn after_tick(
    v: LobbyView,
    weapons: Map<u32, Weapon>,
    config: Config,
    cmds: Seq<LobbyCommand>,
    now: u64,
) -> LobbyView {
    let ready = before_sync(v, weapons, config, cmds, now);
    LobbyView { dirty_players: Set::empty(), ..synced(ready, ready.dirty_players) }
}

/// Whether `report` tells what the tick did.
pub open spec fn reports(
    report: TickReport,
    v: LobbyView,
    weapons: Map<u32, Weapon>,
    config: Config,
    cmds: Seq<LobbyCommand>,
    now: u64,
) -> bool {
    let dispatched = after_commands(v, weapons, cmds, now);
    let loaded = reloaded(dispatched, reloads_due(dispatched, now));
    let timed = after_timers(dispatched, now);
    let ready = before_sync(v, weapons, config, cmds, now);
    &&& effects_match(report.effects@, v, weapons, cmds, now)
    &&& report.reloaded@.no_duplicates()
    &&& report.reloaded@.to_set() == reloads_due(dispatched, now)
    &&& report.respawned@.no_duplicates()
    &&& report.respawned@.to_set() == respawns_due(loaded, now)
    &&& report.kicked@.no_duplicates()
    &&& report.kicked@.to_set() == expired_players(
        timed,
        config.player_inactivity_timeout_secs,
        now,
    )
    &&& report.warned@.no_duplicates()
    &&& report.warned@.to_set() == players_to_warn(
        timed,
        config.player_inactivity_timeout_secs,
        config.inactivity_warning_permille,
        now,
    )
    &&& exists|ids: Seq<u32>|
        ids.no_duplicates() && ids.to_set() == ready.dirty_players && report.events@ == events_for(
            ready,
            ids,
        )
    &&& lists_totals(v, departing(v, report.effects@, report.kicked@), report.departed@)
}

/// Runs one tick at time `now` on a drained and coalesced batch.
///
/// The phases run in this order: the commands are dispatched one by one;
/// reloads that have run their time complete; dead players whose time has
/// come respawn; idle players are warned or removed; delta synchronisation
/// tells what changed for every player marked as changed and refreshes the
/// snapshots; the marks are cleared. The report also names the players of
/// the lobby whose session ended in the tick (they left or were removed for
/// inactivity; the calibration bot is never named), each once, with the
/// totals they had when the tick began.
pub fn run_tick(
    lobby: &mut Lobby,
    weapons: &WeaponDb,
    config: &Config,
    commands: Vec<LobbyCommand>,
    now: u64,
) -> (report: TickReport)
    ensures
        final(lobby)@ == after_tick(old(lobby)@, weapons@, *config, commands@, now),
        reports(report, old(lobby)@, weapons@, *config, commands@, now),
        final(lobby)@.dirty_players == Set::<u32>::empty(),
        old(lobby)@.wf() ==> final(lobby)@.wf(),
{
    let before = standings(lobby);
    let effects = apply_commands(lobby, weapons, commands, now);
    let reloaded = update_reload_states(lobby, now);
    let respawned = update_respawn_states(lobby, now);
    let (kicked, warned) = cleanup_inactive(
        lobby,
        config.player_inactivity_timeout_secs,
        config.inactivity_warning_permille,
        now,
    );
    let events = collect_dirty_events(lobby);
    lobby.clear_dirty();
    proof {
        lemma_departures_of_standings(old(lobby)@, before@, effects@, kicked@);
    }
    let departed = departures(before, &effects, &kicked);
    TickReport { effects, reloaded, respawned, kicked, warned, events, departed }
}

} // verus!
