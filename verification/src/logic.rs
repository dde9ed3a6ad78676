//! The gameplay rules: shooting, damage, reloading, weapon switching, kills
//! and respawns. Every rule is a transition of one lobby; none performs I/O
//! or reads a clock.

use crate::collect::{gathering, lemma_gathering_end, lemma_gathering_start, lemma_gathering_step};
use crate::error::GameError;
use crate::lobbies::lemma_put_keeps_wf;
use crate::lobby::{keys_of, Lobby, LobbyView};
use crate::player::{
    spawn_position, spawn_rotation, Player, PlayerSyncState, Vec3, ONE_F32_BITS, RESPAWN_DELAY_MS,
};
use crate::weapons::{Weapon, WeaponDb};
use vstd::prelude::*;

verus! {

broadcast use vstd::std_specs::hash::group_hash_axioms;

/// Largest damage a single hit may deal.
pub const MAX_DAMAGE: u32 = 100;

/// Score for a kill before the killstreak bonus.
pub const BASE_KILL_SCORE: u32 = 100;

/// Bonus per kill of the running killstreak.
pub const KILLSTREAK_BONUS: u32 = 25;

/// Number of killstreak kills beyond which the bonus stops growing.
pub const KILLSTREAK_CAP: u32 = 5;

/// What is announced to the lobby when a player dies.
#[derive(Debug)]
pub struct KillEvent {
    pub killer_id: u32,
    pub killer_name: String,
    pub victim_id: u32,
    pub victim_name: String,
    pub weapon_id: u32,
    pub weapon_name: String,
    pub killer_new_killstreak: u32,
}

impl Clone for KillEvent {
    fn clone(&self) -> (copy: Self)
        ensures
            copy == *self,
    {
        KillEvent {
            killer_id: self.killer_id,
            killer_name: self.killer_name.clone(),
            victim_id: self.victim_id,
            victim_name: self.victim_name.clone(),
            weapon_id: self.weapon_id,
            weapon_name: self.weapon_name.clone(),
            killer_new_killstreak: self.killer_new_killstreak,
        }
    }
}

/// The moment `delay_ms` after `now`, held at the end of the clock's range.
pub open spec fn deadline(now: u64, delay_ms: int) -> u64 {
    if now + delay_ms > u64::MAX {
        u64::MAX
    } else {
        (now + delay_ms) as u64
    }
}

fn deadline_after(now: u64, delay_ms: u64) -> (t: u64)
    ensures
        t == deadline(now, delay_ms as int),
{
    if delay_ms > u64::MAX - now {
        u64::MAX
    } else {
        now + delay_ms
    }
}

/// Whether enough time has passed since the player's last shot: the time
/// since then, in milliseconds, times the weapon's rate in shots per thousand
/// seconds reaches one million, which is to say that at least `1 / rate`
/// seconds have passed.
pub open spec fn gate_open(last_shot_time: u64, fire_rate_mhz: u32, now: u64) -> bool {
    (now - last_shot_time) * fire_rate_mhz >= 1_000_000
}

/// What an attempt to shoot at time `now` answers for player `p`.
pub open spec fn shoot_outcome(p: Player, weapons: Map<u32, Weapon>, now: u64) -> Result<
    bool,
    GameError,
> {
    if p.is_reloading || p.current_ammo == 0 {
        Ok(false)
    } else if !weapons.contains_key(p.current_weapon_id) {
        Err(GameError::InvalidWeapon)
    } else if now < p.last_shot_time {
        Err(GameError::TimeError)
    } else {
        Ok(gate_open(p.last_shot_time, weapons[p.current_weapon_id].fire_rate_mhz, now))
    }
}

/// The player after a successful shot at time `now`.
pub open spec fn fired(p: Player, now: u64) -> Player {
    Player { current_ammo: (p.current_ammo - 1) as u32, last_shot_time: now, ..p }
}

/// Tries to fire the player's weapon at time `now`.
///
/// An unknown player is an error. A player who is reloading or out of
/// ammunition does not shoot. Otherwise the held weapon must be in the
/// catalog and the clock must not read earlier than the last shot; the shot
/// then goes off exactly when the fire-rate gate is open. A shot costs one
/// round, records `now` as the time of the last shot and marks the shooter as
/// changed; in every other case the lobby stays as it was.
pub fn try_shoot(lobby: &mut Lobby, weapons: &WeaponDb, player_id: u32, now: u64) -> (r: Result<
    bool,
    GameError,
>)
    ensures
        !old(lobby)@.players.contains_key(player_id) ==> r == Err::<bool, GameError>(
            GameError::PlayerNotFound,
        ),
        old(lobby)@.players.contains_key(player_id) ==> r == shoot_outcome(
            old(lobby)@.players[player_id],
            weapons@,
            now,
        ),
        r == Ok::<bool, GameError>(true) ==> final(lobby)@ == old(lobby)@.put(
            player_id,
            fired(old(lobby)@.players[player_id], now),
        ),
        r != Ok::<bool, GameError>(true) ==> final(lobby)@ == old(lobby)@,
        old(lobby)@.wf() ==> final(lobby)@.wf(),
{
    let (reloading, ammo, weapon_id, last_shot): (bool, u32, u32, u64) = match lobby.players.get(
        &player_id,
    ) {
        None => {
            return Err(GameError::PlayerNotFound);
        },
        Some(p) => (p.is_reloading, p.current_ammo, p.current_weapon_id, p.last_shot_time),
    };
    if reloading || ammo == 0 {
        return Ok(false);
    }
    let rate: u32 = match weapons.get(weapon_id) {
        None => {
            return Err(GameError::InvalidWeapon);
        },
        Some(w) => w.fire_rate_mhz,
    };
    if now < last_shot {
        return Err(GameError::TimeError);
    }
    let elapsed: u64 = now - last_shot;
    assert((elapsed as u128) * (rate as u128) <= 0xffff_ffff_ffff_ffff * 0xffff_ffff)
        by (nonlinear_arith)
        requires
            elapsed <= 0xffff_ffff_ffff_ffff,
            rate <= 0xffff_ffff,
    ;
    if (elapsed as u128) * (rate as u128) < 1_000_000 {
        return Ok(false);
    }
    match lobby.players.remove(&player_id) {
        None => Ok(false),
        Some(mut player) => {
            player.current_ammo = player.current_ammo - 1;
            player.last_shot_time = now;
            proof {
                if old(lobby)@.wf() {
                    lemma_put_keeps_wf(old(lobby)@, player_id, player);
                }
            }
            lobby.players.insert(player_id, player);
            lobby.dirty_players.insert(player_id);
            assert(lobby@ =~= old(lobby)@.put(player_id, fired(old(lobby)@.players[player_id], now)));
            Ok(true)
        },
    }
}

/// Whether `damage` is an amount a hit may deal.
pub open spec fn valid_damage(damage: u32) -> bool {
    0 < damage <= MAX_DAMAGE
}

/// The player after losing `damage` health, never going below zero.
pub open spec fn hurt(p: Player, damage: u32) -> Player {
    Player {
        current_health: if p.current_health >= damage {
            (p.current_health - damage) as u32
        } else {
            0
        },
        ..p
    }
}

/// Takes `damage` off the target's health, stopping at zero, and marks the
/// target as changed. An unknown target is reported first, then an amount
/// outside `1..=100`; in both cases nothing changes. This is the health step
/// alone: whether the hit kills is decided by [`damage_player`].
pub fn apply_damage(lobby: &mut Lobby, target_id: u32, damage: u32) -> (r: Result<(), GameError>)
    ensures
        !old(lobby)@.players.contains_key(target_id) ==> r == Err::<(), GameError>(
            GameError::PlayerNotFound,
        ),
        old(lobby)@.players.contains_key(target_id) && !valid_damage(damage) ==> r == Err::<
            (),
            GameError,
        >(GameError::InvalidDamage),
        old(lobby)@.players.contains_key(target_id) && valid_damage(damage) ==> r is Ok,
        r is Err ==> final(lobby)@ == old(lobby)@,
        r is Ok ==> final(lobby)@ == old(lobby)@.put(
            target_id,
            hurt(old(lobby)@.players[target_id], damage),
        ),
        old(lobby)@.wf() ==> final(lobby)@.wf(),
{
    if !lobby.players.contains_key(&target_id) {
        return Err(GameError::PlayerNotFound);
    }
    if damage == 0 || damage > MAX_DAMAGE {
        return Err(GameError::InvalidDamage);
    }
    match lobby.players.remove(&target_id) {
        None => Err(GameError::PlayerNotFound),
        Some(mut player) => {
            player.current_health = player.current_health.saturating_sub(damage);
            proof {
                if old(lobby)@.wf() {
                    lemma_put_keeps_wf(old(lobby)@, target_id, player);
                }
            }
            lobby.players.insert(target_id, player);
            lobby.dirty_players.insert(target_id);
            assert(lobby@ =~= old(lobby)@.put(target_id, hurt(old(lobby)@.players[target_id], damage)));
            Ok(())
        },
    }
}

/// What `start_reload` answers for player `p`.
pub open spec fn reload_outcome(p: Player, weapons: Map<u32, Weapon>) -> Result<(), GameError> {
    if p.is_reloading || p.current_ammo == p.max_ammo {
        Err(GameError::CannotReload)
    } else if !weapons.contains_key(p.current_weapon_id) {
        Err(GameError::WeaponNotFound)
    } else {
        Ok(())
    }
}

/// The player once a reload has started that ends at `end`.
pub open spec fn reloading_until(p: Player, end: u64) -> Player {
    Player { is_reloading: true, reload_end_time: Some(end), ..p }
}

/// Starts a reload at time `now`. It is refused for an unknown player, for
/// one who is already reloading or has a full magazine, and for one whose
/// weapon is not in the catalog. Otherwise the player reloads until `now`
/// plus the weapon's reload time, and is marked as changed.
pub fn start_reload(lobby: &mut Lobby, weapons: &WeaponDb, player_id: u32, now: u64) -> (r: Result<
    (),
    GameError,
>)
    ensures
        !old(lobby)@.players.contains_key(player_id) ==> r == Err::<(), GameError>(
            GameError::PlayerNotFound,
        ),
        old(lobby)@.players.contains_key(player_id) ==> r == reload_outcome(
            old(lobby)@.players[player_id],
            weapons@,
        ),
        r is Err ==> final(lobby)@ == old(lobby)@,
        r is Ok ==> final(lobby)@ == old(lobby)@.put(
            player_id,
            reloading_until(
                old(lobby)@.players[player_id],
                deadline(
                    now,
                    weapons@[old(lobby)@.players[player_id].current_weapon_id].reload_time_ms as int,
                ),
            ),
        ),
        old(lobby)@.wf() ==> final(lobby)@.wf(),
{
    let (reloading, full, weapon_id): (bool, bool, u32) = match lobby.players.get(&player_id) {
        None => {
            return Err(GameError::PlayerNotFound);
        },
        Some(p) => (p.is_reloading, p.current_ammo == p.max_ammo, p.current_weapon_id),
    };
    if reloading || full {
        return Err(GameError::CannotReload);
    }
    let reload_ms: u32 = match weapons.get(weapon_id) {
        None => {
            return Err(GameError::WeaponNotFound);
        },
        Some(w) => w.reload_time_ms,
    };
    match lobby.players.remove(&player_id) {
        None => Err(GameError::PlayerNotFound),
        Some(mut player) => {
            player.is_reloading = true;
            player.reload_end_time = Some(deadline_after(now, reload_ms as u64));
            proof {
                if old(lobby)@.wf() {
                    lemma_put_keeps_wf(old(lobby)@, player_id, player);
                }
            }
            lobby.players.insert(player_id, player);
            lobby.dirty_players.insert(player_id);
            assert(lobby@ =~= old(lobby)@.put(
                player_id,
                reloading_until(
                    old(lobby)@.players[player_id],
                    deadline(now, reload_ms as int),
                ),
            ));
            Ok(())
        },
    }
}

/// The player after switching to a weapon with a magazine of `ammo` rounds:
/// the magazine is full and any reload is cancelled.
pub open spec fn rearmed(p: Player, weapon_id: u32, ammo: u32) -> Player {
    Player {
        current_weapon_id: weapon_id,
        current_ammo: ammo,
        max_ammo: ammo,
        is_reloading: false,
        reload_end_time: None,
        ..p
    }
}

/// Hands the player another weapon. Refused for an unknown player and for a
/// weapon outside the catalog, in that order; otherwise the player holds the
/// weapon with a full magazine, is no longer reloading and is marked as
/// changed.
pub fn switch_weapon(lobby: &mut Lobby, weapons: &WeaponDb, player_id: u32, weapon_id: u32) -> (r:
    Result<(), GameError>)
    ensures
        !old(lobby)@.players.contains_key(player_id) ==> r == Err::<(), GameError>(
            GameError::PlayerNotFound,
        ),
        old(lobby)@.players.contains_key(player_id) && !weapons@.contains_key(weapon_id) ==> r
            == Err::<(), GameError>(GameError::InvalidWeapon),
        old(lobby)@.players.contains_key(player_id) && weapons@.contains_key(weapon_id) ==> r is Ok,
        r is Err ==> final(lobby)@ == old(lobby)@,
        r is Ok ==> final(lobby)@ == old(lobby)@.put(
            player_id,
            rearmed(old(lobby)@.players[player_id], weapon_id, weapons@[weapon_id].ammo),
        ),
        old(lobby)@.wf() ==> final(lobby)@.wf(),
{
    if !lobby.players.contains_key(&player_id) {
        return Err(GameError::PlayerNotFound);
    }
    let ammo: u32 = match weapons.get(weapon_id) {
        None => {
            return Err(GameError::InvalidWeapon);
        },
        Some(w) => w.ammo,
    };
    match lobby.players.remove(&player_id) {
        None => Err(GameError::PlayerNotFound),
        Some(mut player) => {
            player.current_weapon_id = weapon_id;
            player.current_ammo = ammo;
            player.max_ammo = ammo;
            player.is_reloading = false;
            player.reload_end_time = None;
            proof {
                if old(lobby)@.wf() {
                    lemma_put_keeps_wf(old(lobby)@, player_id, player);
                }
            }
            lobby.players.insert(player_id, player);
            lobby.dirty_players.insert(player_id);
            assert(lobby@ =~= old(lobby)@.put(
                player_id,
                rearmed(old(lobby)@.players[player_id], weapon_id, ammo),
            ));
            Ok(())
        },
    }
}

/// The snapshot of one player's observable fields.
pub fn get_player_state(lobby: &Lobby, player_id: u32) -> (r: Result<PlayerSyncState, GameError>)
    ensures
        !lobby@.players.contains_key(player_id) ==> r == Err::<PlayerSyncState, GameError>(
            GameError::PlayerNotFound,
        ),
        lobby@.players.contains_key(player_id) ==> r == Ok::<PlayerSyncState, GameError>(
            lobby@.players[player_id].sync_state(),
        ),
{
    match lobby.players.get(&player_id) {
        None => Err(GameError::PlayerNotFound),
        Some(p) => Ok(p.to_sync_state()),
    }
}

/// Whether the player is in the lobby with health left.
pub fn is_player_alive(lobby: &Lobby, player_id: u32) -> (alive: bool)
    ensures
        alive <==> lobby@.players.contains_key(player_id) && lobby@.players[player_id].current_health
            > 0,
{
    match lobby.players.get(&player_id) {
        Some(p) => p.current_health > 0,
        None => false,
    }
}

/// The player's score.
pub fn get_player_score(lobby: &Lobby, player_id: u32) -> (r: Result<u32, GameError>)
    ensures
        !lobby@.players.contains_key(player_id) ==> r == Err::<u32, GameError>(
            GameError::PlayerNotFound,
        ),
        lobby@.players.contains_key(player_id) ==> r == Ok::<u32, GameError>(
            lobby@.players[player_id].score,
        ),
{
    match lobby.players.get(&player_id) {
        None => Err(GameError::PlayerNotFound),
        Some(p) => Ok(p.score),
    }
}

/// The player back at the spawn point with full health and a full magazine,
/// alive and not reloading.
pub open spec fn respawned(p: Player) -> Player {
    Player {
        position: spawn_position(),
        rotation: spawn_rotation(),
        current_health: p.max_health,
        current_ammo: p.max_ammo,
        is_reloading: false,
        reload_end_time: None,
        is_dead: false,
        respawn_time: None,
        ..p
    }
}

/// Puts a player back into play at the spawn point and marks it as changed.
/// Fails, changing nothing, exactly when the player is unknown.
pub fn respawn_player(lobby: &mut Lobby, player_id: u32) -> (r: Result<(), GameError>)
    ensures
        !old(lobby)@.players.contains_key(player_id) ==> r == Err::<(), GameError>(
            GameError::PlayerNotFound,
        ) && final(lobby)@ == old(lobby)@,
        old(lobby)@.players.contains_key(player_id) ==> r is Ok && final(lobby)@ == old(lobby)@.put(
            player_id,
            respawned(old(lobby)@.players[player_id]),
        ),
        old(lobby)@.wf() ==> final(lobby)@.wf(),
{
    match lobby.players.remove(&player_id) {
        None => {
            assert(lobby@ =~= old(lobby)@);
            Err(GameError::PlayerNotFound)
        },
        Some(mut player) => {
            player.position = Vec3 { x: 0, y: ONE_F32_BITS, z: 0 };
            player.rotation = Vec3 { x: 0, y: 0, z: 0 };
            player.current_health = player.max_health;
            player.current_ammo = player.max_ammo;
            player.is_reloading = false;
            player.reload_end_time = None;
            player.is_dead = false;
            player.respawn_time = None;
            proof {
                if old(lobby)@.wf() {
                    lemma_put_keeps_wf(old(lobby)@, player_id, player);
                }
            }
            lobby.players.insert(player_id, player);
            lobby.dirty_players.insert(player_id);
            assert(lobby@ =~= old(lobby)@.put(player_id, respawned(old(lobby)@.players[player_id])));
            Ok(())
        },
    }
}

/// Score a kill is worth for a killer whose killstreak stood at `killstreak`.
pub open spec fn kill_score(killstreak: u32) -> int {
    BASE_KILL_SCORE + KILLSTREAK_BONUS * (if killstreak < KILLSTREAK_CAP {
        killstreak as int
    } else {
        KILLSTREAK_CAP as int
    })
}

/// The killer after being credited with a kill.
pub open spec fn credited(p: Player) -> Player {
    Player {
        kills: (p.kills + 1) as u32,
        killstreak: (p.killstreak + 1) as u32,
        score: (p.score + kill_score(p.killstreak)) as u32,
        ..p
    }
}

/// The victim after dying at time `now`.
pub open spec fn slain(p: Player, now: u64) -> Player {
    Player {
        deaths: (p.deaths + 1) as u32,
        killstreak: 0,
        current_health: 0,
        is_dead: true,
        respawn_time: Some(deadline(now, RESPAWN_DELAY_MS as int)),
        ..p
    }
}

/// Why a kill cannot be registered, if it cannot.
pub open spec fn kill_refusal(
    v: LobbyView,
    weapons: Map<u32, Weapon>,
    killer_id: u32,
    victim_id: u32,
) -> Option<GameError> {
    if !v.players.contains_key(killer_id) {
        Some(GameError::KillerNotFound)
    } else if !v.players.contains_key(victim_id) {
        Some(GameError::VictimNotFound)
    } else if !weapons.contains_key(v.players[killer_id].current_weapon_id) {
        Some(GameError::InvalidWeapon)
    } else if v.players[killer_id].kills == u32::MAX || v.players[killer_id].killstreak == u32::MAX
        || v.players[killer_id].score + kill_score(v.players[killer_id].killstreak) > u32::MAX
        || v.players[victim_id].deaths == u32::MAX {
        Some(GameError::CounterOverflow)
    } else {
        None
    }
}

/// The lobby after a registered kill: first the killer is credited, then the
/// victim, as it then stands, dies. Both are marked as changed.
pub open spec fn after_kill(v: LobbyView, killer_id: u32, victim_id: u32, now: u64) -> LobbyView {
    let credit = v.put(killer_id, credited(v.players[killer_id]));
    credit.put(victim_id, slain(credit.players[victim_id], now))
}

/// Whether `event` announces the kill of `victim_id` by `killer_id` in lobby
/// `v`, as it stood before the kill.
pub open spec fn announces(
    event: KillEvent,
    v: LobbyView,
    weapons: Map<u32, Weapon>,
    killer_id: u32,
    victim_id: u32,
) -> bool {
    &&& event.killer_id == killer_id
    &&& event.victim_id == victim_id
    &&& event.killer_name == v.players[killer_id].name
    &&& event.victim_name == v.players[victim_id].name
    &&& event.weapon_id == v.players[killer_id].current_weapon_id
    &&& event.weapon_name == weapons[v.players[killer_id].current_weapon_id].name
    &&& event.killer_new_killstreak == v.players[killer_id].killstreak + 1
}

/// Registers that `killer_id` killed `victim_id` at time `now`.
///
/// Refused, with nothing changed, when the killer or the victim is unknown,
/// when the killer's weapon is not in the catalog, or when a counter would
/// leave its range. Otherwise the killer gains one kill, one killstreak step
/// and `100 + 25 * min(previous killstreak, 5)` points; the victim gains one
/// death, loses its killstreak and all health, and is dead until three
/// seconds after `now`. The event names both players and the weapon.
pub fn register_kill(
    lobby: &mut Lobby,
    weapons: &WeaponDb,
    killer_id: u32,
    victim_id: u32,
    now: u64,
) -> (r: Result<KillEvent, GameError>)
    ensures
        match kill_refusal(old(lobby)@, weapons@, killer_id, victim_id) {
            Some(e) => r is Err && r->Err_0 == e && final(lobby)@ == old(lobby)@,
            None => r is Ok && final(lobby)@ == after_kill(old(lobby)@, killer_id, victim_id, now)
                && announces(r->Ok_0, old(lobby)@, weapons@, killer_id, victim_id),
        },
        old(lobby)@.wf() ==> final(lobby)@.wf(),
{
    let (weapon_id, killer_name, streak, kills, score): (u32, String, u32, u32, u32) =
        match lobby.players.get(&killer_id) {
        None => {
            return Err(GameError::KillerNotFound);
        },
        Some(k) => (k.current_weapon_id, k.name.clone(), k.killstreak, k.kills, k.score),
    };
    let (victim_name, deaths): (String, u32) = match lobby.players.get(&victim_id) {
        None => {
            return Err(GameError::VictimNotFound);
        },
        Some(v) => (v.name.clone(), v.deaths),
    };
    let weapon_name: String = match weapons.get(weapon_id) {
        None => {
            return Err(GameError::InvalidWeapon);
        },
        Some(w) => w.name.clone(),
    };
    let capped: u32 = if streak < KILLSTREAK_CAP {
        streak
    } else {
        KILLSTREAK_CAP
    };
    let gain: u32 = BASE_KILL_SCORE + KILLSTREAK_BONUS * capped;
    if kills == u32::MAX || streak == u32::MAX || score > u32::MAX - gain || deaths == u32::MAX {
        return Err(GameError::CounterOverflow);
    }
    match lobby.players.remove(&killer_id) {
        None => {},
        Some(mut killer) => {
            killer.kills = kills + 1;
            killer.killstreak = streak + 1;
            killer.score = score + gain;
            proof {
                if old(lobby)@.wf() {
                    lemma_put_keeps_wf(old(lobby)@, killer_id, killer);
                }
            }
            lobby.players.insert(killer_id, killer);
            lobby.dirty_players.insert(killer_id);
        },
    }
    let ghost credit = old(lobby)@.put(killer_id, credited(old(lobby)@.players[killer_id]));
    assert(lobby@ =~= credit);
    match lobby.players.remove(&victim_id) {
        None => {},
        Some(mut victim) => {
            victim.deaths = victim.deaths + 1;
            victim.killstreak = 0;
            victim.current_health = 0;
            victim.is_dead = true;
            victim.respawn_time = Some(deadline_after(now, RESPAWN_DELAY_MS));
            proof {
                if old(lobby)@.wf() {
                    lemma_put_keeps_wf(credit, victim_id, victim);
                }
            }
            lobby.players.insert(victim_id, victim);
            lobby.dirty_players.insert(victim_id);
        },
    }
    assert(lobby@ =~= after_kill(old(lobby)@, killer_id, victim_id, now));
    Ok(
        KillEvent {
            killer_id,
            killer_name,
            victim_id,
            victim_name,
            weapon_id,
            weapon_name,
            killer_new_killstreak: streak + 1,
        },
    )
}

/// Whether a hit of `damage` on player `p` kills: it takes the last health
/// of a player who was not already dead.
pub open spec fn lethal(p: Player, damage: u32) -> bool {
    !p.is_dead && p.current_health <= damage
}

/// The lobby after `target` has lost `damage` health.
pub open spec fn hit(v: LobbyView, target: u32, damage: u32) -> LobbyView {
    v.put(target, hurt(v.players[target], damage))
}

/// Whether a hit of `damage` by `shooter` on `target` is registered as a
/// kill: the target is there, the amount is valid, the hit takes the last
/// health of a target not already dead, and nothing refuses the kill.
pub open spec fn kills(
    v: LobbyView,
    weapons: Map<u32, Weapon>,
    shooter: u32,
    target: u32,
    damage: u32,
) -> bool {
    &&& v.players.contains_key(target)
    &&& valid_damage(damage)
    &&& lethal(v.players[target], damage)
    &&& kill_refusal(hit(v, target, damage), weapons, shooter, target) is None
}

/// The lobby after `shooter` has dealt `damage` to `target` at `now`.
pub open spec fn after_damage(
    v: LobbyView,
    weapons: Map<u32, Weapon>,
    shooter: u32,
    target: u32,
    damage: u32,
    now: u64,
) -> LobbyView {
    if !v.players.contains_key(target) || !valid_damage(damage) {
        v
    } else if kills(v, weapons, shooter, target, damage) {
        after_kill(hit(v, target, damage), shooter, target, now)
    } else {
        hit(v, target, damage)
    }
}

/// Deals `damage` from `shooter_id` to `target_id` at time `now` and, when
/// the hit takes the last health of a target that was not already dead,
/// registers the kill.
///
/// The health step fails as in [`apply_damage`] and then changes nothing. A
/// hit that does not kill answers `Ok(None)`. A lethal hit answers what
/// [`register_kill`] answers on the lobby after the health step; if the kill
/// is refused, the health step stands.
pub fn damage_player(
    lobby: &mut Lobby,
    weapons: &WeaponDb,
    shooter_id: u32,
    target_id: u32,
    damage: u32,
    now: u64,
) -> (r: Result<Option<KillEvent>, GameError>)
    ensures
        final(lobby)@ == after_damage(old(lobby)@, weapons@, shooter_id, target_id, damage, now),
        !old(lobby)@.players.contains_key(target_id) ==> r is Err && r->Err_0
            == GameError::PlayerNotFound,
        old(lobby)@.players.contains_key(target_id) && !valid_damage(damage) ==> r is Err && r->Err_0
            == GameError::InvalidDamage,
        old(lobby)@.players.contains_key(target_id) && valid_damage(damage) && !lethal(
            old(lobby)@.players[target_id],
            damage,
        ) ==> r is Ok && r->Ok_0 is None,
        old(lobby)@.players.contains_key(target_id) && valid_damage(damage) && lethal(
            old(lobby)@.players[target_id],
            damage,
        ) ==> match kill_refusal(hit(old(lobby)@, target_id, damage), weapons@, shooter_id, target_id) {
            Some(e) => r is Err && r->Err_0 == e,
            None => r is Ok && r->Ok_0 is Some && announces(
                r->Ok_0->Some_0,
                hit(old(lobby)@, target_id, damage),
                weapons@,
                shooter_id,
                target_id,
            ),
        },
        old(lobby)@.wf() ==> final(lobby)@.wf(),
{
    let was_dead: bool = match lobby.players.get(&target_id) {
        None => {
            return Err(GameError::PlayerNotFound);
        },
        Some(t) => t.is_dead,
    };
    match apply_damage(lobby, target_id, damage) {
        Err(e) => {
            return Err(e);
        },
        Ok(()) => {},
    }
    let health: u32 = match lobby.players.get(&target_id) {
        None => {
            return Ok(None);
        },
        Some(t) => t.current_health,
    };
    if health != 0 || was_dead {
        return Ok(None);
    }
    match register_kill(lobby, weapons, shooter_id, target_id, now) {
        Err(e) => Err(e),
        Ok(event) => Ok(Some(event)),
    }
}

/// Whether player `id` gets a shot off at `now`.
pub open spec fn shoots(v: LobbyView, weapons: Map<u32, Weapon>, id: u32, now: u64) -> bool {
    v.players.contains_key(id) && shoot_outcome(v.players[id], weapons, now) == Ok::<
        bool,
        GameError,
    >(true)
}

/// The lobby right after player `id` has fired at `now`.
pub open spec fn shot(v: LobbyView, id: u32, now: u64) -> LobbyView {
    v.put(id, fired(v.players[id], now))
}

/// The damage of the weapon player `id` holds.
pub open spec fn weapon_damage(v: LobbyView, weapons: Map<u32, Weapon>, id: u32) -> u32 {
    weapons[v.players[id].current_weapon_id].damage
}

/// The lobby after `shooter` has tried to shoot `target` at `now`: if the
/// shot goes off, the shooter has fired and the target has been dealt the
/// damage of the shooter's weapon; otherwise nothing has changed.
pub open spec fn after_shot(
    v: LobbyView,
    weapons: Map<u32, Weapon>,
    shooter: u32,
    target: u32,
    now: u64,
) -> LobbyView {
    if shoots(v, weapons, shooter, now) {
        after_damage(
            shot(v, shooter, now),
            weapons,
            shooter,
            target,
            weapon_damage(v, weapons, shooter),
            now,
        )
    } else {
        v
    }
}

/// How an attempt to shoot a target ended.
#[derive(Debug)]
pub enum Shot {
    /// No shot went off: the shooter is reloading, out of ammunition or held
    /// back by the fire-rate gate.
    Held,
    /// The shot went off and killed nobody.
    Fired,
    /// The shot went off and killed its target.
    Killed(KillEvent),
}

/// The whole shooting rule: `shooter_id` tries to shoot `target_id` at time
/// `now`.
///
/// The attempt is decided as in [`try_shoot`], with the same errors. A shot
/// that goes off deals the damage of the shooter's weapon to the target as
/// in [`damage_player`]; a target that is not in the lobby, or a weapon
/// whose damage is not valid, leaves the shot without effect on anyone but
/// the shooter.
pub fn shoot(lobby: &mut Lobby, weapons: &WeaponDb, shooter_id: u32, target_id: u32, now: u64) -> (r:
    Result<Shot, GameError>)
    ensures
        final(lobby)@ == after_shot(old(lobby)@, weapons@, shooter_id, target_id, now),
        !old(lobby)@.players.contains_key(shooter_id) ==> r is Err && r->Err_0
            == GameError::PlayerNotFound,
        old(lobby)@.players.contains_key(shooter_id) ==> match shoot_outcome(
            old(lobby)@.players[shooter_id],
            weapons@,
            now,
        ) {
            Err(e) => r is Err && r->Err_0 == e,
            Ok(false) => r is Ok && r->Ok_0 is Held,
            Ok(true) => if kills(
                shot(old(lobby)@, shooter_id, now),
                weapons@,
                shooter_id,
                target_id,
                weapon_damage(old(lobby)@, weapons@, shooter_id),
            ) {
                r is Ok && r->Ok_0 is Killed && announces(
                    r->Ok_0->Killed_0,
                    hit(
                        shot(old(lobby)@, shooter_id, now),
                        target_id,
                        weapon_damage(old(lobby)@, weapons@, shooter_id),
                    ),
                    weapons@,
                    shooter_id,
                    target_id,
                )
            } else {
                r is Ok && r->Ok_0 is Fired
            },
        },
        old(lobby)@.wf() ==> final(lobby)@.wf(),
{
    match try_shoot(lobby, weapons, shooter_id, now) {
        Err(e) => Err(e),
        Ok(false) => Ok(Shot::Held),
        Ok(true) => {
            let weapon_id: u32 = match lobby.players.get(&shooter_id) {
                Some(p) => p.current_weapon_id,
                None => {
                    return Ok(Shot::Fired);
                },
            };
            let damage: u32 = match weapons.get(weapon_id) {
                Some(w) => w.damage,
                None => {
                    return Ok(Shot::Fired);
                },
            };
            match damage_player(lobby, weapons, shooter_id, target_id, damage, now) {
                Ok(Some(event)) => Ok(Shot::Killed(event)),
                _ => Ok(Shot::Fired),
            }
        },
    }
}

/// Whether a reload of player `p` has run its time at `now`.
pub open spec fn reload_done(p: Player, now: u64) -> bool {
    p.is_reloading && p.reload_end_time is Some && now >= p.reload_end_time->Some_0
}

/// The player with a full magazine and no reload in progress.
pub open spec fn refilled(p: Player) -> Player {
    Player { current_ammo: p.max_ammo, is_reloading: false, reload_end_time: None, ..p }
}

/// The players of `v` whose reload has run its time at `now`.
pub open spec fn reloads_due(v: LobbyView, now: u64) -> Set<u32> {
    Set::new(|id: u32| v.players.contains_key(id) && reload_done(v.players[id], now))
}

/// The lobby after the reloads of the players in `ids` have completed: each
/// has a full magazine and is marked as changed.
pub open spec fn reloaded(v: LobbyView, ids: Set<u32>) -> LobbyView {
    LobbyView {
        players: Map::new(
            |id: u32| v.players.contains_key(id),
            |id: u32|
                if ids.contains(id) {
                    refilled(v.players[id])
                } else {
                    v.players[id]
                },
        ),
        dirty_players: v.dirty_players.union(ids),
        ..v
    }
}

/// Completes the reload of one player if it has run its time at `now`, and
/// says whether it did.
pub fn complete_reload(lobby: &mut Lobby, player_id: u32, now: u64) -> (done: bool)
    ensures
        done <==> old(lobby)@.players.contains_key(player_id) && reload_done(
            old(lobby)@.players[player_id],
            now,
        ),
        done ==> final(lobby)@ == old(lobby)@.put(
            player_id,
            refilled(old(lobby)@.players[player_id]),
        ),
        !done ==> final(lobby)@ == old(lobby)@,
        old(lobby)@.wf() ==> final(lobby)@.wf(),
{
    let due: bool = match lobby.players.get(&player_id) {
        None => false,
        Some(p) => p.is_reloading && match p.reload_end_time {
            Some(end) => now >= end,
            None => false,
        },
    };
    if !due {
        return false;
    }
    match lobby.players.remove(&player_id) {
        None => false,
        Some(mut player) => {
            player.current_ammo = player.max_ammo;
            player.is_reloading = false;
            player.reload_end_time = None;
            proof {
                if old(lobby)@.wf() {
                    lemma_put_keeps_wf(old(lobby)@, player_id, player);
                }
            }
            lobby.players.insert(player_id, player);
            lobby.dirty_players.insert(player_id);
            assert(lobby@ =~= old(lobby)@.put(player_id, refilled(old(lobby)@.players[player_id])));
            true
        },
    }
}

/// Completes every reload that has run its time at `now`: each such player
/// gets a full magazine, stops reloading and is marked as changed. Answers
/// the ids of those players, each once, in no particular order.
pub fn update_reload_states(lobby: &mut Lobby, now: u64) -> (completed: Vec<u32>)
    ensures
        completed@.no_duplicates(),
        completed@.to_set() == reloads_due(old(lobby)@, now),
        final(lobby)@ == reloaded(old(lobby)@, reloads_due(old(lobby)@, now)),
        old(lobby)@.wf() ==> final(lobby)@.wf(),
{
    let keys = keys_of(&lobby.players);
    let mut completed: Vec<u32> = Vec::new();
    let mut i: usize = 0;
    let ghost want = reloads_due(old(lobby)@, now);
    proof {
        lemma_gathering_start(keys@, want);
        assert(lobby@ =~= reloaded(old(lobby)@, completed@.to_set()));
    }
    while i < keys.len()
        invariant
            keys@.to_set() == old(lobby)@.players.dom(),
            want == reloads_due(old(lobby)@, now),
            gathering(keys@, i as int, completed@, want),
            lobby@ == reloaded(old(lobby)@, completed@.to_set()),
            old(lobby)@.wf() ==> lobby@.wf(),
        decreases keys.len() - i,
    {
        let id: u32 = keys[i];
        proof {
            lemma_gathering_step(keys@, i as int, completed@, want);
            assert(keys@.to_set().contains(keys@[i as int]));
        }
        if complete_reload(lobby, id, now) {
            proof {
                completed@.lemma_push_to_set_commute(id);
            }
            completed.push(id);
            assert(lobby@ =~= reloaded(old(lobby)@, completed@.to_set()));
        }
        i = i + 1;
    }
    proof {
        lemma_gathering_end(keys@, completed@, want);
    }
    completed
}

/// Whether a dead player's respawn time has come at `now`.
pub open spec fn respawn_due(p: Player, now: u64) -> bool {
    p.is_dead && p.respawn_time is Some && now >= p.respawn_time->Some_0
}

/// The players of `v` whose respawn time has come at `now`.
pub open spec fn respawns_due(v: LobbyView, now: u64) -> Set<u32> {
    Set::new(|id: u32| v.players.contains_key(id) && respawn_due(v.players[id], now))
}

/// The lobby after the players in `ids` have respawned: each is back at the
/// spawn point, alive with full health and a full magazine, and marked as
/// changed.
pub open spec fn revived(v: LobbyView, ids: Set<u32>) -> LobbyView {
    LobbyView {
        players: Map::new(
            |id: u32| v.players.contains_key(id),
            |id: u32|
                if ids.contains(id) {
                    respawned(v.players[id])
                } else {
                    v.players[id]
                },
        ),
        dirty_players: v.dirty_players.union(ids),
        ..v
    }
}

/// Respawns every dead player whose respawn time has come at `now`. Answers
/// the ids of those players, each once, in no particular order.
pub fn update_respawn_states(lobby: &mut Lobby, now: u64) -> (respawns: Vec<u32>)
    ensures
        respawns@.no_duplicates(),
        respawns@.to_set() == respawns_due(old(lobby)@, now),
        final(lobby)@ == revived(old(lobby)@, respawns_due(old(lobby)@, now)),
        old(lobby)@.wf() ==> final(lobby)@.wf(),
{
    let keys = keys_of(&lobby.players);
    let mut respawns: Vec<u32> = Vec::new();
    let mut i: usize = 0;
    let ghost want = respawns_due(old(lobby)@, now);
    proof {
        lemma_gathering_start(keys@, want);
        assert(lobby@ =~= revived(old(lobby)@, respawns@.to_set()));
    }
    while i < keys.len()
        invariant
            keys@.to_set() == old(lobby)@.players.dom(),
            want == respawns_due(old(lobby)@, now),
            gathering(keys@, i as int, respawns@, want),
            lobby@ == revived(old(lobby)@, respawns@.to_set()),
            old(lobby)@.wf() ==> lobby@.wf(),
        decreases keys.len() - i,
    {
        let id: u32 = keys[i];
        proof {
            lemma_gathering_step(keys@, i as int, respawns@, want);
            assert(keys@.to_set().contains(keys@[i as int]));
        }
        let due: bool = match lobby.players.get(&id) {
            None => false,
            Some(p) => p.is_dead && match p.respawn_time {
                Some(at) => now >= at,
                None => false,
            },
        };
        if due {
            let _ = respawn_player(lobby, id);
            proof {
                respawns@.lemma_push_to_set_commute(id);
            }
            respawns.push(id);
            assert(lobby@ =~= revived(old(lobby)@, respawns@.to_set()));
        }
        i = i + 1;
    }
    proof {
        lemma_gathering_end(keys@, respawns@, want);
    }
    respawns
}

/// Whether `states` lists the snapshot of every player of `v` exactly once,
/// in the order of `ids`.
pub open spec fn snapshots_of(v: LobbyView, ids: Seq<u32>, states: Seq<PlayerSyncState>) -> bool {
    &&& ids.no_duplicates()
    &&& ids.to_set() == v.players.dom()
    &&& states.len() == ids.len()
    &&& forall|j: int| 0 <= j < ids.len() ==> #[trigger] states[j] == v.players[ids[j]].sync_state()
}

/// The snapshots of all players of the lobby, one for each player, in no
/// particular order.
pub fn get_lobby_state_sync(lobby: &Lobby) -> (states: Vec<PlayerSyncState>)
    ensures
        exists|ids: Seq<u32>| snapshots_of(lobby@, ids, states@),
{
    let keys = keys_of(&lobby.players);
    let mut states: Vec<PlayerSyncState> = Vec::new();
    let mut i: usize = 0;
    while i < keys.len()
        invariant
            0 <= i <= keys.len(),
            keys@.to_set() == lobby@.players.dom(),
            states@.len() == i,
            forall|j: int| 0 <= j < i ==> #[trigger] states@[j] == lobby@.players[keys@[j]].sync_state(),
        decreases keys.len() - i,
    {
        assert(keys@.to_set().contains(keys@[i as int]));
        match lobby.players.get(&keys[i]) {
            Some(p) => {
                states.push(p.to_sync_state());
            },
            None => {},
        }
        i = i + 1;
    }
    assert(snapshots_of(lobby@, keys@, states@));
    states
}

} // verus!
