//! Players, the addresses they are reached at, and the snapshot of a
//! player's observable fields.

use vstd::prelude::*;

verus! {

/// Reserved id of the calibration bot: never cleaned up for inactivity and
/// never listed on a leaderboard.
pub const BOT_PLAYER_ID: u32 = 999;

/// Health every player joins with.
pub const STARTING_HEALTH: u32 = 100;

/// Milliseconds between a kill and the victim's respawn.
pub const RESPAWN_DELAY_MS: u64 = 3000;

/// A triple of 32-bit floats, carried as their IEEE-754 bit patterns. The
/// rules only store and hand back such triples; they never do arithmetic on
/// them.
#[derive(Clone, Copy, Debug, PartialEq, Eq, Structural)]
pub struct Vec3 {
    pub x: u32,
    pub y: u32,
    pub z: u32,
}

/// Bit pattern of `1.0f32`.
pub const ONE_F32_BITS: u32 = 0x3F80_0000;

/// Where a player stands right after joining or respawning: `(0, 1, 0)`.
pub open spec fn spawn_position() -> Vec3 {
    Vec3 { x: 0, y: ONE_F32_BITS, z: 0 }
}

/// The rotation of a freshly spawned player: `(0, 0, 0)`.
pub open spec fn spawn_rotation() -> Vec3 {
    Vec3 { x: 0, y: 0, z: 0 }
}

/// A UDP endpoint as plain numbers. An IPv4 address occupies the low 32 bits
/// of `ip`.
#[derive(Clone, Copy, Debug, PartialEq, Eq, Structural)]
pub struct Endpoint {
    pub ip: u128,
    pub port: u16,
    pub is_v6: bool,
}

impl Endpoint {
    /// The IPv4 endpoint `a.b.c.d:port`.
    pub fn v4(a: u8, b: u8, c: u8, d: u8, port: u16) -> (e: Endpoint)
        ensures
            e.port == port,
            !e.is_v6,
            e.ip == a as int * 0x100_0000 + b as int * 0x1_0000 + c as int * 0x100 + d as int,
    {
        let ip: u128 = (a as u128) * 0x100_0000 + (b as u128) * 0x1_0000 + (c as u128) * 0x100 + (
        d as u128);
        Endpoint { ip, port, is_v6: false }
    }
}

/// Authoritative state of one player. All timestamps are milliseconds since
/// the Unix epoch.
#[derive(Debug)]
pub struct Player {
    pub id: u32,
    pub name: String,
    pub position: Vec3,
    pub rotation: Vec3,
    pub last_update: u64,
    pub current_health: u32,
    pub max_health: u32,
    pub current_weapon_id: u32,
    pub current_ammo: u32,
    pub max_ammo: u32,
    pub is_reloading: bool,
    pub reload_end_time: Option<u64>,
    pub last_shot_time: u64,
    pub kills: u32,
    pub deaths: u32,
    pub score: u32,
    pub killstreak: u32,
    pub warned_at: Option<u64>,
    pub is_dead: bool,
    pub respawn_time: Option<u64>,
}

/// The fields of a player that delta synchronisation watches.
#[derive(Clone, Copy, Debug, PartialEq, Eq, Structural)]
pub struct PlayerSyncState {
    pub player_id: u32,
    pub health: u32,
    pub ammo: u32,
    pub max_ammo: u32,
    pub weapon_id: u32,
    pub is_reloading: bool,
    pub kills: u32,
    pub deaths: u32,
    pub score: u32,
    pub killstreak: u32,
}

impl Player {
    /// The invariants every stored player satisfies: health and ammunition
    /// stay within their maxima, a reload deadline exists exactly while
    /// reloading, a respawn is scheduled exactly while dead, and a dead
    /// player has no health left.
    pub open spec fn wf(&self) -> bool {
        &&& self.current_health <= self.max_health
        &&& self.current_ammo <= self.max_ammo
        &&& (self.is_reloading <==> self.reload_end_time is Some)
        &&& (self.is_dead <==> self.respawn_time is Some)
        &&& (self.is_dead ==> self.current_health == 0)
    }

    /// What a snapshot of this player holds.
    pub open spec fn sync_state(&self) -> PlayerSyncState {
        PlayerSyncState {
            player_id: self.id,
            health: self.current_health,
            ammo: self.current_ammo,
            max_ammo: self.max_ammo,
            weapon_id: self.current_weapon_id,
            is_reloading: self.is_reloading,
            kills: self.kills,
            deaths: self.deaths,
            score: self.score,
            killstreak: self.killstreak,
        }
    }

    /// The player as it stands right after joining at time `now` with a
    /// magazine of `ammo` rounds.
    pub open spec fn fresh(id: u32, name: String, weapon_id: u32, ammo: u32, now: u64) -> Player {
        Player {
            id,
            name,
            position: spawn_position(),
            rotation: spawn_rotation(),
            last_update: now,
            current_health: STARTING_HEALTH,
            max_health: STARTING_HEALTH,
            current_weapon_id: weapon_id,
            current_ammo: ammo,
            max_ammo: ammo,
            is_reloading: false,
            reload_end_time: None,
            last_shot_time: 0,
            kills: 0,
            deaths: 0,
            score: 0,
            killstreak: 0,
            warned_at: None,
            is_dead: false,
            respawn_time: None,
        }
    }

    /// Builds a joining player.
    pub fn new(id: u32, name: String, weapon_id: u32, ammo: u32, now: u64) -> (p: Player)
        ensures
            p == Player::fresh(id, name, weapon_id, ammo, now),
            p.wf(),
    {
        Player {
            id,
            name,
            position: Vec3 { x: 0, y: ONE_F32_BITS, z: 0 },
            rotation: Vec3 { x: 0, y: 0, z: 0 },
            last_update: now,
            current_health: STARTING_HEALTH,
            max_health: STARTING_HEALTH,
            current_weapon_id: weapon_id,
            current_ammo: ammo,
            max_ammo: ammo,
            is_reloading: false,
            reload_end_time: None,
            last_shot_time: 0,
            kills: 0,
            deaths: 0,
            score: 0,
            killstreak: 0,
            warned_at: None,
            is_dead: false,
            respawn_time: None,
        }
    }

    /// Snapshot of the observable fields.
    pub fn to_sync_state(&self) -> (s: PlayerSyncState)
        ensures
            s == self.sync_state(),
    {
        PlayerSyncState {
            player_id: self.id,
            health: self.current_health,
            ammo: self.current_ammo,
            max_ammo: self.max_ammo,
            weapon_id: self.current_weapon_id,
            is_reloading: self.is_reloading,
            kills: self.kills,
            deaths: self.deaths,
            score: self.score,
            killstreak: self.killstreak,
        }
    }
}

} // verus!
