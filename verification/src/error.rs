//! The reasons a rule can refuse a request.

use vstd::prelude::*;

verus! {

/// Why a lobby operation or a gameplay rule did nothing.
#[derive(Clone, Copy, Debug, PartialEq, Eq, Structural)]
pub enum GameError {
    /// The lobby handed in is not the one the code names.
    LobbyCodeMismatch,
    /// The lobby already holds as many players as it admits.
    LobbyFull,
    /// A player with that id is already in the lobby.
    PlayerExists,
    /// The weapon a joining player would start with is not in the catalog.
    InvalidDefaultWeapon,
    /// No player with that id is in the lobby.
    PlayerNotFound,
    /// The weapon is not in the catalog.
    InvalidWeapon,
    /// The clock reads earlier than the player's last shot.
    TimeError,
    /// Damage must be between 1 and 100.
    InvalidDamage,
    /// The player is already reloading or the magazine is full.
    CannotReload,
    /// The weapon the player holds is not in the catalog.
    WeaponNotFound,
    /// The killer is not in the lobby.
    KillerNotFound,
    /// The victim is not in the lobby.
    VictimNotFound,
    /// A kill, death or score counter has reached the top of its range.
    CounterOverflow,
}

impl GameError {
    /// The text shown for this error.
    pub open spec fn text(self) -> Seq<char> {
        match self {
            GameError::LobbyCodeMismatch => "Lobby code mismatch"@,
            GameError::LobbyFull => "Lobby is full"@,
            GameError::PlayerExists => "Player already exists"@,
            GameError::InvalidDefaultWeapon => "Invalid default weapon"@,
            GameError::PlayerNotFound => "Player not found"@,
            GameError::InvalidWeapon => "Invalid weapon"@,
            GameError::TimeError => "Time error"@,
            GameError::InvalidDamage => "Invalid damage amount"@,
            GameError::CannotReload => "Cannot reload"@,
            GameError::WeaponNotFound => "Weapon not found"@,
            GameError::KillerNotFound => "Killer not found"@,
            GameError::VictimNotFound => "Victim not found"@,
            GameError::CounterOverflow => "Counter overflow"@,
        }
    }

    /// A short human-readable description.
    pub fn message(&self) -> (s: &'static str)
        ensures
            s@ == self.text(),
    {
        match self {
            GameError::LobbyCodeMismatch => "Lobby code mismatch",
            GameError::LobbyFull => "Lobby is full",
            GameError::PlayerExists => "Player already exists",
            GameError::InvalidDefaultWeapon => "Invalid default weapon",
            GameError::PlayerNotFound => "Player not found",
            GameError::InvalidWeapon => "Invalid weapon",
            GameError::TimeError => "Time error",
            GameError::InvalidDamage => "Invalid damage amount",
            GameError::CannotReload => "Cannot reload",
            GameError::WeaponNotFound => "Weapon not found",
            GameError::KillerNotFound => "Killer not found",
            GameError::VictimNotFound => "Victim not found",
            GameError::CounterOverflow => "Counter overflow",
        }
    }
}

} // verus!
