//! The weapon catalog: an immutable-after-boot mapping from weapon id to the
//! numbers the rules need.

use std::collections::HashMap;
use vstd::prelude::*;

verus! {

broadcast use vstd::std_specs::hash::group_hash_axioms;

/// One catalog entry.
///
/// Rates and durations are fixed-point integers so that the fire-rate gate
/// and the reload timer are exact: `fire_rate_mhz` counts shots per thousand
/// seconds (4 shots per second is `4000`), `reload_time_ms` is the reload
/// duration in milliseconds.
pub struct Weapon {
    pub id: u32,
    pub name: String,
    pub damage: u32,
    pub fire_rate_mhz: u32,
    pub reload_time_ms: u32,
    pub ammo: u32,
}

/// Weapon id found under the catalog's default entry.
pub const DEFAULT_WEAPON_ID: u32 = 1;

/// The catalog itself. Its view is the map from weapon id to entry.
pub struct WeaponDb {
    pub weapons: HashMap<u32, Weapon>,
}

impl View for WeaponDb {
    type V = Map<u32, Weapon>;

    open spec fn view(&self) -> Map<u32, Weapon> {
        self.weapons@
    }
}

impl WeaponDb {
    /// An empty catalog.
    pub fn new() -> (db: WeaponDb)
        ensures
            db@ == Map::<u32, Weapon>::empty(),
    {
        WeaponDb { weapons: HashMap::new() }
    }

    /// Adds `weapon` under its own id, replacing an earlier entry with that id.
    pub fn insert(&mut self, weapon: Weapon)
        ensures
            final(self)@ == old(self)@.insert(weapon.id, weapon),
    {
        let id: u32 = weapon.id;
        self.weapons.insert(id, weapon);
    }

    /// The built-in catalog: the two stock weapons, keyed by their ids.
    pub fn load() -> (db: WeaponDb)
        ensures
            db@.dom() =~= set![1u32, 2u32],
            db@[1u32].id == 1 && db@[1u32].damage == 20 && db@[1u32].fire_rate_mhz == 4000
                && db@[1u32].reload_time_ms == 2000 && db@[1u32].ammo == 20,
            db@[1u32].name@ == "Golden Friend"@,
            db@[2u32].id == 2 && db@[2u32].damage == 50 && db@[2u32].fire_rate_mhz == 1000
                && db@[2u32].reload_time_ms == 3000 && db@[2u32].ammo == 8,
            db@[2u32].name@ == "Prototype"@,
    {
        let mut db = WeaponDb::new();
        db.insert(
            Weapon {
                id: 1,
                name: "Golden Friend".to_string(),
                damage: 20,
                fire_rate_mhz: 4000,
                reload_time_ms: 2000,
                ammo: 20,
            },
        );
        db.insert(
            Weapon {
                id: 2,
                name: "Prototype".to_string(),
                damage: 50,
                fire_rate_mhz: 1000,
                reload_time_ms: 3000,
                ammo: 8,
            },
        );
        db
    }

    /// The id every joining player starts with.
    pub fn default_weapon_id() -> (id: u32)
        ensures
            id == DEFAULT_WEAPON_ID,
    {
        DEFAULT_WEAPON_ID
    }

    /// Looks a weapon up by id.
    pub fn get(&self, id: u32) -> (found: Option<&Weapon>)
        ensures
            found is Some <==> self@.contains_key(id),
            found is Some ==> *found->Some_0 == self@[id],
    {
        self.weapons.get(&id)
    }

    /// Whether the catalog knows `id`.
    pub fn contains(&self, id: u32) -> (known: bool)
        ensures
            known == self@.contains_key(id),
    {
        self.weapons.contains_key(&id)
    }
}

} // verus!
