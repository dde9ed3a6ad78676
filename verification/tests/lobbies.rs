use gungameserver::error::GameError;
use gungameserver::lobbies::{
    add_player, cleanup_inactive, create_lobby, remove_player, set_player_address, update_position,
};
use gungameserver::lobby::Lobby;
use gungameserver::player::{Endpoint, Vec3};
use gungameserver::weapons::WeaponDb;

const NOW: u64 = 1_700_000_000_000;

fn vec3(x: f32, y: f32, z: f32) -> Vec3 {
    Vec3 { x: x.to_bits(), y: y.to_bits(), z: z.to_bits() }
}

#[test]
fn test_add_player() {
    let mut lobby = Lobby::new("TEST".to_string(), 4, "world".to_string());
    let weapons = WeaponDb::load();

    let result = add_player(&mut lobby, 1, "Player1".to_string(), 1, &weapons, NOW);
    assert!(result.is_ok());
    assert_eq!(lobby.players.len(), 1);
    assert!(lobby.players.contains_key(&1));
}

#[test]
fn test_add_player_full_lobby() {
    let mut lobby = Lobby::new("TEST".to_string(), 2, "world".to_string());
    let weapons = WeaponDb::load();

    add_player(&mut lobby, 1, "Player1".to_string(), 1, &weapons, NOW).unwrap();
    add_player(&mut lobby, 2, "Player2".to_string(), 1, &weapons, NOW).unwrap();

    let result = add_player(&mut lobby, 3, "Player3".to_string(), 1, &weapons, NOW);
    assert!(result.is_err());
}

#[test]
fn test_remove_player() {
    let mut lobby = Lobby::new("TEST".to_string(), 4, "world".to_string());
    let weapons = WeaponDb::load();

    add_player(&mut lobby, 1, "Player1".to_string(), 1, &weapons, NOW).unwrap();
    assert_eq!(lobby.players.len(), 1);

    remove_player(&mut lobby, 1);
    assert_eq!(lobby.players.len(), 0);
}

#[test]
fn test_update_position() {
    let mut lobby = Lobby::new("TEST".to_string(), 4, "world".to_string());
    let weapons = WeaponDb::load();

    add_player(&mut lobby, 1, "Player1".to_string(), 1, &weapons, NOW).unwrap();

    let result = update_position(&mut lobby, 1, vec3(10.0, 2.0, 5.0), vec3(0.0, 1.0, 0.0), NOW);
    assert!(result.is_ok());

    let player = lobby.players.get(&1).unwrap();
    assert_eq!(f32::from_bits(player.position.x), 10.0);
    assert!(lobby.dirty_players.contains(&1));
}

#[test]
fn test_cleanup_inactive() {
    let mut lobby = Lobby::new("TEST".to_string(), 4, "world".to_string());
    let weapons = WeaponDb::load();

    add_player(&mut lobby, 1, "Player1".to_string(), 1, &weapons, NOW).unwrap();

    if let Some(player) = lobby.players.get_mut(&1) {
        player.last_update = NOW - 20_000;
    }

    let (removed, _) = cleanup_inactive(&mut lobby, 15, 500, NOW);
    assert_eq!(removed.len(), 1);
    assert_eq!(removed[0], 1);
    assert_eq!(lobby.players.len(), 0);
}

#[test]
fn add_player_reports_each_refusal() {
    let mut lobby = Lobby::new("TEST".to_string(), 2, "world".to_string());
    let weapons = WeaponDb::load();
    assert_eq!(
        add_player(&mut lobby, 1, "A".to_string(), 77, &weapons, NOW),
        Err(GameError::InvalidDefaultWeapon)
    );
    assert_eq!(lobby.players.len(), 0);
    add_player(&mut lobby, 1, "A".to_string(), 1, &weapons, NOW).unwrap();
    assert_eq!(
        add_player(&mut lobby, 1, "B".to_string(), 1, &weapons, NOW),
        Err(GameError::PlayerExists)
    );
    add_player(&mut lobby, 2, "B".to_string(), 1, &weapons, NOW).unwrap();
    assert_eq!(
        add_player(&mut lobby, 1, "B".to_string(), 1, &weapons, NOW),
        Err(GameError::LobbyFull)
    );
    assert_eq!(GameError::LobbyFull.message(), "Lobby is full");
    assert_eq!(GameError::PlayerExists.message(), "Player already exists");
    assert_eq!(GameError::InvalidDefaultWeapon.message(), "Invalid default weapon");
}

#[test]
fn joining_player_starts_fresh() {
    let mut lobby = Lobby::new("TEST".to_string(), 4, "world".to_string());
    let weapons = WeaponDb::load();
    add_player(&mut lobby, 7, "Seven".to_string(), 1, &weapons, NOW).unwrap();
    let p = lobby.players.get(&7).unwrap();
    assert_eq!(p.id, 7);
    assert_eq!(p.name, "Seven");
    assert_eq!(p.position, vec3(0.0, 1.0, 0.0));
    assert_eq!(p.rotation, vec3(0.0, 0.0, 0.0));
    assert_eq!(p.current_health, 100);
    assert_eq!(p.max_health, 100);
    assert_eq!(p.current_ammo, 20);
    assert_eq!(p.max_ammo, 20);
    assert_eq!(p.last_update, NOW);
    assert_eq!(p.last_shot_time, 0);
    assert!(!p.is_reloading && !p.is_dead);
    assert!(lobby.dirty_players.contains(&7));
}

#[test]
fn create_lobby_checks_the_code() {
    let mut lobby = Lobby::new("TEST".to_string(), 4, "world".to_string());
    assert_eq!(create_lobby(&mut lobby, "TEST".to_string(), 4, "world".to_string()), Ok(()));
    assert_eq!(
        create_lobby(&mut lobby, "OTHER".to_string(), 4, "world".to_string()),
        Err(GameError::LobbyCodeMismatch)
    );
    assert_eq!(GameError::LobbyCodeMismatch.message(), "Lobby code mismatch");
}

#[test]
fn remove_player_takes_every_trace() {
    let mut lobby = Lobby::new("TEST".to_string(), 4, "world".to_string());
    let weapons = WeaponDb::load();
    add_player(&mut lobby, 1, "A".to_string(), 1, &weapons, NOW).unwrap();
    set_player_address(&mut lobby, 1, Endpoint::v4(127, 0, 0, 1, 9001)).unwrap();
    assert!(lobby.client_addresses.contains_key(&1));
    remove_player(&mut lobby, 1);
    assert!(lobby.players.is_empty());
    assert!(lobby.client_addresses.is_empty());
    assert!(lobby.dirty_players.is_empty());
    assert!(lobby.last_sync_state.is_empty());
}

#[test]
fn address_and_position_need_a_known_player() {
    let mut lobby = Lobby::new("TEST".to_string(), 4, "world".to_string());
    assert_eq!(
        set_player_address(&mut lobby, 1, Endpoint::v4(10, 0, 0, 1, 5000)),
        Err(GameError::PlayerNotFound)
    );
    assert_eq!(
        update_position(&mut lobby, 1, vec3(1.0, 2.0, 3.0), vec3(0.0, 0.0, 0.0), NOW),
        Err(GameError::PlayerNotFound)
    );
    assert!(lobby.client_addresses.is_empty());
    assert_eq!(GameError::PlayerNotFound.message(), "Player not found");
}

#[test]
fn endpoint_v4_packs_the_octets() {
    let e = Endpoint::v4(192, 168, 1, 100, 5000);
    assert_eq!(e.ip, 0xC0A8_0164);
    assert_eq!(e.port, 5000);
    assert!(!e.is_v6);
}

#[test]
fn inactivity_warns_once_then_removes() {
    let mut lobby = Lobby::new("TEST".to_string(), 4, "world".to_string());
    let weapons = WeaponDb::load();
    add_player(&mut lobby, 1, "Idle".to_string(), 1, &weapons, NOW).unwrap();
    add_player(&mut lobby, 2, "Busy".to_string(), 1, &weapons, NOW).unwrap();
    set_player_address(&mut lobby, 1, Endpoint::v4(127, 0, 0, 1, 9001)).unwrap();

    let (removed, warned) = cleanup_inactive(&mut lobby, 15, 500, NOW + 7_500);
    assert!(removed.is_empty() && warned.is_empty());

    lobby.players.get_mut(&2).unwrap().last_update = NOW + 8_000;
    let (removed, warned) = cleanup_inactive(&mut lobby, 15, 500, NOW + 8_000);
    assert!(removed.is_empty());
    assert_eq!(warned, vec![1]);
    assert_eq!(lobby.players.get(&1).unwrap().warned_at, Some(NOW + 8_000));

    let (removed, warned) = cleanup_inactive(&mut lobby, 15, 500, NOW + 9_000);
    assert!(removed.is_empty() && warned.is_empty());

    lobby.players.get_mut(&2).unwrap().last_update = NOW + 16_000;
    let (removed, warned) = cleanup_inactive(&mut lobby, 15, 500, NOW + 15_000);
    assert!(removed.is_empty() && warned.is_empty());
    let (removed, warned) = cleanup_inactive(&mut lobby, 15, 500, NOW + 16_000);
    assert_eq!(removed, vec![1]);
    assert!(warned.is_empty());
    assert!(!lobby.players.contains_key(&1));
    assert!(!lobby.client_addresses.contains_key(&1));
    assert!(lobby.players.contains_key(&2));
}

#[test]
fn idle_time_is_compared_to_the_millisecond() {
    let weapons = WeaponDb::load();
    let mut lobby = Lobby::new("TEST".to_string(), 4, "world".to_string());
    add_player(&mut lobby, 1, "Idle".to_string(), 1, &weapons, NOW).unwrap();

    let (removed, warned) = cleanup_inactive(&mut lobby, 15, 500, NOW + 7_600);
    assert!(removed.is_empty());
    assert_eq!(warned, vec![1]);
    assert_eq!(lobby.players.get(&1).unwrap().warned_at, Some(NOW + 7_600));

    let (removed, _) = cleanup_inactive(&mut lobby, 15, 500, NOW + 15_500);
    assert_eq!(removed, vec![1]);
    assert!(lobby.players.is_empty());

    let mut lobby = Lobby::new("TEST".to_string(), 4, "world".to_string());
    add_player(&mut lobby, 1, "Idle".to_string(), 1, &weapons, NOW).unwrap();
    let (removed, warned) = cleanup_inactive(&mut lobby, 15, 500, NOW + 7_501);
    assert!(removed.is_empty());
    assert_eq!(warned, vec![1]);
    let (removed, warned) = cleanup_inactive(&mut lobby, 15, 500, NOW + 15_001);
    assert_eq!(removed, vec![1]);
    assert!(warned.is_empty());

    let mut lobby = Lobby::new("TEST".to_string(), 4, "world".to_string());
    add_player(&mut lobby, 1, "Idle".to_string(), 1, &weapons, NOW).unwrap();
    let (removed, warned) = cleanup_inactive(&mut lobby, 10, 333, NOW + 3_330);
    assert!(removed.is_empty() && warned.is_empty());
    let (_, warned) = cleanup_inactive(&mut lobby, 10, 333, NOW + 3_331);
    assert_eq!(warned, vec![1]);
}

#[test]
fn the_bot_is_never_cleaned_up() {
    let mut lobby = Lobby::new("TEST".to_string(), 4, "world".to_string());
    let weapons = WeaponDb::load();
    add_player(&mut lobby, 999, "Bot".to_string(), 1, &weapons, NOW).unwrap();
    let (removed, warned) = cleanup_inactive(&mut lobby, 15, 500, NOW + 1_000_000);
    assert!(removed.is_empty() && warned.is_empty());
    assert!(lobby.players.contains_key(&999));
    assert_eq!(lobby.players.get(&999).unwrap().warned_at, None);
}
