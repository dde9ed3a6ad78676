use gungameserver::commands::{drain_and_coalesce, LobbyCommand};
use gungameserver::lobby::Lobby;
use gungameserver::player::{Endpoint, Vec3};
use gungameserver::tick::{run_tick, Config};
use gungameserver::weapons::WeaponDb;
use tokio::sync::mpsc::{channel, Receiver, Sender};

const START: u64 = 1_700_000_000_000;

fn vec3(x: f32, y: f32, z: f32) -> Vec3 {
    Vec3 { x: x.to_bits(), y: y.to_bits(), z: z.to_bits() }
}

fn addr(a: u8, b: u8, c: u8, d: u8, port: u16) -> Endpoint {
    Endpoint::v4(a, b, c, d, port)
}

fn local(port: u16) -> Endpoint {
    addr(127, 0, 0, 1, port)
}

/// A lobby with its queue and a clock that only moves when told to: every
/// 20 ms of sleep runs one tick on what the queue holds.
struct Server {
    lobby: Lobby,
    weapons: WeaponDb,
    config: Config,
    tx: Sender<LobbyCommand>,
    rx: Receiver<LobbyCommand>,
    now: u64,
}

impl Server {
    fn with_lobby(code: &str, max_players: u32, scene: &str) -> Server {
        let (tx, rx) = channel::<LobbyCommand>(1000);
        Server {
            lobby: Lobby::new(code.to_string(), max_players, scene.to_string()),
            weapons: WeaponDb::load(),
            config: Config::default(),
            tx,
            rx,
            now: START,
        }
    }

    fn send(&self, cmd: LobbyCommand) {
        self.tx.try_send(cmd).unwrap();
    }

    fn sleep(&mut self, millis: u64) {
        let end = self.now + millis;
        while self.now + self.config.tick_interval_ms() <= end {
            self.now += self.config.tick_interval_ms();
            let commands = drain_and_coalesce(&mut self.rx);
            run_tick(&mut self.lobby, &self.weapons, &self.config, commands, self.now);
        }
        self.now = end;
    }
}

#[test]
fn test_full_lobby_lifecycle() {
    let mut server = Server::with_lobby("LIFECYCLE", 4, "test_world");
    assert_eq!(server.lobby.code, "LIFECYCLE");
    assert_eq!(server.lobby.max_players, 4);
    assert_eq!(server.lobby.players.len(), 0);

    let player1_addr = local(9001);
    server.send(LobbyCommand::PlayerJoin {
        player_id: 1,
        name: "Player1".to_string(),
        addr: player1_addr,
    });
    let player2_addr = local(9002);
    server.send(LobbyCommand::PlayerJoin {
        player_id: 2,
        name: "Player2".to_string(),
        addr: player2_addr,
    });

    server.sleep(50);

    assert_eq!(server.lobby.players.len(), 2);
    assert!(server.lobby.players.contains_key(&1));
    assert!(server.lobby.players.contains_key(&2));

    let player1 = server.lobby.players.get(&1).unwrap();
    assert_eq!(player1.name, "Player1");
    assert_eq!(player1.current_weapon_id, 1);
    assert_eq!(player1.current_ammo, 20);

    server.send(LobbyCommand::PositionUpdate {
        player_id: 1,
        position: vec3(10.0, 5.0, 20.0),
        rotation: vec3(0.0, 1.0, 0.0),
        addr: player1_addr,
    });

    server.sleep(50);

    let player1 = server.lobby.players.get(&1).unwrap();
    assert_eq!(player1.position, vec3(10.0, 5.0, 20.0));

    assert!(server.lobby.players.contains_key(&1), "Player 1 should exist");
    assert!(server.lobby.players.contains_key(&2), "Player 2 should exist");
    let p2 = server.lobby.players.get(&2).unwrap();
    assert_eq!(p2.current_health, 100, "Player 2 should start with 100 health");

    server.send(LobbyCommand::Shoot { player_id: 1, target_id: 2 });

    server.sleep(50);

    let player2 = server.lobby.players.get(&2).unwrap();
    assert!(
        player2.current_health < 100,
        "Player 2 should take damage. Health: {}",
        player2.current_health
    );
    let player1 = server.lobby.players.get(&1).unwrap();
    assert_eq!(player1.current_ammo, 19);

    server.send(LobbyCommand::WeaponSwitch { player_id: 1, weapon_id: 2 });

    server.sleep(50);

    let player1 = server.lobby.players.get(&1).unwrap();
    assert_eq!(player1.current_weapon_id, 2);
    assert_eq!(player1.current_ammo, 8);

    server.send(LobbyCommand::PlayerLeave { player_id: 2 });

    server.sleep(50);

    assert_eq!(server.lobby.players.len(), 1);
    assert!(server.lobby.players.contains_key(&1));
    assert!(!server.lobby.players.contains_key(&2));
}

#[test]
fn test_combat_chain_scenario() {
    let mut server = Server::with_lobby("COMBAT", 8, "arena");

    for i in 1..=3u32 {
        server.send(LobbyCommand::PlayerJoin {
            player_id: i,
            name: format!("Soldier{}", i),
            addr: local(9000 + i as u16),
        });
    }
    server.sleep(100);

    for _ in 0..5 {
        server.send(LobbyCommand::Shoot { player_id: 1, target_id: 2 });
        server.sleep(260);
    }

    let player2 = server.lobby.players.get(&2).unwrap();
    assert!(player2.current_health < 100, "Player 2 should have taken damage");

    let player1 = server.lobby.players.get(&1).unwrap();
    assert!(player1.current_ammo < 20, "Player 1 should have fired some shots");
}

#[test]
fn test_reload_mechanic_flow() {
    let mut server = Server::with_lobby("RELOAD_TEST", 4, "test");

    server.send(LobbyCommand::PlayerJoin {
        player_id: 1,
        name: "Shooter".to_string(),
        addr: local(9999),
    });
    server.sleep(50);

    for _ in 0..20 {
        server.send(LobbyCommand::Shoot { player_id: 1, target_id: 999 });
        server.sleep(300);
    }

    server.sleep(200);

    let player = server.lobby.players.get(&1).unwrap();
    assert_eq!(
        player.current_ammo, 0,
        "Should be out of ammo after 20 shots. Actual: {}",
        player.current_ammo
    );

    server.send(LobbyCommand::Reload { player_id: 1 });
    server.sleep(50);

    let player = server.lobby.players.get(&1).unwrap();
    assert!(player.is_reloading);
    assert!(player.reload_end_time.is_some());
}

#[test]
fn test_weapon_switching() {
    let mut server = Server::with_lobby("WEAPON_SWITCH", 4, "test");

    server.send(LobbyCommand::PlayerJoin {
        player_id: 1,
        name: "Switcher".to_string(),
        addr: local(8888),
    });
    server.sleep(50);

    let player = server.lobby.players.get(&1).unwrap();
    assert_eq!(player.current_weapon_id, 1);
    assert_eq!(player.current_ammo, 20);

    server.send(LobbyCommand::WeaponSwitch { player_id: 1, weapon_id: 2 });
    server.sleep(50);

    let player = server.lobby.players.get(&1).unwrap();
    assert_eq!(player.current_weapon_id, 2);
    assert_eq!(player.current_ammo, 8);
    assert_eq!(player.max_ammo, 8);
}

#[test]
fn test_position_synchronization() {
    let mut server = Server::with_lobby("POSITION_SYNC", 4, "test");

    server.send(LobbyCommand::PlayerJoin {
        player_id: 1,
        name: "Runner".to_string(),
        addr: local(7777),
    });
    server.sleep(50);

    let positions = [(0.0, 0.0, 0.0), (10.0, 5.0, 10.0), (20.0, 10.0, 20.0)];

    for (x, y, z) in positions {
        server.send(LobbyCommand::PositionUpdate {
            player_id: 1,
            position: vec3(x, y, z),
            rotation: vec3(0.0, 1.0, 0.0),
            addr: local(7777),
        });
        server.sleep(30);
    }

    server.sleep(30);

    let player = server.lobby.players.get(&1).unwrap();
    assert_eq!(f32::from_bits(player.position.x), 20.0);
    assert_eq!(f32::from_bits(player.position.y), 10.0);
    assert_eq!(f32::from_bits(player.position.z), 20.0);
    assert_eq!(player.rotation, vec3(0.0, 1.0, 0.0));
}

#[test]
fn test_heartbeat_keeps_player_active() {
    let mut server = Server::with_lobby("HEARTBEAT_TEST", 4, "test");

    server.send(LobbyCommand::PlayerJoin {
        player_id: 1,
        name: "HeartbeatPlayer".to_string(),
        addr: local(6666),
    });
    server.sleep(50);

    let initial_update = server.lobby.players.get(&1).unwrap().last_update;

    server.sleep(100);

    server.send(LobbyCommand::Heartbeat { player_id: 1, addr: local(6666) });

    server.sleep(50);

    let player = server.lobby.players.get(&1).unwrap();
    assert!(player.last_update > initial_update);
}

#[test]
fn test_udp_connect_command() {
    let mut server = Server::with_lobby("UDP_CONNECT", 4, "test");

    server.send(LobbyCommand::PlayerJoin {
        player_id: 1,
        name: "UdpPlayer".to_string(),
        addr: addr(192, 168, 1, 100, 5000),
    });
    server.sleep(50);

    assert!(server.lobby.players.contains_key(&1));

    server.send(LobbyCommand::UdpConnect {
        player_id: 1,
        name: "TestPlayer".to_string(),
        addr: addr(192, 168, 1, 100, 5000),
    });

    server.sleep(50);

    assert!(server.lobby.client_addresses.contains_key(&1));
}

#[test]
fn test_player_leave_cleanup() {
    let mut server = Server::with_lobby("LEAVE_CLEANUP", 4, "test");

    for i in 1..=3u32 {
        server.send(LobbyCommand::PlayerJoin {
            player_id: i,
            name: format!("Player{}", i),
            addr: local(8000 + i as u16),
        });
    }
    server.sleep(100);

    assert_eq!(server.lobby.players.len(), 3);
    assert_eq!(server.lobby.client_addresses.len(), 3);

    server.send(LobbyCommand::PlayerLeave { player_id: 2 });
    server.sleep(50);

    assert_eq!(server.lobby.players.len(), 2);
    assert!(server.lobby.players.contains_key(&1));
    assert!(!server.lobby.players.contains_key(&2));
    assert!(server.lobby.players.contains_key(&3));
    assert_eq!(server.lobby.client_addresses.len(), 2);
}

#[test]
fn test_dirty_state_tracking() {
    let mut server = Server::with_lobby("DIRTY_TEST", 4, "test");

    server.send(LobbyCommand::PlayerJoin {
        player_id: 1,
        name: "DirtyPlayer".to_string(),
        addr: local(5555),
    });

    server.sleep(50);

    let initial_position = server.lobby.players.get(&1).unwrap().position;

    server.lobby.clear_dirty();

    server.send(LobbyCommand::PositionUpdate {
        player_id: 1,
        position: vec3(100.0, 50.0, 100.0),
        rotation: vec3(0.0, 0.0, 0.0),
        addr: local(5555),
    });
    server.sleep(50);

    let player = server.lobby.players.get(&1).unwrap();
    assert_ne!(player.position, initial_position, "Position should have changed");
    assert_eq!(player.position, vec3(100.0, 50.0, 100.0), "Position should be new value");
}

#[test]
fn the_invariants_hold_after_every_tick() {
    let mut server = Server::with_lobby("INVARIANTS", 4, "test");
    let script: Vec<LobbyCommand> = vec![
        LobbyCommand::PlayerJoin { player_id: 1, name: "A".to_string(), addr: local(1) },
        LobbyCommand::PlayerJoin { player_id: 2, name: "B".to_string(), addr: local(2) },
        LobbyCommand::Shoot { player_id: 1, target_id: 2 },
        LobbyCommand::Reload { player_id: 1 },
        LobbyCommand::WeaponSwitch { player_id: 2, weapon_id: 2 },
        LobbyCommand::Shoot { player_id: 2, target_id: 1 },
        LobbyCommand::Shoot { player_id: 2, target_id: 1 },
        LobbyCommand::Heartbeat { player_id: 3, addr: local(3) },
        LobbyCommand::Shoot { player_id: 2, target_id: 1 },
        LobbyCommand::PlayerLeave { player_id: 2 },
        LobbyCommand::Shoot { player_id: 1, target_id: 2 },
    ];
    for cmd in script {
        server.send(cmd);
        server.sleep(1000);
        let lobby = &server.lobby;
        for (id, p) in &lobby.players {
            assert_eq!(*id, p.id);
            assert!(p.current_health <= p.max_health);
            assert!(p.current_ammo <= p.max_ammo);
            assert_eq!(p.is_reloading, p.reload_end_time.is_some());
            assert_eq!(p.is_dead, p.current_health == 0 && p.respawn_time.is_some());
        }
        assert!(lobby.client_addresses.keys().all(|id| lobby.players.contains_key(id)));
        assert!(lobby.dirty_players.iter().all(|id| lobby.players.contains_key(id)));
        assert!(lobby.players.len() <= lobby.max_players as usize);
    }
    assert_eq!(server.lobby.players.len(), 1);
    let survivor = server.lobby.players.get(&1).unwrap();
    assert_eq!(survivor.current_health, 100);
    assert_eq!(survivor.deaths, 1);
    assert_eq!(survivor.current_ammo, 19);
    assert!(!survivor.is_dead);
}

#[test]
fn the_gate_bounds_the_shots_in_a_second() {
    let mut server = Server::with_lobby("GATE", 4, "test");
    server.send(LobbyCommand::PlayerJoin { player_id: 1, name: "A".to_string(), addr: local(1) });
    server.sleep(20);
    for _ in 0..51 {
        server.send(LobbyCommand::Shoot { player_id: 1, target_id: 999 });
        server.sleep(20);
    }
    let fired = 20 - server.lobby.players.get(&1).unwrap().current_ammo;
    assert_eq!(fired, 4);
}
