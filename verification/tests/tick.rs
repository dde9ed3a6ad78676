use gungameserver::commands::{coalesce, LobbyCommand};
use gungameserver::delta_sync::{collect_dirty_events, KickReason, SyncEvent};
use gungameserver::fanout::{plan_fanout, recipients, Audience, Outbound, ServerMessage};
use gungameserver::lobby::Lobby;
use gungameserver::models::{lobby_info, lobby_leaderboard, CreateLobbyRequest};
use gungameserver::player::{Endpoint, Player, Vec3};
use gungameserver::tick::{
    departures, process_command, roster_except, run_tick, standings, Config, Departure, Effect,
};
use gungameserver::weapons::WeaponDb;

const NOW: u64 = 1_700_000_000_000;

fn vec3(x: f32, y: f32, z: f32) -> Vec3 {
    Vec3 { x: x.to_bits(), y: y.to_bits(), z: z.to_bits() }
}

fn addr(port: u16) -> Endpoint {
    Endpoint::v4(127, 0, 0, 1, port)
}

fn player(id: u32, name: &str, last_shot_time: u64) -> Player {
    Player {
        id,
        name: name.to_string(),
        position: vec3(0.0, 1.0, 0.0),
        rotation: vec3(0.0, 0.0, 0.0),
        last_update: NOW,
        current_health: 100,
        max_health: 100,
        current_weapon_id: 1,
        current_ammo: 20,
        max_ammo: 20,
        is_reloading: false,
        reload_end_time: None,
        last_shot_time,
        kills: 0,
        deaths: 0,
        score: 0,
        killstreak: 0,
        warned_at: None,
        is_dead: false,
        respawn_time: None,
    }
}

fn join(id: u32, name: &str, port: u16) -> LobbyCommand {
    LobbyCommand::PlayerJoin { player_id: id, name: name.to_string(), addr: addr(port) }
}

fn pos(id: u32, x: f32, y: f32, z: f32, port: u16) -> LobbyCommand {
    LobbyCommand::PositionUpdate {
        player_id: id,
        position: vec3(x, y, z),
        rotation: vec3(0.0, 1.0, 0.0),
        addr: addr(port),
    }
}

fn busy_beat() -> Vec<LobbyCommand> {
    vec![LobbyCommand::Heartbeat { player_id: 2, addr: addr(9002) }]
}

fn kind(out: &Outbound) -> String {
    match &out.message {
        ServerMessage::Welcome { player_id } => format!("welcome {}", player_id),
        ServerMessage::UdpConnected { player_id, lobby_code } => {
            format!("udp_connected {} {}", player_id, lobby_code)
        }
        ServerMessage::PlayerList { players } => format!("player_list {}", players.len()),
        ServerMessage::PlayerJoined { player_id, name } => {
            format!("player_joined {} {}", player_id, name)
        }
        ServerMessage::PlayerLeft { player_id } => format!("player_left {}", player_id),
        ServerMessage::Event(e) => match e {
            SyncEvent::HealthChanged { player_id, health } => format!("health {} {}", player_id, health),
            SyncEvent::AmmoChanged { player_id, ammo } => format!("ammo {} {}", player_id, ammo),
            SyncEvent::MaxAmmoChanged { player_id, max_ammo } => {
                format!("max_ammo {} {}", player_id, max_ammo)
            }
            SyncEvent::WeaponChanged { player_id, weapon_id } => {
                format!("weapon {} {}", player_id, weapon_id)
            }
            SyncEvent::ReloadStateChanged { player_id, is_reloading } => {
                format!("reload {} {}", player_id, is_reloading)
            }
            SyncEvent::PositionChanged { player_id, position, .. } => format!(
                "position {} {} {} {}",
                player_id,
                f32::from_bits(position.x),
                f32::from_bits(position.y),
                f32::from_bits(position.z)
            ),
            SyncEvent::PlayerKilled { killer_id, victim_id, killer_killstreak, .. } => {
                format!("killed {} {} {}", killer_id, victim_id, killer_killstreak)
            }
            SyncEvent::PlayerRespawned { player_id } => format!("respawned {}", player_id),
            SyncEvent::ScoreChanged { player_id, score, kills, deaths, killstreak } => {
                format!("score {} {} {} {} {}", player_id, score, kills, deaths, killstreak)
            }
            SyncEvent::PlayerKicked { player_id, reason } => {
                format!("kicked {} {}", player_id, reason.as_str())
            }
            SyncEvent::InactivityWarning { player_id, seconds_remaining } => {
                format!("warning {} {}", player_id, seconds_remaining)
            }
        },
    }
}

fn event_kinds(events: Vec<SyncEvent>) -> Vec<String> {
    let mut out: Vec<String> = events
        .into_iter()
        .map(|e| kind(&Outbound { audience: Audience::All, message: ServerMessage::Event(e) }))
        .collect();
    out.sort();
    out
}

#[test]
fn test_process_command_player_join() {
    let mut lobby = Lobby::new("TEST".to_string(), 4, "world".to_string());
    let weapons = WeaponDb::load();

    let cmd = LobbyCommand::PlayerJoin {
        player_id: 1,
        name: "Test".to_string(),
        addr: Endpoint::v4(127, 0, 0, 1, 8080),
    };

    process_command(&mut lobby, &weapons, cmd, NOW);

    assert!(lobby.players.contains_key(&1));
    assert!(lobby.client_addresses.contains_key(&1));
}

#[test]
fn test_process_command_shoot() {
    let mut lobby = Lobby::new("TEST".to_string(), 4, "world".to_string());
    let weapons = WeaponDb::load();

    lobby.players.insert(1, player(1, "Shooter", NOW - 1000));
    lobby.players.insert(2, player(2, "Target", NOW));

    let cmd = LobbyCommand::Shoot { player_id: 1, target_id: 2 };
    process_command(&mut lobby, &weapons, cmd, NOW);

    let shooter = lobby.players.get(&1).unwrap();
    assert_eq!(shooter.current_ammo, 19);

    let target = lobby.players.get(&2).unwrap();
    assert_eq!(target.current_health, 80);
}

#[test]
fn shooting_the_bot_costs_a_round_and_hurts_the_bot() {
    let mut lobby = Lobby::new("TEST".to_string(), 4, "world".to_string());
    let weapons = WeaponDb::load();
    lobby.players.insert(1, player(1, "Shooter", NOW - 1000));
    lobby.players.insert(999, player(999, "Bot", NOW));
    let effect = process_command(
        &mut lobby,
        &weapons,
        LobbyCommand::Shoot { player_id: 1, target_id: 999 },
        NOW,
    );
    assert!(matches!(effect, Effect::Nothing));
    assert_eq!(lobby.players.get(&1).unwrap().current_ammo, 19);
    assert!(lobby.dirty_players.contains(&1));
    assert_eq!(lobby.players.get(&999).unwrap().current_health, 80);
}

#[test]
fn a_failed_command_changes_nothing() {
    let mut lobby = Lobby::new("TEST".to_string(), 1, "world".to_string());
    let weapons = WeaponDb::load();
    assert!(matches!(process_command(&mut lobby, &weapons, join(1, "A", 1), NOW), Effect::Joined { .. }));
    assert!(matches!(process_command(&mut lobby, &weapons, join(2, "B", 2), NOW), Effect::Nothing));
    assert!(!lobby.players.contains_key(&2));
    assert!(!lobby.client_addresses.contains_key(&2));
    for cmd in vec![
        LobbyCommand::Shoot { player_id: 5, target_id: 1 },
        LobbyCommand::Reload { player_id: 5 },
        LobbyCommand::WeaponSwitch { player_id: 5, weapon_id: 2 },
        LobbyCommand::Heartbeat { player_id: 5, addr: addr(5) },
        LobbyCommand::UdpConnect { player_id: 5, name: "E".to_string(), addr: addr(5) },
        LobbyCommand::PlayerLeave { player_id: 5 },
        pos(5, 1.0, 1.0, 1.0, 5),
    ] {
        assert!(matches!(process_command(&mut lobby, &weapons, cmd, NOW), Effect::Nothing));
    }
    assert_eq!(lobby.players.len(), 1);
    assert_eq!(lobby.client_addresses.len(), 1);
}

#[test]
fn heartbeat_refreshes_activity_and_rebinds_the_address() {
    let mut lobby = Lobby::new("TEST".to_string(), 4, "world".to_string());
    let weapons = WeaponDb::load();
    process_command(&mut lobby, &weapons, join(1, "A", 6666), NOW);
    process_command(
        &mut lobby,
        &weapons,
        LobbyCommand::Heartbeat { player_id: 1, addr: addr(7777) },
        NOW + 100,
    );
    assert_eq!(lobby.players.get(&1).unwrap().last_update, NOW + 100);
    assert_eq!(lobby.client_addresses.get(&1), Some(&addr(7777)));
    let e = process_command(
        &mut lobby,
        &weapons,
        LobbyCommand::UdpConnect { player_id: 1, name: "A".to_string(), addr: addr(5000) },
        NOW + 200,
    );
    assert!(matches!(e, Effect::Connected { player_id: 1, .. }));
    assert_eq!(lobby.players.get(&1).unwrap().last_update, NOW + 200);
    assert_eq!(lobby.client_addresses.get(&1), Some(&addr(5000)));
}

#[test]
fn a_full_reload_is_reported_as_finished() {
    let mut lobby = Lobby::new("RELOAD".to_string(), 4, "test".to_string());
    let weapons = WeaponDb::load();
    let config = Config::default();
    let mut p = player(1, "Shooter", 0);
    p.current_ammo = 0;
    lobby.players.insert(1, p);

    let report = run_tick(&mut lobby, &weapons, &config, vec![LobbyCommand::Reload { player_id: 1 }], NOW);
    assert!(lobby.players.get(&1).unwrap().is_reloading);
    assert!(event_kinds(report.events).contains(&"reload 1 true".to_string()));

    let report = run_tick(
        &mut lobby,
        &weapons,
        &config,
        vec![LobbyCommand::Heartbeat { player_id: 1, addr: addr(1) }],
        NOW + 2100,
    );
    assert_eq!(report.reloaded, vec![1]);
    let p = lobby.players.get(&1).unwrap();
    assert!(!p.is_reloading);
    assert_eq!(p.current_ammo, p.max_ammo);
    assert_eq!(event_kinds(report.events), vec!["ammo 1 20", "reload 1 false"]);
}

#[test]
fn three_position_updates_give_one_datagram_for_the_others() {
    let mut lobby = Lobby::new("POSITION".to_string(), 4, "test".to_string());
    let weapons = WeaponDb::load();
    let config = Config::default();
    run_tick(
        &mut lobby,
        &weapons,
        &config,
        vec![join(1, "Runner", 7777), join(2, "Watcher", 7778), join(3, "Other", 7779)],
        NOW,
    );
    let batch = coalesce(vec![
        pos(1, 0.0, 0.0, 0.0, 7777),
        pos(1, 10.0, 5.0, 10.0, 7777),
        pos(1, 20.0, 10.0, 20.0, 7777),
    ]);
    assert_eq!(batch.len(), 1);
    let report = run_tick(&mut lobby, &weapons, &config, batch, NOW + 20);
    assert_eq!(lobby.players.get(&1).unwrap().position, vec3(20.0, 10.0, 20.0));
    assert_eq!(lobby.players.get(&1).unwrap().rotation, vec3(0.0, 1.0, 0.0));
    let plan = plan_fanout(&lobby, report, config.player_inactivity_timeout_secs, NOW + 20);
    let moves: Vec<&Outbound> = plan.iter().filter(|o| kind(o).starts_with("position")).collect();
    assert_eq!(moves.len(), 1);
    assert_eq!(kind(moves[0]), "position 1 20 10 20");
    assert_eq!(moves[0].audience, Audience::AllBut(1));
    let mut to = recipients(&lobby, moves[0].audience);
    to.sort_by_key(|e| e.port);
    assert_eq!(to, vec![addr(7778), addr(7779)]);
}

#[test]
fn an_idle_player_is_warned_then_kicked() {
    let mut lobby = Lobby::new("IDLE".to_string(), 4, "test".to_string());
    let weapons = WeaponDb::load();
    let config = Config::default();
    run_tick(&mut lobby, &weapons, &config, vec![join(1, "Idle", 9001), join(2, "Busy", 9002)], NOW);

    let report = run_tick(&mut lobby, &weapons, &config, busy_beat(), NOW + 8000);
    assert_eq!(report.warned, vec![1]);
    assert!(report.kicked.is_empty());
    assert_eq!(lobby.players.get(&1).unwrap().warned_at, Some(NOW + 8000));
    let plan = plan_fanout(&lobby, report, 15, NOW + 8000);
    let kinds: Vec<String> = plan.iter().map(kind).collect();
    assert_eq!(kinds, vec!["warning 1 7"]);

    let report = run_tick(&mut lobby, &weapons, &config, busy_beat(), NOW + 9000);
    assert!(report.warned.is_empty());

    let report = run_tick(&mut lobby, &weapons, &config, busy_beat(), NOW + 16000);
    assert_eq!(report.kicked, vec![1]);
    assert!(!lobby.players.contains_key(&1));
    let plan = plan_fanout(&lobby, report, 15, NOW + 16000);
    let kinds: Vec<String> = plan.iter().map(kind).collect();
    assert_eq!(kinds, vec!["player_left 1", "kicked 1 inactivity"]);
    assert_eq!(plan[1].audience, Audience::All);
    assert_eq!(recipients(&lobby, Audience::All), vec![addr(9002)]);
    assert_eq!(KickReason::Inactivity.as_str(), "inactivity");
}

#[test]
fn a_kill_is_announced_and_the_victim_respawns() {
    let mut lobby = Lobby::new("KILL".to_string(), 4, "test".to_string());
    let weapons = WeaponDb::load();
    let config = Config::default();
    lobby.players.insert(1, player(1, "Killer", 0));
    let mut victim = player(2, "Victim", 0);
    victim.current_health = 20;
    lobby.players.insert(2, victim);
    lobby.client_addresses.insert(1, addr(1));
    lobby.client_addresses.insert(2, addr(2));

    let report = run_tick(
        &mut lobby,
        &weapons,
        &config,
        vec![LobbyCommand::Shoot { player_id: 1, target_id: 2 }, LobbyCommand::Heartbeat {
            player_id: 2,
            addr: addr(2),
        }],
        NOW,
    );
    assert!(lobby.players.get(&2).unwrap().is_dead);
    assert_eq!(lobby.players.get(&1).unwrap().score, 100);
    let plan = plan_fanout(&lobby, report, 15, NOW);
    let mut kinds: Vec<String> = plan.iter().map(kind).collect();
    assert_eq!(kinds.remove(0), "killed 1 2 1");
    kinds.sort();
    assert_eq!(
        kinds,
        vec![
            "ammo 1 19",
            "ammo 2 20",
            "health 1 100",
            "health 2 0",
            "max_ammo 1 20",
            "max_ammo 2 20",
            "score 1 100 1 0 1",
            "score 2 0 0 1 0",
            "weapon 1 1",
            "weapon 2 1",
        ]
    );

    let beat = LobbyCommand::Heartbeat { player_id: 2, addr: addr(2) };
    let report = run_tick(&mut lobby, &weapons, &config, vec![beat], NOW + 2980);
    assert!(report.respawned.is_empty());
    let beats = vec![
        LobbyCommand::Heartbeat { player_id: 1, addr: addr(1) },
        LobbyCommand::Heartbeat { player_id: 2, addr: addr(2) },
    ];
    let report = run_tick(&mut lobby, &weapons, &config, beats, NOW + 3000);
    assert_eq!(report.respawned, vec![2]);
    let p = lobby.players.get(&2).unwrap();
    assert!(!p.is_dead);
    assert_eq!(p.current_health, 100);
    assert_eq!(p.current_ammo, 20);
    let plan = plan_fanout(&lobby, report, 15, NOW + 3000);
    let kinds: Vec<String> = plan.iter().map(kind).collect();
    assert_eq!(kinds, vec!["respawned 2", "health 2 100"]);
}

#[test]
fn a_join_is_welcomed_and_announced_to_the_others() {
    let mut lobby = Lobby::new("JOIN".to_string(), 4, "test".to_string());
    let weapons = WeaponDb::load();
    let config = Config::default();
    run_tick(&mut lobby, &weapons, &config, vec![join(1, "First", 9001)], NOW);
    let report = run_tick(&mut lobby, &weapons, &config, vec![join(2, "Second", 9002)], NOW + 20);
    let plan = plan_fanout(&lobby, report, 15, NOW + 20);
    let kinds: Vec<String> = plan.iter().take(3).map(kind).collect();
    assert_eq!(kinds, vec!["welcome 2", "player_list 1", "player_joined 2 Second"]);
    assert_eq!(plan[0].audience, Audience::One(addr(9002)));
    assert_eq!(plan[1].audience, Audience::One(addr(9002)));
    assert_eq!(plan[2].audience, Audience::AllBut(2));
    assert_eq!(recipients(&lobby, plan[0].audience), vec![addr(9002)]);
    assert_eq!(recipients(&lobby, plan[2].audience), vec![addr(9001)]);
    match &plan[1].message {
        ServerMessage::PlayerList { players } => {
            assert_eq!(players[0].id, 1);
            assert_eq!(players[0].name, "First");
            assert_eq!(players[0].position, vec3(0.0, 1.0, 0.0));
        }
        _ => panic!("the second reply is the roster"),
    }
    let report = run_tick(
        &mut lobby,
        &weapons,
        &config,
        vec![LobbyCommand::UdpConnect { player_id: 1, name: "First".to_string(), addr: addr(9001) }],
        NOW + 40,
    );
    let plan = plan_fanout(&lobby, report, 15, NOW + 40);
    let kinds: Vec<String> = plan.iter().map(kind).collect();
    assert_eq!(kinds, vec!["udp_connected 1 JOIN", "player_list 1", "player_joined 1 First"]);
    assert_eq!(roster_except(&lobby, 2).len(), 1);
    assert_eq!(roster_except(&lobby, 7).len(), 2);
}

#[test]
fn delta_sync_tells_each_change_once() {
    let mut lobby = Lobby::new("DELTA".to_string(), 4, "test".to_string());
    let weapons = WeaponDb::load();
    let config = Config::default();
    run_tick(&mut lobby, &weapons, &config, vec![join(1, "A", 1)], NOW);
    assert!(lobby.last_sync_state.contains_key(&1));
    assert!(collect_dirty_events(&mut lobby).is_empty());

    lobby.players.get_mut(&1).unwrap().current_health = 60;
    lobby.players.get_mut(&1).unwrap().kills = 1;
    lobby.mark_dirty(1);
    assert_eq!(event_kinds(collect_dirty_events(&mut lobby)), vec!["health 1 60", "score 1 0 1 0 0"]);
    assert!(collect_dirty_events(&mut lobby).is_empty());
    assert!(lobby.dirty_players.contains(&1));
    lobby.clear_dirty();
    assert!(lobby.dirty_players.is_empty());

    let report = run_tick(
        &mut lobby,
        &weapons,
        &config,
        vec![LobbyCommand::WeaponSwitch { player_id: 1, weapon_id: 2 }],
        NOW + 20,
    );
    assert_eq!(event_kinds(report.events), vec!["ammo 1 8", "max_ammo 1 8", "weapon 1 2"]);
}

#[test]
fn config_defaults_are_the_documented_ones() {
    let c = Config::default();
    assert_eq!(c.tick_interval_ms(), 20);
    assert_eq!(c.player_inactivity_timeout_secs, 15);
    assert_eq!(c.inactivity_warning_permille, 500);
    assert_eq!(c.max_packet_size, 1024);
    assert_eq!(c.rate_limit_per_second, 100);
    assert_eq!(WeaponDb::default_weapon_id(), 1);
    let weapons = WeaponDb::load();
    let golden = weapons.get(1).unwrap();
    assert_eq!(golden.name, "Golden Friend");
    assert_eq!((golden.damage, golden.fire_rate_mhz, golden.reload_time_ms, golden.ammo), (20, 4000, 2000, 20));
    assert_eq!(weapons.get(2).unwrap().ammo, 8);
    assert!(weapons.get(3).is_none());
}

#[test]
fn the_leaderboard_leaves_the_bot_out() {
    let mut lobby = Lobby::new("BOARD".to_string(), 8, "arena".to_string());
    let mut a = player(1, "A", 0);
    a.score = 100;
    let mut b = player(2, "B", 0);
    b.score = 300;
    b.kills = 3;
    let mut bot = player(999, "Bot", 0);
    bot.score = 900;
    lobby.players.insert(1, a);
    lobby.players.insert(2, b);
    lobby.players.insert(999, bot);
    let board = lobby_leaderboard(&lobby);
    assert_eq!(board.lobby_code, "BOARD");
    let ids: Vec<u32> = board.entries.iter().map(|e| e.player_id).collect();
    assert_eq!(ids, vec![2, 1]);
    assert_eq!(board.entries[0].name, "B");
    assert_eq!((board.entries[0].score, board.entries[0].kills), (300, 3));

    let info = lobby_info(&lobby, 8081);
    assert_eq!(info.code, "BOARD");
    assert_eq!(info.scene, "arena");
    assert_eq!(info.player_count, 3);
    assert_eq!(info.max_players, 8);
    assert_eq!(info.server_ip, "127.0.0.1");
    assert_eq!(info.udp_port, 8081);
    let mut names: Vec<String> = info.players.iter().map(|p| format!("{} {}", p.id, p.name)).collect();
    names.sort();
    assert_eq!(names, vec!["1 A", "2 B", "999 Bot"]);

    let bare = CreateLobbyRequest { code: "X".to_string(), max_players: None, scene: None };
    assert_eq!(bare.max_players_or_default(), 4);
    assert_eq!(bare.scene_or_default(), "world");
    let full = CreateLobbyRequest {
        code: "X".to_string(),
        max_players: Some(8),
        scene: Some("arena".to_string()),
    };
    assert_eq!(full.max_players_or_default(), 8);
    assert_eq!(full.scene_or_default(), "arena");
}

#[test]
fn a_tick_names_the_players_whose_session_ended() {
    let mut lobby = Lobby::new("DEPART".to_string(), 8, "test".to_string());
    let weapons = WeaponDb::load();
    let config = Config::default();
    let mut leaver = player(1, "Leaver", 0);
    leaver.kills = 3;
    leaver.deaths = 2;
    leaver.score = 350;
    let mut idle = player(2, "Idle", 0);
    idle.score = 100;
    idle.kills = 1;
    idle.last_update = NOW - 15_001;
    let mut bot = player(999, "Bot", 0);
    bot.last_update = NOW - 60_000;
    lobby.players.insert(1, leaver);
    lobby.players.insert(2, idle);
    lobby.players.insert(3, player(3, "Stays", 0));
    lobby.players.insert(999, bot);

    let report = run_tick(
        &mut lobby,
        &weapons,
        &config,
        vec![
            LobbyCommand::PlayerLeave { player_id: 1 },
            LobbyCommand::PlayerLeave { player_id: 999 },
            LobbyCommand::PlayerLeave { player_id: 77 },
            join(4, "Brief", 9004),
            LobbyCommand::PlayerLeave { player_id: 4 },
        ],
        NOW,
    );
    assert_eq!(report.kicked, vec![2]);
    let mut told: Vec<(u32, String, u32, u32, u32)> = report
        .departed
        .iter()
        .map(|d| (d.player_id, d.name.clone(), d.kills, d.deaths, d.score))
        .collect();
    told.sort();
    assert_eq!(
        told,
        vec![(1, "Leaver".to_string(), 3, 2, 350), (2, "Idle".to_string(), 1, 0, 100)]
    );
    assert_eq!(lobby.players.len(), 1);
    assert!(lobby.players.contains_key(&3));

    let quiet = run_tick(&mut lobby, &weapons, &config, Vec::new(), NOW + 20);
    assert!(quiet.departed.is_empty());
}

#[test]
fn departures_are_picked_in_the_order_of_the_standings() {
    let mut lobby = Lobby::new("DEPART".to_string(), 8, "test".to_string());
    lobby.players.insert(5, player(5, "Five", 0));
    let all = standings(&lobby);
    assert_eq!(all.len(), 1);
    assert_eq!((all[0].player_id, all[0].name.as_str()), (5, "Five"));

    let entry = |id: u32| Departure { player_id: id, name: format!("Player{}", id), kills: id, deaths: 0, score: 0 };
    let before = vec![entry(4), entry(999), entry(2), entry(7), entry(1)];
    let effects = vec![
        Effect::Left { player_id: 1 },
        Effect::Moved { player_id: 7 },
        Effect::Left { player_id: 999 },
        Effect::Nothing,
    ];
    let out = departures(before, &effects, &vec![999, 4]);
    let ids: Vec<u32> = out.iter().map(|d| d.player_id).collect();
    assert_eq!(ids, vec![4, 1]);
    assert_eq!(out[0].name, "Player4");
    assert_eq!(out[1].kills, 1);
}
