use gungameserver::global_stats::{GlobalPlayerStats, GlobalStats};

const NOW: u64 = 1_700_000_000_000;

#[test]
fn test_global_stats_creation() {
    let stats = GlobalStats::new();
    assert_eq!(stats.len(), 0);
}

#[test]
fn test_record_session() {
    let mut stats = GlobalStats::new();
    stats.record_session(1, "Player1", 5, 2, 500, NOW);

    let player_stats = stats.get_stats(1).unwrap();
    assert_eq!(player_stats.total_kills, 5);
    assert_eq!(player_stats.total_deaths, 2);
    assert_eq!(player_stats.total_score, 500);
    assert_eq!(player_stats.games_played, 1);
}

#[test]
fn test_top_players() {
    let mut stats = GlobalStats::new();

    stats.record_session(1, "Player1", 100, 50, 10000, NOW);
    stats.record_session(2, "Player2", 50, 25, 5000, NOW);
    stats.record_session(3, "Player3", 200, 100, 20000, NOW);

    let top = stats.get_top_players(2);
    assert_eq!(top.len(), 2);
    assert_eq!(top[0].player_id, 3);
    assert_eq!(top[1].player_id, 1);
}

#[test]
fn sessions_add_up_and_the_name_follows() {
    let mut stats = GlobalStats::new();
    assert!(stats.record_session(1, "Old", 5, 2, 500, NOW));
    assert!(stats.record_session(1, "New", 1, 1, 100, NOW + 10));
    assert_eq!(stats.len(), 1);
    let s = stats.get_stats(1).unwrap();
    assert_eq!(s.player_id, 1);
    assert_eq!(s.name, "New");
    assert_eq!((s.total_kills, s.total_deaths, s.total_score, s.games_played), (6, 3, 600, 2));
    assert_eq!(s.created_at, NOW);
    assert_eq!(s.last_seen, NOW + 10);
    assert!(stats.get_stats(2).is_none());
}

#[test]
fn a_session_that_does_not_fit_is_not_recorded() {
    let mut stats = GlobalStats::new();
    assert!(stats.record_session(1, "P", u32::MAX, 0, 0, NOW));
    assert!(!stats.record_session(1, "Q", 1, 0, 0, NOW + 1));
    let s = stats.get_stats(1).unwrap();
    assert_eq!(s.total_kills, u32::MAX);
    assert_eq!(s.name, "P");
    assert_eq!(s.games_played, 1);
}

#[test]
fn top_by_kills_ranks_all_when_the_limit_is_large() {
    let mut stats = GlobalStats::new();
    stats.record_session(1, "A", 10, 0, 900, NOW);
    stats.record_session(2, "B", 30, 0, 100, NOW);
    stats.record_session(3, "C", 20, 0, 500, NOW);
    let top = stats.get_top_by_kills(10);
    let ids: Vec<u32> = top.iter().map(|s| s.player_id).collect();
    assert_eq!(ids, vec![2, 3, 1]);
    let by_score: Vec<u32> = stats.get_top_players(10).iter().map(|s| s.player_id).collect();
    assert_eq!(by_score, vec![1, 3, 2]);
    assert!(stats.get_top_players(0).is_empty());
}

#[test]
fn cleanup_drops_old_entries_without_a_session() {
    let mut stats = GlobalStats::new();
    stats.record_session(1, "Played", 1, 1, 1, NOW);
    assert_eq!(stats.cleanup_old_entries(10, NOW + 1_000_000), 0);
    assert_eq!(stats.len(), 1);
    assert!(stats.get_stats(1).is_some());
    assert_eq!(GlobalStats::default().len(), 0);
}

#[test]
fn player_totals_start_at_zero() {
    let mut s = GlobalPlayerStats::new(4, "Four".to_string(), NOW);
    assert_eq!(s.player_id, 4);
    assert_eq!(s.name, "Four");
    assert_eq!((s.total_kills, s.total_deaths, s.total_score, s.games_played), (0, 0, 0, 0));
    assert_eq!((s.last_seen, s.created_at), (NOW, NOW));
    assert!(s.can_record(1, 2, 3));
    s.record_session(1, 2, 3, NOW + 5);
    assert_eq!((s.total_kills, s.total_deaths, s.total_score, s.games_played), (1, 2, 3, 1));
    assert_eq!((s.last_seen, s.created_at), (NOW + 5, NOW));
    assert!(!s.can_record(u32::MAX, 0, 0));
    let copy = s.clone();
    assert_eq!(copy.name, "Four");
    assert_eq!(copy.total_score, 3);
}

#[test]
fn cleanup_drops_players_that_were_only_seen() {
    let mut stats = GlobalStats::new();
    stats.note_seen(1, "Seen", NOW);
    stats.note_seen(2, "Later", NOW + 5_000);
    stats.record_session(3, "Played", 1, 1, 1, NOW);
    assert_eq!(stats.len(), 3);
    assert_eq!(stats.get_stats(1).unwrap().games_played, 0);
    assert_eq!(stats.cleanup_old_entries(10, NOW + 10_000), 0);
    assert_eq!(stats.cleanup_old_entries(10, NOW + 10_001), 1);
    assert!(stats.get_stats(1).is_none());
    assert!(stats.get_stats(2).is_some());
    assert!(stats.get_stats(3).is_some());
    assert_eq!(stats.len(), 2);
    stats.note_seen(3, "Renamed", NOW + 20_000);
    let s = stats.get_stats(3).unwrap();
    assert_eq!(s.name, "Renamed");
    assert_eq!((s.games_played, s.last_seen, s.created_at), (1, NOW + 20_000, NOW));
}
