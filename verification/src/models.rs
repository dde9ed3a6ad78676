//! The plain records of the control plane and how they are filled from a
//! lobby.

use crate::lobby::{keys_of, Lobby, LobbyView};
use crate::player::{Player, BOT_PLAYER_ID};
use crate::rank::{is_ranking, ranking};
use vstd::prelude::*;

verus! {

broadcast use vstd::std_specs::hash::group_hash_axioms;

/// Players a lobby admits when the request names no limit.
pub const DEFAULT_MAX_PLAYERS: u32 = 4;

/// A request to create a lobby.
#[derive(Debug)]
pub struct CreateLobbyRequest {
    pub code: String,
    pub max_players: Option<u32>,
    pub scene: Option<String>,
}

/// A request to join a lobby.
#[derive(Debug)]
pub struct JoinLobbyRequest {
    pub player_name: String,
}

/// The answer to a join: the lobby and the id assigned to the player.
#[derive(Debug)]
pub struct JoinLobbyResponse {
    pub lobby: LobbyInfo,
    pub player_id: u32,
}

/// What the control plane tells about a lobby.
#[derive(Debug)]
pub struct LobbyInfo {
    pub code: String,
    pub player_count: usize,
    pub max_players: u32,
    pub players: Vec<PlayerInfo>,
    pub server_ip: String,
    pub udp_port: u16,
    pub scene: String,
}

/// What the control plane tells about a player.
#[derive(Debug)]
pub struct PlayerInfo {
    pub id: u32,
    pub name: String,
}

/// One line of a lobby's leaderboard.
#[derive(Debug)]
pub struct LeaderboardEntry {
    pub player_id: u32,
    pub name: String,
    pub score: u32,
    pub kills: u32,
    pub deaths: u32,
    pub killstreak: u32,
}

/// A lobby's leaderboard.
#[derive(Debug)]
pub struct LeaderboardResponse {
    pub lobby_code: String,
    pub entries: Vec<LeaderboardEntry>,
}

impl CreateLobbyRequest {
    /// The number of players the lobby is to admit: the requested number, or
    /// four if none was requested.
    pub fn max_players_or_default(&self) -> (n: u32)
        ensures
            n == match self.max_players {
                Some(m) => m,
                None => DEFAULT_MAX_PLAYERS,
            },
    {
        match self.max_players {
            Some(m) => m,
            None => DEFAULT_MAX_PLAYERS,
        }
    }

    /// The scene the lobby is to load: the requested one, or `world` if none
    /// was requested.
    pub fn scene_or_default(&self) -> (scene: String)
        ensures
            scene@ == match self.scene {
                Some(s) => s@,
                None => "world"@,
            },
    {
        match &self.scene {
            Some(s) => s.clone(),
            None => "world".to_string(),
        }
    }
}

/// The control-plane record of a player.
pub open spec fn info_of(p: Player) -> PlayerInfo {
    PlayerInfo { id: p.id, name: p.name }
}

/// Whether `infos` lists every player of `v` exactly once.
pub open spec fn lists_players(v: LobbyView, infos: Seq<PlayerInfo>) -> bool {
    exists|ids: Seq<u32>|
        {
            &&& ids.no_duplicates()
            &&& ids.to_set() == v.players.dom()
            &&& infos.len() == ids.len()
            &&& forall|j: int| 0 <= j < ids.len() ==> #[trigger] infos[j] == info_of(v.players[ids[j]])
        }
}

/// Describes a lobby for the control plane. The server address is always
/// the loopback address; the players come in no particular order.
pub fn lobby_info(lobby: &Lobby, udp_port: u16) -> (info: LobbyInfo)
    ensures
        info.code == lobby.code,
        info.scene == lobby.scene,
        info.max_players == lobby.max_players,
        info.udp_port == udp_port,
        info.server_ip@ == "127.0.0.1"@,
        info.player_count == lobby@.players.dom().len(),
        lists_players(lobby@, info.players@),
{
    let keys = keys_of(&lobby.players);
    let mut players: Vec<PlayerInfo> = Vec::new();
    let mut i: usize = 0;
    while i < keys.len()
        invariant
            0 <= i <= keys.len(),
            keys@.to_set() == lobby@.players.dom(),
            players@.len() == i,
            forall|j: int|
                0 <= j < i ==> #[trigger] players@[j] == info_of(lobby@.players[keys@[j]]),
        decreases keys.len() - i,
    {
        assert(keys@.to_set().contains(keys@[i as int]));
        match lobby.players.get(&keys[i]) {
            Some(p) => {
                players.push(PlayerInfo { id: p.id, name: p.name.clone() });
            },
            None => {},
        }
        i = i + 1;
    }
    LobbyInfo {
        code: lobby.code.clone(),
        player_count: lobby.players.len(),
        max_players: lobby.max_players,
        players,
        server_ip: "127.0.0.1".to_string(),
        udp_port,
        scene: lobby.scene.clone(),
    }
}

/// The leaderboard line of a player.
pub open spec fn entry_of(p: Player) -> LeaderboardEntry {
    LeaderboardEntry {
        player_id: p.id,
        name: p.name,
        score: p.score,
        kills: p.kills,
        deaths: p.deaths,
        killstreak: p.killstreak,
    }
}

/// Whether `entries` is a leaderboard of `v`: one line for every player but
/// the calibration bot, highest score first; `ids` names the players in
/// the order in which ties are broken.
pub open spec fn ranks_players(
    v: LobbyView,
    ids: Seq<u32>,
    order: Seq<usize>,
    entries: Seq<LeaderboardEntry>,
) -> bool {
    &&& ids.no_duplicates()
    &&& ids.to_set() == v.players.dom().remove(BOT_PLAYER_ID)
    &&& is_ranking(Seq::new(ids.len(), |j: int| v.players[ids[j]].score), order)
    &&& entries.len() == ids.len()
    &&& forall|j: int|
        0 <= j < ids.len() ==> #[trigger] entries[j] == entry_of(v.players[ids[order[j] as int]])
}

/// The leaderboard of a lobby: every player but the calibration bot, highest
/// score first.
pub fn lobby_leaderboard(lobby: &Lobby) -> (board: LeaderboardResponse)
    ensures
        board.lobby_code == lobby.code,
        exists|ids: Seq<u32>, order: Seq<usize>| ranks_players(lobby@, ids, order, board.entries@),
{
    let keys = keys_of(&lobby.players);
    let mut ids: Vec<u32> = Vec::new();
    let mut scores: Vec<u32> = Vec::new();
    let mut i: usize = 0;
    let ghost want = lobby@.players.dom().remove(BOT_PLAYER_ID);
    proof {
        crate::collect::lemma_gathering_start(keys@, want);
    }
    while i < keys.len()
        invariant
            keys@.to_set() == lobby@.players.dom(),
            want == lobby@.players.dom().remove(BOT_PLAYER_ID),
            crate::collect::gathering(keys@, i as int, ids@, want),
            scores@.len() == ids@.len(),
            forall|j: int| 0 <= j < ids@.len() ==> #[trigger] scores@[j] == lobby@.players[ids@[j]].score,
        decreases keys.len() - i,
    {
        let id: u32 = keys[i];
        proof {
            crate::collect::lemma_gathering_step(keys@, i as int, ids@, want);
            assert(keys@.to_set().contains(keys@[i as int]));
        }
        if id != BOT_PLAYER_ID {
            match lobby.players.get(&id) {
                None => {},
                Some(p) => {
                    scores.push(p.score);
                    ids.push(id);
                },
            }
        }
        i = i + 1;
    }
    proof {
        crate::collect::lemma_gathering_end(keys@, ids@, want);
        assert(scores@ =~= Seq::new(ids@.len(), |j: int| lobby@.players[ids@[j]].score));
    }
    let order = ranking(&scores);
    let mut entries: Vec<LeaderboardEntry> = Vec::new();
    let mut j: usize = 0;
    while j < order.len()
        invariant
            0 <= j <= order.len(),
            order@.len() == ids@.len(),
            ids@.no_duplicates(),
            ids@.to_set() == want,
            want == lobby@.players.dom().remove(BOT_PLAYER_ID),
            is_ranking(scores@, order@),
            scores@.len() == ids@.len(),
            entries@.len() == j,
            forall|k: int|
                0 <= k < j ==> #[trigger] entries@[k] == entry_of(
                    lobby@.players[ids@[order@[k] as int]],
                ),
        decreases order.len() - j,
    {
        let at: usize = order[j];
        assert(ids@.to_set().contains(ids@[at as int]));
        match lobby.players.get(&ids[at]) {
            None => {},
            Some(p) => {
                entries.push(
                    LeaderboardEntry {
                        player_id: p.id,
                        name: p.name.clone(),
                        score: p.score,
                        kills: p.kills,
                        deaths: p.deaths,
                        killstreak: p.killstreak,
                    },
                );
            },
        }
        j = j + 1;
    }
    let board = LeaderboardResponse { lobby_code: lobby.code.clone(), entries };
    assert(ranks_players(lobby@, ids@, order@, board.entries@));
    board
}

} // verus!
