//! Statistics that outlive a session: per-player totals across all lobbies
//! of the process, kept in a sharded concurrent map.

use crate::collect::{
    gathering, lemma_gathering_end, lemma_gathering_start, lemma_gathering_step,
    lemma_prefix_set_grows,
};
use crate::rank::{is_ranking, ranking};
use dashmap::DashMap;
use vstd::prelude::*;

verus! {

/// The totals of one player.
#[derive(Debug)]
pub struct GlobalPlayerStats {
    pub player_id: u32,
    pub name: String,
    pub total_kills: u32,
    pub total_deaths: u32,
    pub total_score: u32,
    pub games_played: u32,
    pub last_seen: u64,
    pub created_at: u64,
}

impl Clone for GlobalPlayerStats {
    fn clone(&self) -> (copy: Self)
        ensures
            copy == *self,
    {
        GlobalPlayerStats {
            player_id: self.player_id,
            name: self.name.clone(),
            total_kills: self.total_kills,
            total_deaths: self.total_deaths,
            total_score: self.total_score,
            games_played: self.games_played,
            last_seen: self.last_seen,
            created_at: self.created_at,
        }
    }
}

impl GlobalPlayerStats {
    /// The totals of a player first seen at `now`.
    pub open spec fn fresh(player_id: u32, name: String, now: u64) -> GlobalPlayerStats {
        GlobalPlayerStats {
            player_id,
            name,
            total_kills: 0,
            total_deaths: 0,
            total_score: 0,
            games_played: 0,
            last_seen: now,
            created_at: now,
        }
    }

    /// Whether a session with these numbers can be added without a total
    /// leaving its range.
    pub open spec fn fits(self, kills: u32, deaths: u32, score: u32) -> bool {
        &&& self.total_kills + kills <= u32::MAX
        &&& self.total_deaths + deaths <= u32::MAX
        &&& self.total_score + score <= u32::MAX
        &&& self.games_played < u32::MAX
    }

    /// The totals after a session that ended at `now`.
    pub open spec fn with_session(self, kills: u32, deaths: u32, score: u32, now: u64) -> GlobalPlayerStats {
        GlobalPlayerStats {
            total_kills: (self.total_kills + kills) as u32,
            total_deaths: (self.total_deaths + deaths) as u32,
            total_score: (self.total_score + score) as u32,
            games_played: (self.games_played + 1) as u32,
            last_seen: now,
            ..self
        }
    }

    /// Totals of a player first seen at `now`: all zero.
    pub fn new(player_id: u32, name: String, now: u64) -> (stats: GlobalPlayerStats)
        ensures
            stats == GlobalPlayerStats::fresh(player_id, name, now),
    {
        GlobalPlayerStats {
            player_id,
            name,
            total_kills: 0,
            total_deaths: 0,
            total_score: 0,
            games_played: 0,
            last_seen: now,
            created_at: now,
        }
    }

    /// Whether `record_session` may be called with these numbers.
    pub fn can_record(&self, kills: u32, deaths: u32, score: u32) -> (ok: bool)
        ensures
            ok == self.fits(kills, deaths, score),
    {
        kills <= u32::MAX - self.total_kills && deaths <= u32::MAX - self.total_deaths && score
            <= u32::MAX - self.total_score && self.games_played < u32::MAX
    }

    /// Adds one session that ended at `now` to the totals.
    pub fn record_session(&mut self, kills: u32, deaths: u32, score: u32, now: u64)
        requires
            old(self).fits(kills, deaths, score),
        ensures
            *final(self) == old(self).with_session(kills, deaths, score, now),
    {
        self.total_kills = self.total_kills + kills;
        self.total_deaths = self.total_deaths + deaths;
        self.total_score = self.total_score + score;
        self.games_played = self.games_played + 1;
        self.last_seen = now;
    }
}

/// What a statistics table holds: the totals stored under each player id.
pub uninterp spec fn stats_held(table: DashMap<u32, GlobalPlayerStats>) -> Map<u32, GlobalPlayerStats>;

/// Whether `entries` lists every entry of `held` exactly once.
pub open spec fn is_listing(
    held: Map<u32, GlobalPlayerStats>,
    entries: Seq<(u32, GlobalPlayerStats)>,
) -> bool {
    &&& forall|a: int, b: int|
        0 <= a < entries.len() && 0 <= b < entries.len() && a != b ==> entries[a].0 != entries[b].0
    &&& forall|k: u32|
        held.contains_key(k) <==> exists|j: int| 0 <= j < entries.len() && #[trigger] entries[j].0 == k
    &&& forall|j: int| 0 <= j < entries.len() ==> #[trigger] entries[j].1 == held[entries[j].0]
}

/// `DashMap::new`: a table that holds nothing.
#[verifier::external_body]
fn table_new() -> (made: DashMap<u32, GlobalPlayerStats>)
    ensures
        stats_held(made).dom() == Set::<u32>::empty(),
{
    DashMap::new()
}

/// `DashMap::insert`: afterwards the table holds `value` under `key` and is
/// otherwise as before. The exclusive borrow rules out the deadlock the
/// method warns of when a reference into the map is held.
#[verifier::external_body]
fn table_insert(table: &mut DashMap<u32, GlobalPlayerStats>, key: u32, value: GlobalPlayerStats)
    ensures
        stats_held(*final(table)) == stats_held(*old(table)).insert(key, value),
{
    table.insert(key, value);
}

/// `DashMap::get`, followed by a copy of the value found: the totals held
/// under `key`, if any.
#[verifier::external_body]
fn table_get(table: &DashMap<u32, GlobalPlayerStats>, key: u32) -> (found: Option<GlobalPlayerStats>)
    ensures
        found is Some <==> stats_held(*table).contains_key(key),
        found is Some ==> found->Some_0 == stats_held(*table)[key],
{
    match table.get(&key) {
        Some(entry) => Some(entry.value().clone()),
        None => None,
    }
}

/// `DashMap::remove`: afterwards the table holds nothing under `key` and is
/// otherwise as before.
#[verifier::external_body]
fn table_remove(table: &mut DashMap<u32, GlobalPlayerStats>, key: u32)
    ensures
        stats_held(*final(table)) == stats_held(*old(table)).remove(key),
{
    table.remove(&key);
}

/// `DashMap::iter`, each entry copied out with its key: every entry of the
/// table exactly once, in an order that is not specified.
#[verifier::external_body]
fn table_entries(table: &DashMap<u32, GlobalPlayerStats>) -> (entries: Vec<(u32, GlobalPlayerStats)>)
    ensures
        is_listing(stats_held(*table), entries@),
{
    table.iter().map(|entry| (*entry.key(), entry.value().clone())).collect()
}

/// `DashMap::len`: the number of entries the table holds.
#[verifier::external_body]
fn table_len(table: &DashMap<u32, GlobalPlayerStats>) -> (n: usize)
    ensures
        n == stats_held(*table).dom().len(),
{
    table.len()
}

/// The process-wide statistics store. Its view is the map from player id to
/// that player's totals.
pub struct GlobalStats {
    players: DashMap<u32, GlobalPlayerStats>,
}

impl View for GlobalStats {
    type V = Map<u32, GlobalPlayerStats>;

    closed spec fn view(&self) -> Map<u32, GlobalPlayerStats> {
        stats_held(self.players)
    }
}

/// The totals held for `player_id` with the name replaced by `name` (fresh
/// totals if there are none yet).
pub open spec fn renamed(
    held: Map<u32, GlobalPlayerStats>,
    player_id: u32,
    name: String,
    now: u64,
) -> GlobalPlayerStats {
    if held.contains_key(player_id) {
        GlobalPlayerStats { name, ..held[player_id] }
    } else {
        GlobalPlayerStats::fresh(player_id, name, now)
    }
}

/// The totals held for `player_id` once the player has been seen at `now`
/// under the name `name`.
pub open spec fn seen(
    held: Map<u32, GlobalPlayerStats>,
    player_id: u32,
    name: String,
    now: u64,
) -> GlobalPlayerStats {
    GlobalPlayerStats { last_seen: now, ..renamed(held, player_id, name, now) }
}

/// The score an entry is ranked by.
pub open spec fn rank_score(stats: GlobalPlayerStats, by_kills: bool) -> u32 {
    if by_kills {
        stats.total_kills
    } else {
        stats.total_score
    }
}

/// The ranking scores of a listing, entry by entry.
pub open spec fn scores_of(entries: Seq<(u32, GlobalPlayerStats)>, by_kills: bool) -> Seq<u32> {
    Seq::new(entries.len(), |j: int| rank_score(entries[j].1, by_kills))
}

/// Whether `top` holds the best `limit` entries of `held` (all of them if
/// there are fewer), best first. Entries with equal scores come in the order
/// of some listing of the table.
pub open spec fn is_top(
    held: Map<u32, GlobalPlayerStats>,
    limit: usize,
    by_kills: bool,
    top: Seq<GlobalPlayerStats>,
) -> bool {
    exists|entries: Seq<(u32, GlobalPlayerStats)>, order: Seq<usize>|
        {
            &&& is_listing(held, entries)
            &&& is_ranking(scores_of(entries, by_kills), order)
            &&& top.len() == if limit < entries.len() {
                limit as int
            } else {
                entries.len() as int
            }
            &&& forall|j: int| 0 <= j < top.len() ==> #[trigger] top[j] == entries[order[j] as int].1
        }
}

/// Whether an entry has never recorded a session and was last seen more
/// than `max_age_secs` seconds before `now`.
pub open spec fn stale(stats: GlobalPlayerStats, max_age_secs: u64, now: u64) -> bool {
    now >= stats.last_seen && now - stats.last_seen > max_age_secs * 1000 && stats.games_played == 0
}

/// The ids under which `held` holds a stale entry.
pub open spec fn stale_ids(held: Map<u32, GlobalPlayerStats>, max_age_secs: u64, now: u64) -> Set<u32> {
    Set::new(|k: u32| held.contains_key(k) && stale(held[k], max_age_secs, now))
}

impl GlobalStats {
    /// An empty store.
    pub fn new() -> (stats: GlobalStats)
        ensures
            stats@ == Map::<u32, GlobalPlayerStats>::empty(),
    {
        GlobalStats { players: table_new() }
    }

    /// The number of players totals are held for.
    pub fn len(&self) -> (n: usize)
        ensures
            n == self@.dom().len(),
    {
        table_len(&self.players)
    }

    /// Records a session that ended at `now` for `player_id`, creating the
    /// player's totals if there are none and setting the name to `name`.
    /// Answers `false`, and changes nothing, exactly when a total would leave
    /// its range.
    pub fn record_session(
        &mut self,
        player_id: u32,
        name: &str,
        kills: u32,
        deaths: u32,
        score: u32,
        now: u64,
    ) -> (recorded: bool)
        ensures
            exists|label: String|
                label@ == name@ && recorded == renamed(old(self)@, player_id, label, now).fits(
                    kills,
                    deaths,
                    score,
                ) && final(self)@ == if recorded {
                    old(self)@.insert(
                        player_id,
                        renamed(old(self)@, player_id, label, now).with_session(
                            kills,
                            deaths,
                            score,
                            now,
                        ),
                    )
                } else {
                    old(self)@
                },
    {
        let label: String = name.to_string();
        let ghost kept = label;
        let mut stats = match table_get(&self.players, player_id) {
            Some(found) => found,
            None => GlobalPlayerStats::new(player_id, name.to_string(), now),
        };
        stats.name = label;
        if !stats.can_record(kills, deaths, score) {
            assert(!renamed(old(self)@, player_id, kept, now).fits(kills, deaths, score));
            return false;
        }
        stats.record_session(kills, deaths, score, now);
        table_insert(&mut self.players, player_id, stats);
        assert(renamed(old(self)@, player_id, kept, now).fits(kills, deaths, score));
        true
    }

    /// Notes that `player_id` was seen at `now` under the name `name`,
    /// starting totals of zero if none are held yet.
    pub fn note_seen(&mut self, player_id: u32, name: &str, now: u64)
        ensures
            exists|label: String|
                label@ == name@ && final(self)@ == old(self)@.insert(
                    player_id,
                    seen(old(self)@, player_id, label, now),
                ),
    {
        let label: String = name.to_string();
        let ghost kept = label;
        let mut stats = match table_get(&self.players, player_id) {
            Some(found) => found,
            None => GlobalPlayerStats::new(player_id, name.to_string(), now),
        };
        stats.name = label;
        stats.last_seen = now;
        table_insert(&mut self.players, player_id, stats);
        assert(self@ == old(self)@.insert(player_id, seen(old(self)@, player_id, kept, now)));
    }

    /// The totals of one player, if any are held.
    pub fn get_stats(&self, player_id: u32) -> (found: Option<GlobalPlayerStats>)
        ensures
            found is Some <==> self@.contains_key(player_id),
            found is Some ==> found->Some_0 == self@[player_id],
    {
        table_get(&self.players, player_id)
    }

    fn top_by(&self, limit: usize, by_kills: bool) -> (top: Vec<GlobalPlayerStats>)
        ensures
            is_top(self@, limit, by_kills, top@),
    {
        let entries = table_entries(&self.players);
        let mut scores: Vec<u32> = Vec::new();
        let mut i: usize = 0;
        while i < entries.len()
            invariant
                0 <= i <= entries.len(),
                scores@.len() == i,
                forall|j: int| 0 <= j < i ==> #[trigger] scores@[j] == rank_score(entries@[j].1, by_kills),
            decreases entries.len() - i,
        {
            let score: u32 = if by_kills {
                entries[i].1.total_kills
            } else {
                entries[i].1.total_score
            };
            scores.push(score);
            i = i + 1;
        }
        assert(scores@ =~= scores_of(entries@, by_kills));
        let order = ranking(&scores);
        let count: usize = if limit < entries.len() {
            limit
        } else {
            entries.len()
        };
        let mut top: Vec<GlobalPlayerStats> = Vec::new();
        let mut j: usize = 0;
        while j < count
            invariant
                0 <= j <= count <= entries.len(),
                is_ranking(scores_of(entries@, by_kills), order@),
                top@.len() == j,
                forall|k: int| 0 <= k < j ==> #[trigger] top@[k] == entries@[order@[k] as int].1,
            decreases count - j,
        {
            let at: usize = order[j];
            top.push(entries[at].1.clone());
            j = j + 1;
        }
        top
    }

    /// The `limit` players with the highest total score, best first.
    pub fn get_top_players(&self, limit: usize) -> (top: Vec<GlobalPlayerStats>)
        ensures
            is_top(self@, limit, false, top@),
    {
        self.top_by(limit, false)
    }

    /// The `limit` players with the most kills, best first.
    pub fn get_top_by_kills(&self, limit: usize) -> (top: Vec<GlobalPlayerStats>)
        ensures
            is_top(self@, limit, true, top@),
    {
        self.top_by(limit, true)
    }

    /// Drops every entry that never recorded a session and was last seen
    /// more than `max_age_secs` seconds before `now`. Answers how many
    /// entries it dropped.
    pub fn cleanup_old_entries(&mut self, max_age_secs: u64, now: u64) -> (removed: usize)
        ensures
            final(self)@ == old(self)@.remove_keys(stale_ids(old(self)@, max_age_secs, now)),
            removed == stale_ids(old(self)@, max_age_secs, now).len(),
    {
        let entries = table_entries(&self.players);
        let ghost held = old(self)@;
        let ghost want = stale_ids(held, max_age_secs, now);
        let ghost keys = Seq::new(entries@.len(), |j: int| entries@[j].0);
        let mut doomed: Vec<u32> = Vec::new();
        let mut i: usize = 0;
        assert(max_age_secs as u128 * 1000 <= 0xffff_ffff_ffff_ffff * 1000) by (nonlinear_arith)
            requires
                max_age_secs <= 0xffff_ffff_ffff_ffff,
        ;
        let threshold: u128 = max_age_secs as u128 * 1000;
        proof {
            lemma_gathering_start(keys, want);
        }
        while i < entries.len()
            invariant
                is_listing(held, entries@),
                keys == Seq::new(entries@.len(), |j: int| entries@[j].0),
                want == stale_ids(held, max_age_secs, now),
                threshold == max_age_secs * 1000,
                gathering(keys, i as int, doomed@, want),
            decreases entries.len() - i,
        {
            proof {
                lemma_gathering_step(keys, i as int, doomed@, want);
                assert(keys[i as int] == entries@[i as int].0);
                assert(entries@[i as int].1 == held[entries@[i as int].0]);
            }
            let key: u32 = entries[i].0;
            let last_seen: u64 = entries[i].1.last_seen;
            let games: u32 = entries[i].1.games_played;
            if now >= last_seen && (now - last_seen) as u128 > threshold && games == 0 {
                doomed.push(key);
            }
            i = i + 1;
        }
        proof {
            assert forall|k: u32| want.contains(k) implies keys.to_set().contains(k) by {
                let j = choose|j: int| 0 <= j < entries@.len() && #[trigger] entries@[j].0 == k;
                assert(keys[j] == k);
            }
            lemma_gathering_end(keys, doomed@, want);
            doomed@.unique_seq_to_set();
            assert(self@ =~= held.remove_keys(doomed@.take(0).to_set()));
        }
        let mut j: usize = 0;
        while j < doomed.len()
            invariant
                0 <= j <= doomed.len(),
                self@ == held.remove_keys(doomed@.take(j as int).to_set()),
            decreases doomed.len() - j,
        {
            table_remove(&mut self.players, doomed[j]);
            proof {
                lemma_prefix_set_grows(doomed@, j as int);
                assert(self@ =~= held.remove_keys(doomed@.take(j + 1).to_set()));
            }
            j = j + 1;
        }
        assert(doomed@.take(doomed@.len() as int) =~= doomed@);
        doomed.len()
    }
}

impl Default for GlobalStats {
    fn default() -> (stats: GlobalStats)
        ensures
            stats@ == Map::<u32, GlobalPlayerStats>::empty(),
    {
        GlobalStats::new()
    }
}

/// The declaration of the sharded concurrent map the store is kept in.
#[verifier::external_type_specification]
#[verifier::external_body]
#[verifier::reject_recursive_types(K)]
#[verifier::reject_recursive_types(V)]
#[verifier::reject_recursive_types(S)]
pub struct ExDashMap<K, V, S>(dashmap::DashMap<K, V, S>);

} // verus!
