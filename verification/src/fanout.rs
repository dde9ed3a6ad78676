//! Fan-out planning: which messages a tick sends, and to whom.

use crate::delta_sync::{KickReason, SyncEvent};
use crate::lobby::{keys_of, Lobby, LobbyView};
use crate::player::{Endpoint, Player};
use crate::tick::{Effect, PlayerBrief, TickReport};
use vstd::prelude::*;

verus! {

broadcast use vstd::std_specs::hash::group_hash_axioms;

/// The three ways a message is addressed.
#[derive(Clone, Copy, Debug, PartialEq, Eq, Structural)]
pub enum Audience {
    /// One address.
    One(Endpoint),
    /// Every address bound in the lobby.
    All,
    /// Every address bound in the lobby but that of one player.
    AllBut(u32),
}

/// Everything the server says over UDP.
#[derive(Debug)]
pub enum ServerMessage {
    Welcome { player_id: u32 },
    UdpConnected { player_id: u32, lobby_code: String },
    PlayerList { players: Vec<PlayerBrief> },
    PlayerJoined { player_id: u32, name: String },
    PlayerLeft { player_id: u32 },
    Event(SyncEvent),
}

/// A message together with its audience.
#[derive(Debug)]
pub struct Outbound {
    pub audience: Audience,
    pub message: ServerMessage,
}

/// Whether `to` lists the addresses bound to the players `ids`, in that
/// order.
pub open spec fn addresses_in_order(v: LobbyView, ids: Seq<u32>, to: Seq<Endpoint>) -> bool {
    &&& ids.no_duplicates()
    &&& to.len() == ids.len()
    &&& forall|j: int| 0 <= j < ids.len() ==> #[trigger] to[j] == v.client_addresses[ids[j]]
}

/// Whether `to` is where a message for `audience` goes in lobby `v`: the one
/// address, or the address of every bound player (but the excluded one),
/// each player once.
pub open spec fn reaches(v: LobbyView, audience: Audience, to: Seq<Endpoint>) -> bool {
    match audience {
        Audience::One(addr) => to == seq![addr],
        Audience::All => exists|ids: Seq<u32>|
            ids.to_set() == v.client_addresses.dom() && addresses_in_order(v, ids, to),
        Audience::AllBut(id) => exists|ids: Seq<u32>|
            ids.to_set() == v.client_addresses.dom().remove(id) && addresses_in_order(v, ids, to),
    }
}

/// Resolves an audience to the addresses a message is sent to, in no
/// particular order.
pub fn recipients(lobby: &Lobby, audience: Audience) -> (to: Vec<Endpoint>)
    ensures
        reaches(lobby@, audience, to@),
{
    let mut to: Vec<Endpoint> = Vec::new();
    let (everyone, skip): (bool, u32) = match audience {
        Audience::One(addr) => {
            to.push(addr);
            assert(to@ =~= seq![addr]);
            return to;
        },
        Audience::All => (true, 0),
        Audience::AllBut(id) => (false, id),
    };
    let keys = keys_of(&lobby.client_addresses);
    let mut ids: Vec<u32> = Vec::new();
    let mut i: usize = 0;
    let ghost want = if everyone {
        lobby@.client_addresses.dom()
    } else {
        lobby@.client_addresses.dom().remove(skip)
    };
    proof {
        crate::collect::lemma_gathering_start(keys@, want);
    }
    while i < keys.len()
        invariant
            keys@.to_set() == lobby@.client_addresses.dom(),
            want == if everyone {
                lobby@.client_addresses.dom()
            } else {
                lobby@.client_addresses.dom().remove(skip)
            },
            crate::collect::gathering(keys@, i as int, ids@, want),
            to@.len() == ids@.len(),
            forall|j: int| 0 <= j < ids@.len() ==> #[trigger] to@[j] == lobby@.client_addresses[ids@[j]],
        decreases keys.len() - i,
    {
        let id: u32 = keys[i];
        proof {
            crate::collect::lemma_gathering_step(keys@, i as int, ids@, want);
            assert(keys@.to_set().contains(keys@[i as int]));
        }
        if everyone || id != skip {
            match lobby.client_addresses.get(&id) {
                None => {},
                Some(addr) => {
                    to.push(*addr);
                    ids.push(id);
                },
            }
        }
        i = i + 1;
    }
    proof {
        crate::collect::lemma_gathering_end(keys@, ids@, want);
        assert(ids@.to_set() == want && addresses_in_order(lobby@, ids@, to@));
    }
    to
}

/// The groups of messages that the effects of commands give rise to.
pub enum Group {
    /// Replies to the player who joined or connected.
    Replies,
    /// Announcements of a join to the other players.
    Joins,
    /// Announcements of a departure.
    Leaves,
    /// Position updates of the movers, for the other players.
    Moves,
    /// Announcements of a kill.
    Kills,
}

/// The message that gives a mover's position to the other players.
pub open spec fn position_message(id: u32, p: Player) -> Outbound {
    Outbound {
        audience: Audience::AllBut(id),
        message: ServerMessage::Event(
            SyncEvent::PositionChanged { player_id: id, position: p.position, rotation: p.rotation },
        ),
    }
}

/// The messages of one group that one effect gives rise to. A joining player
/// is welcomed and sent the roster, a connecting player gets an
/// acknowledgement and the roster; joins go to the others, departures and
/// kills to all; a mover's position goes to the others, provided the mover
/// is still in the lobby.
pub open spec fn announced(group: Group, code: String, v: LobbyView, e: Effect) -> Seq<Outbound> {
    match (group, e) {
        (Group::Replies, Effect::Joined { player_id, name, addr, roster }) => seq![
            Outbound { audience: Audience::One(addr), message: ServerMessage::Welcome { player_id } },
            Outbound {
                audience: Audience::One(addr),
                message: ServerMessage::PlayerList { players: roster },
            },
        ],
        (Group::Replies, Effect::Connected { player_id, name, addr, roster }) => seq![
            Outbound {
                audience: Audience::One(addr),
                message: ServerMessage::UdpConnected { player_id, lobby_code: code },
            },
            Outbound {
                audience: Audience::One(addr),
                message: ServerMessage::PlayerList { players: roster },
            },
        ],
        (Group::Joins, Effect::Joined { player_id, name, addr, roster }) => seq![
            Outbound {
                audience: Audience::AllBut(player_id),
                message: ServerMessage::PlayerJoined { player_id, name },
            },
        ],
        (Group::Joins, Effect::Connected { player_id, name, addr, roster }) => seq![
            Outbound {
                audience: Audience::AllBut(player_id),
                message: ServerMessage::PlayerJoined { player_id, name },
            },
        ],
        (Group::Leaves, Effect::Left { player_id }) => seq![
            Outbound { audience: Audience::All, message: ServerMessage::PlayerLeft { player_id } },
        ],
        (Group::Moves, Effect::Moved { player_id }) => if v.players.contains_key(player_id) {
            seq![position_message(player_id, v.players[player_id])]
        } else {
            Seq::empty()
        },
        (Group::Kills, Effect::Killed { event }) => seq![
            Outbound {
                audience: Audience::All,
                message: ServerMessage::Event(
                    SyncEvent::PlayerKilled {
                        killer_id: event.killer_id,
                        killer_name: event.killer_name,
                        victim_id: event.victim_id,
                        victim_name: event.victim_name,
                        weapon_id: event.weapon_id,
                        weapon_name: event.weapon_name,
                        killer_killstreak: event.killer_new_killstreak,
                    },
                ),
            },
        ],
        _ => Seq::empty(),
    }
}

/// The messages of one group for a sequence of effects, effect by effect.
pub open spec fn announcements(group: Group, code: String, v: LobbyView, effects: Seq<Effect>) -> Seq<
    Outbound,
>
    decreases effects.len(),
{
    if effects.len() == 0 {
        Seq::empty()
    } else {
        announcements(group, code, v, effects.drop_last()) + announced(group, code, v, effects.last())
    }
}

/// The kinds of message sent once for each player of a list.
pub enum Notice {
    /// The player was removed for inactivity: the others see it leave.
    Gone,
    /// The player was removed for inactivity: the reason is given.
    Kicked,
    /// The player respawned.
    Respawned,
    /// The player is about to be removed for inactivity.
    Warned,
}

/// Whole seconds between the player's last activity and `now`.
pub open spec fn idle_secs(p: Player, now: u64) -> int {
    (now - p.last_update) / 1000
}

/// Whole seconds an idle player has left before it times out, as shown in
/// a warning.
pub open spec fn seconds_left(p: Player, timeout_secs: u64, now: u64) -> u64 {
    if now >= p.last_update && idle_secs(p, now) <= timeout_secs {
        (timeout_secs - idle_secs(p, now)) as u64
    } else if now >= p.last_update {
        0
    } else {
        timeout_secs
    }
}

/// The message of kind `notice` about player `id`, sent to all. A warning is
/// only sent about a player still in the lobby.
pub open spec fn noticed(notice: Notice, v: LobbyView, timeout_secs: u64, now: u64, id: u32) -> Seq<
    Outbound,
> {
    match notice {
        Notice::Gone => seq![
            Outbound { audience: Audience::All, message: ServerMessage::PlayerLeft { player_id: id } },
        ],
        Notice::Kicked => seq![
            Outbound {
                audience: Audience::All,
                message: ServerMessage::Event(
                    SyncEvent::PlayerKicked { player_id: id, reason: KickReason::Inactivity },
                ),
            },
        ],
        Notice::Respawned => seq![
            Outbound {
                audience: Audience::All,
                message: ServerMessage::Event(SyncEvent::PlayerRespawned { player_id: id }),
            },
        ],
        Notice::Warned => if v.players.contains_key(id) {
            seq![
                Outbound {
                    audience: Audience::All,
                    message: ServerMessage::Event(
                        SyncEvent::InactivityWarning {
                            player_id: id,
                            seconds_remaining: seconds_left(v.players[id], timeout_secs, now),
                        },
                    ),
                },
            ]
        } else {
            Seq::empty()
        },
    }
}

/// The messages of kind `notice` about the players `ids`, in that order.
pub open spec fn notices(
    notice: Notice,
    v: LobbyView,
    timeout_secs: u64,
    now: u64,
    ids: Seq<u32>,
) -> Seq<Outbound>
    decreases ids.len(),
{
    if ids.len() == 0 {
        Seq::empty()
    } else {
        notices(notice, v, timeout_secs, now, ids.drop_last()) + noticed(
            notice,
            v,
            timeout_secs,
            now,
            ids.last(),
        )
    }
}

/// One message to all for each state event, in order.
pub open spec fn state_messages(events: Seq<SyncEvent>) -> Seq<Outbound> {
    Seq::new(
        events.len(),
        |k: int| Outbound { audience: Audience::All, message: ServerMessage::Event(events[k]) },
    )
}

/// Everything a tick sends, in sending order: replies to joining players,
/// joins, departures (those that left, then those removed for inactivity),
/// positions of movers, kills, respawns, kicks, inactivity warnings and the
/// state events of delta synchronisation.
pub open spec fn planned(
    code: String,
    v: LobbyView,
    report: TickReport,
    timeout_secs: u64,
    now: u64,
) -> Seq<Outbound> {
    announcements(Group::Replies, code, v, report.effects@) + announcements(
        Group::Joins,
        code,
        v,
        report.effects@,
    ) + announcements(Group::Leaves, code, v, report.effects@) + notices(
        Notice::Gone,
        v,
        timeout_secs,
        now,
        report.kicked@,
    ) + announcements(Group::Moves, code, v, report.effects@) + announcements(
        Group::Kills,
        code,
        v,
        report.effects@,
    ) + notices(Notice::Respawned, v, timeout_secs, now, report.respawned@) + notices(
        Notice::Kicked,
        v,
        timeout_secs,
        now,
        report.kicked@,
    ) + notices(Notice::Warned, v, timeout_secs, now, report.warned@) + state_messages(
        report.events@,
    )
}

fn push_notices(
    out: &mut Vec<Outbound>,
    notice: Notice,
    lobby: &Lobby,
    timeout_secs: u64,
    now: u64,
    ids: &Vec<u32>,
)
    ensures
        final(out)@ == old(out)@ + notices(notice, lobby@, timeout_secs, now, ids@),
{
    let ghost start = out@;
    let mut i: usize = 0;
    assert(ids@.take(0) =~= Seq::<u32>::empty());
    assert(out@ =~= start + notices(notice, lobby@, timeout_secs, now, ids@.take(0)));
    while i < ids.len()
        invariant
            0 <= i <= ids.len(),
            out@ == start + notices(notice, lobby@, timeout_secs, now, ids@.take(i as int)),
        decreases ids.len() - i,
    {
        let id: u32 = ids[i];
        let ghost before = out@;
        proof {
            assert(ids@.take(i + 1).drop_last() =~= ids@.take(i as int));
            assert(ids@.take(i + 1).last() == id);
        }
        match notice {
            Notice::Gone => {
                out.push(
                    Outbound {
                        audience: Audience::All,
                        message: ServerMessage::PlayerLeft { player_id: id },
                    },
                );
            },
            Notice::Kicked => {
                out.push(
                    Outbound {
                        audience: Audience::All,
                        message: ServerMessage::Event(
                            SyncEvent::PlayerKicked { player_id: id, reason: KickReason::Inactivity },
                        ),
                    },
                );
            },
            Notice::Respawned => {
                out.push(
                    Outbound {
                        audience: Audience::All,
                        message: ServerMessage::Event(SyncEvent::PlayerRespawned { player_id: id }),
                    },
                );
            },
            Notice::Warned => {
                match lobby.players.get(&id) {
                    None => {},
                    Some(p) => {
                        let left: u64 = if now >= p.last_update {
                            let idle: u64 = (now - p.last_update) / 1000;
                            if idle <= timeout_secs {
                                timeout_secs - idle
                            } else {
                                0
                            }
                        } else {
                            timeout_secs
                        };
                        out.push(
                            Outbound {
                                audience: Audience::All,
                                message: ServerMessage::Event(
                                    SyncEvent::InactivityWarning {
                                        player_id: id,
                                        seconds_remaining: left,
                                    },
                                ),
                            },
                        );
                    },
                }
            },
        }
        assert(out@ =~= before + noticed(notice, lobby@, timeout_secs, now, id));
        assert(out@ =~= start + notices(notice, lobby@, timeout_secs, now, ids@.take(i + 1)));
        i = i + 1;
    }
    assert(ids@.take(ids@.len() as int) =~= ids@);
}

/// Plans the fan-out of a tick from its report and the lobby the tick left
/// behind. The messages come in sending order; each names its audience,
/// which [`recipients`] resolves to addresses.
pub fn plan_fanout(lobby: &Lobby, report: TickReport, timeout_secs: u64, now: u64) -> (out: Vec<
    Outbound,
>)
    ensures
        out@ == planned(lobby.code, lobby@, report, timeout_secs, now),
{
    let TickReport { effects, respawned, kicked, warned, events, .. } = report;
    let ghost all = effects@;
    let ghost code = lobby.code;
    let ghost v = lobby@;
    let mut replies: Vec<Outbound> = Vec::new();
    let mut joins: Vec<Outbound> = Vec::new();
    let mut leaves: Vec<Outbound> = Vec::new();
    let mut moves: Vec<Outbound> = Vec::new();
    let mut kills: Vec<Outbound> = Vec::new();
    assert(all.take(0) =~= Seq::<Effect>::empty());
    for effect in it: effects.into_iter()
        invariant
            it.seq() == all,
            code == lobby.code,
            v == lobby@,
            replies@ == announcements(Group::Replies, code, v, all.take(it.index())),
            joins@ == announcements(Group::Joins, code, v, all.take(it.index())),
            leaves@ == announcements(Group::Leaves, code, v, all.take(it.index())),
            moves@ == announcements(Group::Moves, code, v, all.take(it.index())),
            kills@ == announcements(Group::Kills, code, v, all.take(it.index())),
    {
        let ghost i = it.index();
        let ghost olds = (replies@, joins@, leaves@, moves@, kills@);
        proof {
            assert(all.take(i + 1).drop_last() =~= all.take(i));
            assert(all.take(i + 1).last() == all[i]);
        }
        match effect {
            Effect::Nothing => {},
            Effect::Joined { player_id, name, addr, roster } => {
                replies.push(
                    Outbound {
                        audience: Audience::One(addr),
                        message: ServerMessage::Welcome { player_id },
                    },
                );
                replies.push(
                    Outbound {
                        audience: Audience::One(addr),
                        message: ServerMessage::PlayerList { players: roster },
                    },
                );
                joins.push(
                    Outbound {
                        audience: Audience::AllBut(player_id),
                        message: ServerMessage::PlayerJoined { player_id, name },
                    },
                );
            },
            Effect::Connected { player_id, name, addr, roster } => {
                replies.push(
                    Outbound {
                        audience: Audience::One(addr),
                        message: ServerMessage::UdpConnected {
                            player_id,
                            lobby_code: lobby.code.clone(),
                        },
                    },
                );
                replies.push(
                    Outbound {
                        audience: Audience::One(addr),
                        message: ServerMessage::PlayerList { players: roster },
                    },
                );
                joins.push(
                    Outbound {
                        audience: Audience::AllBut(player_id),
                        message: ServerMessage::PlayerJoined { player_id, name },
                    },
                );
            },
            Effect::Left { player_id } => {
                leaves.push(
                    Outbound { audience: Audience::All, message: ServerMessage::PlayerLeft { player_id } },
                );
            },
            Effect::Moved { player_id } => {
                match lobby.players.get(&player_id) {
                    None => {},
                    Some(p) => {
                        moves.push(
                            Outbound {
                                audience: Audience::AllBut(player_id),
                                message: ServerMessage::Event(
                                    SyncEvent::PositionChanged {
                                        player_id,
                                        position: p.position,
                                        rotation: p.rotation,
                                    },
                                ),
                            },
                        );
                    },
                }
            },
            Effect::Killed { event } => {
                kills.push(
                    Outbound {
                        audience: Audience::All,
                        message: ServerMessage::Event(
                            SyncEvent::PlayerKilled {
                                killer_id: event.killer_id,
                                killer_name: event.killer_name,
                                victim_id: event.victim_id,
                                victim_name: event.victim_name,
                                weapon_id: event.weapon_id,
                                weapon_name: event.weapon_name,
                                killer_killstreak: event.killer_new_killstreak,
                            },
                        ),
                    },
                );
            },
        }
        proof {
            assert(replies@ =~= olds.0 + announced(Group::Replies, code, v, all[i]));
            assert(joins@ =~= olds.1 + announced(Group::Joins, code, v, all[i]));
            assert(leaves@ =~= olds.2 + announced(Group::Leaves, code, v, all[i]));
            assert(moves@ =~= olds.3 + announced(Group::Moves, code, v, all[i]));
            assert(kills@ =~= olds.4 + announced(Group::Kills, code, v, all[i]));
        }
    }
    assert(all.take(all.len() as int) =~= all);
    let mut out: Vec<Outbound> = replies;
    out.append(&mut joins);
    out.append(&mut leaves);
    push_notices(&mut out, Notice::Gone, lobby, timeout_secs, now, &kicked);
    out.append(&mut moves);
    out.append(&mut kills);
    push_notices(&mut out, Notice::Respawned, lobby, timeout_secs, now, &respawned);
    push_notices(&mut out, Notice::Kicked, lobby, timeout_secs, now, &kicked);
    push_notices(&mut out, Notice::Warned, lobby, timeout_secs, now, &warned);
    let ghost head = out@;
    let ghost told = events@;
    for event in it: events.into_iter()
        invariant
            it.seq() == told,
            out@.len() == head.len() + it.index(),
            forall|k: int| 0 <= k < head.len() ==> out@[k] == head[k],
            forall|k: int|
                0 <= k < it.index() ==> out@[head.len() + k] == (Outbound {
                    audience: Audience::All,
                    message: ServerMessage::Event(told[k]),
                }),
    {
        out.push(Outbound { audience: Audience::All, message: ServerMessage::Event(event) });
    }
    assert(out@ =~= head + state_messages(told));
    out
}

} // verus!
