//! The commands a lobby receives, and how a batch of them is drained from
//! the lobby's queue and coalesced before a tick.

use crate::player::{Endpoint, Vec3};
use std::collections::HashSet;
use tokio::sync::mpsc::Receiver;
use vstd::prelude::*;

verus! {

broadcast use vstd::std_specs::hash::group_hash_axioms;

/// Most commands a single drain takes off a queue.
pub const DRAIN_LIMIT: usize = 1024;

/// A request to change a lobby. Producers queue commands; only the lobby's
/// tick applies them.
#[derive(Debug)]
pub enum LobbyCommand {
    PlayerJoin { player_id: u32, name: String, addr: Endpoint },
    PlayerLeave { player_id: u32 },
    UdpConnect { player_id: u32, name: String, addr: Endpoint },
    PositionUpdate { player_id: u32, position: Vec3, rotation: Vec3, addr: Endpoint },
    Shoot { player_id: u32, target_id: u32 },
    Reload { player_id: u32 },
    WeaponSwitch { player_id: u32, weapon_id: u32 },
    Heartbeat { player_id: u32, addr: Endpoint },
}

/// Whether `cmd` is a position update of player `id`.
pub open spec fn moves(cmd: LobbyCommand, id: u32) -> bool {
    cmd matches LobbyCommand::PositionUpdate { player_id, .. } && player_id == id
}

/// The players that `cmds` holds a position update for.
pub open spec fn movers(cmds: Seq<LobbyCommand>) -> Set<u32> {
    Set::new(|id: u32| exists|j: int| 0 <= j < cmds.len() && moves(#[trigger] cmds[j], id))
}

/// The position updates of `cmds` that no later update for the same player
/// supersedes, in arrival order.
pub open spec fn latest_positions(cmds: Seq<LobbyCommand>) -> Seq<LobbyCommand>
    decreases cmds.len(),
{
    if cmds.len() == 0 {
        Seq::empty()
    } else {
        let rest = cmds.drop_first();
        match cmds[0] {
            LobbyCommand::PositionUpdate { player_id, .. } => if movers(rest).contains(player_id) {
                latest_positions(rest)
            } else {
                seq![cmds[0]] + latest_positions(rest)
            },
            _ => latest_positions(rest),
        }
    }
}

/// The commands of `cmds` that are not position updates, in arrival order.
pub open spec fn other_commands(cmds: Seq<LobbyCommand>) -> Seq<LobbyCommand>
    decreases cmds.len(),
{
    if cmds.len() == 0 {
        Seq::empty()
    } else {
        let rest = cmds.drop_first();
        if cmds[0] is PositionUpdate {
            other_commands(rest)
        } else {
            seq![cmds[0]] + other_commands(rest)
        }
    }
}

/// A batch after coalescing: each mover's latest position update first, then
/// every other command in arrival order.
pub open spec fn coalesced(cmds: Seq<LobbyCommand>) -> Seq<LobbyCommand> {
    latest_positions(cmds) + other_commands(cmds)
}

fn mover_of(cmd: &LobbyCommand) -> (id: Option<u32>)
    ensures
        cmd is PositionUpdate <==> id is Some,
        id is Some ==> moves(*cmd, id->Some_0),
        forall|other: u32| moves(*cmd, other) ==> id == Some(other),
{
    match cmd {
        LobbyCommand::PositionUpdate { player_id, .. } => Some(*player_id),
        _ => None,
    }
}

proof fn lemma_movers_grow(cmds: Seq<LobbyCommand>)
    requires
        cmds.len() > 0,
    ensures
        forall|id: u32|
            movers(cmds).contains(id) <==> (moves(cmds[0], id) || movers(cmds.drop_first()).contains(
                id,
            )),
{
    let rest = cmds.drop_first();
    assert forall|id: u32| movers(cmds).contains(id) implies (moves(cmds[0], id) || movers(
        rest,
    ).contains(id)) by {
        let j = choose|j: int| 0 <= j < cmds.len() && moves(#[trigger] cmds[j], id);
        if j > 0 {
            assert(moves(rest[j - 1], id));
        }
    }
    assert forall|id: u32|
        (moves(cmds[0], id) || movers(rest).contains(id)) implies movers(cmds).contains(id) by {
        if moves(cmds[0], id) {
        } else {
            let j = choose|j: int| 0 <= j < rest.len() && moves(#[trigger] rest[j], id);
            assert(moves(cmds[j + 1], id));
        }
    }
}

fn reversed(mut items: Vec<LobbyCommand>) -> (out: Vec<LobbyCommand>)
    ensures
        out@ == items@.reverse(),
{
    let mut out: Vec<LobbyCommand> = Vec::new();
    let ghost all = items@;
    while items.len() > 0
        invariant
            items@.len() <= all.len(),
            items@ == all.take(items@.len() as int),
            out@.len() == all.len() - items@.len(),
            forall|j: int| 0 <= j < out@.len() ==> out@[j] == all[all.len() - 1 - j],
        decreases items.len(),
    {
        match items.pop() {
            Some(item) => {
                out.push(item);
            },
            None => {},
        }
    }
    assert(out@ =~= all.reverse());
    out
}

/// Coalesces a batch: of each player's position updates only the latest
/// survives. The surviving updates come first, in arrival order, followed by
/// all other commands in arrival order.
pub fn coalesce(commands: Vec<LobbyCommand>) -> (out: Vec<LobbyCommand>)
    ensures
        out@ == coalesced(commands@),
{
    let mut pending = commands;
    let ghost all = pending@;
    let mut seen: HashSet<u32> = HashSet::new();
    let mut positions: Vec<LobbyCommand> = Vec::new();
    let mut others: Vec<LobbyCommand> = Vec::new();
    assert(all.skip(all.len() as int) =~= Seq::<LobbyCommand>::empty());
    assert(seen@ =~= movers(all.skip(all.len() as int)));
    while pending.len() > 0
        invariant
            pending@.len() <= all.len(),
            pending@ == all.take(pending@.len() as int),
            seen@ == movers(all.skip(pending@.len() as int)),
            positions@.reverse() == latest_positions(all.skip(pending@.len() as int)),
            others@.reverse() == other_commands(all.skip(pending@.len() as int)),
        decreases pending.len(),
    {
        let ghost n = pending@.len() as int;
        let ghost suffix = all.skip(n - 1);
        proof {
            assert(suffix.drop_first() =~= all.skip(n));
            assert(suffix[0] == all[n - 1]);
            lemma_movers_grow(suffix);
        }
        match pending.pop() {
            None => {},
            Some(cmd) => {
                assert(cmd == all[n - 1]);
                match mover_of(&cmd) {
                    Some(id) => {
                        if !seen.contains(&id) {
                            seen.insert(id);
                            proof {
                                assert(positions@.push(cmd).reverse() =~= seq![cmd]
                                    + positions@.reverse());
                            }
                            positions.push(cmd);
                        }
                        assert(seen@ =~= movers(suffix));
                    },
                    None => {
                        proof {
                            assert(others@.push(cmd).reverse() =~= seq![cmd] + others@.reverse());
                        }
                        others.push(cmd);
                        assert(seen@ =~= movers(suffix));
                    },
                }
            },
        }
    }
    assert(all.skip(0) =~= all);
    let mut out = reversed(positions);
    let mut tail = reversed(others);
    proof {
        assert(positions@.reverse().reverse() =~= positions@);
        assert(others@.reverse().reverse() =~= others@);
    }
    out.append(&mut tail);
    out
}

/// Takes the next command off the queue without waiting, if one is there.
///
/// This calls `tokio::sync::mpsc::Receiver::try_recv`, which does not wait
/// for a message to arrive (it only waits out a send that is already under
/// way) and answers an error both for an empty and for a closed channel;
/// either is given here as `None`. What the queue holds depends on its
/// producers, so nothing is promised about the command.
#[verifier::external_body]
fn try_next(queue: &mut Receiver<LobbyCommand>) -> (next: Option<LobbyCommand>) {
    match queue.try_recv() {
        Ok(command) => Some(command),
        Err(_) => None,
    }
}

/// Drains the queue without waiting, taking at most `DRAIN_LIMIT` commands,
/// and coalesces what it took: the answer is the coalesced form of some
/// batch of at most that many commands.
pub fn drain_and_coalesce(queue: &mut Receiver<LobbyCommand>) -> (out: Vec<LobbyCommand>)
    ensures
        exists|batch: Seq<LobbyCommand>| batch.len() <= DRAIN_LIMIT && out@ == coalesced(batch),
{
    let mut batch: Vec<LobbyCommand> = Vec::new();
    let mut open: bool = true;
    while open && batch.len() < DRAIN_LIMIT
        invariant
            batch@.len() <= DRAIN_LIMIT,
        decreases DRAIN_LIMIT - batch@.len() + (if open { 1int } else { 0int }),
    {
        match try_next(queue) {
            Some(command) => {
                batch.push(command);
            },
            None => {
                open = false;
            },
        }
    }
    let ghost taken = batch@;
    let out = coalesce(batch);
    assert(taken.len() <= DRAIN_LIMIT && out@ == coalesced(taken));
    out
}

/// The declaration of tokio's bounded receiver, so that a queue can be
/// handed to the drain.
#[verifier::external_type_specification]
#[verifier::external_body]
#[verifier::reject_recursive_types(T)]
pub struct ExReceiver<T>(tokio::sync::mpsc::Receiver<T>);

proof fn lemma_superseded_parts(cmds: Seq<LobbyCommand>, i: int, j: int, id: u32)
    requires
        0 <= i < j < cmds.len(),
        moves(cmds[i], id),
        moves(cmds[j], id),
    ensures
        latest_positions(cmds.remove(i)) == latest_positions(cmds),
        other_commands(cmds.remove(i)) == other_commands(cmds),
        movers(cmds.remove(i)) == movers(cmds),
    decreases i,
{
    let rest = cmds.drop_first();
    let cut = cmds.remove(i);
    lemma_movers_grow(cmds);
    assert(moves(rest[j - 1], id));
    if i == 0 {
        assert(cut =~= rest);
        assert(movers(rest).contains(id));
        assert(movers(cmds) =~= movers(rest));
    } else {
        lemma_superseded_parts(rest, i - 1, j - 1, id);
        assert(cut.drop_first() =~= rest.remove(i - 1));
        assert(cut[0] == cmds[0]);
        lemma_movers_grow(cut);
        assert(movers(cut) =~= movers(cmds));
    }
}

/// A position update that a later update for the same player supersedes
/// makes no difference: the batch coalesces to the same commands with or
/// without it.
pub proof fn lemma_superseded_update_is_dropped(cmds: Seq<LobbyCommand>, i: int, j: int, id: u32)
    requires
        0 <= i < j < cmds.len(),
        moves(cmds[i], id),
        moves(cmds[j], id),
    ensures
        coalesced(cmds.remove(i)) == coalesced(cmds),
{
    lemma_superseded_parts(cmds, i, j, id);
}

/// Any number of back-to-back position updates of one player coalesce like
/// the last of them alone, whatever comes before and after the run.
pub proof fn lemma_back_to_back_updates(
    before: Seq<LobbyCommand>,
    run: Seq<LobbyCommand>,
    after: Seq<LobbyCommand>,
    id: u32,
)
    requires
        run.len() > 0,
        forall|k: int| 0 <= k < run.len() ==> moves(#[trigger] run[k], id),
    ensures
        coalesced(before + run + after) == coalesced(before + seq![run.last()] + after),
    decreases run.len(),
{
    if run.len() == 1 {
        assert(run =~= seq![run.last()]);
    } else {
        let whole = before + run + after;
        let at = before.len() as int;
        assert(whole[at] == run[0]);
        assert(whole[at + 1] == run[1]);
        lemma_superseded_update_is_dropped(whole, at, at + 1, id);
        let shorter = run.drop_first();
        assert(whole.remove(at) =~= before + shorter + after);
        assert forall|k: int| 0 <= k < shorter.len() implies moves(#[trigger] shorter[k], id) by {
            assert(shorter[k] == run[k + 1]);
        }
        lemma_back_to_back_updates(before, shorter, after, id);
        assert(shorter.last() == run.last());
    }
}

} // verus!
