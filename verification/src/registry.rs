//! The process-wide source of player ids.

use crate::player::BOT_PLAYER_ID;
use vstd::prelude::*;

verus! {

/// Hands out player ids that are unique in the process: ids rise from one,
/// and the id reserved for the calibration bot is never handed out.
#[derive(Debug)]
pub struct PlayerIds {
    next: u32,
}

/// The id handed out when `next` is the lowest id not yet considered: `next`
/// itself, or its successor if `next` is reserved; none once the range is
/// used up.
pub open spec fn issued(next: u32) -> Option<u32> {
    let candidate = if next == BOT_PLAYER_ID {
        (BOT_PLAYER_ID + 1) as u32
    } else {
        next
    };
    if candidate == u32::MAX {
        None
    } else {
        Some(candidate)
    }
}

impl PlayerIds {
    /// The lowest id not yet considered.
    pub closed spec fn upcoming(&self) -> u32 {
        self.next
    }

    /// A source that has handed out nothing; the first id will be one.
    pub fn new() -> (ids: PlayerIds)
        ensures
            ids.upcoming() == 1,
    {
        PlayerIds { next: 1 }
    }

    /// The next id. Every id is larger than all ids handed out before and
    /// differs from the reserved one. Once the range is used up the answer
    /// is `None`, for good.
    pub fn next_player_id(&mut self) -> (id: Option<u32>)
        ensures
            id == issued(old(self).upcoming()),
            id is Some ==> final(self).upcoming() == id->Some_0 + 1,
            id is None ==> final(self).upcoming() == old(self).upcoming(),
    {
        let candidate: u32 = if self.next == BOT_PLAYER_ID {
            BOT_PLAYER_ID + 1
        } else {
            self.next
        };
        if candidate == u32::MAX {
            None
        } else {
            self.next = candidate + 1;
            Some(candidate)
        }
    }
}

/// Ids rise and avoid the reserved id: an id that is handed out is not below
/// the lowest id not yet considered, is not the reserved id, and any id
/// handed out after it is larger.
pub proof fn lemma_ids_rise(next: u32)
    ensures
        issued(next) is Some ==> issued(next)->Some_0 >= next && issued(next)->Some_0 != BOT_PLAYER_ID,
        issued(next) is Some && issued((issued(next)->Some_0 + 1) as u32) is Some ==> issued(
            (issued(next)->Some_0 + 1) as u32,
        )->Some_0 > issued(next)->Some_0,
{
}

} // verus!
