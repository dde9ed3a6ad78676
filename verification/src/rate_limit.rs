//! Rate limiting at the UDP ingress: a sliding window per source address.

use crate::player::Endpoint;
use vstd::prelude::*;

verus! {

/// Length of the sliding window in milliseconds.
pub const WINDOW_MS: u64 = 1000;

/// The packets recently allowed from one address.
#[derive(Debug)]
pub struct Source {
    pub addr: Endpoint,
    /// When each packet still in the window was allowed.
    pub recent: Vec<u64>,
}

/// Lets through at most `limit` packets from each address within any window of
/// one second.
#[derive(Debug)]
pub struct RateLimiter {
    limit: u32,
    sources: Vec<Source>,
}

/// Whether a packet allowed at `t` still counts at `now`.
pub open spec fn in_window(t: u64, now: u64) -> bool {
    t <= now && now - t < WINDOW_MS
}

/// The admissions of `log` that still count at `now`, in their order.
pub open spec fn kept(log: Seq<u64>, now: u64) -> Seq<u64>
    decreases log.len(),
{
    if log.len() == 0 {
        Seq::empty()
    } else if in_window(log.last(), now) {
        kept(log.drop_last(), now).push(log.last())
    } else {
        kept(log.drop_last(), now)
    }
}

/// Whether the limiter has seen `addr`.
pub open spec fn known(sources: Seq<Source>, addr: Endpoint) -> bool {
    exists|i: int| 0 <= i < sources.len() && #[trigger] sources[i].addr == addr
}

/// The admissions recorded for `addr`: none for an address never seen.
pub open spec fn log_of(sources: Seq<Source>, addr: Endpoint) -> Seq<u64> {
    if known(sources, addr) {
        let i = choose|i: int| 0 <= i < sources.len() && #[trigger] sources[i].addr == addr;
        sources[i].recent@
    } else {
        Seq::empty()
    }
}

fn prune(log: &Vec<u64>, now: u64) -> (out: Vec<u64>)
    ensures
        out@ == kept(log@, now),
{
    let mut out: Vec<u64> = Vec::new();
    let mut i: usize = 0;
    assert(log@.take(0) =~= Seq::<u64>::empty());
    while i < log.len()
        invariant
            0 <= i <= log.len(),
            out@ == kept(log@.take(i as int), now),
        decreases log.len() - i,
    {
        proof {
            assert(log@.take(i + 1).drop_last() =~= log@.take(i as int));
            assert(log@.take(i + 1).last() == log@[i as int]);
        }
        let t: u64 = log[i];
        if t <= now && now - t < WINDOW_MS {
            out.push(t);
        }
        i = i + 1;
    }
    assert(log@.take(log@.len() as int) =~= log@);
    out
}

impl RateLimiter {
    /// No address is recorded twice, and no address has more recorded than
    /// the limit lets through.
    pub closed spec fn wf(&self) -> bool {
        &&& forall|a: int, b: int|
            0 <= a < self.sources@.len() && 0 <= b < self.sources@.len() && a != b
                ==> self.sources@[a].addr != self.sources@[b].addr
        &&& forall|a: int|
            0 <= a < self.sources@.len() ==> (#[trigger] self.sources@[a]).recent@.len() <= self.limit
    }

    /// The admissions recorded for `addr`.
    pub closed spec fn log(&self, addr: Endpoint) -> Seq<u64> {
        log_of(self.sources@, addr)
    }

    /// The number of packets let through per address and window.
    pub closed spec fn quota(&self) -> u32 {
        self.limit
    }

    /// The number of packets let through per address and window.
    pub fn limit(&self) -> (limit: u32)
        ensures
            limit == self.quota(),
    {
        self.limit
    }

    /// A limiter that has seen no packet.
    pub fn new(limit: u32) -> (limiter: RateLimiter)
        ensures
            limiter.wf(),
            limiter.quota() == limit,
            forall|addr: Endpoint| limiter.log(addr) == Seq::<u64>::empty(),
    {
        RateLimiter { limit, sources: Vec::new() }
    }

    /// Decides whether a packet arriving from `addr` at `now` is let through.
    ///
    /// Admissions older than the window, or recorded after `now`, no longer
    /// count. The packet is allowed exactly when fewer than `limit`
    /// admissions from `addr` still count, and is then recorded. Other
    /// addresses are not touched.
    pub fn allow(&mut self, addr: Endpoint, now: u64) -> (allowed: bool)
        requires
            old(self).wf(),
        ensures
            final(self).wf(),
            final(self).quota() == old(self).quota(),
            allowed <==> kept(old(self).log(addr), now).len() < old(self).quota(),
            final(self).log(addr) == if allowed {
                kept(old(self).log(addr), now).push(now)
            } else {
                kept(old(self).log(addr), now)
            },
            final(self).log(addr).len() <= old(self).quota(),
            forall|other: Endpoint| other != addr ==> final(self).log(other) == old(self).log(other),
    {
        let mut i: usize = 0;
        while i < self.sources.len() && !(self.sources[i].addr == addr)
            invariant
                0 <= i <= self.sources.len(),
                *self == *old(self),
                forall|j: int| 0 <= j < i ==> self.sources@[j].addr != addr,
            decreases self.sources.len() - i,
        {
            i = i + 1;
        }
        let ghost before = self.sources@;
        if i == self.sources.len() {
            assert(!known(before, addr));
            if self.limit == 0 {
                return false;
            }
            let mut recent: Vec<u64> = Vec::new();
            recent.push(now);
            self.sources.push(Source { addr, recent });
            proof {
                let after = self.sources@;
                assert(after[i as int].addr == addr);
                assert(known(after, addr));
                let w = choose|k: int| 0 <= k < after.len() && #[trigger] after[k].addr == addr;
                assert(w == i);
                assert(recent@ =~= Seq::<u64>::empty().push(now));
                assert forall|other: Endpoint| other != addr implies log_of(after, other) == log_of(
                    before,
                    other,
                ) by {
                    if known(before, other) {
                        let k = choose|k: int| 0 <= k < before.len() && #[trigger] before[k].addr == other;
                        assert(after[k].addr == other);
                        assert(known(after, other));
                        let k2 = choose|k2: int| 0 <= k2 < after.len() && #[trigger] after[k2].addr == other;
                        assert(k2 < before.len());
                        assert(before[k2].addr == other);
                        assert(k2 == k);
                    } else if known(after, other) {
                        let k2 = choose|k2: int| 0 <= k2 < after.len() && #[trigger] after[k2].addr == other;
                        assert(before[k2].addr == other);
                    }
                }
            }
            true
        } else {
            proof {
                assert(known(before, addr));
                let w = choose|k: int| 0 <= k < before.len() && #[trigger] before[k].addr == addr;
                assert(w == i);
            }
            proof {
                lemma_kept_in_window(before[i as int].recent@, now);
            }
            let mut recent = prune(&self.sources[i].recent, now);
            let allowed: bool = recent.len() < self.limit as usize;
            if allowed {
                recent.push(now);
            }
            self.sources.set(i, Source { addr, recent });
            proof {
                let after = self.sources@;
                assert(after[i as int].addr == addr);
                assert(known(after, addr));
                let w = choose|k: int| 0 <= k < after.len() && #[trigger] after[k].addr == addr;
                assert(w == i);
                assert forall|other: Endpoint| other != addr implies log_of(after, other) == log_of(
                    before,
                    other,
                ) by {
                    if known(before, other) {
                        let k = choose|k: int| 0 <= k < before.len() && #[trigger] before[k].addr == other;
                        assert(after[k].addr == other);
                        assert(known(after, other));
                        let k2 = choose|k2: int| 0 <= k2 < after.len() && #[trigger] after[k2].addr == other;
                        assert(before[k2].addr == other);
                        assert(k2 == k);
                    } else if known(after, other) {
                        let k2 = choose|k2: int| 0 <= k2 < after.len() && #[trigger] after[k2].addr == other;
                        assert(before[k2].addr == other);
                    }
                }
            }
            allowed
        }
    }
}

/// Every admission that still counts lies within the window that ends at
/// `now`.
pub proof fn lemma_kept_in_window(log: Seq<u64>, now: u64)
    ensures
        forall|j: int| 0 <= j < kept(log, now).len() ==> in_window(#[trigger] kept(log, now)[j], now),
        kept(log, now).len() <= log.len(),
    decreases log.len(),
{
    if log.len() > 0 {
        lemma_kept_in_window(log.drop_last(), now);
    }
}

} // verus!
