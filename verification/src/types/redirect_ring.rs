//! Per-epoch counts of raw transactions that this node redirected to a
//! leader, kept in a ring of fixed slots: an epoch takes the slot of its
//! number modulo the window, and a newer epoch taking the slot starts it over.

use vstd::prelude::*;

verus! {

/// The number of epoch slots of the ring.
pub const REDIRECT_WINDOW: u64 = 4096;

/// The slot an epoch is counted in.
pub open spec fn slot_of(epoch: u64) -> int {
    (epoch % REDIRECT_WINDOW) as int
}

/// A count one step further, wrapping around at the top as an atomic
/// fetch-add does.
pub open spec fn wrapped_increment(count: u64) -> u64 {
    if count == u64::MAX {
        0
    } else {
        (count + 1) as u64
    }
}

/// One slot: the epoch it currently counts, if any, and its count.
#[derive(Clone, Copy, Debug)]
pub struct RedirectSlot {
    pub epoch: Option<u64>,
    pub count: u64,
}

/// The count of redirects of `epoch` that the slots hold: that of its slot when
/// the slot counts this epoch, zero otherwise.
pub open spec fn slot_count(slots: Seq<RedirectSlot>, epoch: u64) -> u64 {
    let slot = slots[slot_of(epoch)];
    if slot.epoch == Some(epoch) {
        slot.count
    } else {
        0
    }
}

/// What one more redirect in `epoch` does to a ring: the epoch's count goes one
/// up (wrapping at the top) and the ring holds it; an older epoch that held the
/// slot is dropped; every other epoch keeps its count.
pub open spec fn counted_one_more(before: RedirectRing, after: RedirectRing, epoch: u64) -> bool {
    &&& after.holds(epoch)
    &&& after.count(epoch) == wrapped_increment(before.count(epoch))
    &&& forall|other: u64|
        other != epoch ==> {
            &&& slot_of(other) == slot_of(epoch) ==> #[trigger] after.count(other) == 0
                && !after.holds(other)
            &&& slot_of(other) != slot_of(epoch) ==> after.count(other) == before.count(other)
                && after.holds(other) == before.holds(other)
        }
}

/// How many redirects of `epoch` a history of redirects leaves counted: those
/// since the last redirect of another epoch of the same slot, or since the
/// start.
pub open spec fn redirects_counted(history: Seq<u64>, epoch: u64) -> nat
    decreases history.len(),
{
    if history.len() == 0 {
        0
    } else if history.last() == epoch {
        redirects_counted(history.drop_last(), epoch) + 1
    } else if slot_of(history.last()) == slot_of(epoch) {
        0
    } else {
        redirects_counted(history.drop_last(), epoch)
    }
}

/// Redirect counts of the most recent epochs, one slot per epoch modulo the
/// window.
///
/// The ring has a single owner and every change goes through `&mut self`, so
/// two epochs never contend for a slot at once and no increment is ever
/// skipped: there is no dropped-redirect counter, since it would always be
/// zero. Callers that share a ring between threads serialize access to it.
pub struct RedirectRing {
    slots: Vec<RedirectSlot>,
}

impl RedirectRing {
    #[verifier::type_invariant]
    spec fn has_window_slots(&self) -> bool {
        self.slots@.len() == REDIRECT_WINDOW
    }

    /// The count of redirects the ring reports for `epoch`.
    pub closed spec fn count(&self, epoch: u64) -> u64 {
        slot_count(self.slots@, epoch)
    }

    /// Whether the ring holds a count for `epoch`, that is whether `epoch` is
    /// the last epoch counted in its slot.
    pub closed spec fn holds(&self, epoch: u64) -> bool {
        self.slots@[slot_of(epoch)].epoch == Some(epoch)
    }

    /// A ring that counts no epoch.
    pub fn new() -> (ring: Self)
        ensures
            forall|epoch: u64| #[trigger] ring.count(epoch) == 0 && !ring.holds(epoch),
    {
        let mut slots: Vec<RedirectSlot> = Vec::new();
        let mut i: u64 = 0;
        while i < REDIRECT_WINDOW
            invariant
                i <= REDIRECT_WINDOW,
                slots@.len() == i,
                forall|j: int| 0 <= j < i ==> slots@[j] == (RedirectSlot { epoch: None, count: 0 }),
            decreases REDIRECT_WINDOW - i,
        {
            slots.push(RedirectSlot { epoch: None, count: 0 });
            i = i + 1;
        }
        let ring = RedirectRing { slots };
        assert forall|epoch: u64| #[trigger] ring.count(epoch) == 0 && !ring.holds(epoch) by {
            assert(0 <= slot_of(epoch) < REDIRECT_WINDOW);
        }
        ring
    }

    /// Counts one more redirect in `epoch`. The epoch's count goes one up
    /// (wrapping at the top); an older epoch that held the slot is dropped;
    /// every other epoch keeps its count.
    pub fn incr(&mut self, epoch: u64)
        ensures
            counted_one_more(*old(self), *final(self), epoch),
        no_unwind
    {
        proof {
            use_type_invariant(&*self);
        }
        let index = (epoch % REDIRECT_WINDOW) as usize;
        let slot = self.slots[index];
        let updated = match slot.epoch {
            Some(current) => {
                if current == epoch {
                    let count = if slot.count == u64::MAX {
                        0
                    } else {
                        slot.count + 1
                    };
                    RedirectSlot { epoch: Some(epoch), count }
                } else {
                    RedirectSlot { epoch: Some(epoch), count: 1 }
                }
            },
            None => RedirectSlot { epoch: Some(epoch), count: 1 },
        };
        self.slots[index] = updated;
    }

    /// The number of redirects counted in `epoch`, zero when the ring does not
    /// hold it.
    pub fn get(&self, epoch: u64) -> (count: u64)
        ensures
            count == self.count(epoch),
    {
        proof {
            use_type_invariant(self);
        }
        let slot = self.slots[(epoch % REDIRECT_WINDOW) as usize];
        match slot.epoch {
            Some(current) => {
                if current == epoch {
                    slot.count
                } else {
                    0
                }
            },
            None => 0,
        }
    }
}

/// A ring that counted a history of redirects from its start, one `incr` per
/// entry, reports for every epoch the redirects of that epoch since the last
/// redirect of another epoch of its slot (modulo 2^64, as the counts wrap).
pub proof fn lemma_ring_counts_follow_history(rings: Seq<RedirectRing>, history: Seq<u64>)
    requires
        rings.len() == history.len() + 1,
        forall|epoch: u64| #[trigger] rings[0].count(epoch) == 0,
        forall|k: int|
            0 <= k < history.len() ==> counted_one_more(rings[k], rings[k + 1], #[trigger] history[k]),
    ensures
        forall|epoch: u64|
            #[trigger] rings.last().count(epoch) == redirects_counted(history, epoch)
                % 0x1_0000_0000_0000_0000,
    decreases history.len(),
{
    if history.len() > 0 {
        let n = history.len() - 1;
        let prefix = history.drop_last();
        let earlier = rings.drop_last();
        assert forall|k: int| 0 <= k < prefix.len() implies counted_one_more(
            earlier[k],
            earlier[k + 1],
            #[trigger] prefix[k],
        ) by {
            assert(counted_one_more(rings[k], rings[k + 1], history[k]));
        }
        assert(earlier[0] == rings[0]);
        lemma_ring_counts_follow_history(earlier, prefix);
        let e = history[n];
        assert(counted_one_more(rings[n], rings[n + 1], e));
        assert(earlier.last() == rings[n]);
        assert(history.last() == e);
        assert forall|epoch: u64|
            #[trigger] rings.last().count(epoch) == redirects_counted(history, epoch)
                % 0x1_0000_0000_0000_0000 by {
            let c = redirects_counted(prefix, epoch);
            assert(rings[n].count(epoch) == c % 0x1_0000_0000_0000_0000);
            if epoch == e {
                assert(redirects_counted(history, epoch) == c + 1);
                let m = c % 0x1_0000_0000_0000_0000;
                assert((c + 1) % 0x1_0000_0000_0000_0000 == if m == 0xffff_ffff_ffff_ffff {
                    0
                } else {
                    m + 1
                }) by (nonlinear_arith)
                    requires
                        m == c % 0x1_0000_0000_0000_0000,
                        c >= 0,
                ;
            } else if slot_of(epoch) == slot_of(e) {
                assert(redirects_counted(history, epoch) == 0);
            } else {
                assert(redirects_counted(history, epoch) == c);
            }
        }
    }
}

} // verus!
