//! The frame scheduler: dynamic, at-most-once distribution of frame indices.
//!
//! `N` frame-generation jobs are handed out through a shared monotonic
//! cursor: each worker repeatedly claims the cursor's value and increments
//! it, processing the claimed index if it is below `N` and stopping
//! otherwise. Claiming is O(1); callers guard the scheduler with one lock (or
//! equivalent) per claim and compute unlocked. The contract of `claim` pins
//! the discipline down: every index below `N` is handed out exactly once, no
//! index is skipped, and once `claim` returns `None` the set of claimed
//! indices is exactly `{0, .., N-1}` — regardless of how workers interleave
//! their claims.

use vstd::prelude::*;

verus! {

/// A shared monotonic cursor over `total` frame indices. Its lifecycle is
/// scoped to one batch-generation call; workers share one instance by
/// reference under mutual exclusion.
pub struct FrameScheduler {
    next: usize,
    total: usize,
}

impl FrameScheduler {
    /// The cursor's position: how many claims have succeeded so far.
    pub closed spec fn spec_next(self) -> int {
        self.next as int
    }

    /// How many frame indices there are to hand out.
    pub closed spec fn spec_total(self) -> int {
        self.total as int
    }

    /// The cursor never runs past the job count.
    pub open spec fn wf(self) -> bool {
        0 <= self.spec_next() <= self.spec_total()
    }

    /// The set of indices already handed out: everything below the cursor.
    pub open spec fn claimed(self) -> Set<int> {
        Set::new(|i: int| 0 <= i < self.spec_next())
    }

    /// A fresh scheduler over `total` frame indices with nothing claimed.
    pub fn new(total: usize) -> (r: FrameScheduler)
        ensures
            r.wf(),
            r.spec_next() == 0,
            r.spec_total() == total,
            r.claimed() =~= Set::<int>::empty(),
    {
        FrameScheduler { next: 0, total }
    }

    /// Atomically reads and advances the cursor.
    ///
    /// Hands out `Some(k)` with the next unclaimed index `k` while any
    /// remains — an index never handed out before — and `None` once all
    /// `total` indices are claimed, leaving the scheduler unchanged; the
    /// claimed set is then exactly `{0, .., total-1}`.
    pub fn claim(&mut self) -> (r: Option<usize>)
        requires
            old(self).wf(),
        ensures
            final(self).wf(),
            final(self).spec_total() == old(self).spec_total(),
            match r {
                Some(k) => {
                    &&& old(self).spec_next() < old(self).spec_total()
                    &&& k == old(self).spec_next()
                    &&& !old(self).claimed().contains(k as int)
                    &&& final(self).spec_next() == old(self).spec_next() + 1
                    &&& final(self).claimed() =~= old(self).claimed().insert(k as int)
                },
                None => {
                    &&& old(self).spec_next() == old(self).spec_total()
                    &&& *final(self) == *old(self)
                    &&& old(self).claimed() =~= Set::new(
                        |i: int| 0 <= i < old(self).spec_total(),
                    )
                },
            },
    {
        if self.next < self.total {
            let k = self.next;
            self.next = self.next + 1;
            Some(k)
        } else {
            None
        }
    }
}

/// Exhaustiveness, read out of the cursor discipline: however the workers'
/// claims interleave, when the cursor has run out the union of claimed
/// indices is exactly `{0, .., total-1}`, and `claim`'s contract hands each
/// of them out exactly once.
pub proof fn lemma_claims_exhaustive(s: FrameScheduler)
    requires
        s.wf(),
        s.spec_next() == s.spec_total(),
    ensures
        s.claimed() =~= Set::new(|i: int| 0 <= i < s.spec_total()),
        forall|i: int| 0 <= i < s.spec_total() ==> s.claimed().contains(i),
{
}

} // verus!
