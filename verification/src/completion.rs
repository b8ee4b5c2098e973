//! Waiting until every worker has said that it is done.

use vstd::prelude::*;

verus! {

/// Counts completion signals against the number of workers that were
/// launched. The measurement may stop only when [`CompletionTracker::all_done`]
/// holds: after one signal from each worker, not after the first.
#[derive(Debug)]
pub struct CompletionTracker {
    expected: u32,
    received: u32,
}

impl CompletionTracker {
    #[verifier::type_invariant]
    spec fn well_formed(self) -> bool {
        self.received <= self.expected
    }

    /// The number of workers that were launched.
    pub closed spec fn expected(self) -> nat {
        self.expected as nat
    }

    /// The number of signals taken so far.
    pub closed spec fn received(self) -> nat {
        self.received as nat
    }

    /// A tracker for `expected` workers, none of which has signalled yet.
    pub fn new(expected: u32) -> (tracker: CompletionTracker)
        ensures
            tracker.expected() == expected,
            tracker.received() == 0,
    {
        CompletionTracker { expected, received: 0 }
    }

    /// Whether every worker has signalled.
    pub fn all_done(&self) -> (done: bool)
        ensures
            done <==> self.received() == self.expected(),
    {
        self.received == self.expected
    }

    /// The number of workers that have not signalled yet.
    pub fn pending(&self) -> (n: u32)
        ensures
            n == self.expected() - self.received(),
    {
        proof {
            use_type_invariant(self);
        }
        self.expected - self.received
    }

    /// Takes one completion signal and says whether it was the last one
    /// outstanding.
    pub fn record(&mut self) -> (done: bool)
        requires
            old(self).received() < old(self).expected(),
        ensures
            final(self).expected() == old(self).expected(),
            final(self).received() == old(self).received() + 1,
            done <==> final(self).received() == final(self).expected(),
    {
        self.received = self.received + 1;
        self.received == self.expected
    }
}

} // verus!
