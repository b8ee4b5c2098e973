//! The shared counter and what workers do to it.
//!
//! A worker never touches the counter without exclusive access, so every run
//! of the harness comes to the same as its increments made one at a time in
//! some order. [`run_in_turn`] makes them worker after worker;
//! [`crate::schedule::run_in_order`] makes them in whatever order it is given.

use vstd::prelude::*;
use crate::partition::{performed, WorkPartition};

verus! {

/// An unsigned counter, starting at zero, that only ever goes up by one.
#[derive(Debug)]
pub struct SharedCounter {
    value: u64,
}

impl View for SharedCounter {
    type V = nat;

    closed spec fn view(&self) -> nat {
        self.value as nat
    }
}

impl SharedCounter {
    /// A counter that holds zero.
    pub fn new() -> (counter: SharedCounter)
        ensures
            counter@ == 0,
    {
        SharedCounter { value: 0 }
    }

    /// What the counter holds.
    pub fn value(&self) -> (v: u64)
        ensures
            v == self@,
    {
        self.value
    }

    /// Whether one more increment fits.
    pub fn can_increment(&self) -> (b: bool)
        ensures
            b <==> self@ < u64::MAX,
    {
        self.value < u64::MAX
    }

    /// Adds one. The caller holds the counter exclusively for the time of
    /// the call, which is what `&mut` says.
    #[inline]
    pub fn increment(&mut self)
        requires
            old(self)@ < u64::MAX,
        ensures
            final(self)@ == old(self)@ + 1,
    {
        self.value = self.value + 1;
    }
}

/// One worker's share of the work: `iteration` increments, each made with
/// exclusive access to the counter and nothing else in between.
pub fn run_worker(counter: &mut SharedCounter, iteration: u64)
    requires
        old(counter)@ + iteration <= u64::MAX,
    ensures
        final(counter)@ == old(counter)@ + iteration,
{
    let mut done: u64 = 0;
    while done < iteration
        invariant
            done <= iteration,
            counter@ == old(counter)@ + done,
            old(counter)@ + iteration <= u64::MAX,
        decreases iteration - done,
    {
        counter.increment();
        done = done + 1;
    }
}

/// Runs every worker of `partition` against one fresh counter, one worker
/// after the other, and returns what the counter holds in the end: the number
/// of workers times the share of each. The part of the request that does not
/// divide evenly is not performed.
pub fn run_in_turn(partition: &WorkPartition) -> (total: u64)
    ensures
        total == performed(partition.requested(), partition.workers()),
        total == partition.workers() * (partition.requested() / partition.workers()),
        total <= partition.requested(),
{
    let nthread = partition.nthread();
    let iteration = partition.iteration();
    let limit = partition.total();
    let mut counter = SharedCounter::new();
    let mut finished: u32 = 0;
    while finished < nthread
        invariant
            finished <= nthread,
            counter@ == finished * iteration,
            limit == nthread * iteration,
        decreases nthread - finished,
    {
        assert((finished + 1) * iteration <= nthread * iteration) by (nonlinear_arith)
            requires
                finished < nthread,
        ;
        assert((finished + 1) * iteration == finished * iteration + iteration)
            by (nonlinear_arith);
        run_worker(&mut counter, iteration);
        finished = finished + 1;
    }
    counter.value()
}

} // verus!
