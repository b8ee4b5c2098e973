//! Runs in which the workers take turns in an arbitrary order.
//!
//! The lock decides who increments next, and it promises no order and no
//! fairness. A run of the harness is therefore described by the order in
//! which the lock was granted: a sequence of worker numbers, one entry for
//! each increment. Whatever that order is, once every worker has had exactly
//! its share of turns the counter holds the number of workers times the
//! share.

use vstd::prelude::*;
use crate::counter::SharedCounter;
use crate::partition::{performed, share, WorkPartition};

verus! {

/// How many turns `worker` has in `order`.
pub open spec fn turns_of(order: Seq<u32>, worker: nat) -> nat
    decreases order.len(),
{
    if order.len() == 0 {
        0
    } else {
        turns_of(order.drop_last(), worker) + if order.last() == worker {
            1nat
        } else {
            0nat
        }
    }
}

/// Whether `order` is a whole run of `workers` workers with `turns` turns
/// each: every entry names a worker, and every worker has exactly `turns`
/// turns.
pub open spec fn is_complete_order(order: Seq<u32>, workers: nat, turns: nat) -> bool {
    &&& forall|i: int| 0 <= i < order.len() ==> (#[trigger] order[i] as nat) < workers
    &&& forall|worker: nat| worker < workers ==> #[trigger] turns_of(order, worker) == turns
}

/// How many turns in `order` belong to workers with a number below `bound`.
spec fn turns_below(order: Seq<u32>, bound: nat) -> nat
    decreases order.len(),
{
    if order.len() == 0 {
        0
    } else {
        turns_below(order.drop_last(), bound) + if (order.last() as nat) < bound {
            1nat
        } else {
            0nat
        }
    }
}

/// Raising the bound by one adds the turns of the worker at the old bound.
proof fn lemma_turns_below_step(order: Seq<u32>, bound: nat)
    ensures
        turns_below(order, bound + 1) == turns_below(order, bound) + turns_of(order, bound),
    decreases order.len(),
{
    if order.len() > 0 {
        lemma_turns_below_step(order.drop_last(), bound);
    }
}

/// Where every worker below the bound has the same number of turns, the
/// turns below the bound are that number for each of them.
proof fn lemma_turns_below_sums(order: Seq<u32>, bound: nat, turns: nat)
    requires
        forall|worker: nat| worker < bound ==> #[trigger] turns_of(order, worker) == turns,
    ensures
        turns_below(order, bound) == bound * turns,
    decreases bound,
{
    if bound == 0 {
        lemma_turns_below_none(order);
    } else {
        let rest = (bound - 1) as nat;
        lemma_turns_below_sums(order, rest, turns);
        lemma_turns_below_step(order, rest);
        assert(turns_of(order, rest) == turns);
        assert(rest * turns + turns == bound * turns) by (nonlinear_arith)
            requires
                rest + 1 == bound,
        ;
    }
}

/// No turn belongs to a worker below zero.
proof fn lemma_turns_below_none(order: Seq<u32>)
    ensures
        turns_below(order, 0) == 0,
    decreases order.len(),
{
    if order.len() > 0 {
        lemma_turns_below_none(order.drop_last());
    }
}

/// Where every entry is below the bound, every turn is counted.
proof fn lemma_turns_below_all(order: Seq<u32>, bound: nat)
    requires
        forall|i: int| 0 <= i < order.len() ==> (#[trigger] order[i] as nat) < bound,
    ensures
        turns_below(order, bound) == order.len(),
    decreases order.len(),
{
    if order.len() > 0 {
        let front = order.drop_last();
        assert forall|i: int| 0 <= i < front.len() implies (#[trigger] front[i] as nat) < bound by {
            assert(front[i] == order[i]);
        }
        lemma_turns_below_all(front, bound);
        assert((order[order.len() - 1] as nat) < bound);
    }
}

/// A worker has at least as many turns in an order as in any beginning of
/// it.
pub proof fn lemma_turns_grow(order: Seq<u32>, cut: int, worker: nat)
    requires
        0 <= cut <= order.len(),
    ensures
        turns_of(order.take(cut), worker) <= turns_of(order, worker),
    decreases order.len() - cut,
{
    if cut == order.len() {
        assert(order.take(cut) == order);
    } else {
        let front = order.drop_last();
        assert(front.take(cut) == order.take(cut));
        lemma_turns_grow(front, cut, worker);
    }
}

/// Every whole run makes the same number of increments, whatever the order
/// of the turns: the number of workers times the turns of each.
pub proof fn lemma_complete_order_length(order: Seq<u32>, workers: nat, turns: nat)
    requires
        is_complete_order(order, workers, turns),
    ensures
        order.len() == workers * turns,
{
    lemma_turns_below_all(order, workers);
    lemma_turns_below_sums(order, workers, turns);
}

/// Runs the workers of `partition` against one fresh counter, with the turns
/// taken in the given order, and returns what the counter holds in the end.
/// An order that is not a whole run of this partition gives `None`.
pub fn run_in_order(partition: &WorkPartition, order: &[u32]) -> (total: Option<u64>)
    ensures
        total is Some <==> is_complete_order(
            order@,
            partition.workers(),
            share(partition.requested(), partition.workers()),
        ),
        total matches Some(count) ==> count == performed(
            partition.requested(),
            partition.workers(),
        ) && count == order@.len(),
{
    let nthread = partition.nthread();
    let iteration = partition.iteration();
    let expected = partition.total();
    let len = order.len();
    let ghost workers = partition.workers();
    let ghost turns = share(partition.requested(), partition.workers());
    if len as u64 != expected {
        proof {
            if is_complete_order(order@, workers, turns) {
                lemma_complete_order_length(order@, workers, turns);
            }
        }
        return None;
    }
    if iteration == 0 {
        assert(order@.len() == 0) by (nonlinear_arith)
            requires
                order@.len() == workers * turns,
                turns == 0,
        ;
        return Some(0);
    }
    // Every worker has a turn in `order`, so the table of turns is no longer
    // than `order` itself.
    let mut taken: Vec<u64> = Vec::with_capacity(nthread as usize);
    let mut worker: u32 = 0;
    while worker < nthread
        invariant
            worker <= nthread,
            taken@.len() == worker,
            forall|w: int| 0 <= w < worker ==> #[trigger] taken@[w] == 0,
        decreases nthread - worker,
    {
        taken.push(0);
        worker = worker + 1;
    }
    let mut counter = SharedCounter::new();
    let mut at: usize = 0;
    while at < len
        invariant
            at <= len == order@.len(),
            nthread == workers == partition.workers(),
            iteration == turns == share(partition.requested(), partition.workers()),
            taken@.len() == nthread,
            counter@ == at,
            forall|i: int| 0 <= i < at ==> (#[trigger] order@[i] as nat) < workers,
            forall|w: int|
                0 <= w < nthread ==> #[trigger] taken@[w] == turns_of(
                    order@.take(at as int),
                    w as nat,
                ) && taken@[w] <= iteration,
        decreases len - at,
    {
        let who = order[at];
        let ghost before = order@.take(at as int);
        let ghost after = order@.take(at + 1);
        proof {
            assert(after.drop_last() == before);
            assert(after.last() == who);
        }
        if who >= nthread {
            return None;
        }
        let had = taken[who as usize];
        if had == iteration {
            proof {
                lemma_turns_grow(order@, at + 1, who as nat);
                assert(turns_of(after, who as nat) == turns + 1);
            }
            return None;
        }
        taken.set(who as usize, had + 1);
        counter.increment();
        at = at + 1;
    }
    proof {
        assert(order@.take(len as int) == order@);
    }
    let mut worker: u32 = 0;
    while worker < nthread
        invariant
            worker <= nthread == workers == partition.workers(),
            iteration == turns == share(partition.requested(), partition.workers()),
            taken@.len() == nthread,
            forall|w: int|
                0 <= w < nthread ==> #[trigger] taken@[w] == turns_of(order@, w as nat),
            forall|w: nat| w < worker ==> #[trigger] turns_of(order@, w) == turns,
        decreases nthread - worker,
    {
        if taken[worker as usize] != iteration {
            assert(turns_of(order@, worker as nat) != turns);
            return None;
        }
        worker = worker + 1;
    }
    Some(counter.value())
}

} // verus!
