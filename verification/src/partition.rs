//! Dividing a requested number of increments evenly among workers.

use vstd::prelude::*;
use crate::error::HarnessError;

verus! {

/// The number of increments each of `workers` workers performs when `requested`
/// increments are asked for: the quotient, rounded down.
pub open spec fn share(requested: nat, workers: nat) -> nat
    recommends
        workers > 0,
{
    requested / workers
}

/// The number of increments that all workers perform together.
pub open spec fn performed(requested: nat, workers: nat) -> nat
    recommends
        workers > 0,
{
    workers * share(requested, workers)
}

/// The number of requested increments that nobody performs.
pub open spec fn dropped(requested: nat, workers: nat) -> nat
    recommends
        workers > 0,
{
    requested % workers
}

/// What is performed and what is dropped add up to what was requested, and
/// less than one increment per worker is dropped.
pub proof fn lemma_performed_plus_dropped(requested: nat, workers: nat)
    requires
        workers > 0,
    ensures
        performed(requested, workers) + dropped(requested, workers) == requested,
        dropped(requested, workers) < workers,
        performed(requested, workers) <= requested,
{
    vstd::arithmetic::div_mod::lemma_fundamental_div_mod(requested as int, workers as int);
    vstd::arithmetic::div_mod::lemma_mod_bound(requested as int, workers as int);
}

/// The workers perform exactly what was requested if and only if the request
/// is a multiple of the number of workers.
pub proof fn lemma_performed_all_iff_divisible(requested: nat, workers: nat)
    requires
        workers > 0,
    ensures
        performed(requested, workers) == requested <==> requested % workers == 0,
{
    lemma_performed_plus_dropped(requested, workers);
}

/// An even split of a requested number of increments among a positive number of
/// workers.
#[derive(Clone, Copy, Debug, PartialEq, Eq)]
pub struct WorkPartition {
    nthread: u32,
    sum: u64,
    iteration: u64,
}

impl WorkPartition {
    #[verifier::type_invariant]
    spec fn well_formed(self) -> bool {
        &&& self.nthread > 0
        &&& self.iteration == share(self.sum as nat, self.nthread as nat)
    }

    /// The number of workers.
    pub closed spec fn workers(self) -> nat {
        self.nthread as nat
    }

    /// The number of increments asked for.
    pub closed spec fn requested(self) -> nat {
        self.sum as nat
    }

    /// Splits `sum` increments among `nthread` workers. A thread count of zero
    /// is the one input that is refused.
    pub fn new(nthread: u32, sum: u64) -> (result: Result<WorkPartition, HarnessError>)
        ensures
            nthread == 0 <==> result is Err,
            result is Err ==> result == Err::<WorkPartition, HarnessError>(
                HarnessError::ZeroThreads,
            ),
            result matches Ok(p) ==> p.workers() == nthread && p.requested() == sum,
    {
        match sum.checked_div(nthread.into()) {
            Some(iteration) => Ok(WorkPartition { nthread, sum, iteration }),
            None => Err(HarnessError::ZeroThreads),
        }
    }

    /// The number of workers; never zero.
    pub fn nthread(&self) -> (n: u32)
        ensures
            n == self.workers(),
            n > 0,
    {
        proof {
            use_type_invariant(self);
        }
        self.nthread
    }

    /// The number of increments asked for.
    pub fn sum(&self) -> (s: u64)
        ensures
            s == self.requested(),
    {
        self.sum
    }

    /// The number of increments each worker performs.
    pub fn iteration(&self) -> (n: u64)
        ensures
            n == share(self.requested(), self.workers()),
    {
        proof {
            use_type_invariant(self);
        }
        self.iteration
    }

    /// The number of increments all workers perform together. It never
    /// exceeds what was asked for.
    pub fn total(&self) -> (n: u64)
        ensures
            n == performed(self.requested(), self.workers()),
            n <= self.requested(),
    {
        proof {
            use_type_invariant(self);
            lemma_performed_plus_dropped(self.sum as nat, self.nthread as nat);
        }
        let workers: u64 = self.nthread.into();
        workers * self.iteration
    }

    /// The number of requested increments that no worker performs.
    pub fn remainder(&self) -> (n: u64)
        ensures
            n == dropped(self.requested(), self.workers()),
            n < self.workers(),
    {
        proof {
            use_type_invariant(self);
            lemma_performed_plus_dropped(self.sum as nat, self.nthread as nat);
        }
        let workers: u64 = self.nthread.into();
        self.sum % workers
    }
}

} // verus!
