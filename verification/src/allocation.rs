//! Planning a run of equally sized allocations, and keeping what the
//! allocator handed out.
//!
//! A block's size is a power of two and doubles as its alignment. The handles
//! are kept as plain addresses and never given back: the run measures
//! allocation alone, and a block that is still held cannot be handed out
//! twice.

use vstd::prelude::*;
use vstd::arithmetic::power2::pow2;

verus! {

/// Why a run of allocations is refused.
#[derive(Clone, Copy, Debug, PartialEq, Eq, Structural)]
pub enum AllocError {
    /// The exponent is above [`max_power`]: a block of that size and
    /// alignment cannot be described on this machine.
    PowerTooLarge,
    /// The number of allocations is above [`max_count`]: no collection on
    /// this machine can keep that many handles.
    CountTooLarge,
}

/// The largest admissible exponent. A block's size, rounded up to its
/// alignment, must stay within the largest signed machine word; with the size
/// as alignment that leaves two bits of the word unused.
pub open spec fn max_power() -> nat {
    (usize::BITS - 2) as nat
}

/// The largest admissible number of allocations. A handle takes one machine
/// word, and a collection holds no more bytes than the largest signed machine
/// word says.
pub open spec fn max_count() -> nat {
    (isize::MAX as nat) / ((usize::BITS / 8) as nat)
}

/// Whether the blocks of `size` bytes at addresses `a` and `b` share a byte.
pub open spec fn blocks_overlap(a: nat, b: nat, size: nat) -> bool {
    a < b + size && b < a + size
}

/// Whether no two of the blocks of `size` bytes at the given addresses share
/// a byte.
pub open spec fn pairwise_disjoint(handles: Seq<usize>, size: nat) -> bool {
    forall|i: int, j: int|
        0 <= i < j < handles.len() ==> !blocks_overlap(
            #[trigger] handles[i] as nat,
            #[trigger] handles[j] as nat,
            size,
        )
}

/// Two blocks whose size is also their alignment share a byte only if they
/// are the same block.
pub proof fn lemma_aligned_blocks_overlap_iff_equal(a: nat, b: nat, size: nat)
    requires
        size > 0,
        a % size == 0,
        b % size == 0,
    ensures
        blocks_overlap(a, b, size) <==> a == b,
{
    if a < b {
        lemma_next_multiple(a, b, size);
    } else if b < a {
        lemma_next_multiple(b, a, size);
    }
}

/// Handles of blocks whose size is also their alignment are pairwise
/// disjoint as soon as no handle occurs twice.
pub proof fn lemma_aligned_distinct_handles_are_disjoint(handles: Seq<usize>, size: nat)
    requires
        size > 0,
        forall|i: int| 0 <= i < handles.len() ==> (#[trigger] handles[i] as nat) % size == 0,
        forall|i: int, j: int|
            0 <= i < j < handles.len() ==> #[trigger] handles[i] != #[trigger] handles[j],
    ensures
        pairwise_disjoint(handles, size),
{
    assert forall|i: int, j: int| 0 <= i < j < handles.len() implies !blocks_overlap(
        #[trigger] handles[i] as nat,
        #[trigger] handles[j] as nat,
        size,
    ) by {
        lemma_aligned_blocks_overlap_iff_equal(handles[i] as nat, handles[j] as nat, size);
    }
}

/// The least multiple of `size` above a multiple `low` is `low + size`.
proof fn lemma_next_multiple(low: nat, high: nat, size: nat)
    requires
        size > 0,
        low % size == 0,
        high % size == 0,
        low < high,
    ensures
        low + size <= high,
{
    let ql = low / size;
    let qh = high / size;
    vstd::arithmetic::div_mod::lemma_fundamental_div_mod(low as int, size as int);
    vstd::arithmetic::div_mod::lemma_fundamental_div_mod(high as int, size as int);
    assert(low == size * ql);
    assert(high == size * qh);
    assert(ql < qh) by (nonlinear_arith)
        requires
            size * ql < size * qh,
            size > 0,
    ;
    assert(size * (ql + 1) <= size * qh) by (nonlinear_arith)
        requires
            ql + 1 <= qh,
            size > 0,
    ;
    assert(size * (ql + 1) == size * ql + size) by (nonlinear_arith);
}

/// A run of `count` allocations of `2^power` bytes each.
#[derive(Clone, Copy, Debug, PartialEq, Eq)]
pub struct AllocPlan {
    nalloc: usize,
    power: u32,
    size: usize,
}

impl AllocPlan {
    #[verifier::type_invariant]
    spec fn well_formed(self) -> bool {
        &&& self.nalloc <= max_count()
        &&& self.power <= max_power()
        &&& self.size == pow2(self.power as nat)
    }

    /// The number of allocations.
    pub closed spec fn count(self) -> nat {
        self.nalloc as nat
    }

    /// The exponent of the block size.
    pub closed spec fn exponent(self) -> nat {
        self.power as nat
    }

    /// Plans `nalloc` allocations of `2^power` bytes. The exponent is checked
    /// first, against [`max_power`]; then the count, against [`max_count`].
    pub fn new(nalloc: u64, power: u32) -> (result: Result<AllocPlan, AllocError>)
        ensures
            power > max_power() ==> result == Err::<AllocPlan, AllocError>(
                AllocError::PowerTooLarge,
            ),
            power <= max_power() && nalloc > max_count() ==> result == Err::<
                AllocPlan,
                AllocError,
            >(AllocError::CountTooLarge),
            power <= max_power() && nalloc <= max_count() ==> (result matches Ok(plan)
                && plan.count() == nalloc && plan.exponent() == power),
    {
        if power > usize::BITS - 2 {
            return Err(AllocError::PowerTooLarge);
        }
        let limit: usize = (isize::MAX as usize) / ((usize::BITS / 8) as usize);
        if nalloc > limit as u64 {
            return Err(AllocError::CountTooLarge);
        }
        proof {
            vstd::bits::lemma_usize_pow2_no_overflow(power as nat);
            vstd::bits::lemma_usize_shl_is_mul(1usize, power as usize);
        }
        let size: usize = 1usize << (power as usize);
        Ok(AllocPlan { nalloc: nalloc as usize, power, size })
    }

    /// The number of allocations.
    pub fn nalloc(&self) -> (n: usize)
        ensures
            n == self.count(),
            n <= max_count(),
    {
        proof {
            use_type_invariant(self);
        }
        self.nalloc
    }

    /// The exponent of the block size.
    pub fn power(&self) -> (p: u32)
        ensures
            p == self.exponent(),
            p <= max_power(),
    {
        proof {
            use_type_invariant(self);
        }
        self.power
    }

    /// The size of one block in bytes: two to the exponent. It is not zero
    /// and fits the largest signed machine word.
    pub fn size(&self) -> (bytes: usize)
        ensures
            bytes == pow2(self.exponent()),
            bytes > 0,
            bytes <= isize::MAX,
    {
        proof {
            use_type_invariant(self);
            vstd::arithmetic::power2::lemma_pow2_pos(self.power as nat);
            vstd::arithmetic::power2::lemma_pow2_unfold((self.power + 1) as nat);
            vstd::bits::lemma_usize_pow2_no_overflow((self.power + 1) as nat);
        }
        self.size
    }

    /// The alignment of every block: the block size.
    pub fn align(&self) -> (bytes: usize)
        ensures
            bytes == pow2(self.exponent()),
    {
        proof {
            use_type_invariant(self);
        }
        self.size
    }

    /// The memory that the whole run asks for, in bytes.
    pub fn total_bytes(&self) -> (bytes: u128)
        ensures
            bytes == self.count() * pow2(self.exponent()),
    {
        proof {
            use_type_invariant(self);
            assert(self.nalloc * self.size <= u128::MAX) by (nonlinear_arith)
                requires
                    self.nalloc <= u64::MAX,
                    self.size <= u64::MAX,
            ;
        }
        (self.nalloc as u128) * (self.size as u128)
    }
}

/// The addresses that the allocator handed out during one run, in the order
/// in which they came. Room for all of them is set aside before the first is
/// taken, so that keeping one costs the same every time.
#[derive(Debug)]
pub struct HandleLog {
    handles: Vec<usize>,
    block_size: usize,
    capacity: usize,
}

impl View for HandleLog {
    type V = Seq<usize>;

    closed spec fn view(&self) -> Seq<usize> {
        self.handles@
    }
}

impl HandleLog {
    /// The size in bytes of the block behind every handle.
    pub closed spec fn block_size(self) -> nat {
        self.block_size as nat
    }

    /// The number of handles that the log was made for.
    pub closed spec fn capacity(self) -> nat {
        self.capacity as nat
    }

    /// An empty log with room for every allocation of `plan`.
    pub fn for_plan(plan: &AllocPlan) -> (log: HandleLog)
        ensures
            log@ == Seq::<usize>::empty(),
            log.capacity() == plan.count(),
            log.block_size() == pow2(plan.exponent()),
    {
        let capacity = plan.nalloc();
        HandleLog { handles: Vec::with_capacity(capacity), block_size: plan.size(), capacity }
    }

    /// The number of handles kept so far.
    pub fn len(&self) -> (n: usize)
        ensures
            n == self@.len(),
    {
        self.handles.len()
    }

    /// Whether every allocation that the log was made for has been kept.
    pub fn is_full(&self) -> (full: bool)
        ensures
            full <==> self@.len() == self.capacity(),
    {
        self.handles.len() == self.capacity
    }

    /// Keeps one more handle, behind those kept before.
    #[inline]
    pub fn record(&mut self, handle: usize)
        requires
            old(self)@.len() < old(self).capacity(),
        ensures
            final(self)@ == old(self)@.push(handle),
            final(self).capacity() == old(self).capacity(),
            final(self).block_size() == old(self).block_size(),
    {
        self.handles.push(handle);
    }

    /// The handle that was kept as number `index`, counting from zero.
    pub fn get(&self, index: usize) -> (handle: Option<usize>)
        ensures
            handle == (if index < self@.len() {
                Some(self@[index as int])
            } else {
                None
            }),
    {
        if index < self.handles.len() {
            Some(self.handles[index])
        } else {
            None
        }
    }

    /// Whether no two of the blocks behind the handles share a byte.
    pub fn blocks_disjoint(&self) -> (disjoint: bool)
        ensures
            disjoint <==> pairwise_disjoint(self@, self.block_size()),
    {
        let n = self.handles.len();
        let size = self.block_size;
        let mut j: usize = 0;
        while j < n
            invariant
                j <= n,
                n == self.handles@.len(),
                size == self.block_size,
                forall|p: int, q: int|
                    0 <= p < q < j ==> !blocks_overlap(
                        #[trigger] self.handles@[p] as nat,
                        #[trigger] self.handles@[q] as nat,
                        size as nat,
                    ),
            decreases n - j,
        {
            let high = self.handles[j];
            let mut i: usize = 0;
            while i < j
                invariant
                    i <= j < n,
                    n == self.handles@.len(),
                    size == self.block_size,
                    high == self.handles@[j as int],
                    forall|p: int|
                        0 <= p < i ==> !blocks_overlap(
                            #[trigger] self.handles@[p] as nat,
                            high as nat,
                            size as nat,
                        ),
                decreases j - i,
            {
                let low = self.handles[i];
                let apart = if low <= high {
                    high - low >= size
                } else {
                    low - high >= size
                };
                if !apart {
                    assert(blocks_overlap(
                        self.handles@[i as int] as nat,
                        self.handles@[j as int] as nat,
                        size as nat,
                    ));
                    return false;
                }
                i = i + 1;
            }
            j = j + 1;
        }
        true
    }
}

} // verus!
