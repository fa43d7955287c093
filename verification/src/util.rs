//! Capacity growth policy: pure arithmetic deciding how large the next
//! allocation becomes, with explicit overflow detection.

use vstd::prelude::*;

verus! {

/// An endless source of default values: every draw yields a fresh
/// `T::default()`.
pub struct DefaultIter<T: Default>(core::marker::PhantomData<T>);

impl<T: Default> DefaultIter<T> {
    /// A fresh source.
    pub fn new() -> (r: DefaultIter<T>) {
        DefaultIter(core::marker::PhantomData)
    }

    /// Draws the next default value; there always is one.
    pub fn next(&mut self) -> (r: Option<T>)
        ensures
            r is Some,
            call_ensures(T::default, (), r->Some_0),
    {
        Some(T::default())
    }
}

/// The largest byte size a single allocation request may have: half of the
/// address space.
pub open spec fn max_alloc_size() -> int {
    isize::MAX as int
}

/// Whether an allocation of `alloc_size` bytes may be attempted at all.
/// Larger requests are refused before reaching the allocator.
pub fn can_try_alloc(alloc_size: usize) -> (r: bool)
    ensures
        r <==> alloc_size as int <= max_alloc_size(),
{
    alloc_size <= (isize::MAX as usize)
}

/// The smallest power of two that is at least `target`, reached by doubling
/// from `cur`.  Meaningful whenever `cur` is a power of two not above
/// `target`, or already at least `target`.
pub open spec fn next_pow2_from(cur: nat, target: nat) -> nat
    decreases (if cur < target { target - cur } else { 0int }),
        when 1 <= cur
{
    if cur >= target {
        cur
    } else {
        next_pow2_from(2 * cur, target)
    }
}

/// The smallest power of two that is at least `target`.
pub open spec fn smallest_pow2_ge(target: nat) -> nat {
    next_pow2_from(1, target)
}

/// Every value `next_pow2_from` reaches from a power of two is a power of
/// two again, lies at or above `target`, and halving it would drop below
/// `target`.
proof fn lemma_next_pow2_from(cur: nat, target: nat)
    requires
        1 <= cur,
    ensures
        next_pow2_from(cur, target) >= cur,
        next_pow2_from(cur, target) >= target,
        cur < target ==> next_pow2_from(cur, target) < 2 * target,
    decreases (if cur < target { target - cur } else { 0int }),
{
    if cur < target {
        lemma_next_pow2_from(2 * cur, target)
    }
}

/// `smallest_pow2_ge(target)` lies in `[target, 2 * target)` for positive
/// targets.
pub proof fn lemma_smallest_pow2_ge(target: nat)
    requires
        1 <= target,
    ensures
        target <= smallest_pow2_ge(target),
        target == 1 ==> smallest_pow2_ge(target) == 1,
        target > 1 ==> smallest_pow2_ge(target) < 2 * target,
{
    lemma_next_pow2_from(1, target)
}

/// The capacity the growth policy proposes for a container whose current
/// capacity is `old_capacity`: the smallest power of two that at least
/// doubles it.  `None` when no such power of two is representable.
pub open spec fn spec_new_capacity_at_least_double(old_capacity: nat) -> Option<usize> {
    if old_capacity <= usize::MAX as nat / 4 + 1 {
        Some((smallest_pow2_ge(2 * old_capacity) as usize))
    } else {
        None
    }
}

/// Computes the smallest power of two that is at least `2 * old_capacity`,
/// or `None` when that value does not fit the index range.  The growth
/// policy refuses such a request rather than wrapping.
pub fn new_capacity_at_least_double(old_capacity: usize) -> (r: Option<usize>)
    requires
        old_capacity >= 1,
    ensures
        r == spec_new_capacity_at_least_double(old_capacity as nat),
{
    if old_capacity > usize::MAX / 4 + 1 {
        return None;
    }
    let target: usize = 2 * old_capacity;
    let mut cur: usize = 1;
    proof {
        lemma_next_pow2_from(1, target as nat);
    }
    while cur < target
        invariant
            1 <= cur,
            target <= usize::MAX as nat / 2 + 1,
            next_pow2_from(cur as nat, target as nat) == smallest_pow2_ge(target as nat),
        decreases (if cur < target { target - cur } else { 0int }),
    {
        cur = 2 * cur;
    }
    Some(cur)
}

} // verus!
