//! The container: a growable sequence of records whose tails all have one
//! length, fixed at construction.  Storage is modelled as the sequence of
//! records together with the capacity the growth policy has granted.

use core::ops::Range;

use vstd::pervasive::unreached;
use vstd::prelude::*;

use crate::handle::{spec_record_size, Handle};
use crate::util::{
    lemma_smallest_pow2_ge, max_alloc_size, new_capacity_at_least_double, smallest_pow2_ge,
    DefaultIter,
};

verus! {

/// The baseline the growth policy doubles: the current capacity when the
/// request fits within doubling it, else the least value whose doubling
/// covers the current length plus the request.
pub open spec fn grow_baseline(len: nat, cap: nat, additional: nat) -> nat {
    if additional <= cap {
        cap
    } else {
        (additional + len + 1) / 2
    }
}

/// The capacity a growing `reserve` ends with: the smallest power of two
/// at least double the baseline.
pub open spec fn grown_capacity(len: nat, cap: nat, additional: nat) -> nat {
    smallest_pow2_ge(2 * grow_baseline(len, cap, additional))
}

/// The capacity after `reserve(additional)`: unchanged when the spare room
/// already suffices, grown otherwise.
pub open spec fn reserved_capacity(len: nat, cap: nat, additional: nat) -> nat {
    if cap >= len + additional {
        cap
    } else {
        grown_capacity(len, cap, additional)
    }
}

/// Whether `reserve(additional)` can be honoured: either the spare room
/// suffices, or the growth policy's arithmetic stays within the index
/// range and the grown allocation stays under the allocation limit.
pub open spec fn can_reserve<V, S>(len: nat, cap: nat, slice: nat, additional: nat) -> bool {
    cap >= len + additional || {
        &&& additional + len + 1 <= usize::MAX
        &&& grow_baseline(len, cap, additional) <= usize::MAX as nat / 4 + 1
        &&& spec_record_size::<V, S>(slice) * grown_capacity(len, cap, additional)
            <= max_alloc_size()
    }
}

/// Whether `reserve_exact(additional)` can be honoured: either the spare
/// room suffices, or length plus request stays in the index range and that
/// many records stay under the allocation limit.
pub open spec fn can_reserve_exact<V, S>(len: nat, cap: nat, slice: nat, additional: nat) -> bool {
    cap >= len + additional || {
        &&& len + additional <= usize::MAX
        &&& spec_record_size::<V, S>(slice) * (len + additional) <= max_alloc_size()
    }
}

/// The sequence after removing `[start, end)` and shifting every later
/// element down to close the gap: the relative order of all survivors is
/// preserved.
pub open spec fn spec_removed_shift<T>(s: Seq<T>, start: int, end: int) -> Seq<T>
    recommends
        0 <= start <= end <= s.len(),
{
    s.subrange(0, start) + s.subrange(end, s.len() as int)
}

/// The sequence after removing `[start, end)` and refilling the vacated
/// span from the tail end, taking the last element first: order is not
/// preserved.  When fewer elements remain after the gap than the gap
/// holds, all of them move into it.
pub open spec fn spec_removed_replace<T>(s: Seq<T>, start: int, end: int) -> Seq<T>
    recommends
        0 <= start <= end <= s.len(),
{
    let k = end - start;
    let t = if s.len() - k >= end {
        s.len() - k
    } else {
        end
    };
    s.subrange(0, start) + Seq::new((s.len() - t) as nat, |i: int| s[s.len() - 1 - i])
        + s.subrange(end, t)
}

/// How a removal closes the vacated span.
enum RemovalMode {
    /// Shifts the whole suffix down to cover: order preserved.
    Shift,
    /// Moves records from the tail end into the span: order traded for a
    /// cost independent of the suffix length.
    Replace,
}

/// Growable sequence of records: each holds one header of type `V` and a
/// tail of `S` elements whose length is the container's tail length.
pub struct Vec<V, S> {
    records: std::vec::Vec<Handle<V, S>>,
    capacity: usize,
    slice: usize,
}

impl<V, S> View for Vec<V, S> {
    type V = Seq<(V, Seq<S>)>;

    /// A container is, abstractly, the sequence of its records.
    closed spec fn view(&self) -> Seq<(V, Seq<S>)> {
        self.records@.map_values(|h: Handle<V, S>| h@)
    }
}

impl<V, S> Vec<V, S> {
    /// Number of live records.
    pub open spec fn spec_len(&self) -> nat {
        self@.len()
    }

    /// Number of records the allocation can hold before regrowing.
    pub closed spec fn spec_capacity(&self) -> nat {
        self.capacity as nat
    }

    /// Tail length shared by every record of this container.
    pub closed spec fn spec_slice_length(&self) -> nat {
        self.slice as nat
    }

    /// Well-formedness: the tail length is positive, a record occupies at
    /// least one byte, every live record's tail has the tail length, the
    /// length never exceeds the capacity, and the allocation stays under
    /// the allocation limit.
    pub closed spec fn wf(&self) -> bool {
        &&& 1 <= self.slice
        &&& 1 <= spec_record_size::<V, S>(self.slice as nat)
        &&& self.records@.len() <= self.capacity
        &&& spec_record_size::<V, S>(self.slice as nat) * (self.capacity as nat)
            <= max_alloc_size()
        &&& forall|i: int|
            0 <= i < self.records@.len() ==> (#[trigger] self.records@[i]).tail@.len()
                == self.slice
    }

    /// What well-formedness guarantees about the values a caller can see:
    /// the length never exceeds the capacity, and every record's tail has
    /// the container's positive tail length.
    pub proof fn lemma_wf_bounds(&self)
        requires
            self.wf(),
        ensures
            self.spec_len() <= self.spec_capacity(),
            1 <= self.spec_slice_length(),
            forall|i: int|
                0 <= i < self@.len() ==> (#[trigger] self@[i]).1.len() == self.spec_slice_length(),
    {
    }

    /// Creates an empty container whose records will carry `slice_length`
    /// tail elements each.  Nothing is allocated yet.  A zero tail length,
    /// or a record layout of zero bytes, is rejected: such a record is
    /// pointless.
    pub fn new(slice_length: usize) -> (r: Self)
        requires
            1 <= slice_length,
            1 <= spec_record_size::<V, S>(slice_length as nat),
        ensures
            r.wf(),
            r@ == Seq::<(V, Seq<S>)>::empty(),
            r.spec_capacity() == 0,
            r.spec_slice_length() == slice_length,
    {
        let r = Vec { records: std::vec::Vec::new(), capacity: 0, slice: slice_length };
        proof {
            assert(r@ =~= Seq::<(V, Seq<S>)>::empty());
        }
        r
    }

    /// The number of records the container can hold before a reallocation
    /// is needed.
    pub fn capacity(&self) -> (r: usize)
        ensures
            r == self.spec_capacity(),
    {
        self.capacity
    }

    /// The tail length of any and all records.
    pub fn slice_length(&self) -> (r: usize)
        ensures
            r == self.spec_slice_length(),
    {
        self.slice
    }

    /// The number of live records.
    pub fn len(&self) -> (r: usize)
        ensures
            r == self.spec_len(),
    {
        self.records.len()
    }

    /// Whether the container holds no records.
    pub fn is_empty(&self) -> (r: bool)
        ensures
            r <==> self@.len() == 0,
    {
        self.records.len() == 0
    }

    /// Grows the allocation to exactly `total` records.
    fn alloc_grow(&mut self, total: usize)
        requires
            old(self).wf(),
            1 <= total,
            old(self)@.len() <= total,
            spec_record_size::<V, S>(old(self).spec_slice_length()) * (total as nat)
                <= max_alloc_size(),
        ensures
            final(self).wf(),
            final(self)@ == old(self)@,
            final(self).spec_slice_length() == old(self).spec_slice_length(),
            final(self).spec_capacity() == total,
    {
        let (_bytes, _align) = match Handle::<V, S>::layout_slice(self.slice, total) {
            Some(layout) => layout,
            None => unreached(),
        };
        let len = self.records.len();
        self.records.reserve(total - len);
        self.capacity = total;
    }

    /// Ensures room for `additional` more records, growing by the doubling
    /// policy when the spare room is short.
    pub fn reserve(&mut self, additional: usize)
        requires
            old(self).wf(),
            can_reserve::<V, S>(
                old(self)@.len(),
                old(self).spec_capacity(),
                old(self).spec_slice_length(),
                additional as nat,
            ),
        ensures
            final(self).wf(),
            final(self)@ == old(self)@,
            final(self).spec_slice_length() == old(self).spec_slice_length(),
            final(self).spec_capacity() == reserved_capacity(
                old(self)@.len(),
                old(self).spec_capacity(),
                additional as nat,
            ),
            final(self)@.len() + additional <= final(self).spec_capacity(),
    {
        let capacity = self.capacity;
        let length = self.records.len();
        if capacity - length >= additional {
            return;
        }
        let baseline = if additional <= capacity {
            capacity
        } else {
            (additional + length + 1) / 2
        };
        proof {
            assert(1 <= baseline);
            lemma_smallest_pow2_ge((2 * baseline) as nat);
        }
        match new_capacity_at_least_double(baseline) {
            Some(total) => {
                self.alloc_grow(total);
            },
            None => {
                proof {
                    assert(false);
                }
            },
        }
    }

    /// Ensures room for `additional` more records, growing to exactly
    /// length plus `additional` when the spare room is short.
    pub fn reserve_exact(&mut self, additional: usize)
        requires
            old(self).wf(),
            can_reserve_exact::<V, S>(
                old(self)@.len(),
                old(self).spec_capacity(),
                old(self).spec_slice_length(),
                additional as nat,
            ),
        ensures
            final(self).wf(),
            final(self)@ == old(self)@,
            final(self).spec_slice_length() == old(self).spec_slice_length(),
            final(self).spec_capacity() == if old(self).spec_capacity() >= old(self)@.len()
                + additional {
                old(self).spec_capacity() as int
            } else {
                old(self)@.len() + additional
            },
            final(self)@.len() + additional <= final(self).spec_capacity(),
    {
        let capacity = self.capacity;
        let length = self.records.len();
        if capacity - length >= additional {
            return;
        }
        self.alloc_grow(length + additional);
    }

    /// Appends one record: the header `value` and the first tail-length
    /// elements of `tail`, in order; excess elements of `tail` are
    /// dropped.  Reserves capacity first.
    pub fn push(&mut self, value: V, tail: std::vec::Vec<S>)
        requires
            old(self).wf(),
            tail@.len() >= old(self).spec_slice_length(),
            can_reserve::<V, S>(
                old(self)@.len(),
                old(self).spec_capacity(),
                old(self).spec_slice_length(),
                1,
            ),
        ensures
            final(self).wf(),
            final(self)@ == old(self)@.push(
                (value, tail@.subrange(0, old(self).spec_slice_length() as int)),
            ),
            final(self).spec_slice_length() == old(self).spec_slice_length(),
            final(self).spec_capacity() == reserved_capacity(
                old(self)@.len(),
                old(self).spec_capacity(),
                1,
            ),
    {
        self.reserve(1);
        let slice = self.slice;
        let h = Handle::populate(value, slice, tail);
        self.records.push(h);
        proof {
            assert(self@ =~= old(self)@.push(
                (value, tail@.subrange(0, old(self).spec_slice_length() as int)),
            ));
        }
    }

    /// Inserts one record at `ix`, shifting the records at `[ix, length)`
    /// up by one slot: the header `value` and the first tail-length
    /// elements of `tail`, in order; excess elements of `tail` are
    /// dropped.  Reserves capacity first.
    pub fn insert(&mut self, ix: usize, value: V, tail: std::vec::Vec<S>)
        requires
            old(self).wf(),
            ix <= old(self)@.len(),
            tail@.len() >= old(self).spec_slice_length(),
            can_reserve::<V, S>(
                old(self)@.len(),
                old(self).spec_capacity(),
                old(self).spec_slice_length(),
                1,
            ),
        ensures
            final(self).wf(),
            final(self)@ == old(self)@.insert(
                ix as int,
                (value, tail@.subrange(0, old(self).spec_slice_length() as int)),
            ),
            final(self).spec_slice_length() == old(self).spec_slice_length(),
            final(self).spec_capacity() == reserved_capacity(
                old(self)@.len(),
                old(self).spec_capacity(),
                1,
            ),
    {
        self.reserve(1);
        let slice = self.slice;
        let h = Handle::populate(value, slice, tail);
        self.records.insert(ix, h);
        proof {
            assert(self@ =~= old(self)@.insert(
                ix as int,
                (value, tail@.subrange(0, old(self).spec_slice_length() as int)),
            ));
        }
    }

    /// Drops the last record in place.
    pub fn pop(&mut self)
        requires
            old(self).wf(),
            1 <= old(self)@.len(),
        ensures
            final(self).wf(),
            final(self)@ == old(self)@.drop_last(),
            final(self).spec_slice_length() == old(self).spec_slice_length(),
            final(self).spec_capacity() == old(self).spec_capacity(),
    {
        let _ = self.records.pop();
        proof {
            assert(self@ =~= old(self)@.drop_last());
        }
    }

    /// Removes the last record and returns it as an independently owned
    /// record, detached from the container's allocation.
    pub fn pop_boxed(&mut self) -> (r: Box<Handle<V, S>>)
        requires
            old(self).wf(),
            1 <= old(self)@.len(),
        ensures
            final(self).wf(),
            final(self)@ == old(self)@.drop_last(),
            r@ == old(self)@.last(),
            final(self).spec_slice_length() == old(self).spec_slice_length(),
            final(self).spec_capacity() == old(self).spec_capacity(),
    {
        let h = match self.records.pop() {
            Some(h) => h,
            None => unreached(),
        };
        proof {
            assert(self@ =~= old(self)@.drop_last());
        }
        Box::new(h)
    }

    /// Removes the last record, drops its tail, and returns the header
    /// value by transfer of ownership.
    pub fn pop_value(&mut self) -> (r: V)
        requires
            old(self).wf(),
            1 <= old(self)@.len(),
        ensures
            final(self).wf(),
            final(self)@ == old(self)@.drop_last(),
            r == old(self)@.last().0,
            final(self).spec_slice_length() == old(self).spec_slice_length(),
            final(self).spec_capacity() == old(self).spec_capacity(),
    {
        let h = match self.records.pop() {
            Some(h) => h,
            None => unreached(),
        };
        proof {
            assert(self@ =~= old(self)@.drop_last());
        }
        let Handle { value, tail } = h;
        let _ = tail;
        value
    }

    /// A reference to the record at `ix`, or `None` when `ix` is out of
    /// range — the one recoverable error surface of the container.
    pub fn get(&self, ix: usize) -> (r: Option<&Handle<V, S>>)
        ensures
            ix < self@.len() ==> (r is Some && r->Some_0@ == self@[ix as int]),
            ix >= self@.len() ==> r is None,
    {
        if ix >= self.records.len() {
            None
        } else {
            Some(&self.records[ix])
        }
    }

    /// A reference to the record at `ix`; the caller guarantees the bound.
    pub fn get_unchecked(&self, ix: usize) -> (r: &Handle<V, S>)
        requires
            ix < self@.len(),
        ensures
            r@ == self@[ix as int],
    {
        &self.records[ix]
    }

    /// Drops the records at `[start, end)` and closes the gap as `mode`
    /// says.
    fn remove_drop_range_impl(&mut self, start: usize, end: usize, mode: RemovalMode)
        requires
            old(self).wf(),
            start <= end <= old(self)@.len(),
        ensures
            final(self).wf(),
            final(self).spec_slice_length() == old(self).spec_slice_length(),
            final(self).spec_capacity() == old(self).spec_capacity(),
            (mode is Shift ==> final(self)@ == spec_removed_shift(
                old(self)@,
                start as int,
                end as int,
            )),
            (mode is Replace ==> final(self)@ == spec_removed_replace(
                old(self)@,
                start as int,
                end as int,
            )),
    {
        if start == end {
            proof {
                assert(self@ =~= spec_removed_shift(self@, start as int, end as int));
                assert(self@ =~= spec_removed_replace(self@, start as int, end as int));
            }
            return;
        }
        let old_len = self.records.len();
        let k = end - start;
        let replace = (matches!(mode, RemovalMode::Replace));
        let t = if replace {
            if old_len - k >= end {
                old_len - k
            } else {
                end
            }
        } else {
            old_len
        };
        let n_movers = old_len - t;
        // The records that will refill the gap, collected last-first,
        // which is the order in which they land in the span.
        let mut movers: std::vec::Vec<Handle<V, S>> = std::vec::Vec::new();
        while movers.len() < n_movers
            invariant
                movers@.len() <= n_movers <= old_len,
                old_len == old(self).records@.len(),
                self.capacity == old(self).capacity,
                self.slice == old(self).slice,
                end <= t <= old_len,
                self.records@ == old(self).records@.subrange(
                    0,
                    old_len - movers@.len(),
                ),
                forall|j: int|
                    0 <= j < movers@.len() ==> movers@[j] == old(self).records@[old_len - 1
                        - j],
            decreases n_movers - movers.len(),
        {
            let h = match self.records.pop() {
                Some(h) => h,
                None => unreached(),
            };
            movers.push(h);
            proof {
                assert(self.records@ =~= old(self).records@.subrange(
                    0,
                    old_len - movers@.len(),
                ));
            }
        }
        // Drop the records of the span itself.
        let mut dropped: usize = 0;
        while dropped < k
            invariant
                dropped <= k,
                start + k == end,
                self.capacity == old(self).capacity,
                self.slice == old(self).slice,
                end <= t <= old_len,
                old_len == old(self).records@.len(),
                self.records@ == old(self).records@.subrange(0, start as int) + old(
                    self,
                ).records@.subrange(start + dropped, t as int),
            decreases k - dropped,
        {
            let _ = self.records.remove(start);
            dropped = dropped + 1;
            proof {
                assert(self.records@ =~= old(self).records@.subrange(0, start as int) + old(
                    self,
                ).records@.subrange(start + dropped, t as int));
            }
        }
        // Refill the span, in the order the movers were collected.
        let ghost movers_init = movers@;
        let mut placed: usize = 0;
        while placed < n_movers
            invariant
                placed <= n_movers,
                n_movers == movers_init.len(),
                self.capacity == old(self).capacity,
                self.slice == old(self).slice,
                start + k == end,
                end <= t <= old_len,
                n_movers == old_len - t,
                old_len == old(self).records@.len(),
                movers@ == movers_init.subrange(placed as int, n_movers as int),
                self.records@ == old(self).records@.subrange(0, start as int)
                    + movers_init.subrange(0, placed as int) + old(self).records@.subrange(
                    end as int,
                    t as int,
                ),
            decreases n_movers - placed,
        {
            let h = movers.remove(0);
            self.records.insert(start + placed, h);
            placed = placed + 1;
            proof {
                assert(movers@ =~= movers_init.subrange(placed as int, n_movers as int));
                assert(self.records@ =~= old(self).records@.subrange(0, start as int)
                    + movers_init.subrange(0, placed as int) + old(self).records@.subrange(
                    end as int,
                    t as int,
                ));
            }
        }
        proof {
            if matches!(mode, RemovalMode::Shift) {
                assert(self@ =~= spec_removed_shift(old(self)@, start as int, end as int));
            } else {
                assert(self@ =~= spec_removed_replace(old(self)@, start as int, end as int));
            }
        }
    }

    /// Removes the record at `ix`, shifting all later records down:
    /// relative order preserved.
    pub fn remove(&mut self, ix: usize)
        requires
            old(self).wf(),
            ix < old(self)@.len(),
        ensures
            final(self).wf(),
            final(self)@ == spec_removed_shift(old(self)@, ix as int, ix + 1),
            final(self).spec_slice_length() == old(self).spec_slice_length(),
            final(self).spec_capacity() == old(self).spec_capacity(),
    {
        self.remove_drop_range_impl(ix, ix + 1, RemovalMode::Shift)
    }

    /// Removes the records of `range`, shifting all later records down:
    /// relative order preserved.  An empty range removes nothing.
    pub fn remove_range(&mut self, range: Range<usize>)
        requires
            old(self).wf(),
            range.start < range.end ==> range.end <= old(self)@.len(),
        ensures
            final(self).wf(),
            range.start < range.end ==> final(self)@ == spec_removed_shift(
                old(self)@,
                range.start as int,
                range.end as int,
            ),
            range.start >= range.end ==> final(self)@ == old(self)@,
            final(self).spec_slice_length() == old(self).spec_slice_length(),
            final(self).spec_capacity() == old(self).spec_capacity(),
    {
        if range.start >= range.end {
            return;
        }
        self.remove_drop_range_impl(range.start, range.end, RemovalMode::Shift)
    }

    /// Removes the record at `ix` and moves the last record into its
    /// place: order is not preserved, but the cost does not depend on how
    /// many records follow.  Removing the last index only drops it.
    pub fn remove_replace(&mut self, ix: usize)
        requires
            old(self).wf(),
            ix < old(self)@.len(),
        ensures
            final(self).wf(),
            final(self)@ == spec_removed_replace(old(self)@, ix as int, ix + 1),
            final(self).spec_slice_length() == old(self).spec_slice_length(),
            final(self).spec_capacity() == old(self).spec_capacity(),
    {
        self.remove_drop_range_impl(ix, ix + 1, RemovalMode::Replace)
    }

    /// Removes the records of `range` and refills the vacated span from
    /// the tail end, taking the last record first: order is not preserved.
    /// An empty range removes nothing.
    pub fn remove_range_replace(&mut self, range: Range<usize>)
        requires
            old(self).wf(),
            range.start < range.end ==> range.end <= old(self)@.len(),
        ensures
            final(self).wf(),
            range.start < range.end ==> final(self)@ == spec_removed_replace(
                old(self)@,
                range.start as int,
                range.end as int,
            ),
            range.start >= range.end ==> final(self)@ == old(self)@,
            final(self).spec_slice_length() == old(self).spec_slice_length(),
            final(self).spec_capacity() == old(self).spec_capacity(),
    {
        if range.start >= range.end {
            return;
        }
        self.remove_drop_range_impl(range.start, range.end, RemovalMode::Replace)
    }

    /// Removes the record at `ix`, drops its tail, shifts all later
    /// records down, and returns the header value by transfer of
    /// ownership.
    pub fn remove_value(&mut self, ix: usize) -> (r: V)
        requires
            old(self).wf(),
            ix < old(self)@.len(),
        ensures
            final(self).wf(),
            r == old(self)@[ix as int].0,
            final(self)@ == spec_removed_shift(old(self)@, ix as int, ix + 1),
            final(self).spec_slice_length() == old(self).spec_slice_length(),
            final(self).spec_capacity() == old(self).spec_capacity(),
    {
        let h = self.records.remove(ix);
        proof {
            assert(self@ =~= spec_removed_shift(old(self)@, ix as int, ix + 1));
        }
        let Handle { value, tail } = h;
        let _ = tail;
        value
    }

    /// Relocates the records of `other`'s `range`, in their original
    /// order, to the end of this container; `other` is compacted by
    /// shifting its remaining trailing records down.  Both containers must
    /// share one tail length.  An empty range moves nothing.
    pub fn move_from(&mut self, other: &mut Vec<V, S>, range: Range<usize>)
        requires
            old(self).wf(),
            old(other).wf(),
            old(self).spec_slice_length() == old(other).spec_slice_length(),
            range.start < range.end ==> range.end <= old(other)@.len(),
            range.start < range.end ==> can_reserve::<V, S>(
                old(self)@.len(),
                old(self).spec_capacity(),
                old(self).spec_slice_length(),
                (range.end - range.start) as nat,
            ),
        ensures
            final(self).wf(),
            final(other).wf(),
            range.start < range.end ==> {
                &&& final(self)@ == old(self)@ + old(other)@.subrange(
                    range.start as int,
                    range.end as int,
                )
                &&& final(other)@ == spec_removed_shift(
                    old(other)@,
                    range.start as int,
                    range.end as int,
                )
                &&& final(self).spec_capacity() == reserved_capacity(
                    old(self)@.len(),
                    old(self).spec_capacity(),
                    (range.end - range.start) as nat,
                )
            },
            range.start >= range.end ==> {
                &&& final(self)@ == old(self)@
                &&& final(other)@ == old(other)@
                &&& final(self).spec_capacity() == old(self).spec_capacity()
            },
            final(other).spec_capacity() == old(other).spec_capacity(),
            final(self).spec_slice_length() == old(self).spec_slice_length(),
            final(other).spec_slice_length() == old(other).spec_slice_length(),
    {
        let start = range.start;
        let end = range.end;
        if start >= end {
            return;
        }
        let k = end - start;
        self.reserve(k);
        let ghost other_len = old(other)@.len();
        let mut i: usize = 0;
        while i < k
            invariant
                i <= k,
                start + k == end <= other_len,
                other_len == old(other)@.len(),
                self.wf(),
                other.wf(),
                self.capacity as nat == reserved_capacity(
                    old(self)@.len(),
                    old(self).spec_capacity(),
                    k as nat,
                ),
                self.slice == old(self).slice,
                other.capacity == old(other).capacity,
                other.slice == old(other).slice,
                old(self).slice == old(other).slice,
                self@.len() + k - i <= self.capacity,
                self@ == old(self)@ + old(other)@.subrange(start as int, start + i),
                other@ == old(other)@.subrange(0, start as int) + old(other)@.subrange(
                    start + i,
                    other_len as int,
                ),
            decreases k - i,
        {
            proof {
                assert(other@.len() == other_len - i);
            }
            let ghost pre_records = other.records@;
            let ghost pre_view = other@;
            let ghost pre_self = self@;
            let h = other.records.remove(start);
            proof {
                assert(pre_view[start as int] == pre_records[start as int]@);
                assert(h@ == old(other)@[start + i]);
                assert(other@ =~= pre_view.remove(start as int));
            }
            let ghost pre_self_records = self.records@;
            self.records.push(h);
            proof {
                assert(self@ =~= pre_self.push(h@));
                assert(pre_records[start as int].tail@.len() == other.slice);
                assert(h.tail@.len() == self.slice);
                assert forall|j: int|
                    0 <= j < self.records@.len() implies (#[trigger] self.records@[j]).tail@.len()
                    == self.slice by {
                    if j < pre_self_records.len() {
                        assert(self.records@[j] == pre_self_records[j]);
                    } else {
                        assert(self.records@[j] == h);
                    }
                }
            }
            i = i + 1;
            proof {
                assert(self@ =~= old(self)@ + old(other)@.subrange(start as int, start + i));
                assert(other@ =~= old(other)@.subrange(0, start as int) + old(other)@.subrange(
                    start + i,
                    other_len as int,
                ));
            }
        }
        proof {
            assert(self@ =~= old(self)@ + old(other)@.subrange(start as int, end as int));
            assert(other@ =~= spec_removed_shift(old(other)@, start as int, end as int));
        }
    }

    /// A mutable reference to the record at `ix`, or `None` when `ix` is
    /// out of range.  The container afterwards holds whatever the caller
    /// leaves behind the reference; it stays well-formed as long as the
    /// tail keeps its length.
    pub fn get_mut(&mut self, ix: usize) -> (r: Option<&mut Handle<V, S>>)
        requires
            old(self).wf(),
        ensures
            ix >= old(self)@.len() ==> (r is None && *final(self) == *old(self)),
            ix < old(self)@.len() ==> r is Some,
            ix < old(self)@.len() ==> {
                let h = r->Some_0;
                &&& (*h)@ == old(self)@[ix as int]
                &&& final(self)@ == old(self)@.update(ix as int, (*final(h))@)
                &&& final(self).spec_capacity() == old(self).spec_capacity()
                &&& final(self).spec_slice_length() == old(self).spec_slice_length()
                &&& ((*final(h)).tail@.len() == old(self).spec_slice_length()
                    ==> final(self).wf())
            },
    {
        if ix >= self.records.len() {
            None
        } else {
            Some(self.get_unchecked_mut(ix))
        }
    }

    /// A mutable reference to the record at `ix`; the caller guarantees
    /// the bound.
    pub fn get_unchecked_mut(&mut self, ix: usize) -> (r: &mut Handle<V, S>)
        requires
            old(self).wf(),
            ix < old(self)@.len(),
        ensures
            (*r)@ == old(self)@[ix as int],
            final(self)@ == old(self)@.update(ix as int, (*final(r))@),
            final(self).spec_capacity() == old(self).spec_capacity(),
            final(self).spec_slice_length() == old(self).spec_slice_length(),
            (*final(r)).tail@.len() == old(self).spec_slice_length() ==> final(self).wf(),
    {
        proof {
            assert(old(self)@.len() == self.records@.len());
        }
        let r = &mut self.records[ix];
        proof {
            assert(after_borrow(*self)@ =~= old(self)@.update(ix as int, (*final(r))@));
        }
        r
    }
}

impl<V: Copy, S: Copy> Clone for Vec<V, S> {
    /// Clones the container record by record into an independent
    /// allocation of the same capacity; the copy is structurally equal to
    /// the original.
    fn clone(&self) -> (r: Self)
        ensures
            r@ == self@,
            r.spec_capacity() == self.spec_capacity(),
            r.spec_slice_length() == self.spec_slice_length(),
            self.wf() ==> r.wf(),
    {
        let mut records: std::vec::Vec<Handle<V, S>> = std::vec::Vec::new();
        let mut i: usize = 0;
        while i < self.records.len()
            invariant
                i <= self.records@.len(),
                records@.len() == i as nat,
                forall|j: int| 0 <= j < i ==> (#[trigger] records@[j])@ == self.records@[j]@,
                forall|j: int|
                    0 <= j < i ==> (#[trigger] records@[j]).tail@.len()
                        == self.records@[j].tail@.len(),
            decreases self.records@.len() - i,
        {
            let h = &self.records[i];
            let value = h.value;
            let mut tail: std::vec::Vec<S> = std::vec::Vec::new();
            let mut j: usize = 0;
            while j < h.tail.len()
                invariant
                    j <= h.tail@.len(),
                    tail@ == h.tail@.subrange(0, j as int),
                decreases h.tail@.len() - j,
            {
                tail.push(h.tail[j]);
                j = j + 1;
                proof {
                    assert(tail@ =~= h.tail@.subrange(0, j as int));
                }
            }
            proof {
                assert(tail@ =~= h.tail@);
            }
            records.push(Handle { value, tail });
            i = i + 1;
        }
        let r = Vec { records, capacity: self.capacity, slice: self.slice };
        proof {
            assert(r@ =~= self@);
        }
        r
    }
}

impl<V, S: Default> Vec<V, S> {
    /// Appends one record whose tail is filled with default elements.
    pub fn push_default_slice(&mut self, value: V)
        requires
            old(self).wf(),
            can_reserve::<V, S>(
                old(self)@.len(),
                old(self).spec_capacity(),
                old(self).spec_slice_length(),
                1,
            ),
        ensures
            final(self).wf(),
            final(self)@.len() == old(self)@.len() + 1,
            final(self)@.subrange(0, old(self)@.len() as int) == old(self)@,
            final(self)@.last().0 == value,
            final(self)@.last().1.len() == old(self).spec_slice_length(),
            forall|j: int|
                0 <= j < final(self)@.last().1.len() ==> call_ensures(
                    S::default,
                    (),
                    #[trigger] final(self)@.last().1[j],
                ),
            final(self).spec_slice_length() == old(self).spec_slice_length(),
            final(self).spec_capacity() == reserved_capacity(
                old(self)@.len(),
                old(self).spec_capacity(),
                1,
            ),
    {
        let slice = self.slice;
        let tail = default_tail::<S>(slice);
        self.push(value, tail);
        proof {
            assert(self@.subrange(0, old(self)@.len() as int) =~= old(self)@);
        }
    }

    /// Inserts at `ix` one record whose tail is filled with default
    /// elements, shifting the records at `[ix, length)` up by one slot.
    pub fn insert_default_slice(&mut self, ix: usize, value: V)
        requires
            old(self).wf(),
            ix <= old(self)@.len(),
            can_reserve::<V, S>(
                old(self)@.len(),
                old(self).spec_capacity(),
                old(self).spec_slice_length(),
                1,
            ),
        ensures
            final(self).wf(),
            final(self)@.len() == old(self)@.len() + 1,
            final(self)@.subrange(0, ix as int) == old(self)@.subrange(0, ix as int),
            final(self)@.subrange(ix + 1, old(self)@.len() as int + 1) == old(self)@.subrange(
                ix as int,
                old(self)@.len() as int,
            ),
            final(self)@[ix as int].0 == value,
            final(self)@[ix as int].1.len() == old(self).spec_slice_length(),
            forall|j: int|
                0 <= j < final(self)@[ix as int].1.len() ==> call_ensures(
                    S::default,
                    (),
                    #[trigger] final(self)@[ix as int].1[j],
                ),
            final(self).spec_slice_length() == old(self).spec_slice_length(),
            final(self).spec_capacity() == reserved_capacity(
                old(self)@.len(),
                old(self).spec_capacity(),
                1,
            ),
    {
        let slice = self.slice;
        let tail = default_tail::<S>(slice);
        self.insert(ix, value, tail);
        proof {
            assert(self@.subrange(0, ix as int) =~= old(self)@.subrange(0, ix as int));
            assert(self@.subrange(ix + 1, old(self)@.len() as int + 1) =~= old(self)@.subrange(
                ix as int,
                old(self)@.len() as int,
            ));
        }
    }
}

impl<V: Default, S: Default> Vec<V, S> {
    /// Appends one record whose header and tail are filled with default
    /// values.
    pub fn push_default(&mut self)
        requires
            old(self).wf(),
            can_reserve::<V, S>(
                old(self)@.len(),
                old(self).spec_capacity(),
                old(self).spec_slice_length(),
                1,
            ),
        ensures
            final(self).wf(),
            final(self)@.len() == old(self)@.len() + 1,
            final(self)@.subrange(0, old(self)@.len() as int) == old(self)@,
            call_ensures(V::default, (), final(self)@.last().0),
            final(self)@.last().1.len() == old(self).spec_slice_length(),
            forall|j: int|
                0 <= j < final(self)@.last().1.len() ==> call_ensures(
                    S::default,
                    (),
                    #[trigger] final(self)@.last().1[j],
                ),
            final(self).spec_slice_length() == old(self).spec_slice_length(),
            final(self).spec_capacity() == reserved_capacity(
                old(self)@.len(),
                old(self).spec_capacity(),
                1,
            ),
    {
        let value = V::default();
        self.push_default_slice(value);
    }

    /// Inserts at `ix` one record whose header and tail are filled with
    /// default values, shifting the records at `[ix, length)` up by one
    /// slot.
    pub fn insert_default(&mut self, ix: usize)
        requires
            old(self).wf(),
            ix <= old(self)@.len(),
            can_reserve::<V, S>(
                old(self)@.len(),
                old(self).spec_capacity(),
                old(self).spec_slice_length(),
                1,
            ),
        ensures
            final(self).wf(),
            final(self)@.len() == old(self)@.len() + 1,
            final(self)@.subrange(0, ix as int) == old(self)@.subrange(0, ix as int),
            final(self)@.subrange(ix + 1, old(self)@.len() as int + 1) == old(self)@.subrange(
                ix as int,
                old(self)@.len() as int,
            ),
            call_ensures(V::default, (), final(self)@[ix as int].0),
            final(self)@[ix as int].1.len() == old(self).spec_slice_length(),
            forall|j: int|
                0 <= j < final(self)@[ix as int].1.len() ==> call_ensures(
                    S::default,
                    (),
                    #[trigger] final(self)@[ix as int].1[j],
                ),
            final(self).spec_slice_length() == old(self).spec_slice_length(),
            final(self).spec_capacity() == reserved_capacity(
                old(self)@.len(),
                old(self).spec_capacity(),
                1,
            ),
    {
        let value = V::default();
        self.insert_default_slice(ix, value);
    }
}

/// A tail of `n` default elements, drawn one call at a time, in order.
fn default_tail<S: Default>(n: usize) -> (tail: std::vec::Vec<S>)
    ensures
        tail@.len() == n,
        forall|j: int| 0 <= j < n ==> call_ensures(S::default, (), #[trigger] tail@[j]),
{
    let mut source: DefaultIter<S> = DefaultIter::new();
    let mut tail: std::vec::Vec<S> = std::vec::Vec::new();
    while tail.len() < n
        invariant
            tail@.len() <= n,
            forall|j: int| 0 <= j < tail@.len() ==> call_ensures(S::default, (), #[trigger] tail@[j]),
        decreases n - tail.len(),
    {
        match source.next() {
            Some(value) => tail.push(value),
            None => {
                proof {
                    assert(false);
                }
            },
        }
    }
    tail
}

} // verus!
