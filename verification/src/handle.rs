//! One record — a header value plus its tail — together with the layout
//! arithmetic for the packed form of such a record: the byte size and
//! alignment of one record whose tail holds a given number of elements.

use vstd::arithmetic::div_mod::{lemma_fundamental_div_mod, lemma_mod_multiples_basic};
use vstd::arithmetic::power::pow;
use vstd::arithmetic::power2::{
    is_pow2, is_pow2_equiv, lemma_pow2_strictly_increases, lemma_pow2_unfold, pow2,
};
use vstd::layout::{align_of, layout_for_type_is_valid, size_of};
use vstd::prelude::*;

use crate::util::max_alloc_size;

verus! {

/// One stored record: a header `value` and the `tail` of elements.  Inside
/// a container every record's tail has exactly the container's tail length.
#[derive(Debug, PartialEq, Eq, Hash)]
pub struct Handle<V, S> {
    pub value: V,
    pub tail: Vec<S>,
}

impl<V, S> View for Handle<V, S> {
    type V = (V, Seq<S>);

    open spec fn view(&self) -> (V, Seq<S>) {
        (self.value, self.tail@)
    }
}

/// The larger of two naturals.
pub open spec fn nat_max(a: nat, b: nat) -> nat {
    if a >= b {
        a
    } else {
        b
    }
}

/// `size` rounded up to the next multiple of `align`.
pub open spec fn spec_align_up(size: nat, align: nat) -> nat
    recommends
        1 <= align,
{
    (((size + align - 1) / (align as int)) * (align as int)) as nat
}

/// Byte alignment of one packed record: the stricter of the header's and
/// the tail element's alignment.
pub open spec fn spec_record_align<V, S>() -> nat {
    nat_max(align_of::<V>(), align_of::<S>())
}

/// Byte size of one packed record with `tail_len` tail elements: the header
/// padded up to the element alignment, then the tail elements, rounded up
/// to the record alignment.
pub open spec fn spec_record_size<V, S>(tail_len: nat) -> nat {
    spec_align_up(
        spec_align_up(size_of::<V>(), align_of::<S>()) + tail_len * size_of::<S>(),
        spec_record_align::<V, S>(),
    )
}

/// Byte offset of the record at `index` within a packed allocation: the
/// record stride is the packed record size, fixed per container.
pub open spec fn spec_record_offset<V, S>(tail_len: nat, index: nat) -> nat {
    index * spec_record_size::<V, S>(tail_len)
}

/// The packed layout of `count` records with `tail_len` tail elements each,
/// as (byte size, alignment); `None` when the byte size would exceed the
/// allocation limit.
pub open spec fn spec_layout_slice<V, S>(tail_len: nat, count: nat) -> Option<(usize, usize)> {
    if spec_record_size::<V, S>(tail_len) * count <= max_alloc_size() {
        Some(
            (
                (spec_record_size::<V, S>(tail_len) * count) as usize,
                spec_record_align::<V, S>() as usize,
            ),
        )
    } else {
        None
    }
}

/// Rounding up to a multiple of `align` moves `size` up by less than
/// `align` and lands on a multiple of `align`.
pub proof fn lemma_align_up(size: nat, align: nat)
    requires
        1 <= align,
    ensures
        size <= spec_align_up(size, align),
        spec_align_up(size, align) <= size + align - 1,
        spec_align_up(size, align) % align == 0,
{
    let x = (size + align - 1) as int;
    let a = align as int;
    lemma_fundamental_div_mod(x, a);
    lemma_mod_multiples_basic(x / a, a);
}

/// A power of two that fits the index range is at most half of it,
/// rounded up.
proof fn lemma_pow2_le_half(a: nat)
    requires
        is_pow2(a as int),
        a <= usize::MAX,
    ensures
        a <= usize::MAX as nat / 2 + 1,
{
    is_pow2_equiv(a as int);
    let k = choose|i: nat| pow(2, i) == a as int;
    let bits = usize::BITS as nat;
    vstd::layout::unsigned_int_max_values();
    assert(usize::MAX as nat == pow2(bits) - 1);
    if k >= bits {
        if k > bits {
            lemma_pow2_strictly_increases(bits, k);
        }
        assert(a as int >= pow2(bits));
        assert(false);
    }
    if k < bits - 1 {
        lemma_pow2_strictly_increases(k, (bits - 1) as nat);
    }
    lemma_pow2_unfold(bits);
    assert(pow2((bits - 1) as nat) == pow2(bits) / 2);
}

/// Computes `spec_align_up(size, align)` exactly, for inputs whose rounded
/// value stays representable.
fn align_up(size: usize, align: usize) -> (r: usize)
    requires
        1 <= align,
        size + align - 1 <= usize::MAX,
    ensures
        r as nat == spec_align_up(size as nat, align as nat),
{
    proof {
        lemma_align_up(size as nat, align as nat);
    }
    ((size + (align - 1)) / align) * align
}

impl<V, S> Handle<V, S> {
    /// Continues filling the tail: with the first `start` elements already
    /// in place, draws `tail_len - start` further elements from `src`, in
    /// source order; excess elements of `src` are dropped.  Returns the
    /// total number of tail elements populated, earlier ones included.
    pub fn extend(&mut self, tail_len: usize, start: usize, src: Vec<S>) -> (written: usize)
        requires
            old(self).tail@.len() == start,
            start <= tail_len,
            src@.len() >= tail_len - start,
        ensures
            written == tail_len,
            final(self).value == old(self).value,
            final(self).tail@ == old(self).tail@ + src@.subrange(0, tail_len - start),
    {
        let mut src = src;
        src.truncate(tail_len - start);
        self.tail.append(&mut src);
        tail_len
    }

    /// Builds one record: takes the header value, then draws exactly
    /// `tail_len` elements from `src` in source order; excess elements of
    /// `src` are dropped.
    pub fn populate(value: V, tail_len: usize, src: Vec<S>) -> (h: Handle<V, S>)
        requires
            src@.len() >= tail_len,
        ensures
            h.value == value,
            h.tail@ == src@.subrange(0, tail_len as int),
    {
        let mut h = Handle { value, tail: Vec::new() };
        h.extend(tail_len, 0, src);
        h
    }

    /// Byte alignment of one packed record; it does not depend on the tail
    /// length.
    pub fn alignment_slice(_tail_len: usize) -> (r: usize)
        ensures
            r as nat == spec_record_align::<V, S>(),
    {
        layout_for_type_is_valid::<V>();
        layout_for_type_is_valid::<S>();
        let va = core::mem::align_of::<V>();
        let sa = core::mem::align_of::<S>();
        if va >= sa {
            va
        } else {
            sa
        }
    }

    /// Byte size of one packed record with `tail_len` tail elements.  The
    /// caller guarantees that the record fits the allocation limit, as any
    /// record held by a container does.
    pub fn size_slice(tail_len: usize) -> (r: usize)
        requires
            spec_record_size::<V, S>(tail_len as nat) <= max_alloc_size(),
        ensures
            r as nat == spec_record_size::<V, S>(tail_len as nat),
    {
        layout_for_type_is_valid::<V>();
        layout_for_type_is_valid::<S>();
        let vs = core::mem::size_of::<V>();
        let ss = core::mem::size_of::<S>();
        let sa = core::mem::align_of::<S>();
        let align = Self::alignment_slice(tail_len);
        proof {
            lemma_pow2_le_half(align_of::<S>());
            lemma_pow2_le_half(align_of::<V>());
            lemma_align_up(size_of::<V>(), align_of::<S>());
            lemma_align_up(
                (spec_align_up(size_of::<V>(), align_of::<S>()) + (tail_len as nat)
                    * size_of::<S>()) as nat,
                spec_record_align::<V, S>(),
            );
            assert((tail_len as nat) * size_of::<S>() <= spec_record_size::<V, S>(
                tail_len as nat,
            ));
        }
        let base = align_up(vs, sa);
        let total = base + tail_len * ss;
        align_up(total, align)
    }

    /// Byte offset of the record at `index` within a packed allocation
    /// whose records lie `index` strides apart.  The caller guarantees
    /// that the addressed byte lies under the allocation limit, as every
    /// slot of an existing allocation does.
    pub fn record_offset(tail_len: usize, index: usize) -> (r: usize)
        requires
            spec_record_size::<V, S>(tail_len as nat) <= max_alloc_size(),
            spec_record_offset::<V, S>(tail_len as nat, index as nat) <= max_alloc_size(),
        ensures
            r as nat == spec_record_offset::<V, S>(tail_len as nat, index as nat),
    {
        index * Self::size_slice(tail_len)
    }

    /// The packed layout of `count` records, as (byte size, alignment), or
    /// `None` when the byte size would exceed the allocation limit — the
    /// request is refused deterministically rather than wrapped.
    pub fn layout_slice(tail_len: usize, count: usize) -> (r: Option<(usize, usize)>)
        requires
            count >= 1,
        ensures
            r == spec_layout_slice::<V, S>(tail_len as nat, count as nat),
    {
        layout_for_type_is_valid::<V>();
        layout_for_type_is_valid::<S>();
        let vs = core::mem::size_of::<V>();
        let ss = core::mem::size_of::<S>();
        let sa = core::mem::align_of::<S>();
        let align = Self::alignment_slice(tail_len);
        proof {
            lemma_pow2_le_half(align_of::<S>());
            lemma_pow2_le_half(align_of::<V>());
            lemma_align_up(size_of::<V>(), align_of::<S>());
            lemma_align_up(
                (spec_align_up(size_of::<V>(), align_of::<S>()) + (tail_len as nat)
                    * size_of::<S>()) as nat,
                spec_record_align::<V, S>(),
            );
        }
        let ghost record = spec_record_size::<V, S>(tail_len as nat);
        proof {
            // One record is no larger than `count` of them.
            vstd::arithmetic::mul::lemma_mul_inequality(1, count as int, record as int);
        }
        let base = align_up(vs, sa);
        let tail_bytes = match tail_len.checked_mul(ss) {
            Some(t) => t,
            None => {
                proof {
                    assert(record >= (tail_len as nat) * size_of::<S>());
                    assert(record * (count as nat) >= record);
                    assert(record * (count as nat) > max_alloc_size());
                }
                return None;
            },
        };
        let total = match base.checked_add(tail_bytes) {
            Some(t) => t,
            None => {
                return None;
            },
        };
        if total > isize::MAX as usize {
            return None;
        }
        let size = align_up(total, align);
        if size > isize::MAX as usize {
            return None;
        }
        match size.checked_mul(count) {
            Some(bytes) => {
                if bytes <= isize::MAX as usize {
                    Some((bytes, align))
                } else {
                    None
                }
            },
            None => None,
        }
    }
}

} // verus!
