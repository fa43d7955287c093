//! Layout arithmetic: record sizes, alignments, and the allocation limit.

use std::mem;
use std::mem::size_of;
use std::num::NonZeroUsize;
use std::ptr::NonNull;

use dst::Handle;

type PtrCapPair = (NonNull<u8>, NonZeroUsize);
type Alloc = Option<PtrCapPair>;

#[test]
fn same_size() {
    assert_eq!(mem::size_of::<PtrCapPair>(), mem::size_of::<Alloc>())
}

#[test]
fn same_align() {
    assert_eq!(mem::align_of::<PtrCapPair>(), mem::align_of::<Alloc>())
}

#[test]
fn size_check() {
    type T = (String, Vec<()>, Vec<usize>);
    for len in 0..4 {
        assert_eq!(
            size_of::<&str>() * len,
            Handle::<(), &str>::size_slice(len),
        );
        assert_eq!(
            size_of::<&str>() * len + size_of::<T>(),
            Handle::<T, &str>::size_slice(len),
        );
    }
}

#[test]
fn size_includes_padding() {
    // A two-byte-aligned header with one-byte tail elements: the record is
    // padded up to the record alignment of two.
    assert_eq!(Handle::<u16, u8>::alignment_slice(3), 2);
    assert_eq!(Handle::<u16, u8>::size_slice(3), 6);
    // Header padded up to the element alignment before the tail starts.
    assert_eq!(Handle::<u8, u64>::alignment_slice(2), 8);
    assert_eq!(Handle::<u8, u64>::size_slice(2), 24);
}

#[test]
fn layout_of_several_records() {
    let layout = Handle::<u64, u64>::layout_slice(3, 5).unwrap();
    assert_eq!(layout.0, 32 * 5);
    assert_eq!(layout.1, 8);
}

#[test]
fn oversized_layout_is_refused() {
    // A request whose byte size passes the representable allocation limit
    // is answered with `None`, never a wrapped or truncated size.
    assert_eq!(Handle::<u64, u64>::layout_slice(3, usize::MAX / 16), None);
    assert_eq!(Handle::<u8, u8>::layout_slice(usize::MAX, 2), None);
}

#[test]
fn record_addressing_uses_fixed_stride() {
    // Stride = packed record size; index maps to index * stride.
    assert_eq!(Handle::<u64, u64>::size_slice(3), 32);
    assert_eq!(Handle::<u64, u64>::record_offset(3, 0), 0);
    assert_eq!(Handle::<u64, u64>::record_offset(3, 1), 32);
    assert_eq!(Handle::<u64, u64>::record_offset(3, 5), 160);
}
