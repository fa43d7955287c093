//! Forward cursor over the live records of a container, yielding
//! references in index order.  Each call to `iter` starts a fresh pass.

use vstd::prelude::*;

use crate::fixed::Vec as FixedVec;
use crate::handle::Handle;

verus! {

/// A forward cursor over `vec`: yields the records at `[cursor, end)`, in
/// index order.
#[derive(Clone, Copy)]
pub struct Iter<'a, V, S> {
    /// The container being traversed.
    pub vec: &'a FixedVec<V, S>,
    /// Index of the next record to yield.
    pub cursor: usize,
    /// One past the last index to yield.
    pub end: usize,
}

impl<'a, V, S> Iter<'a, V, S> {
    /// A cursor is well-formed when its window lies within the container.
    pub open spec fn wf(&self) -> bool {
        self.cursor <= self.end <= self.vec@.len()
    }

    /// Yields a reference to the next record and advances, or `None` when
    /// the pass is over.
    pub fn next(&mut self) -> (r: Option<&'a Handle<V, S>>)
        requires
            old(self).wf(),
        ensures
            final(self).wf(),
            final(self).vec == old(self).vec,
            final(self).end == old(self).end,
            (if old(self).cursor < old(self).end {
                &&& r is Some
                &&& r->Some_0@ == old(self).vec@[old(self).cursor as int]
                &&& final(self).cursor == old(self).cursor + 1
            } else {
                &&& r is None
                &&& final(self).cursor == old(self).cursor
            }),
    {
        if self.cursor < self.end {
            let h = self.vec.get_unchecked(self.cursor);
            self.cursor = self.cursor + 1;
            Some(h)
        } else {
            None
        }
    }
}

impl<V, S> FixedVec<V, S> {
    /// A fresh cursor over all live records, in index order.
    pub fn iter(&self) -> (it: Iter<'_, V, S>)
        ensures
            it.wf(),
            it.vec == self,
            it.cursor == 0,
            it.end == self@.len(),
    {
        Iter { vec: self, cursor: 0, end: self.len() }
    }
}

} // verus!
