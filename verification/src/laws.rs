//! Laws the container obeys, stated over the abstract record sequences
//! that the operations' contracts speak of, and proved once and for all.

use vstd::prelude::*;

use crate::fixed::{spec_removed_replace, spec_removed_shift};

verus! {

/// Law: after a push, the sequence is one longer and the record at the new
/// last index is exactly the pushed record — so `push(h, t)` followed by
/// `get(length - 1)` returns a record equal to `(h, t)`.
pub proof fn lemma_push_then_get_last<T>(s: Seq<T>, rec: T)
    ensures
        s.push(rec).len() == s.len() + 1,
        s.push(rec).last() == rec,
        s.push(rec)[s.len() as int] == rec,
{
}

/// Law: an insert agrees with the reference array model that performed the
/// same insert: the prefix, then the new record, then the former suffix.
pub proof fn lemma_insert_matches_model<T>(s: Seq<T>, i: int, rec: T)
    requires
        0 <= i <= s.len(),
    ensures
        s.insert(i, rec) == s.subrange(0, i) + seq![rec] + s.subrange(i, s.len() as int),
{
    assert(s.insert(i, rec) =~= s.subrange(0, i) + seq![rec] + s.subrange(i, s.len() as int));
}

/// Law: a shift-mode removal keeps every survivor, in relative order:
/// earlier elements stay in place, later ones move down by the width of
/// the removed span.
pub proof fn lemma_removed_shift_order<T>(s: Seq<T>, start: int, end: int)
    requires
        0 <= start <= end <= s.len(),
    ensures
        spec_removed_shift(s, start, end).len() == s.len() - (end - start),
        forall|j: int| 0 <= j < start ==> #[trigger] spec_removed_shift(s, start, end)[j] == s[j],
        forall|j: int|
            start <= j < s.len() - (end - start) ==> #[trigger] spec_removed_shift(s, start, end)[j]
                == s[j + (end - start)],
{
}

/// Law: a replace-mode removal of one index replaces it with the former
/// last element and drops the last slot, and is a plain drop of the last
/// element when the index is the last one; all other elements are left
/// untouched.
pub proof fn lemma_removed_replace_single<T>(s: Seq<T>, i: int)
    requires
        0 <= i < s.len(),
    ensures
        i == s.len() - 1 ==> spec_removed_replace(s, i, i + 1) == s.drop_last(),
        i < s.len() - 1 ==> spec_removed_replace(s, i, i + 1) == s.drop_last().update(i, s.last()),
{
    if i == s.len() - 1 {
        assert(spec_removed_replace(s, i, i + 1) =~= s.drop_last());
    } else {
        assert(spec_removed_replace(s, i, i + 1) =~= s.drop_last().update(i, s.last()));
    }
}

} // verus!
