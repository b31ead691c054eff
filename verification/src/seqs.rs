//! Facts about filtered sequences.

use vstd::prelude::*;

verus! {

/// Filtering the first `n + 1` elements is filtering the first `n` and then
/// deciding about the element at `n`.
pub proof fn lemma_filter_take_next<A>(s: Seq<A>, keep: spec_fn(A) -> bool, n: int)
    requires
        0 <= n < s.len(),
    ensures
        s.take(n + 1).filter(keep) == if keep(s[n]) {
            s.take(n).filter(keep).push(s[n])
        } else {
            s.take(n).filter(keep)
        },
{
    reveal(Seq::filter);
    assert(s.take(n + 1).drop_last() =~= s.take(n));
    assert(s.take(n + 1).last() == s[n]);
}

/// Filtering keeps a sequence free of duplicates.
pub proof fn lemma_filter_keeps_no_duplicates<A>(s: Seq<A>, keep: spec_fn(A) -> bool)
    requires
        s.no_duplicates(),
    ensures
        s.filter(keep).no_duplicates(),
    decreases s.len(),
{
    reveal(Seq::filter);
    if s.len() > 0 {
        let front = s.drop_last();
        lemma_filter_keeps_no_duplicates(front, keep);
        if keep(s.last()) {
            let kept = front.filter(keep);
            if kept.contains(s.last()) {
                front.lemma_filter_contains_rev(keep, s.last());
                let j = choose|j: int| 0 <= j < front.len() && front[j] == s.last();
                assert(s[j] == s[s.len() - 1]);
            }
            assert forall|i: int, j: int|
                0 <= i < kept.push(s.last()).len() && 0 <= j < kept.push(s.last()).len() && i
                    != j implies kept.push(s.last())[i] != kept.push(s.last())[j] by {
                if i < kept.len() && j < kept.len() {
                } else if i < kept.len() {
                    assert(kept.contains(kept[i]));
                } else {
                    assert(kept.contains(kept[j]));
                }
            }
        }
    }
}

/// What a filter keeps passes the filter.
pub proof fn lemma_filter_drops<A>(s: Seq<A>, keep: spec_fn(A) -> bool, x: A)
    requires
        !keep(x),
    ensures
        !s.filter(keep).contains(x),
{
    if s.filter(keep).contains(x) {
        let j = choose|j: int| 0 <= j < s.filter(keep).len() && s.filter(keep)[j] == x;
        s.lemma_filter_pred(keep, j);
    }
}

} // verus!
