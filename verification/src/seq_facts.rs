//! Facts about filtered sequences that the other modules lean on.

use vstd::prelude::*;

verus! {

/// Whether `sub` can be had from `whole` by leaving elements out: what
/// stays, stays in its order.
pub open spec fn is_subsequence<A>(sub: Seq<A>, whole: Seq<A>) -> bool
    decreases whole.len(),
{
    if sub.len() == 0 {
        true
    } else if whole.len() == 0 {
        false
    } else {
        ||| sub.last() == whole.last() && is_subsequence(sub.drop_last(), whole.drop_last())
        ||| is_subsequence(sub, whole.drop_last())
    }
}

/// A filter keeps a sequence whose elements all pass it.
pub proof fn lemma_filter_keeps_all<A>(list: Seq<A>, pred: spec_fn(A) -> bool)
    requires
        forall|i: int| 0 <= i < list.len() ==> pred(#[trigger] list[i]),
    ensures
        list.filter(pred) == list,
    decreases list.len(),
{
    reveal(Seq::filter);
    if list.len() > 0 {
        assert forall|i: int| 0 <= i < list.drop_last().len() implies pred(
            #[trigger] list.drop_last()[i],
        ) by {
            assert(list.drop_last()[i] == list[i]);
        }
        lemma_filter_keeps_all(list.drop_last(), pred);
        assert(pred(list[list.len() - 1]));
        assert(list.drop_last().push(list.last()) =~= list);
    }
}

/// A filter empties a sequence none of whose elements pass it.
pub proof fn lemma_filter_drops_all<A>(list: Seq<A>, pred: spec_fn(A) -> bool)
    requires
        forall|i: int| 0 <= i < list.len() ==> !pred(#[trigger] list[i]),
    ensures
        list.filter(pred) == Seq::<A>::empty(),
    decreases list.len(),
{
    reveal(Seq::filter);
    if list.len() > 0 {
        assert forall|i: int| 0 <= i < list.drop_last().len() implies !pred(
            #[trigger] list.drop_last()[i],
        ) by {
            assert(list.drop_last()[i] == list[i]);
        }
        lemma_filter_drops_all(list.drop_last(), pred);
        assert(!pred(list[list.len() - 1]));
    } else {
        assert(list =~= Seq::<A>::empty());
    }
}

/// What a filter lets through passes it, and came from the sequence.
pub proof fn lemma_filter_members<A>(list: Seq<A>, pred: spec_fn(A) -> bool)
    ensures
        forall|i: int|
            0 <= i < list.filter(pred).len() ==> pred(#[trigger] list.filter(pred)[i])
                && list.contains(list.filter(pred)[i]),
{
    assert forall|i: int| 0 <= i < list.filter(pred).len() implies pred(
        #[trigger] list.filter(pred)[i],
    ) && list.contains(list.filter(pred)[i]) by {
        let e = list.filter(pred)[i];
        list.lemma_filter_pred(pred, i);
        assert(list.filter(pred).contains(e));
        list.lemma_filter_contains_rev(pred, e);
    }
}

} // verus!
