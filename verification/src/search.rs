//! The first item of a sequence that meets a condition.

use vstd::prelude::*;

verus! {

/// The least position whose item meets the condition, if any item does.
pub open spec fn first_where<T>(items: Seq<T>, wanted: spec_fn(T) -> bool) -> Option<int>
    decreases items.len(),
{
    if items.len() == 0 {
        None
    } else if first_where(items.drop_last(), wanted) is Some {
        first_where(items.drop_last(), wanted)
    } else if wanted(items.last()) {
        Some(items.len() - 1)
    } else {
        None
    }
}

/// `first_where` gives a position whose item meets the condition and before
/// which no item does; it gives none only where no item meets it.
pub proof fn lemma_first_where<T>(items: Seq<T>, wanted: spec_fn(T) -> bool)
    ensures
        match first_where(items, wanted) {
            Some(i) => 0 <= i < items.len() && wanted(items[i]) && forall|k: int|
                0 <= k < i ==> !wanted(#[trigger] items[k]),
            None => forall|k: int| 0 <= k < items.len() ==> !wanted(#[trigger] items[k]),
        },
    decreases items.len(),
{
    if items.len() > 0 {
        let front = items.drop_last();
        lemma_first_where(front, wanted);
        assert forall|k: int| 0 <= k < front.len() implies front[k] == items[k] by {}
        match first_where(front, wanted) {
            Some(i) => {
                assert(front[i] == items[i]);
                assert forall|k: int| 0 <= k < i implies !wanted(#[trigger] items[k]) by {
                    assert(front[k] == items[k]);
                }
            },
            None => {
                assert forall|k: int| 0 <= k < items.len() - 1 implies !wanted(
                    #[trigger] items[k],
                ) by {
                    assert(front[k] == items[k]);
                }
            },
        }
    }
}

/// A position whose item meets the condition, and before which no item
/// does, is what `first_where` gives.
pub proof fn lemma_first_where_is<T>(items: Seq<T>, wanted: spec_fn(T) -> bool, i: int)
    requires
        0 <= i < items.len(),
        wanted(items[i]),
        forall|k: int| 0 <= k < i ==> !wanted(#[trigger] items[k]),
    ensures
        first_where(items, wanted) == Some(i),
{
    lemma_first_where(items, wanted);
}

/// Where no item meets the condition, `first_where` gives none.
pub proof fn lemma_first_where_none<T>(items: Seq<T>, wanted: spec_fn(T) -> bool)
    requires
        forall|k: int| 0 <= k < items.len() ==> !wanted(#[trigger] items[k]),
    ensures
        first_where(items, wanted) is None,
{
    lemma_first_where(items, wanted);
}

} // verus!
