//! Searching a sequence for the first item of a kind.

use vstd::prelude::*;

verus! {

/// The position of the first item that `wanted` holds of, or the length of
/// `items` if it holds of none.
pub open spec fn first_index<T>(items: Seq<T>, wanted: spec_fn(T) -> bool) -> int
    decreases items.len(),
{
    if items.len() == 0 {
        0
    } else if wanted(items[0]) {
        0
    } else {
        1 + first_index(items.skip(1), wanted)
    }
}

/// `first_index` is the one position before which nothing is wanted and at
/// which, unless it is the length, the item is wanted.
pub proof fn lemma_first_index<T>(items: Seq<T>, wanted: spec_fn(T) -> bool, at: int)
    requires
        0 <= at <= items.len(),
        forall|j: int| 0 <= j < at ==> !wanted(#[trigger] items[j]),
        at < items.len() ==> wanted(items[at]),
    ensures
        first_index(items, wanted) == at,
    decreases items.len(),
{
    if items.len() > 0 && at > 0 {
        let rest = items.skip(1);
        assert forall|j: int| 0 <= j < at - 1 implies !wanted(#[trigger] rest[j]) by {
            assert(rest[j] == items[j + 1]);
        }
        assert(!wanted(items[0]));
        lemma_first_index(rest, wanted, at - 1);
    }
}

/// What `first_index` finds: nothing wanted comes before it.
pub proof fn lemma_first_index_found<T>(items: Seq<T>, wanted: spec_fn(T) -> bool)
    ensures
        0 <= first_index(items, wanted) <= items.len(),
        forall|j: int| 0 <= j < first_index(items, wanted) ==> !wanted(#[trigger] items[j]),
        first_index(items, wanted) < items.len() ==> wanted(items[first_index(items, wanted)]),
    decreases items.len(),
{
    if items.len() > 0 && !wanted(items[0]) {
        let rest = items.skip(1);
        lemma_first_index_found(rest, wanted);
        assert forall|j: int| 0 <= j < first_index(items, wanted) implies !wanted(
            #[trigger] items[j],
        ) by {
            if j > 0 {
                assert(rest[j - 1] == items[j]);
            }
        }
        if first_index(items, wanted) < items.len() {
            assert(rest[first_index(rest, wanted)] == items[first_index(items, wanted)]);
        }
    }
}

} // verus!
