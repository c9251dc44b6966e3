//! The first item of a list that has some property.

use vstd::prelude::*;

verus! {

/// Whether `at` is the position of the first item with the property.
pub open spec fn is_first_where<A>(items: Seq<A>, property: spec_fn(A) -> bool, at: int) -> bool {
    &&& 0 <= at < items.len()
    &&& property(items[at])
    &&& forall|i: int| 0 <= i < at ==> !property(#[trigger] items[i])
}

/// The position of the first item with the property, if any has it.
pub open spec fn first_where<A>(items: Seq<A>, property: spec_fn(A) -> bool) -> Option<int> {
    if exists|at: int| is_first_where(items, property, at) {
        Some(choose|at: int| is_first_where(items, property, at))
    } else {
        None
    }
}

/// There is only one first item.
pub proof fn lemma_first_where<A>(items: Seq<A>, property: spec_fn(A) -> bool, at: int)
    requires
        is_first_where(items, property, at),
    ensures
        first_where(items, property) == Some(at),
{
    let found = choose|i: int| is_first_where(items, property, i);
    assert(is_first_where(items, property, found));
    assert(found == at) by {
        if found < at {
            assert(!property(items[found]));
        } else if at < found {
            assert(!property(items[at]));
        }
    }
}

/// There is no first item exactly if no item has the property.
pub proof fn lemma_first_where_none<A>(items: Seq<A>, property: spec_fn(A) -> bool)
    ensures
        first_where(items, property) is None <==> forall|i: int|
            0 <= i < items.len() ==> !property(#[trigger] items[i]),
        first_where(items, property) matches Some(at) ==> is_first_where(items, property, at),
{
    if first_where(items, property) is None {
        assert forall|i: int| 0 <= i < items.len() implies !property(#[trigger] items[i]) by {
            if property(items[i]) {
                lemma_first_exists(items, property, i);
            }
        }
    }
}

proof fn lemma_first_exists<A>(items: Seq<A>, property: spec_fn(A) -> bool, i: int)
    requires
        0 <= i < items.len(),
        property(items[i]),
    ensures
        exists|at: int| is_first_where(items, property, at),
    decreases i,
{
    if forall|j: int| 0 <= j < i ==> !property(#[trigger] items[j]) {
        assert(is_first_where(items, property, i));
    } else {
        let j = choose|j: int| 0 <= j < i && property(#[trigger] items[j]);
        lemma_first_exists(items, property, j);
    }
}

} // verus!
