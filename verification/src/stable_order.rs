//! Ordering by rank that keeps the given order of equals.

use vstd::prelude::*;

verus! {

/// An item with a rank: a strict weak order.
pub trait Ranked: Sized {
    /// This item's rank comes before that of `other`.
    spec fn outranks(&self, other: &Self) -> bool;

    /// Two ranks come before each other never, and what comes before one item comes before or
    /// after any third.
    proof fn lemma_weak_order(a: &Self, b: &Self, c: &Self)
        ensures
            !(a.outranks(b) && b.outranks(a)),
            a.outranks(b) ==> a.outranks(c) || c.outranks(b),
    ;

    /// Whether this item's rank comes before that of `other`.
    fn goes_before(&self, other: &Self) -> (before: bool)
        ensures
            before == self.outranks(other),
    ;
}

/// The item at `i` goes before that at `j`: by rank, or, where neither outranks the other, by
/// place.
pub open spec fn goes_first<T: Ranked>(items: Seq<T>, i: int, j: int) -> bool {
    items[i].outranks(&items[j]) || (!items[j].outranks(&items[i]) && i < j)
}

/// `order` lists the places that `kept` names, each once, by rank and then by place.
pub open spec fn is_stable_order<T: Ranked>(
    items: Seq<T>,
    kept: Seq<bool>,
    order: Seq<usize>,
) -> bool {
    &&& forall|k: int|
        0 <= k < order.len() ==> 0 <= #[trigger] order[k] < items.len() && kept[order[k] as int]
    &&& forall|i: int|
        0 <= i < items.len() && #[trigger] kept[i] ==> exists|k: int|
            0 <= k < order.len() && #[trigger] order[k] == i
    &&& forall|k: int, l: int|
        0 <= k < l < order.len() ==> #[trigger] goes_first(
            items,
            order[k] as int,
            order[l] as int,
        )
}

/// List the places that `kept` names by rank, equals in place order.
pub fn stable_order<T: Ranked>(items: &Vec<T>, kept: &Vec<bool>) -> (order: Vec<usize>)
    requires
        kept@.len() == items@.len(),
    ensures
        is_stable_order(items@, kept@, order@),
{
    let mut order: Vec<usize> = Vec::new();
    let mut index: usize = 0;
    while index < items.len()
        invariant
            kept@.len() == items@.len(),
            index <= items@.len(),
            order@.len() <= index,
            forall|k: int|
                0 <= k < order@.len() ==> 0 <= #[trigger] order@[k] < index
                    && kept@[order@[k] as int],
            forall|i: int|
                0 <= i < index && #[trigger] kept@[i] ==> exists|k: int|
                    0 <= k < order@.len() && #[trigger] order@[k] == i,
            forall|k: int, l: int|
                0 <= k < l < order@.len() ==> #[trigger] goes_first(
                    items@,
                    order@[k] as int,
                    order@[l] as int,
                ),
        decreases items@.len() - index,
    {
        if kept[index] {
            let mut place: usize = order.len();
            while place > 0 && items[index].goes_before(&items[order[place - 1]])
                invariant
                    place <= order@.len(),
                    index < items@.len(),
                    forall|k: int|
                        0 <= k < order@.len() ==> 0 <= #[trigger] order@[k] < index,
                    forall|k: int|
                        place <= k < order@.len() ==> items@[index as int].outranks(
                            &items@[(#[trigger] order@[k]) as int],
                        ),
                decreases place,
            {
                place = place - 1;
            }
            let ghost before = order@;
            order.insert(place, index);
            proof {
                lemma_inserted(items@, before, place as int, index);
                assert forall|i: int| 0 <= i < index + 1 && #[trigger] kept@[i] implies exists|
                    k: int,
                |
                    0 <= k < order@.len() && #[trigger] order@[k] == i by {
                    if i < index {
                        let k = choose|k: int| 0 <= k < before.len() && #[trigger] before[k] == i;
                        assert(order@[if k < place { k } else { k + 1 }] == i);
                    } else {
                        assert(order@[place as int] == i);
                    }
                }
                assert forall|k: int| 0 <= k < order@.len() implies 0 <= #[trigger] order@[k]
                    < index + 1 && kept@[order@[k] as int] by {
                    if k < place {
                        assert(order@[k] == before[k]);
                    } else if k > place {
                        assert(order@[k] == before[k - 1]);
                    }
                }
            }
        }
        index += 1;
    }
    order
}

proof fn lemma_inserted<T: Ranked>(items: Seq<T>, before: Seq<usize>, place: int, index: usize)
    requires
        index < items.len(),
        0 <= place <= before.len(),
        forall|k: int| 0 <= k < before.len() ==> 0 <= #[trigger] before[k] < index,
        forall|k: int, l: int|
            0 <= k < l < before.len() ==> #[trigger] goes_first(
                items,
                before[k] as int,
                before[l] as int,
            ),
        forall|k: int|
            place <= k < before.len() ==> items[index as int].outranks(
                &items[(#[trigger] before[k]) as int],
            ),
        place > 0 ==> !items[index as int].outranks(&items[before[place - 1] as int]),
    ensures
        forall|k: int, l: int|
            0 <= k < l < before.insert(place, index).len() ==> #[trigger] goes_first(
                items,
                before.insert(place, index)[k] as int,
                before.insert(place, index)[l] as int,
            ),
{
    let after = before.insert(place, index);
    assert forall|k: int| 0 <= k < place implies !items[index as int].outranks(
        &items[(#[trigger] before[k]) as int],
    ) by {
        if k < place - 1 {
            assert(goes_first(items, before[k] as int, before[place - 1] as int));
            T::lemma_weak_order(
                &items[index as int],
                &items[before[k] as int],
                &items[before[place - 1] as int],
            );
            T::lemma_weak_order(
                &items[before[k] as int],
                &items[before[place - 1] as int],
                &items[before[k] as int],
            );
        }
    }
    assert forall|k: int, l: int| 0 <= k < l < after.len() implies #[trigger] goes_first(
        items,
        after[k] as int,
        after[l] as int,
    ) by {
        if l < place {
            assert(goes_first(items, before[k] as int, before[l] as int));
        } else if l == place {
            assert(after[k] == before[k]);
        } else if k < place {
            assert(goes_first(items, before[k] as int, before[l - 1] as int));
        } else if k == place {
            assert(after[l] == before[l - 1]);
        } else {
            assert(goes_first(items, before[k - 1] as int, before[l - 1] as int));
        }
    }
}

/// There is one stable order: two of them are equal.
pub proof fn law_stable_order_is_unique<T: Ranked>(
    items: Seq<T>,
    kept: Seq<bool>,
    first: Seq<usize>,
    second: Seq<usize>,
)
    requires
        kept.len() == items.len(),
        is_stable_order(items, kept, first),
        is_stable_order(items, kept, second),
    ensures
        first == second,
{
    lemma_same_prefix(items, kept, first, second, first.len() as int);
    lemma_same_prefix(items, kept, second, first, second.len() as int);
    assert(first =~= second);
}

proof fn lemma_same_prefix<T: Ranked>(
    items: Seq<T>,
    kept: Seq<bool>,
    first: Seq<usize>,
    second: Seq<usize>,
    count: int,
)
    requires
        kept.len() == items.len(),
        is_stable_order(items, kept, first),
        is_stable_order(items, kept, second),
        0 <= count <= first.len(),
    ensures
        count <= second.len(),
        forall|k: int| 0 <= k < count ==> #[trigger] first[k] == second[k],
    decreases count,
{
    if count > 0 {
        lemma_same_prefix(items, kept, first, second, count - 1);
        let place = first[count - 1];
        assert(kept[place as int]);
        let k = choose|k: int| 0 <= k < second.len() && #[trigger] second[k] == place;
        if k < count - 1 {
            assert(first[k] == second[k]);
            assert(goes_first(items, first[k] as int, first[count - 1] as int));
            T::lemma_weak_order(&items[place as int], &items[place as int], &items[place as int]);
        } else if k > count - 1 {
            let other = second[count - 1];
            assert(kept[other as int]);
            let l = choose|l: int| 0 <= l < first.len() && #[trigger] first[l] == other;
            assert(goes_first(items, second[count - 1] as int, second[k] as int));
            T::lemma_weak_order(&items[place as int], &items[other as int], &items[place as int]);
            if l < count - 1 {
                assert(first[l] == second[l]);
                assert(goes_first(items, second[l] as int, second[count - 1] as int));
                T::lemma_weak_order(
                    &items[other as int],
                    &items[other as int],
                    &items[other as int],
                );
            } else if l > count - 1 {
                assert(goes_first(items, first[count - 1] as int, first[l] as int));
            }
        }
    }
}

} // verus!
