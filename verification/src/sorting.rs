//! Stable sorting of short lists.

use vstd::prelude::*;

verus! {

/// Where an item goes into a list: before the first member that it comes before.
pub open spec fn slot<T>(list: Seq<T>, item: T, before: spec_fn(T, T) -> bool) -> int
    decreases list.len(),
{
    if list.len() == 0 {
        0
    } else if before(item, list[0]) {
        0
    } else {
        1 + slot(list.drop_first(), item, before)
    }
}

/// The list with an item put in its place.
pub open spec fn placed<T>(list: Seq<T>, item: T, before: spec_fn(T, T) -> bool) -> Seq<T> {
    list.insert(slot(list, item, before), item)
}

/// The items in order; items of which neither comes before the other keep their places.
pub open spec fn arranged<T>(items: Seq<T>, before: spec_fn(T, T) -> bool) -> Seq<T>
    decreases items.len(),
{
    if items.len() == 0 {
        items
    } else {
        placed(arranged(items.drop_last(), before), items.last(), before)
    }
}

/// No member comes before an earlier one.
pub open spec fn ordered<T>(items: Seq<T>, before: spec_fn(T, T) -> bool) -> bool {
    forall|i: int, j: int|
        #![trigger items[i], items[j]]
        0 <= i < j < items.len() ==> !before(items[j], items[i])
}

/// A strict order.
pub open spec fn strict<T>(before: spec_fn(T, T) -> bool) -> bool {
    &&& forall|a: T| !(#[trigger] before(a, a))
    &&& forall|a: T, b: T, c: T|
        #![trigger before(a, b), before(b, c)]
        before(a, b) && before(b, c) ==> before(a, c)
}

/// The slot is the first position whose member the item comes before.
pub proof fn lemma_slot<T>(list: Seq<T>, item: T, before: spec_fn(T, T) -> bool)
    ensures
        0 <= slot(list, item, before) <= list.len(),
        slot(list, item, before) < list.len() ==> before(item, list[slot(list, item, before)]),
        forall|i: int| 0 <= i < slot(list, item, before) ==> !before(item, #[trigger] list[i]),
    decreases list.len(),
{
    if list.len() > 0 && !before(item, list[0]) {
        let rest = list.drop_first();
        lemma_slot(rest, item, before);
        let at = slot(list, item, before);
        assert forall|i: int| 0 <= i < at implies !before(item, #[trigger] list[i]) by {
            if i > 0 {
                assert(rest[i - 1] == list[i]);
            }
        }
        if at < list.len() {
            assert(rest[at - 1] == list[at]);
        }
    }
}

/// A position with no such member before it is the slot.
pub proof fn lemma_slot_is<T>(list: Seq<T>, item: T, before: spec_fn(T, T) -> bool, at: int)
    requires
        0 <= at <= list.len(),
        at < list.len() ==> before(item, list[at]),
        forall|i: int| 0 <= i < at ==> !before(item, #[trigger] list[i]),
    ensures
        slot(list, item, before) == at,
{
    lemma_slot(list, item, before);
    let found = slot(list, item, before);
    if found < at {
        assert(!before(item, list[found]));
    } else if at < found {
        assert(!before(item, list[at]));
    }
}

/// Arranging one more item puts it in its place among those before it.
pub proof fn lemma_arranged_step<T>(items: Seq<T>, before: spec_fn(T, T) -> bool, i: int)
    requires
        0 <= i < items.len(),
    ensures
        arranged(items.take(i + 1), before) == placed(
            arranged(items.take(i), before),
            items[i],
            before,
        ),
{
    assert(items.take(i + 1).drop_last() =~= items.take(i));
}

/// Arranging by a strict order gives an ordered list.
pub proof fn lemma_arranged_is_ordered<T>(items: Seq<T>, before: spec_fn(T, T) -> bool)
    requires
        strict(before),
    ensures
        ordered(arranged(items, before), before),
    decreases items.len(),
{
    if items.len() > 0 {
        let list = arranged(items.drop_last(), before);
        let item = items.last();
        lemma_arranged_is_ordered(items.drop_last(), before);
        lemma_slot(list, item, before);
        let at = slot(list, item, before);
        let after = placed(list, item, before);
        assert forall|i: int, j: int|
            #![trigger after[i], after[j]]
            0 <= i < j < after.len() implies !before(after[j], after[i]) by {
            if j < at {
                assert(after[i] == list[i] && after[j] == list[j]);
            } else if j == at {
                assert(after[i] == list[i] && after[j] == item);
            } else if i < at {
                assert(after[i] == list[i] && after[j] == list[j - 1]);
            } else if i == at {
                assert(after[i] == item && after[j] == list[j - 1]);
                if before(list[j - 1], item) {
                    assert(before(item, list[at]));
                    assert(before(list[j - 1], list[at]));
                    if j - 1 > at {
                        assert(!before(list[j - 1], list[at]));
                    }
                }
            } else {
                assert(after[i] == list[i - 1] && after[j] == list[j - 1]);
            }
        }
    }
}

/// Arranging loses nothing and adds nothing.
pub proof fn lemma_arranged_is_permutation<T>(items: Seq<T>, before: spec_fn(T, T) -> bool)
    ensures
        arranged(items, before).to_multiset() == items.to_multiset(),
        arranged(items, before).len() == items.len(),
    decreases items.len(),
{
    broadcast use vstd::seq_lib::group_to_multiset_ensures;

    if items.len() > 0 {
        let list = arranged(items.drop_last(), before);
        let item = items.last();
        lemma_arranged_is_permutation(items.drop_last(), before);
        lemma_slot(list, item, before);
        let at = slot(list, item, before);
        let after = placed(list, item, before);
        assert(after.remove(at) =~= list);
        assert(after[at] == item);
        assert(after.to_multiset() =~= list.to_multiset().insert(item));
        assert(items =~= items.drop_last().push(item));
    }
}

/// Arranging commutes with a map that keeps the order.
pub proof fn lemma_arranged_maps<T, U>(
    items: Seq<T>,
    before: spec_fn(T, T) -> bool,
    image: spec_fn(T) -> U,
    before_image: spec_fn(U, U) -> bool,
)
    requires
        forall|a: T, b: T| #[trigger] before(a, b) == before_image(image(a), image(b)),
    ensures
        Seq::new(arranged(items, before).len(), |i: int| image(arranged(items, before)[i]))
            == arranged(Seq::new(items.len(), |i: int| image(items[i])), before_image),
    decreases items.len(),
{
    let images = Seq::new(items.len(), |i: int| image(items[i]));
    let result = Seq::new(
        arranged(items, before).len(),
        |i: int| image(arranged(items, before)[i]),
    );
    if items.len() == 0 {
        assert(result =~= arranged(images, before_image));
    } else {
        let shorter = items.drop_last();
        lemma_arranged_maps(shorter, before, image, before_image);
        let list = arranged(shorter, before);
        let item = items.last();
        let shorter_images = Seq::new(shorter.len(), |i: int| image(shorter[i]));
        let list_images = Seq::new(list.len(), |i: int| image(list[i]));
        assert(images.drop_last() =~= shorter_images);
        lemma_slot(list, item, before);
        let at = slot(list, item, before);
        assert forall|i: int| 0 <= i < at implies !before_image(
            image(item),
            #[trigger] list_images[i],
        ) by {
            assert(!before(item, list[i]));
        }
        if at < list.len() {
            assert(before(item, list[at]));
        }
        lemma_slot_is(list_images, image(item), before_image, at);
        assert(result =~= arranged(images, before_image));
    }
}

/// Sorting by a strict order keeps every item, as often as it occurs, and no item comes before an
/// earlier one.
pub proof fn law_sorting_orders_the_items<T>(items: Seq<T>, before: spec_fn(T, T) -> bool)
    requires
        forall|a: T| !(#[trigger] before(a, a)),
        forall|a: T, b: T, c: T|
            #![trigger before(a, b), before(b, c)]
            before(a, b) && before(b, c) ==> before(a, c),
    ensures
        arranged(items, before).to_multiset() == items.to_multiset(),
        forall|i: int, j: int|
            #![trigger arranged(items, before)[i], arranged(items, before)[j]]
            0 <= i < j < items.len() ==> !before(
                arranged(items, before)[j],
                arranged(items, before)[i],
            ),
{
    lemma_arranged_is_permutation(items, before);
    lemma_arranged_is_ordered(items, before);
}

/// Items that are in order already stay as they are, also those of which neither comes before the
/// other.
pub proof fn law_sorted_items_stay<T>(items: Seq<T>, before: spec_fn(T, T) -> bool)
    requires
        forall|i: int, j: int|
            #![trigger items[i], items[j]]
            0 <= i < j < items.len() ==> !before(items[j], items[i]),
    ensures
        arranged(items, before) == items,
    decreases items.len(),
{
    if items.len() > 0 {
        let rest = items.drop_last();
        assert forall|i: int, j: int|
            #![trigger rest[i], rest[j]]
            0 <= i < j < rest.len() implies !before(rest[j], rest[i]) by {
            assert(rest[i] == items[i] && rest[j] == items[j]);
        }
        law_sorted_items_stay(rest, before);
        let last = items.len() - 1;
        assert forall|i: int| 0 <= i < rest.len() implies !before(
            items.last(),
            #[trigger] rest[i],
        ) by {
            assert(rest[i] == items[i] && items[last] == items.last());
        }
        lemma_slot_is(rest, items.last(), before, last);
        assert(rest.insert(last, items.last()) =~= items);
    }
}

} // verus!
