//! The first member of a sequence, and the members that a filter keeps.

use vstd::prelude::*;

verus! {

/// The first position that holds, if any does.
pub open spec fn first(flags: Seq<bool>) -> Option<int>
    decreases flags.len(),
{
    if flags.len() == 0 {
        None
    } else if first(flags.drop_last()) is Some {
        first(flags.drop_last())
    } else if flags.last() {
        Some(flags.len() - 1)
    } else {
        None
    }
}

/// The first position holds and none before it does; without one, no position holds.
pub proof fn lemma_first(flags: Seq<bool>)
    ensures
        first(flags) matches Some(i) ==> 0 <= i < flags.len() && flags[i],
        forall|j: int|
            0 <= j < (match first(flags) {
                Some(i) => i,
                None => flags.len() as int,
            }) ==> !#[trigger] flags[j],
    decreases flags.len(),
{
    if flags.len() > 0 {
        let shorter = flags.drop_last();
        lemma_first(shorter);
        assert forall|j: int|
            0 <= j < (match first(flags) {
                Some(i) => i,
                None => flags.len() as int,
            }) implies !#[trigger] flags[j] by {
            if j < shorter.len() {
                assert(shorter[j] == flags[j]);
            }
        }
    }
}

/// A position that holds, with none before it, is the first.
pub proof fn lemma_first_is(flags: Seq<bool>, i: int)
    requires
        0 <= i < flags.len(),
        flags[i],
        forall|j: int| 0 <= j < i ==> !#[trigger] flags[j],
    ensures
        first(flags) == Some(i),
{
    lemma_first(flags);
    match first(flags) {
        Some(k) => {
            assert(flags[k]);
        },
        None => {},
    }
}

/// Where no position holds, there is no first.
pub proof fn lemma_first_none(flags: Seq<bool>)
    requires
        forall|j: int| 0 <= j < flags.len() ==> !#[trigger] flags[j],
    ensures
        first(flags) is None,
{
    lemma_first(flags);
}

/// The members of a sequence that are kept, in order, when one more is looked at.
pub proof fn lemma_filter_step<T>(items: Seq<T>, keep: spec_fn(T) -> bool, i: int)
    requires
        0 <= i < items.len(),
    ensures
        items.take(i + 1).filter(keep) == if keep(items[i]) {
            items.take(i).filter(keep).push(items[i])
        } else {
            items.take(i).filter(keep)
        },
{
    reveal(Seq::filter);
    assert(items.take(i + 1).drop_last() =~= items.take(i));
}

/// A filtered sequence holds the members that are kept, and no others.
pub proof fn lemma_filter_members<T>(items: Seq<T>, keep: spec_fn(T) -> bool)
    ensures
        forall|i: int|
            0 <= i < items.filter(keep).len() ==> keep(#[trigger] items.filter(keep)[i])
                && items.contains(items.filter(keep)[i]),
        forall|i: int|
            0 <= i < items.len() && keep(#[trigger] items[i]) ==> items.filter(keep).contains(
                items[i],
            ),
{
    assert forall|i: int| 0 <= i < items.len() && keep(#[trigger] items[i]) implies items.filter(
        keep,
    ).contains(items[i]) by {
        items.lemma_filter_contains(keep, i);
    }
    assert forall|i: int| 0 <= i < items.filter(keep).len() implies keep(
        #[trigger] items.filter(keep)[i],
    ) && items.contains(items.filter(keep)[i]) by {
        items.lemma_filter_pred(keep, i);
        items.lemma_filter_contains_rev(keep, items.filter(keep)[i]);
    }
}

/// Filtering keeps the order: two members of the result come from two members in the same order.
pub proof fn lemma_filter_distinct<T>(items: Seq<T>, keep: spec_fn(T) -> bool)
    ensures
        forall|i: int, j: int|
            #![trigger items.filter(keep)[i], items.filter(keep)[j]]
            0 <= i < j < items.filter(keep).len() ==> exists|k: int, l: int|
                0 <= k < l < items.len() && #[trigger] items[k] == items.filter(keep)[i]
                    && #[trigger] items[l] == items.filter(keep)[j],
    decreases items.len(),
{
    reveal(Seq::filter);
    if items.len() > 0 {
        let shorter = items.drop_last();
        lemma_filter_distinct(shorter, keep);
        lemma_filter_members(shorter, keep);
        let before = shorter.filter(keep);
        let after = items.filter(keep);
        assert forall|i: int, j: int|
            #![trigger after[i], after[j]]
            0 <= i < j < after.len() implies exists|k: int, l: int|
            0 <= k < l < items.len() && #[trigger] items[k] == after[i] && #[trigger] items[l]
                == after[j] by {
            if j < before.len() {
                assert(before[i] == after[i] && before[j] == after[j]);
                let (k, l) = choose|k: int, l: int|
                    0 <= k < l < shorter.len() && #[trigger] shorter[k] == before[i]
                        && #[trigger] shorter[l] == before[j];
                assert(items[k] == after[i] && items[l] == after[j]);
            } else {
                assert(before[i] == after[i]);
                assert(shorter.contains(before[i]));
                let k = choose|k: int| 0 <= k < shorter.len() && shorter[k] == before[i];
                assert(items[k] == after[i] && items[items.len() - 1] == after[j]);
            }
        }
    }
}

} // verus!
