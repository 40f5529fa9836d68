//! Choosing the first of the greatest ranks.

use vstd::prelude::*;

verus! {

/// Position `i` has the greatest rank, and no earlier position has the same rank. A position
/// without a rank takes no part.
pub open spec fn leads(ranks: Seq<Option<int>>, i: int) -> bool {
    &&& 0 <= i < ranks.len()
    &&& ranks[i] is Some
    &&& forall|j: int|
        #![trigger ranks[j]]
        0 <= j < ranks.len() && ranks[j] is Some ==> ranks[j]->0 < ranks[i]->0 || (ranks[j]->0
            == ranks[i]->0 && i <= j)
}

/// No position has a rank.
pub open spec fn unranked(ranks: Seq<Option<int>>) -> bool {
    forall|j: int| 0 <= j < ranks.len() ==> #[trigger] ranks[j] is None
}

/// The result of choosing the leader.
pub open spec fn led_by(ranks: Seq<Option<int>>, leader: Option<int>) -> bool {
    match leader {
        Some(i) => leads(ranks, i),
        None => unranked(ranks),
    }
}

/// The leader as a function of the ranks.
pub open spec fn leader(ranks: Seq<Option<int>>) -> Option<int> {
    choose|leader: Option<int>| led_by(ranks, leader)
}

/// The ranks as whole numbers.
pub open spec fn ints(ranks: Seq<Option<i64>>) -> Seq<Option<int>> {
    Seq::new(
        ranks.len(),
        |i: int|
            match ranks[i] {
                Some(rank) => Some(rank as int),
                None => None,
            },
    )
}

/// There is at most one leader, and what `led_by` admits is what `leader` gives.
pub proof fn lemma_leader_unique(ranks: Seq<Option<int>>, found: Option<int>)
    requires
        led_by(ranks, found),
    ensures
        leader(ranks) == found,
{
    let other = leader(ranks);
    assert(led_by(ranks, other));
    match (found, other) {
        (Some(i), Some(j)) => {
            assert(ranks[i] is Some && ranks[j] is Some);
        },
        (Some(i), None) => {
            assert(ranks[i] is None);
        },
        (None, Some(j)) => {
            assert(ranks[j] is None);
        },
        (None, None) => {},
    }
}

/// Every list of ranks has a leader or no rank at all.
pub proof fn lemma_leader_exists(ranks: Seq<Option<int>>)
    ensures
        led_by(ranks, leader(ranks)),
    decreases ranks.len(),
{
    if ranks.len() == 0 {
        assert(led_by(ranks, None));
    } else {
        let shorter = ranks.drop_last();
        lemma_leader_exists(shorter);
        let before = leader(shorter);
        let last = ranks.len() - 1;
        assert forall|j: int| 0 <= j < last implies #[trigger] shorter[j] == ranks[j] by {}
        let found = match (before, ranks[last]) {
            (_, None) => before,
            (None, Some(_)) => Some(last),
            (Some(i), Some(rank)) => if rank > ranks[i]->0 {
                Some(last)
            } else {
                before
            },
        };
        assert(led_by(ranks, found)) by {
            match found {
                Some(i) => {
                    assert forall|j: int|
                        #![trigger ranks[j]]
                        0 <= j < ranks.len() && ranks[j] is Some implies ranks[j]->0 < ranks[i]->0
                        || (ranks[j]->0 == ranks[i]->0 && i <= j) by {
                        if j < last {
                            assert(shorter[j] == ranks[j]);
                        }
                    }
                },
                None => {
                    assert forall|j: int| 0 <= j < ranks.len() implies #[trigger] ranks[j] is None by {
                        if j < last {
                            assert(shorter[j] == ranks[j]);
                        }
                    }
                },
            }
        }
    }
}

/// Chooses the leader.
pub fn lead(ranks: &Vec<Option<i64>>) -> (found: Option<usize>)
    ensures
        led_by(
            ints(ranks@),
            match found {
                Some(i) => Some(i as int),
                None => None,
            },
        ),
        leader(ints(ranks@)) == (match found {
            Some(i) => Some(i as int),
            None => None::<int>,
        }),
{
    let mut found: Option<usize> = None;
    let mut most: i64 = 0;
    let mut i: usize = 0;
    while i < ranks.len()
        invariant
            i <= ranks.len(),
            match found {
                Some(at) => {
                    &&& at < i
                    &&& ranks@[at as int] == Some(most)
                    &&& forall|j: int|
                        #![trigger ranks@[j]]
                        0 <= j < i && ranks@[j] is Some ==> ranks@[j]->0 < most || (ranks@[j]->0
                            == most && at <= j)
                },
                None => forall|j: int| 0 <= j < i ==> #[trigger] ranks@[j] is None,
            },
        decreases ranks.len() - i,
    {
        if let Some(rank) = ranks[i] {
            if found.is_none() || rank > most {
                most = rank;
                found = Some(i);
            }
        }
        i = i + 1;
    }
    proof {
        let whole = ints(ranks@);
        let at = match found {
            Some(i) => Some(i as int),
            None => None::<int>,
        };
        assert(led_by(whole, at)) by {
            assert forall|j: int| 0 <= j < whole.len() implies (#[trigger] whole[j] is Some
                <==> ranks@[j] is Some) by {}
            if let Some(i) = at {
                assert(whole[i] == Some(most as int));
            }
        }
        lemma_leader_unique(whole, at);
    }
    found
}

/// The least of a starting value and the members of a sequence.
pub open spec fn lowest(start: int, values: Seq<int>) -> int
    decreases values.len(),
{
    if values.len() == 0 {
        start
    } else {
        let rest = lowest(start, values.drop_last());
        if values.last() < rest {
            values.last()
        } else {
            rest
        }
    }
}

/// The least value is one of the values, and none is below it.
pub proof fn lemma_lowest(start: int, values: Seq<int>)
    ensures
        lowest(start, values) <= start,
        forall|i: int| 0 <= i < values.len() ==> lowest(start, values) <= #[trigger] values[i],
        lowest(start, values) == start || exists|i: int|
            0 <= i < values.len() && #[trigger] values[i] == lowest(start, values),
    decreases values.len(),
{
    if values.len() > 0 {
        let shorter = values.drop_last();
        lemma_lowest(start, shorter);
        let least = lowest(start, values);
        assert forall|i: int| 0 <= i < values.len() implies least <= #[trigger] values[i] by {
            if i < values.len() - 1 {
                assert(shorter[i] == values[i]);
            }
        }
        if least != start {
            if values.last() < lowest(start, shorter) {
                assert(values[values.len() - 1] == least);
            } else {
                let i = choose|i: int| 0 <= i < shorter.len() && #[trigger] shorter[i] == least;
                assert(values[i] == least);
            }
        }
    }
}

/// A leader has a rank that no other exceeds and that no earlier position reaches; without one, no
/// position has a rank.
pub proof fn law_leader_is_the_first_of_the_greatest(ranks: Seq<Option<int>>, j: int)
    requires
        0 <= j < ranks.len(),
        ranks[j] is Some,
    ensures
        leader(ranks) matches Some(i) && {
            &&& 0 <= i < ranks.len()
            &&& ranks[i] is Some
            &&& ranks[j]->0 <= ranks[i]->0
            &&& j < i ==> ranks[j]->0 < ranks[i]->0
        },
{
    lemma_leader_exists(ranks);
}

/// Where no position has a rank, none leads.
pub proof fn law_without_ranks_none_leads(ranks: Seq<Option<int>>)
    requires
        forall|j: int| 0 <= j < ranks.len() ==> #[trigger] ranks[j] is None,
    ensures
        leader(ranks) is None,
{
    lemma_leader_exists(ranks);
    match leader(ranks) {
        Some(i) => {
            assert(ranks[i] is Some);
        },
        None => {},
    }
}

} // verus!
