//! The weekly quota of an account, and countdowns to its reset.

use crate::account_pool::AccountQuotaWindow;
use crate::account_pool::ManagedAccountUsage;
use crate::account_pool::UsageModel;
use crate::account_pool::WindowModel;
use crate::percent;
use crate::ranking;
use crate::text;
use vstd::prelude::*;

verus! {

/// Minutes in a week.
pub const WEEKLY_MINUTES: i64 = 10_080;

impl WindowModel {
    /// The account-wide weekly window. A model-specific or monthly allowance is not the account's
    /// weekly quota.
    pub open spec fn weekly(self) -> bool {
        self.limit_id == "codex"@ && self.window_minutes == WEEKLY_MINUTES
    }
}

/// Ranks weekly windows by what remains, the least highest, as doubles are totally ordered.
pub open spec fn weekly_ranks(windows: Seq<WindowModel>) -> Seq<Option<int>> {
    Seq::new(
        windows.len(),
        |i: int|
            if windows[i].weekly() {
                Some(-1 - percent::total_key(windows[i].remaining_percent.bits))
            } else {
                None
            },
    )
}

impl UsageModel {
    /// The weekly window with the least remaining; of several, the first.
    pub open spec fn weekly_window(self) -> Option<WindowModel> {
        match ranking::leader(weekly_ranks(self.windows)) {
            Some(i) => Some(self.windows[i]),
            None => None,
        }
    }
}

/// The weekly window with the least remaining; of several, the first.
pub fn weekly_window(usage: &ManagedAccountUsage) -> (window: Option<&AccountQuotaWindow>)
    ensures
        (match window {
            Some(window) => Some(window@),
            None => None,
        }) == usage@.weekly_window(),
{
    let ghost want = weekly_ranks(usage@.windows);
    let mut ranks: Vec<Option<i64>> = Vec::new();
    let mut i: usize = 0;
    while i < usage.windows.len()
        invariant
            i <= usage.windows.len(),
            ranks.len() == i,
            want == weekly_ranks(usage@.windows),
            forall|j: int|
                0 <= j < i ==> #[trigger] want[j] == (match ranks@[j] {
                    Some(rank) => Some(rank as int),
                    None => None,
                }),
        decreases usage.windows.len() - i,
    {
        let window: &AccountQuotaWindow = &usage.windows[i];
        assert(window@ == usage@.windows[i as int]);
        let weekly: bool = text::same_text(window.limit_id.as_str(), "codex")
            && window.window_minutes == WEEKLY_MINUTES;
        let rank: Option<i64> = if weekly {
            Some(-1 - window.remaining_percent.total_rank())
        } else {
            None
        };
        ranks.push(rank);
        i = i + 1;
    }
    assert(ranking::ints(ranks@) =~= want);
    match ranking::lead(&ranks) {
        Some(first) => Some(&usage.windows[first]),
        None => None,
    }
}

/// The weekly quota that is shown is the least that any weekly window of the account has left.
pub proof fn law_weekly_window_has_the_least(usage: UsageModel, i: int)
    requires
        0 <= i < usage.windows.len(),
        usage.windows[i].weekly(),
    ensures
        usage.weekly_window() is Some,
        usage.weekly_window()->0.weekly(),
        percent::total_key(usage.weekly_window()->0.remaining_percent.bits) <= percent::total_key(
            usage.windows[i].remaining_percent.bits,
        ),
{
    let ranks = weekly_ranks(usage.windows);
    ranking::lemma_leader_exists(ranks);
    assert(ranks[i] is Some);
    let leader = ranking::leader(ranks);
    if let Some(first) = leader {
        assert(ranks[first] is Some);
    }
}

/// The weekly quota of an account is that of its ordinary windows of seven days: there is one to show
/// exactly where such a window is reported, it is one of these, and of those with as little left it
/// is the first.
pub proof fn law_weekly_window_is_reported(usage: UsageModel)
    ensures
        usage.weekly_window() is Some <==> exists|i: int|
            0 <= i < usage.windows.len() && (#[trigger] usage.windows[i]).limit_id == "codex"@
                && usage.windows[i].window_minutes == 7 * 24 * 60,
        usage.weekly_window() matches Some(window) ==> exists|i: int|
            {
                &&& 0 <= i < usage.windows.len()
                &&& #[trigger] usage.windows[i] == window
                &&& window.limit_id == "codex"@ && window.window_minutes == 7 * 24 * 60
                &&& forall|j: int|
                    0 <= j < usage.windows.len() && (#[trigger] usage.windows[j]).limit_id
                        == "codex"@ && usage.windows[j].window_minutes == 7 * 24 * 60
                        ==> percent::total_key(window.remaining_percent.bits) < percent::total_key(
                        usage.windows[j].remaining_percent.bits,
                    ) || (window.remaining_percent.bits == usage.windows[j].remaining_percent.bits
                        && i <= j)
            },
{
    let ranks = weekly_ranks(usage.windows);
    ranking::lemma_leader_exists(ranks);
    match ranking::leader(ranks) {
        Some(i) => {
            assert(ranks[i] is Some);
            assert(usage.windows[i].weekly());
            assert forall|j: int|
                0 <= j < usage.windows.len() && (#[trigger] usage.windows[j]).weekly() implies
                percent::total_key(usage.windows[i].remaining_percent.bits) < percent::total_key(
                usage.windows[j].remaining_percent.bits,
            ) || (usage.windows[i].remaining_percent.bits
                == usage.windows[j].remaining_percent.bits && i <= j) by {
                assert(ranks[j] is Some);
            }
        },
        None => {
            assert forall|i: int| 0 <= i < usage.windows.len() implies !(
            #[trigger] usage.windows[i]).weekly() by {
                assert(ranks[i] is None);
            }
        },
    }
}

} // verus!
