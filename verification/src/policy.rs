//! Which account a session uses next, and when a banked reset may be spent.

use crate::account_pool::AccountQuotaWindow;
use crate::account_pool::BankedReset;
use crate::account_pool::ManagedAccountUsage;
use crate::account_pool::PoolWaitReason;
use crate::account_pool::ResetModel;
use crate::account_pool::UsageModel;
use crate::account_pool::WindowModel;
use crate::percent;
use crate::percent::HUNDRED;
use crate::ranking;
use crate::text;
use vstd::prelude::*;

verus! {

/// Minutes in the longest short window.
pub const DAY_MINUTES: i64 = 1440;

/// Seconds for which an observation counts as fresh.
pub const FRESH_SECONDS: i64 = 90;

/// Seconds between two checks of a waiting session.
pub const CHECK_SECONDS: i64 = 60;

/// The two lengths of quota windows that a decision tells apart.
#[derive(Clone, Copy, Debug, PartialEq, Eq, Structural)]
pub enum WindowKind {
    Weekly,
    Short,
}

/// What a session does next.
#[derive(Clone, Debug, PartialEq, Eq)]
pub enum Decision {
    /// Use the account at this position.
    Use(usize),
    /// Redeem this credit of the account at this position.
    Redeem(usize, String),
    /// Wait for this reason until this time.
    Wait(PoolWaitReason, i64),
}

/// A `Decision` as a mathematical value.
pub enum DecisionModel {
    Use(int),
    Redeem(int, Seq<char>),
    Wait(PoolWaitReason, i64),
}

impl View for Decision {
    type V = DecisionModel;

    open spec fn view(&self) -> DecisionModel {
        match self {
            Decision::Use(index) => DecisionModel::Use(*index as int),
            Decision::Redeem(index, credit) => DecisionModel::Redeem(*index as int, credit@),
            Decision::Wait(reason, next) => DecisionModel::Wait(*reason, *next),
        }
    }
}

impl WindowModel {
    /// The window has the given length.
    pub open spec fn of_kind(self, kind: WindowKind) -> bool {
        match kind {
            WindowKind::Weekly => self.window_minutes > DAY_MINUTES,
            WindowKind::Short => self.window_minutes <= DAY_MINUTES,
        }
    }

    /// The backend reported a usable length and percentage.
    pub open spec fn sound(self) -> bool {
        self.window_minutes > 0 && self.remaining_percent.in_range()
    }

    /// The window's next reset, if that is still to come, and `limit` otherwise.
    pub open spec fn reset_or(self, now: i64, limit: int) -> int {
        if self.resets_at is Some && self.resets_at->0 > now {
            self.resets_at->0 as int
        } else {
            limit
        }
    }
}

impl UsageModel {
    /// The window counts for what this usage was read for: the ordinary quota, every window where
    /// no model is asked for, and the windows of the model.
    pub open spec fn covers(self, window: WindowModel) -> bool {
        ||| window.limit_id == "codex"@
        ||| self.model is None
        ||| window.model == self.model
        ||| window.limit_id == self.model->0
    }

    /// The observation is at most ninety seconds old.
    pub open spec fn fresh(self, now: i64) -> bool {
        0 <= now - self.checked_at <= FRESH_SECONDS
    }

    /// The observation is complete enough to act on.
    pub open spec fn known_at(self, now: i64) -> bool {
        &&& self.error is None
        &&& self.fresh(now)
        &&& self.ordinary_usage_allowed is Some
        &&& self.model is None || self.model_supported == Some(true)
        &&& exists|i: int|
            0 <= i < self.windows.len() && #[trigger] self.windows[i].limit_id == "codex"@
        &&& forall|i: int|
            0 <= i < self.windows.len() && self.covers(#[trigger] self.windows[i])
                ==> self.windows[i].sound()
    }

    /// Some window of the given length that counts is exhausted.
    pub open spec fn blocked_by(self, kind: WindowKind) -> bool {
        exists|i: int|
            0 <= i < self.windows.len() && self.covers(#[trigger] self.windows[i])
                && self.windows[i].remaining_percent.spent() && self.windows[i].of_kind(kind)
    }

    /// The account is known to accept requests.
    pub open spec fn usable_at(self, now: i64) -> bool {
        &&& self.known_at(now)
        &&& self.ordinary_usage_allowed == Some(true)
        &&& !self.blocked_by(WindowKind::Weekly)
        &&& !self.blocked_by(WindowKind::Short)
    }

    /// The remaining percentage of each window of the given length that counts.
    pub open spec fn remaining_keys(self, kind: WindowKind) -> Seq<int> {
        Seq::new(
            self.windows.len(),
            |i: int|
                if self.covers(self.windows[i]) && self.windows[i].of_kind(kind) {
                    self.windows[i].remaining_percent.key()
                } else {
                    HUNDRED as int
                },
        )
    }

    /// The least remaining percentage of the windows of the given length that count.
    pub open spec fn remaining(self, kind: WindowKind) -> int {
        ranking::lowest(HUNDRED as int, self.remaining_keys(kind))
    }

    /// The live credit that expires first, if any is known.
    pub open spec fn earliest(self, now: i64) -> Option<ResetModel> {
        match self.resets {
            Some(credits) => match ranking::leader(expiry_ranks(credits, now)) {
                Some(i) => Some(credits[i]),
                None => None,
            },
            None => None,
        }
    }

    /// The account may serve the session's model.
    pub open spec fn eligible(self) -> bool {
        self.model_supported != Some(false)
    }

    /// The earliest reset of this usage that is still to come, within `limit`.
    pub open spec fn next_reset(self, now: i64, limit: int) -> int {
        ranking::lowest(
            limit,
            Seq::new(self.windows.len(), |i: int| self.windows[i].reset_or(now, limit)),
        )
    }
}

/// Ranks live credits by expiry, the earliest highest. A credit without one expires last.
pub open spec fn expiry_ranks(credits: Seq<ResetModel>, now: i64) -> Seq<Option<int>> {
    Seq::new(
        credits.len(),
        |i: int|
            if credits[i].live(now) {
                Some(
                    -1 - (match credits[i].expires_at {
                        Some(expiry) => expiry as int,
                        None => i64::MAX as int,
                    }),
                )
            } else {
                None
            },
    )
}

/// Ranks usable accounts by their least remaining percentage.
pub open spec fn quota_ranks(usages: Seq<UsageModel>, trigger: WindowKind, now: i64) -> Seq<
    Option<int>,
> {
    Seq::new(
        usages.len(),
        |i: int|
            if usages[i].usable_at(now) {
                Some(usages[i].remaining(trigger))
            } else {
                None
            },
    )
}

/// Ranks eligible accounts that have a live credit by the number of resets they have banked.
pub open spec fn credit_ranks(usages: Seq<UsageModel>, now: i64) -> Seq<Option<int>> {
    Seq::new(
        usages.len(),
        |i: int|
            if usages[i].eligible() && usages[i].earliest(now) is Some
                && usages[i].available_resets is Some && usages[i].available_resets->0 > 0 {
                Some(usages[i].available_resets->0 as int)
            } else {
                None
            },
    )
}

/// No account is eligible, or the observation of an eligible one cannot be acted on.
pub open spec fn unknown(usages: Seq<UsageModel>, now: i64) -> bool {
    ||| forall|i: int| 0 <= i < usages.len() ==> !(#[trigger] usages[i]).eligible()
    ||| exists|i: int|
        0 <= i < usages.len() && (#[trigger] usages[i]).eligible() && !usages[i].known_at(now)
}

/// Every eligible account is known to have exhausted a weekly window.
pub open spec fn all_weekly(usages: Seq<UsageModel>, now: i64) -> bool {
    &&& !unknown(usages, now)
    &&& forall|i: int|
        0 <= i < usages.len() && (#[trigger] usages[i]).eligible() ==> usages[i].blocked_by(
            WindowKind::Weekly,
        )
}

/// Why no account can be used.
pub open spec fn wait_reason(usages: Seq<UsageModel>, now: i64) -> PoolWaitReason {
    if unknown(usages, now) {
        PoolWaitReason::UnknownAvailability
    } else if all_weekly(usages, now) {
        PoolWaitReason::WeeklyQuota
    } else {
        PoolWaitReason::ShortWindow
    }
}

/// The earliest reset still to come of any account, within `limit`.
pub open spec fn next_check(usages: Seq<UsageModel>, now: i64, limit: int) -> int {
    ranking::lowest(limit, Seq::new(usages.len(), |i: int| usages[i].next_reset(now, limit)))
}

/// What a session does next: stay on a usable account, else take the usable account with the most
/// quota left, else spend a credit where the whole pool is weekly exhausted and the pool allows
/// it, else wait.
pub open spec fn decision(
    usages: Seq<UsageModel>,
    current: int,
    trigger: WindowKind,
    redeem_weekly: bool,
    now: i64,
) -> DecisionModel {
    let best = ranking::leader(quota_ranks(usages, trigger, now));
    let candidate = if all_weekly(usages, now) && redeem_weekly {
        ranking::leader(credit_ranks(usages, now))
    } else {
        None
    };
    if 0 <= current < usages.len() && usages[current].usable_at(now) {
        DecisionModel::Use(current)
    } else if best is Some {
        DecisionModel::Use(best->0)
    } else if candidate is Some {
        DecisionModel::Redeem(candidate->0, usages[candidate->0].earliest(now)->0.id)
    } else {
        DecisionModel::Wait(
            wait_reason(usages, now),
            next_check(usages, now, now + CHECK_SECONDS) as i64,
        )
    }
}

/// Whether a window counts for what the usage was read for.
fn applicable(usage: &ManagedAccountUsage, limit: &AccountQuotaWindow) -> (answer: bool)
    ensures
        answer == usage@.covers(limit@),
{
    if text::same_text(limit.limit_id.as_str(), "codex") {
        return true;
    }
    match &usage.model {
        Some(model) => {
            text::same_opt(&limit.model, &usage.model) || text::same_text(
                limit.limit_id.as_str(),
                model.as_str(),
            )
        },
        None => true,
    }
}

/// Whether a window has the given length.
fn is_of_kind(window: &AccountQuotaWindow, kind: WindowKind) -> (answer: bool)
    ensures
        answer == window@.of_kind(kind),
{
    match kind {
        WindowKind::Weekly => window.window_minutes > DAY_MINUTES,
        WindowKind::Short => window.window_minutes <= DAY_MINUTES,
    }
}

/// Whether an observation is complete and fresh enough to act on.
///
/// Some plans expose only one ordinary quota window. The windows that the backend reports are
/// validated; both a short and a weekly one are not required.
pub fn known(usage: &ManagedAccountUsage, now: i64) -> (answer: bool)
    ensures
        answer == usage@.known_at(now),
{
    let age: i128 = now as i128 - usage.checked_at as i128;
    if usage.error.is_some() || age < 0 || age > FRESH_SECONDS as i128
        || usage.ordinary_usage_allowed.is_none() {
        return false;
    }
    if usage.model.is_some() {
        match usage.model_supported {
            Some(true) => {},
            _ => {
                return false;
            },
        }
    }
    let mut ordinary: bool = false;
    let mut i: usize = 0;
    while i < usage.windows.len()
        invariant
            i <= usage.windows.len(),
            ordinary <==> exists|j: int|
                0 <= j < i && #[trigger] usage@.windows[j].limit_id == "codex"@,
            forall|j: int|
                0 <= j < i && usage@.covers(#[trigger] usage@.windows[j])
                    ==> usage@.windows[j].sound(),
        decreases usage.windows.len() - i,
    {
        let window: &AccountQuotaWindow = &usage.windows[i];
        assert(window@ == usage@.windows[i as int]);
        if text::same_text(window.limit_id.as_str(), "codex") {
            ordinary = true;
        }
        if applicable(usage, window) && !(window.window_minutes > 0
            && window.remaining_percent.is_in_range()) {
            return false;
        }
        i = i + 1;
    }
    ordinary
}

/// Whether some window of the given length that counts is exhausted.
pub fn blocked(usage: &ManagedAccountUsage, kind: WindowKind) -> (answer: bool)
    ensures
        answer == usage@.blocked_by(kind),
{
    let mut i: usize = 0;
    while i < usage.windows.len()
        invariant
            i <= usage.windows.len(),
            forall|j: int|
                0 <= j < i ==> !(usage@.covers(#[trigger] usage@.windows[j])
                    && usage@.windows[j].remaining_percent.spent() && usage@.windows[j].of_kind(
                    kind,
                )),
        decreases usage.windows.len() - i,
    {
        let window: &AccountQuotaWindow = &usage.windows[i];
        assert(window@ == usage@.windows[i as int]);
        if applicable(usage, window) && window.remaining_percent.is_spent() && is_of_kind(
            window,
            kind,
        ) {
            return true;
        }
        i = i + 1;
    }
    false
}

/// Whether the account is known to accept requests.
pub fn usable(usage: &ManagedAccountUsage, now: i64) -> (answer: bool)
    ensures
        answer == usage@.usable_at(now),
{
    let allowed: bool = match usage.ordinary_usage_allowed {
        Some(true) => true,
        _ => false,
    };
    allowed && known(usage, now) && !blocked(usage, WindowKind::Weekly) && !blocked(
        usage,
        WindowKind::Short,
    )
}

/// The live credit that expires first; of several, the first listed.
pub fn earliest_credit(usage: &ManagedAccountUsage, now: i64) -> (credit: Option<&BankedReset>)
    ensures
        (match credit {
            Some(credit) => Some(credit@),
            None => None,
        }) == usage@.earliest(now),
{
    let credits: &Vec<BankedReset> = match &usage.resets {
        Some(credits) => credits,
        None => {
            return None;
        },
    };
    let mut ranks: Vec<Option<i64>> = Vec::new();
    let mut i: usize = 0;
    while i < credits.len()
        invariant
            i <= credits.len(),
            ranks.len() == i,
            forall|j: int|
                0 <= j < i ==> ranking::ints(ranks@)[j] == #[trigger] expiry_ranks(
                    text::views(credits@),
                    now,
                )[j],
        decreases credits.len() - i,
    {
        let ghost before = ranks@;
        let expiry: i64 = match credits[i].expires_at {
            Some(expiry) => expiry,
            None => i64::MAX,
        };
        if credits[i].is_live(now) {
            ranks.push(Some(-1 - expiry));
        } else {
            ranks.push(None);
        }
        proof {
            let want = expiry_ranks(text::views(credits@), now);
            assert forall|j: int| 0 <= j < i + 1 implies ranking::ints(ranks@)[j]
                == #[trigger] want[j] by {
                if j < i {
                    assert(ranking::ints(before)[j] == want[j]);
                    assert(ranking::ints(ranks@)[j] == ranking::ints(before)[j]);
                }
            }
        }
        i = i + 1;
    }
    assert(ranking::ints(ranks@) =~= expiry_ranks(text::views(credits@), now));
    match ranking::lead(&ranks) {
        Some(first) => Some(&credits[first]),
        None => None,
    }
}

/// The least remaining percentage of the windows of the given length that count.
fn least_remaining(usage: &ManagedAccountUsage, kind: WindowKind) -> (least: i64)
    ensures
        least == usage@.remaining(kind),
{
    let mut least: i64 = HUNDRED as i64;
    let ghost keys = usage@.remaining_keys(kind);
    let mut i: usize = 0;
    while i < usage.windows.len()
        invariant
            i <= usage.windows.len(),
            keys == usage@.remaining_keys(kind),
            least == ranking::lowest(HUNDRED as int, keys.take(i as int)),
        decreases usage.windows.len() - i,
    {
        let window: &AccountQuotaWindow = &usage.windows[i];
        assert(window@ == usage@.windows[i as int]);
        assert(keys.take(i + 1).drop_last() =~= keys.take(i as int));
        proof {
            ranking::lemma_lowest(HUNDRED as int, keys.take(i as int));
        }
        if applicable(usage, window) && is_of_kind(window, kind) {
            let key: i64 = window.remaining_percent.rank();
            if key < least {
                least = key;
            }
        }
        i = i + 1;
    }
    assert(keys.take(i as int) =~= keys);
    least
}

/// The earliest reset of a usage that is still to come, within `limit`.
fn next_reset(usage: &ManagedAccountUsage, now: i64, limit: i64) -> (next: i64)
    ensures
        next == usage@.next_reset(now, limit as int),
{
    let ghost resets = Seq::new(
        usage@.windows.len(),
        |i: int| usage@.windows[i].reset_or(now, limit as int),
    );
    let mut next: i64 = limit;
    let mut i: usize = 0;
    while i < usage.windows.len()
        invariant
            i <= usage.windows.len(),
            resets == Seq::new(
                usage@.windows.len(),
                |i: int| usage@.windows[i].reset_or(now, limit as int),
            ),
            next == ranking::lowest(limit as int, resets.take(i as int)),
        decreases usage.windows.len() - i,
    {
        let window: &AccountQuotaWindow = &usage.windows[i];
        assert(window@ == usage@.windows[i as int]);
        assert(resets.take(i + 1).drop_last() =~= resets.take(i as int));
        proof {
            ranking::lemma_lowest(limit as int, resets.take(i as int));
        }
        if let Some(reset) = window.resets_at {
            if reset > now && reset < next {
                next = reset;
            }
        }
        i = i + 1;
    }
    assert(resets.take(i as int) =~= resets);
    next
}

/// The earliest reset still to come of any account, within `limit`.
pub fn next_check_within(usages: &[ManagedAccountUsage], now: i64, limit: i64) -> (next: i64)
    ensures
        next == next_check(text::views(usages@), now, limit as int),
{
    let ghost models = text::views(usages@);
    let ghost resets = Seq::new(models.len(), |i: int| models[i].next_reset(now, limit as int));
    let mut next: i64 = limit;
    let mut i: usize = 0;
    while i < usages.len()
        invariant
            i <= usages.len(),
            models == text::views(usages@),
            resets == Seq::new(models.len(), |i: int| models[i].next_reset(now, limit as int)),
            next == ranking::lowest(limit as int, resets.take(i as int)),
        decreases usages.len() - i,
    {
        assert(resets.take(i + 1).drop_last() =~= resets.take(i as int));
        let reset: i64 = next_reset(&usages[i], now, limit);
        assert(models[i as int] == usages@[i as int]@);
        if reset < next {
            next = reset;
        }
        i = i + 1;
    }
    assert(resets.take(i as int) =~= resets);
    next
}

/// The usable account with the most quota left; of several, the first.
fn best_account(usages: &[ManagedAccountUsage], trigger: WindowKind, now: i64) -> (best: Option<
    usize,
>)
    ensures
        (match best {
            Some(i) => Some(i as int),
            None => None,
        }) == ranking::leader(quota_ranks(text::views(usages@), trigger, now)),
        best matches Some(i) ==> i < usages.len(),
{
    let mut ranks: Vec<Option<i64>> = Vec::new();
    let ghost want = quota_ranks(text::views(usages@), trigger, now);
    let mut i: usize = 0;
    while i < usages.len()
        invariant
            i <= usages.len(),
            ranks.len() == i,
            want == quota_ranks(text::views(usages@), trigger, now),
            forall|j: int|
                0 <= j < i ==> #[trigger] want[j] == (match ranks@[j] {
                    Some(rank) => Some(rank as int),
                    None => None,
                }),
        decreases usages.len() - i,
    {
        assert(text::views(usages@)[i as int] == usages@[i as int]@);
        let rank: Option<i64> = if usable(&usages[i], now) {
            Some(least_remaining(&usages[i], trigger))
        } else {
            None
        };
        ranks.push(rank);
        i = i + 1;
    }
    assert(ranking::ints(ranks@) =~= want);
    ranking::lead(&ranks)
}

/// The eligible account with a live credit that has the most resets banked; of several, the first.
fn richest_account(usages: &[ManagedAccountUsage], now: i64) -> (richest: Option<usize>)
    ensures
        (match richest {
            Some(i) => Some(i as int),
            None => None,
        }) == ranking::leader(credit_ranks(text::views(usages@), now)),
        richest matches Some(i) ==> i < usages.len() && usages@[i as int]@.earliest(now) is Some,
{
    let mut ranks: Vec<Option<i64>> = Vec::new();
    let ghost want = credit_ranks(text::views(usages@), now);
    let mut i: usize = 0;
    while i < usages.len()
        invariant
            i <= usages.len(),
            ranks.len() == i,
            want == credit_ranks(text::views(usages@), now),
            forall|j: int|
                0 <= j < i ==> #[trigger] want[j] == (match ranks@[j] {
                    Some(rank) => Some(rank as int),
                    None => None,
                }),
        decreases usages.len() - i,
    {
        assert(text::views(usages@)[i as int] == usages@[i as int]@);
        let usage: &ManagedAccountUsage = &usages[i];
        let eligible: bool = is_eligible(usage);
        let credit: Option<&BankedReset> = earliest_credit(usage, now);
        let rank: Option<i64> = match usage.available_resets {
            Some(count) => if eligible && credit.is_some() && count > 0 {
                Some(count)
            } else {
                None
            },
            None => None,
        };
        ranks.push(rank);
        i = i + 1;
    }
    assert(ranking::ints(ranks@) =~= want);
    let richest: Option<usize> = ranking::lead(&ranks);
    proof {
        if let Some(i) = richest {
            assert(want[i as int] is Some);
            assert(text::views(usages@)[i as int] == usages@[i as int]@);
        }
    }
    richest
}

/// Whether the account may serve the session's model.
fn is_eligible(usage: &ManagedAccountUsage) -> (answer: bool)
    ensures
        answer == usage@.eligible(),
{
    match usage.model_supported {
        Some(false) => false,
        _ => true,
    }
}

/// Whether no account is eligible, or an eligible one cannot be judged.
fn is_unknown(usages: &[ManagedAccountUsage], now: i64) -> (answer: bool)
    ensures
        answer == unknown(text::views(usages@), now),
{
    let ghost models = text::views(usages@);
    let mut any: bool = false;
    let mut i: usize = 0;
    while i < usages.len()
        invariant
            i <= usages.len(),
            models == text::views(usages@),
            any <==> exists|j: int| 0 <= j < i && (#[trigger] models[j]).eligible(),
            forall|j: int|
                0 <= j < i && (#[trigger] models[j]).eligible() ==> models[j].known_at(now),
        decreases usages.len() - i,
    {
        assert(models[i as int] == usages@[i as int]@);
        if is_eligible(&usages[i]) {
            any = true;
            if !known(&usages[i], now) {
                return true;
            }
        }
        i = i + 1;
    }
    !any
}

/// Whether every eligible account is known to have exhausted a weekly window.
fn is_all_weekly(usages: &[ManagedAccountUsage], now: i64) -> (answer: bool)
    ensures
        answer == all_weekly(text::views(usages@), now),
{
    if is_unknown(usages, now) {
        return false;
    }
    let ghost models = text::views(usages@);
    let mut i: usize = 0;
    while i < usages.len()
        invariant
            i <= usages.len(),
            models == text::views(usages@),
            forall|j: int|
                0 <= j < i && (#[trigger] models[j]).eligible() ==> models[j].blocked_by(
                    WindowKind::Weekly,
                ),
        decreases usages.len() - i,
    {
        assert(models[i as int] == usages@[i as int]@);
        if is_eligible(&usages[i]) && !blocked(&usages[i], WindowKind::Weekly) {
            return false;
        }
        i = i + 1;
    }
    true
}

/// Decides what a session does next.
pub fn decide(
    usages: &[ManagedAccountUsage],
    current: usize,
    trigger: WindowKind,
    redeem_weekly: bool,
    now: i64,
) -> (made: Decision)
    requires
        now + CHECK_SECONDS <= i64::MAX,
    ensures
        made@ == decision(text::views(usages@), current as int, trigger, redeem_weekly, now),
        made matches Decision::Use(index) ==> index < usages.len(),
        made matches Decision::Redeem(index, _) ==> index < usages.len(),
{
    let ghost models = text::views(usages@);
    if current < usages.len() {
        assert(models[current as int] == usages@[current as int]@);
        if usable(&usages[current], now) {
            return Decision::Use(current);
        }
    }
    if let Some(index) = best_account(usages, trigger, now) {
        return Decision::Use(index);
    }
    let weekly: bool = is_all_weekly(usages, now);
    if weekly && redeem_weekly {
        if let Some(index) = richest_account(usages, now) {
            assert(models[index as int] == usages@[index as int]@);
            if let Some(credit) = earliest_credit(&usages[index], now) {
                return Decision::Redeem(index, credit.id.clone());
            }
        }
    }
    let reason: PoolWaitReason = if is_unknown(usages, now) {
        PoolWaitReason::UnknownAvailability
    } else if weekly {
        PoolWaitReason::WeeklyQuota
    } else {
        PoolWaitReason::ShortWindow
    };
    Decision::Wait(reason, next_check_within(usages, now, now + CHECK_SECONDS))
}

/// The next check lies after `now` and within the limit; it is the limit or a reset that a window
/// advertises, and no advertised reset still to come is missed.
pub proof fn lemma_next_check(usages: Seq<UsageModel>, now: i64, limit: int)
    requires
        now < limit,
    ensures
        now < next_check(usages, now, limit) <= limit,
        next_check(usages, now, limit) == limit || exists|i: int, j: int|
            0 <= i < usages.len() && 0 <= j < usages[i].windows.len()
                && #[trigger] usages[i].windows[j].resets_at is Some
                && usages[i].windows[j].resets_at->0 == next_check(usages, now, limit),
        forall|i: int, j: int|
            0 <= i < usages.len() && 0 <= j < usages[i].windows.len()
                && #[trigger] usages[i].windows[j].resets_at is Some
                && usages[i].windows[j].resets_at->0 > now ==> next_check(usages, now, limit)
                <= usages[i].windows[j].resets_at->0,
{
    let next = next_check(usages, now, limit);
    let outer = Seq::new(usages.len(), |i: int| usages[i].next_reset(now, limit));
    ranking::lemma_lowest(limit, outer);
    assert forall|i: int| 0 <= i < usages.len() implies {
        &&& now < #[trigger] outer[i] <= limit
        &&& outer[i] == limit || exists|j: int|
            0 <= j < usages[i].windows.len() && #[trigger] usages[i].windows[j].resets_at is Some
                && usages[i].windows[j].resets_at->0 == outer[i]
        &&& forall|j: int|
            0 <= j < usages[i].windows.len() && #[trigger] usages[i].windows[j].resets_at is Some
                && usages[i].windows[j].resets_at->0 > now ==> outer[i]
                <= usages[i].windows[j].resets_at->0
    } by {
        let windows = usages[i].windows;
        let inner = Seq::new(windows.len(), |j: int| windows[j].reset_or(now, limit));
        ranking::lemma_lowest(limit, inner);
        if outer[i] != limit {
            let j = choose|j: int| 0 <= j < inner.len() && #[trigger] inner[j] == outer[i];
            assert(usages[i].windows[j].resets_at is Some);
        }
        assert forall|j: int|
            0 <= j < usages[i].windows.len() && #[trigger] usages[i].windows[j].resets_at is Some
                && usages[i].windows[j].resets_at->0 > now implies outer[i]
            <= usages[i].windows[j].resets_at->0 by {
            assert(inner[j] == windows[j].reset_or(now, limit));
        }
    }
    if next != limit {
        let i = choose|i: int| 0 <= i < outer.len() && #[trigger] outer[i] == next;
        let j = choose|j: int|
            0 <= j < usages[i].windows.len() && #[trigger] usages[i].windows[j].resets_at is Some
                && usages[i].windows[j].resets_at->0 == outer[i];
        assert(usages[i].windows[j].resets_at is Some);
    }
    assert forall|i: int, j: int|
        0 <= i < usages.len() && 0 <= j < usages[i].windows.len()
            && #[trigger] usages[i].windows[j].resets_at is Some
            && usages[i].windows[j].resets_at->0 > now implies next
        <= usages[i].windows[j].resets_at->0 by {
        assert(next <= outer[i]);
    }
}

/// A session stays on its account for as long as that account is usable.
pub proof fn law_usable_account_is_kept(
    usages: Seq<UsageModel>,
    current: int,
    trigger: WindowKind,
    redeem_weekly: bool,
    now: i64,
)
    requires
        0 <= current < usages.len(),
        usages[current].usable_at(now),
    ensures
        decision(usages, current, trigger, redeem_weekly, now) == DecisionModel::Use(current),
{
}

/// A decision to use an account always names one that is usable, and one is used whenever any is.
pub proof fn law_usable_account_is_used(
    usages: Seq<UsageModel>,
    current: int,
    trigger: WindowKind,
    redeem_weekly: bool,
    now: i64,
)
    ensures
        decision(usages, current, trigger, redeem_weekly, now) matches DecisionModel::Use(i) ==> 0
            <= i < usages.len() && usages[i].usable_at(now),
        (exists|i: int| 0 <= i < usages.len() && (#[trigger] usages[i]).usable_at(now))
            <==> decision(usages, current, trigger, redeem_weekly, now) is Use,
{
    let ranks = quota_ranks(usages, trigger, now);
    ranking::lemma_leader_exists(ranks);
    match ranking::leader(ranks) {
        Some(i) => {
            assert(ranks[i] is Some);
            assert(usages[i].usable_at(now));
        },
        None => {
            assert forall|i: int| 0 <= i < usages.len() implies !(#[trigger] usages[i]).usable_at(
                now,
            ) by {
                assert(ranks[i] is None);
            }
        },
    }
}

/// The account that a switch lands on has the most quota left of all usable accounts, and comes
/// first among its equals in pool order.
pub proof fn law_most_quota_first_wins(
    usages: Seq<UsageModel>,
    current: int,
    trigger: WindowKind,
    redeem_weekly: bool,
    now: i64,
    other: int,
)
    requires
        !(0 <= current < usages.len() && usages[current].usable_at(now)),
        decision(usages, current, trigger, redeem_weekly, now) is Use,
        0 <= other < usages.len(),
        usages[other].usable_at(now),
    ensures
        ({
            let chosen = decision(usages, current, trigger, redeem_weekly, now)->Use_0;
            usages[other].remaining(trigger) < usages[chosen].remaining(trigger) || (
            usages[other].remaining(trigger) == usages[chosen].remaining(trigger) && chosen
                <= other)
        }),
{
    let ranks = quota_ranks(usages, trigger, now);
    ranking::lemma_leader_exists(ranks);
    assert(ranks[other] is Some);
    let chosen = ranking::leader(ranks)->0;
    assert(ranks[chosen] is Some);
}

/// A credit is spent only where the pool allows it and every eligible account is known, fresh and
/// weekly exhausted; never on an unknown or stale observation, and never for a short window.
pub proof fn law_credit_needs_whole_pool_weekly_exhausted(
    usages: Seq<UsageModel>,
    current: int,
    trigger: WindowKind,
    redeem_weekly: bool,
    now: i64,
)
    requires
        decision(usages, current, trigger, redeem_weekly, now) is Redeem,
    ensures
        redeem_weekly,
        exists|i: int| 0 <= i < usages.len() && (#[trigger] usages[i]).eligible(),
        forall|i: int|
            0 <= i < usages.len() && (#[trigger] usages[i]).eligible() ==> usages[i].known_at(now)
                && usages[i].fresh(now) && usages[i].blocked_by(WindowKind::Weekly)
                && !usages[i].usable_at(now),
{
}

/// The credit that is spent belongs to an eligible account with the most resets banked, the first
/// of its equals, and is a live credit of that account that expires no later than any other.
pub proof fn law_credit_comes_from_most_resets(
    usages: Seq<UsageModel>,
    current: int,
    trigger: WindowKind,
    redeem_weekly: bool,
    now: i64,
)
    requires
        decision(usages, current, trigger, redeem_weekly, now) is Redeem,
    ensures
        ({
            let spent = decision(usages, current, trigger, redeem_weekly, now);
            let chosen = spent->Redeem_0;
            let credit = usages[chosen].earliest(now)->0;
            &&& 0 <= chosen < usages.len()
            &&& usages[chosen].eligible()
            &&& usages[chosen].available_resets is Some
            &&& usages[chosen].available_resets->0 > 0
            &&& usages[chosen].earliest(now) is Some
            &&& spent->Redeem_1 == credit.id
            &&& credit.live(now)
            &&& usages[chosen].resets->0.contains(credit)
            &&& forall|i: int|
                0 <= i < usages[chosen].resets->0.len()
                    && (#[trigger] usages[chosen].resets->0[i]).live(now) ==> expires(credit)
                    <= expires(usages[chosen].resets->0[i])
            &&& forall|i: int|
                0 <= i < usages.len() && (#[trigger] usages[i]).eligible() && usages[i].earliest(
                    now,
                ) is Some && usages[i].available_resets is Some && usages[i].available_resets->0 > 0
                    ==> usages[i].available_resets->0 < usages[chosen].available_resets->0 || (
                usages[i].available_resets->0 == usages[chosen].available_resets->0 && chosen <= i)
        }),
{
    let ranks = credit_ranks(usages, now);
    ranking::lemma_leader_exists(ranks);
    let chosen = ranking::leader(ranks)->0;
    assert(ranks[chosen] is Some);
    let credits = usages[chosen].resets->0;
    let expiries = expiry_ranks(credits, now);
    ranking::lemma_leader_exists(expiries);
    let first = ranking::leader(expiries)->0;
    assert(expiries[first] is Some);
    assert forall|i: int| 0 <= i < credits.len() && (#[trigger] credits[i]).live(now) implies expires(
        credits[first],
    ) <= expires(credits[i]) by {
        assert(expiries[i] is Some);
    }
    assert forall|i: int|
        0 <= i < usages.len() && (#[trigger] usages[i]).eligible() && usages[i].earliest(
            now,
        ) is Some && usages[i].available_resets is Some && usages[i].available_resets->0
            > 0 implies usages[i].available_resets->0 < usages[chosen].available_resets->0 || (
    usages[i].available_resets->0 == usages[chosen].available_resets->0 && chosen <= i) by {
        assert(ranks[i] is Some);
    }
}

/// When a credit expires; one without a date comes last.
pub open spec fn expires(credit: ResetModel) -> int {
    match credit.expires_at {
        Some(expiry) => expiry as int,
        None => i64::MAX as int,
    }
}

/// A wait ends after `now` and within a minute, and at the first reset still to come that any
/// window advertises within that minute.
pub proof fn law_wait_ends_within_a_minute(
    usages: Seq<UsageModel>,
    current: int,
    trigger: WindowKind,
    redeem_weekly: bool,
    now: i64,
)
    requires
        now + CHECK_SECONDS <= i64::MAX,
        decision(usages, current, trigger, redeem_weekly, now) is Wait,
    ensures
        ({
            let next = decision(usages, current, trigger, redeem_weekly, now)->Wait_1;
            &&& now < next <= now + CHECK_SECONDS
            &&& forall|i: int, j: int|
                0 <= i < usages.len() && 0 <= j < usages[i].windows.len()
                    && #[trigger] usages[i].windows[j].resets_at is Some
                    && usages[i].windows[j].resets_at->0 > now ==> next
                    <= usages[i].windows[j].resets_at->0
        }),
{
    lemma_next_check(usages, now, now + CHECK_SECONDS);
}

/// An account that is not known to serve the session's model is never used and never reset for.
pub proof fn law_model_must_be_supported(
    usages: Seq<UsageModel>,
    current: int,
    trigger: WindowKind,
    redeem_weekly: bool,
    now: i64,
)
    ensures
        match decision(usages, current, trigger, redeem_weekly, now) {
            DecisionModel::Use(i) => usages[i].model is Some ==> usages[i].model_supported == Some(
                true,
            ),
            DecisionModel::Redeem(i, _) => usages[i].model is Some ==> usages[i].model_supported
                == Some(true),
            DecisionModel::Wait(_, _) => true,
        },
{
    law_usable_account_is_used(usages, current, trigger, redeem_weekly, now);
    if decision(usages, current, trigger, redeem_weekly, now) is Redeem {
        law_credit_comes_from_most_resets(usages, current, trigger, redeem_weekly, now);
    }
}

/// The windows that count for a reading are the ordinary ones and those of the model that it was
/// made for; a reading without a model counts every window.
pub proof fn law_windows_that_count(usage: UsageModel, window: WindowModel)
    ensures
        usage.covers(window) <==> {
            ||| window.limit_id == seq!['c', 'o', 'd', 'e', 'x']
            ||| usage.model is None
            ||| window.model is Some && window.model == usage.model
            ||| Some(window.limit_id) == usage.model
        },
{
    reveal_strlit("codex");
    assert("codex"@ =~= seq!['c', 'o', 'd', 'e', 'x']);
}

/// A reading can be acted on exactly where it is at most ninety seconds old and not from the
/// future, no part of it failed, the model it was made for is served, an ordinary window is
/// reported, and every window that counts has a length and a percentage from zero to one hundred.
pub proof fn law_reading_is_known(usage: UsageModel, now: i64)
    ensures
        usage.known_at(now) <==> {
            &&& usage.error is None
            &&& usage.checked_at <= now <= usage.checked_at + 90
            &&& usage.ordinary_usage_allowed is Some
            &&& usage.model is Some ==> usage.model_supported == Some(true)
            &&& exists|i: int|
                0 <= i < usage.windows.len() && #[trigger] usage.windows[i].limit_id
                    == "codex"@
            &&& forall|i: int|
                0 <= i < usage.windows.len() && usage.covers(#[trigger] usage.windows[i]) ==> {
                    let percent = usage.windows[i].remaining_percent;
                    &&& usage.windows[i].window_minutes >= 1
                    &&& percent.bits < percent::SIGN || percent.bits == percent::SIGN
                    &&& percent::magnitude_value(percent.magnitude()) <= 100 * percent::one()
                }
        },
{
    assert forall|i: int| 0 <= i < usage.windows.len() implies {
        let percent = (#[trigger] usage.windows[i]).remaining_percent;
        percent.in_range() <==> {
            &&& percent.bits < percent::SIGN || percent.bits == percent::SIGN
            &&& percent::magnitude_value(percent.magnitude()) <= 100 * percent::one()
        }
    } by {
        percent::law_range_is_zero_to_one_hundred(usage.windows[i].remaining_percent);
    }
}

/// An account is usable exactly where its reading can be acted on, ordinary usage is allowed, and
/// every window that counts, however long, has more than nothing left.
pub proof fn law_usable_has_quota_in_every_window(usage: UsageModel, now: i64)
    ensures
        usage.usable_at(now) <==> {
            &&& usage.known_at(now)
            &&& usage.ordinary_usage_allowed == Some(true)
            &&& forall|i: int|
                0 <= i < usage.windows.len() && usage.covers(#[trigger] usage.windows[i])
                    ==> usage.windows[i].remaining_percent.key() > 0
        },
{
    assert forall|i: int|
        0 <= i < usage.windows.len() && usage.covers(#[trigger] usage.windows[i])
            && usage.usable_at(now) implies usage.windows[i].remaining_percent.key() > 0 by {
        if usage.windows[i].window_minutes > 1440 {
            assert(usage.windows[i].of_kind(WindowKind::Weekly));
        } else {
            assert(usage.windows[i].of_kind(WindowKind::Short));
        }
    }
}

/// An account is exhausted for a length of windows exactly where some window that counts, longer
/// than a day or not, has nothing left.
pub proof fn law_exhausted_window_blocks(usage: UsageModel, long: bool)
    ensures
        usage.blocked_by(
            if long {
                WindowKind::Weekly
            } else {
                WindowKind::Short
            },
        ) <==> exists|i: int|
            0 <= i < usage.windows.len() && usage.covers(#[trigger] usage.windows[i]) && (
            usage.windows[i].window_minutes > 1440) == long
                && !usage.windows[i].remaining_percent.nan()
                && usage.windows[i].remaining_percent.key() <= 0,
{
}

/// The quota that an account is ranked by is at most one hundred percent and at most what any
/// window that counts and has the length has left; and it is one of these.
pub proof fn law_ranked_by_the_least_left(usage: UsageModel, long: bool)
    ensures
        ({
            let ranked = usage.remaining(
                if long {
                    WindowKind::Weekly
                } else {
                    WindowKind::Short
                },
            );
            &&& ranked <= HUNDRED
            &&& forall|i: int|
                0 <= i < usage.windows.len() && (usage.windows[i].limit_id == "codex"@
                    || usage.model is None || usage.windows[i].model == usage.model || Some(
                    usage.windows[i].limit_id,
                ) == usage.model) && (usage.windows[i].window_minutes > 1440) == long ==> ranked
                    <= (#[trigger] usage.windows[i]).remaining_percent.key()
            &&& ranked == HUNDRED || exists|i: int|
                0 <= i < usage.windows.len() && (usage.windows[i].limit_id == "codex"@
                    || usage.model is None || usage.windows[i].model == usage.model || Some(
                    usage.windows[i].limit_id,
                ) == usage.model) && (usage.windows[i].window_minutes > 1440) == long && ranked
                    == (#[trigger] usage.windows[i]).remaining_percent.key()
        }),
{
    let kind = if long {
        WindowKind::Weekly
    } else {
        WindowKind::Short
    };
    let keys = usage.remaining_keys(kind);
    ranking::lemma_lowest(HUNDRED as int, keys);
    assert forall|i: int| 0 <= i < usage.windows.len() implies #[trigger] keys[i] == (if usage.covers(
        usage.windows[i],
    ) && (usage.windows[i].window_minutes > 1440) == long {
        usage.windows[i].remaining_percent.key()
    } else {
        HUNDRED as int
    }) by {}
    assert forall|i: int|
        0 <= i < usage.windows.len() && usage.covers(usage.windows[i]) && (
        usage.windows[i].window_minutes > 1440) == long implies usage.remaining(kind)
        <= (#[trigger] usage.windows[i]).remaining_percent.key() by {
        assert(keys[i] == usage.windows[i].remaining_percent.key());
    }
    if usage.remaining(kind) != HUNDRED {
        let i = choose|i: int|
            0 <= i < keys.len() && #[trigger] keys[i] == usage.remaining(kind);
        assert(usage.windows[i].remaining_percent.key() == usage.remaining(kind));
    }
}

/// The reading with one more window.
pub open spec fn with_window(usage: UsageModel, window: WindowModel) -> UsageModel {
    UsageModel { windows: usage.windows.push(window), ..usage }
}

/// A window of another model says nothing about an account: with it or without it, the account is
/// known, exhausted, usable and ranked alike.
proof fn lemma_other_window(usage: UsageModel, window: WindowModel, now: i64)
    requires
        usage.model is Some,
        window.limit_id != "codex"@,
        Some(window.limit_id) != usage.model,
        window.model != usage.model,
    ensures
        with_window(usage, window).known_at(now) == usage.known_at(now),
        forall|kind: WindowKind| #[trigger]
            with_window(usage, window).blocked_by(kind) == usage.blocked_by(kind),
        with_window(usage, window).usable_at(now) == usage.usable_at(now),
        forall|kind: WindowKind| #[trigger]
            with_window(usage, window).remaining(kind) == usage.remaining(kind),
{
    let more = with_window(usage, window);
    let last = usage.windows.len() as int;
    assert(more.windows[last] == window);
    assert forall|i: int| 0 <= i < last implies #[trigger] more.windows[i] == usage.windows[i] by {}
    assert forall|i: int| 0 <= i < more.windows.len() && more.covers(more.windows[i]) implies i
        < last by {}
    if usage.known_at(now) {
        let i = choose|i: int|
            0 <= i < usage.windows.len() && #[trigger] usage.windows[i].limit_id == "codex"@;
        assert(more.windows[i].limit_id == "codex"@);
        assert(more.known_at(now));
    }
    if more.known_at(now) {
        let i = choose|i: int|
            0 <= i < more.windows.len() && #[trigger] more.windows[i].limit_id == "codex"@;
        assert(usage.windows[i].limit_id == "codex"@);
        assert forall|i: int|
            0 <= i < usage.windows.len() && usage.covers(
                #[trigger] usage.windows[i],
            ) implies usage.windows[i].sound() by {
            assert(more.covers(more.windows[i]));
        }
        assert(usage.known_at(now));
    }
    assert forall|kind: WindowKind| #[trigger] more.blocked_by(kind) == usage.blocked_by(kind) by {
        if usage.blocked_by(kind) {
            let i = choose|i: int|
                0 <= i < usage.windows.len() && usage.covers(#[trigger] usage.windows[i])
                    && usage.windows[i].remaining_percent.spent() && usage.windows[i].of_kind(kind);
            assert(more.covers(more.windows[i]));
        }
        if more.blocked_by(kind) {
            let i = choose|i: int|
                0 <= i < more.windows.len() && more.covers(#[trigger] more.windows[i])
                    && more.windows[i].remaining_percent.spent() && more.windows[i].of_kind(kind);
            assert(usage.covers(usage.windows[i]));
        }
    }
    assert forall|kind: WindowKind| #[trigger] more.remaining(kind) == usage.remaining(kind) by {
        let keys = more.remaining_keys(kind);
        assert(keys.drop_last() =~= usage.remaining_keys(kind));
        assert(keys.last() == HUNDRED as int);
        ranking::lemma_lowest(HUNDRED as int, usage.remaining_keys(kind));
    }
}

/// A window of another model changes no choice between usable accounts: with it in a reading or
/// without it, the same account is used.
pub proof fn law_other_models_do_not_count(
    usages: Seq<UsageModel>,
    current: int,
    trigger: WindowKind,
    redeem_weekly: bool,
    now: i64,
    i: int,
    window: WindowModel,
)
    requires
        0 <= i < usages.len(),
        usages[i].model is Some,
        window.limit_id != "codex"@,
        Some(window.limit_id) != usages[i].model,
        window.model != usages[i].model,
        decision(usages, current, trigger, redeem_weekly, now) is Use,
    ensures
        decision(
            usages.update(i, with_window(usages[i], window)),
            current,
            trigger,
            redeem_weekly,
            now,
        ) == decision(usages, current, trigger, redeem_weekly, now),
{
    let more = usages.update(i, with_window(usages[i], window));
    lemma_other_window(usages[i], window, now);
    assert(quota_ranks(more, trigger, now) =~= quota_ranks(usages, trigger, now));
}

/// A credit is spent wherever one may be: where no account is usable, the pool allows it, every
/// eligible account is known to have exhausted a weekly window, and some eligible account has a
/// reset banked and a live credit. Nothing short of that spends one.
pub proof fn law_credit_is_spent_where_it_may_be(
    usages: Seq<UsageModel>,
    current: int,
    trigger: WindowKind,
    redeem_weekly: bool,
    now: i64,
)
    ensures
        decision(usages, current, trigger, redeem_weekly, now) is Redeem <==> {
            &&& redeem_weekly
            &&& forall|i: int|
                0 <= i < usages.len() ==> (#[trigger] usages[i]).model_supported == Some(false)
                    || (usages[i].known_at(now) && usages[i].blocked_by(WindowKind::Weekly))
            &&& forall|i: int| 0 <= i < usages.len() ==> !(#[trigger] usages[i]).usable_at(now)
            &&& exists|i: int, k: int|
                {
                    &&& 0 <= i < usages.len()
                    &&& usages[i].model_supported != Some(false)
                    &&& usages[i].available_resets is Some
                    &&& usages[i].available_resets->0 >= 1
                    &&& usages[i].resets is Some
                    &&& 0 <= k < usages[i].resets->0.len()
                    &&& (#[trigger] usages[i].resets->0[k]).expires_at is None
                        || usages[i].resets->0[k].expires_at->0 > now
                }
        },
{
    let ranks = credit_ranks(usages, now);
    ranking::lemma_leader_exists(ranks);
    law_usable_account_is_used(usages, current, trigger, redeem_weekly, now);
    assert forall|i: int| 0 <= i < usages.len() && usages[i].resets is Some implies {
        (#[trigger] usages[i]).earliest(now) is Some <==> exists|k: int|
            0 <= k < usages[i].resets->0.len() && (#[trigger] usages[i].resets->0[k]).live(now)
    } by {
        let credits = usages[i].resets->0;
        let expiries = expiry_ranks(credits, now);
        ranking::lemma_leader_exists(expiries);
        if let Some(k) = ranking::leader(expiries) {
            assert(expiries[k] is Some);
            assert(credits[k].live(now));
        } else {
            assert forall|k: int| 0 <= k < credits.len() implies !(#[trigger] credits[k]).live(
                now,
            ) by {
                assert(expiries[k] is None);
            }
        }
    }
    let made = decision(usages, current, trigger, redeem_weekly, now);
    if made is Redeem {
        let i = ranking::leader(ranks)->0;
        assert(ranks[i] is Some);
        let k = choose|k: int|
            0 <= k < usages[i].resets->0.len() && (#[trigger] usages[i].resets->0[k]).live(now);
        assert(usages[i].resets->0[k].live(now));
    }
    if ranking::leader(ranks) is None {
        assert forall|i: int, k: int|
            0 <= i < usages.len() && usages[i].eligible() && usages[i].available_resets is Some
                && usages[i].available_resets->0 >= 1 && usages[i].resets is Some && 0 <= k
                < usages[i].resets->0.len() implies !(#[trigger] usages[i].resets->0[k]).live(
            now,
        ) by {
            assert(ranks[i] is None);
        }
    }
}

/// The credit that is spent is a live one of the chosen account, and none of its live credits
/// expires earlier; no eligible account with a reset banked and a live credit has more resets
/// banked, nor as many and an earlier place in the pool.
pub proof fn law_spent_credit_expires_first(
    usages: Seq<UsageModel>,
    current: int,
    trigger: WindowKind,
    redeem_weekly: bool,
    now: i64,
    chosen: int,
    credit: Seq<char>,
)
    requires
        decision(usages, current, trigger, redeem_weekly, now) == DecisionModel::Redeem(
            chosen,
            credit,
        ),
    ensures
        0 <= chosen < usages.len(),
        usages[chosen].model_supported != Some(false),
        usages[chosen].resets is Some,
        exists|k: int|
            {
                &&& 0 <= k < usages[chosen].resets->0.len()
                &&& (#[trigger] usages[chosen].resets->0[k]).id == credit
                &&& usages[chosen].resets->0[k].expires_at is None || usages[chosen].resets->0[k].expires_at->0 > now
                &&& forall|l: int|
                    0 <= l < usages[chosen].resets->0.len() && (#[trigger] usages[chosen].resets->0[l]).expires_at is Some
                        && usages[chosen].resets->0[l].expires_at->0 > now ==> usages[chosen].resets->0[k].expires_at is Some
                        && usages[chosen].resets->0[k].expires_at->0 <= usages[chosen].resets->0[l].expires_at->0 || (
                    usages[chosen].resets->0[k].expires_at is None && usages[chosen].resets->0[l].expires_at->0 == i64::MAX)
            },
        forall|i: int, k: int|
            {
                &&& 0 <= i < usages.len()
                &&& usages[i].model_supported != Some(false)
                &&& usages[i].available_resets is Some
                &&& usages[i].available_resets->0 >= 1
                &&& usages[i].resets is Some
                &&& 0 <= k < usages[i].resets->0.len()
                &&& (#[trigger] usages[i].resets->0[k]).expires_at is None
                    || usages[i].resets->0[k].expires_at->0 > now
            } ==> usages[chosen].available_resets is Some && (usages[i].available_resets->0
                < usages[chosen].available_resets->0 || (usages[i].available_resets->0
                == usages[chosen].available_resets->0 && chosen <= i)),
{
    law_credit_comes_from_most_resets(usages, current, trigger, redeem_weekly, now);
    let credits = usages[chosen].resets->0;
    let spent = usages[chosen].earliest(now)->0;
    let k = choose|k: int| 0 <= k < credits.len() && credits[k] == spent;
    assert(credits[k].id == credit);
    assert forall|l: int|
        0 <= l < credits.len() && (#[trigger] credits[l]).expires_at is Some
            && credits[l].expires_at->0 > now implies credits[k].expires_at is Some
        && credits[k].expires_at->0 <= credits[l].expires_at->0 || (credits[k].expires_at is None
        && credits[l].expires_at->0 == i64::MAX) by {
        assert(credits[l].live(now));
    }
    assert forall|i: int, k: int|
        {
            &&& 0 <= i < usages.len()
            &&& usages[i].model_supported != Some(false)
            &&& usages[i].available_resets is Some
            &&& usages[i].available_resets->0 >= 1
            &&& usages[i].resets is Some
            &&& 0 <= k < usages[i].resets->0.len()
            &&& (#[trigger] usages[i].resets->0[k]).expires_at is None
                || usages[i].resets->0[k].expires_at->0 > now
        } implies usages[i].available_resets->0 < usages[chosen].available_resets->0 || (
    usages[i].available_resets->0 == usages[chosen].available_resets->0 && chosen <= i) by {
        let expiries = expiry_ranks(usages[i].resets->0, now);
        ranking::lemma_leader_exists(expiries);
        assert(expiries[k] is Some);
        assert(usages[i].earliest(now) is Some);
        assert(usages[i].eligible());
    }
}

/// A session that can neither use an account nor spend a credit says why: the availability is
/// unknown where no account may serve the model or one that may is not known; otherwise the weekly
/// quota is missing where every account that may serve the model has a window longer than a day
/// exhausted; otherwise a short window is awaited.
pub proof fn law_wait_names_its_reason(
    usages: Seq<UsageModel>,
    current: int,
    trigger: WindowKind,
    redeem_weekly: bool,
    now: i64,
)
    requires
        now + CHECK_SECONDS <= i64::MAX,
        decision(usages, current, trigger, redeem_weekly, now) is Wait,
    ensures
        ({
            let reason = decision(usages, current, trigger, redeem_weekly, now)->Wait_0;
            let some_serves = exists|i: int|
                0 <= i < usages.len() && (#[trigger] usages[i]).model_supported != Some(false);
            let all_known = forall|i: int|
                0 <= i < usages.len() && (#[trigger] usages[i]).model_supported != Some(false)
                    ==> usages[i].known_at(now);
            let all_exhausted = forall|i: int|
                0 <= i < usages.len() && (#[trigger] usages[i]).model_supported != Some(false)
                    ==> usages[i].blocked_by(WindowKind::Weekly);
            &&& reason == PoolWaitReason::UnknownAvailability <==> !(some_serves && all_known)
            &&& reason == PoolWaitReason::WeeklyQuota <==> some_serves && all_known && all_exhausted
            &&& reason == PoolWaitReason::ShortWindow <==> some_serves && all_known
                && !all_exhausted
        }),
{
}

/// A wait ends a minute later, or at a reset still to come that some reading advertises.
pub proof fn law_wait_ends_at_a_reset_or_a_minute_later(
    usages: Seq<UsageModel>,
    current: int,
    trigger: WindowKind,
    redeem_weekly: bool,
    now: i64,
)
    requires
        now + 60 <= i64::MAX,
        decision(usages, current, trigger, redeem_weekly, now) is Wait,
    ensures
        ({
            let next = decision(usages, current, trigger, redeem_weekly, now)->Wait_1;
            &&& now < next <= now + 60
            &&& next == now + 60 || exists|i: int, j: int|
                0 <= i < usages.len() && 0 <= j < usages[i].windows.len()
                    && #[trigger] usages[i].windows[j].resets_at == Some(next)
            &&& forall|i: int, j: int|
                0 <= i < usages.len() && 0 <= j < usages[i].windows.len()
                    && #[trigger] usages[i].windows[j].resets_at is Some
                    && usages[i].windows[j].resets_at->0 > now ==> next
                    <= usages[i].windows[j].resets_at->0
        }),
{
    lemma_next_check(usages, now, now + CHECK_SECONDS);
    let next = decision(usages, current, trigger, redeem_weekly, now)->Wait_1;
    if next != now + 60 {
        let (i, j) = choose|i: int, j: int|
            0 <= i < usages.len() && 0 <= j < usages[i].windows.len()
                && #[trigger] usages[i].windows[j].resets_at is Some
                && usages[i].windows[j].resets_at->0 == next;
        assert(usages[i].windows[j].resets_at == Some(next));
    }
}

/// Of the credits of an account that have not expired, the one that expires first is taken, and the
/// first listed of several that expire together; one without a date expires last. There is one
/// exactly where the credits are known and some has not expired.
pub proof fn law_earliest_credit(usage: UsageModel, now: i64)
    ensures
        usage.earliest(now) is Some <==> usage.resets is Some && exists|k: int|
            0 <= k < usage.resets->0.len() && ((
            #[trigger] usage.resets->0[k]).expires_at matches Some(expiry) ==> expiry > now),
        usage.earliest(now) matches Some(credit) ==> exists|k: int|
            {
                &&& 0 <= k < usage.resets->0.len()
                &&& #[trigger] usage.resets->0[k] == credit
                &&& credit.expires_at matches Some(expiry) ==> expiry > now
                &&& forall|l: int|
                    0 <= l < usage.resets->0.len() && ((
                    #[trigger] usage.resets->0[l]).expires_at matches Some(expiry) ==> expiry > now)
                        ==> {
                        let first = match credit.expires_at {
                            Some(expiry) => expiry,
                            None => i64::MAX,
                        };
                        let other = match usage.resets->0[l].expires_at {
                            Some(expiry) => expiry,
                            None => i64::MAX,
                        };
                        first < other || (first == other && k <= l)
                    }
            },
{
    if let Some(credits) = usage.resets {
        let ranks = expiry_ranks(credits, now);
        ranking::lemma_leader_exists(ranks);
        match ranking::leader(ranks) {
            Some(k) => {
                assert(ranks[k] is Some);
                assert(usage.resets->0[k] == credits[k]);
                assert forall|l: int|
                    0 <= l < usage.resets->0.len() && ((
                    #[trigger] usage.resets->0[l]).expires_at matches Some(expiry) ==> expiry
                        > now) implies {
                    let first = match credits[k].expires_at {
                        Some(expiry) => expiry,
                        None => i64::MAX,
                    };
                    let other = match usage.resets->0[l].expires_at {
                        Some(expiry) => expiry,
                        None => i64::MAX,
                    };
                    first < other || (first == other && k <= l)
                } by {
                    assert(ranks[l] is Some);
                }
            },
            None => {
                assert forall|k: int| 0 <= k < credits.len() implies !(
                #[trigger] usage.resets->0[k]).live(now) by {
                    assert(ranks[k] is None);
                }
            },
        }
    }
}

/// A `Decision` is seen as the form it has, with every part of it.
pub proof fn law_decision_is_seen_whole(value: Decision)
    ensures
        value@ == (match value {
            Decision::Use(index) => DecisionModel::Use(index as int),
            Decision::Redeem(index, credit) => DecisionModel::Redeem(index as int, credit@),
            Decision::Wait(reason, next) => DecisionModel::Wait(reason, next),
        }),
{
}

} // verus!
