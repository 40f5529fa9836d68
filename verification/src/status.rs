//! Account and pool quota for the status line. Reads are independent of pool recovery and never
//! redeem credits. Request ids discard replies from an earlier account or session.

use crate::account_pool::AccountModel;
use crate::account_pool::AccountPool;
use crate::account_pool::ManagedAccount;
use crate::account_pool::ManagedAccountUsage;
use crate::account_pool::PoolModel;
use crate::account_pool::UsageModel;
use crate::clock;
use crate::lists;
use crate::percent;
use crate::percent::Percent;
use crate::percent::INFINITE;
use crate::quota;
use crate::quota::WEEKLY_MINUTES;
use crate::rounding;
use crate::text;
use vstd::prelude::*;

verus! {

/// Milliseconds between two refreshes of the status line.
pub const REFRESH_MILLIS: u64 = 60_000;

/// Seconds for which a shown quota counts as fresh.
pub const SHOWN_SECONDS: i64 = 900;

/// A weekly quota as it was last read.
#[derive(Clone, Copy, Debug, PartialEq, Eq, Structural)]
pub struct WeeklyQuota {
    pub remaining_percent: Percent,
    pub resets_at: Option<i64>,
    pub checked_at: i64,
}

/// A window of a rate limit snapshot.
#[derive(Clone, Copy, Debug, PartialEq, Eq, Structural)]
pub struct SnapshotWindow {
    pub window_duration_mins: Option<i64>,
    pub used_percent: i32,
    pub resets_at: Option<i64>,
}

/// The rate limits that came with a model response.
#[derive(Clone, Copy, Debug, PartialEq, Eq, Structural)]
pub struct RateLimitSnapshot {
    pub primary: Option<SnapshotWindow>,
    pub secondary: Option<SnapshotWindow>,
}

/// What the status line knows about the account and pool in use.
#[derive(Debug, PartialEq, Eq)]
pub struct AccountStatus {
    pub account: Option<ManagedAccount>,
    pub pool: Option<AccountPool>,
    pub weekly: Option<WeeklyQuota>,
    pub pool_weekly: Option<WeeklyQuota>,
    pub pending_request: Option<String>,
    /// When the next refresh is due, in milliseconds of a steady clock.
    pub next_check: Option<u64>,
}

/// An `AccountStatus` as a mathematical value.
pub struct StatusModel {
    pub account: Option<AccountModel>,
    pub pool: Option<PoolModel>,
    pub weekly: Option<WeeklyQuota>,
    pub pool_weekly: Option<WeeklyQuota>,
    pub pending_request: Option<Seq<char>>,
    pub next_check: Option<u64>,
}

impl View for AccountStatus {
    type V = StatusModel;

    open spec fn view(&self) -> StatusModel {
        StatusModel {
            account: text::opt_view(self.account),
            pool: text::opt_view(self.pool),
            weekly: self.weekly,
            pool_weekly: self.pool_weekly,
            pending_request: text::opt_view(self.pending_request),
            next_check: self.next_check,
        }
    }
}

/// A time that a date is kept for.
pub open spec fn dated(time: Option<i64>) -> Option<i64> {
    if time is Some && clock::representable(time->0 as int) {
        time
    } else {
        None
    }
}

/// The time until a reset in words.
pub open spec fn countdown(seconds: int) -> Seq<char> {
    if seconds <= 0 {
        "due"@
    } else if seconds >= 86_400 {
        text::decimal(seconds / 86_400) + "d"@ + text::decimal(seconds % 86_400 / 3600) + "h"@
    } else if seconds >= 3600 {
        text::decimal(seconds / 3600) + "h"@ + text::decimal(seconds % 3600 / 60) + "m"@
    } else if seconds >= 60 {
        text::decimal(seconds / 60) + "m"@
    } else {
        "<1m"@
    }
}

/// The weekly quota that a usage shows.
pub open spec fn shown_quota(usage: UsageModel) -> Option<WeeklyQuota> {
    match usage.weekly_window() {
        Some(window) => if usage.error is None && window.remaining_percent.in_range() {
            Some(
                WeeklyQuota {
                    remaining_percent: window.remaining_percent,
                    resets_at: dated(window.resets_at),
                    checked_at: usage.checked_at,
                },
            )
        } else {
            None
        },
        None => None,
    }
}

impl WeeklyQuota {
    /// The quota was read less than fifteen minutes ago.
    pub open spec fn fresh(self, now: i64) -> bool {
        0 <= clock::span(now, self.checked_at) < SHOWN_SECONDS
    }

    /// The quota in words, while it is fresh and makes sense.
    pub open spec fn shown(self, now: i64) -> Option<Seq<char>> {
        if !(0 <= self.remaining_percent.key() < INFINITE) || !self.fresh(now) {
            None
        } else {
            let remaining = self.remaining_percent.rounded() + "%"@;
            match dated(self.resets_at) {
                Some(reset) => Some(remaining + " "@ + countdown(clock::span(reset, now))),
                None => Some(remaining),
            }
        }
    }

    /// The weekly quota that a usage shows.
    pub fn from_usage(usage: &ManagedAccountUsage) -> (quota: Option<WeeklyQuota>)
        ensures
            quota == shown_quota(usage@),
    {
        if usage.error.is_some() {
            return None;
        }
        match quota::weekly_window(usage) {
            Some(window) => {
                if window.remaining_percent.is_in_range() {
                    Some(
                        WeeklyQuota {
                            remaining_percent: window.remaining_percent,
                            resets_at: keep_dated(window.resets_at),
                            checked_at: usage.checked_at,
                        },
                    )
                } else {
                    None
                }
            },
            None => None,
        }
    }

    /// Whether the quota was read less than fifteen minutes ago.
    pub fn is_fresh(&self, now: i64) -> (answer: bool)
        ensures
            answer == self.fresh(now),
    {
        let age: i64 = clock::seconds_between(now, self.checked_at);
        0 <= age && age < SHOWN_SECONDS
    }

    /// The quota in words.
    pub fn display(&self, now: i64) -> (words: Option<String>)
        ensures
            text::opt_view(words) == self.shown(now),
    {
        let key: i64 = self.remaining_percent.rank();
        if key < 0 || key >= INFINITE as i64 || !self.is_fresh(now) {
            return None;
        }
        let mut words: String = percent::rounded_text(self.remaining_percent);
        words.append("%");
        if let Some(reset) = keep_dated(self.resets_at) {
            words.append(" ");
            words.append(countdown_words(clock::seconds_between(reset, now)).as_str());
        }
        Some(words)
    }
}

/// Keeps a time that a date is kept for.
fn keep_dated(time: Option<i64>) -> (kept: Option<i64>)
    ensures
        kept == dated(time),
{
    match time {
        Some(time) => if clock::is_representable(time) {
            Some(time)
        } else {
            None
        },
        None => None,
    }
}

/// The time until a reset in words.
fn countdown_words(seconds: i64) -> (words: String)
    ensures
        words@ == countdown(seconds as int),
{
    if seconds <= 0 {
        "due".to_owned()
    } else if seconds >= 86_400 {
        let mut words: String = text::numeral(seconds / 86_400);
        words.append("d");
        words.append(text::numeral(seconds % 86_400 / 3600).as_str());
        words.append("h");
        words
    } else if seconds >= 3600 {
        let mut words: String = text::numeral(seconds / 3600);
        words.append("h");
        words.append(text::numeral(seconds % 3600 / 60).as_str());
        words.append("m");
        words
    } else if seconds >= 60 {
        let mut words: String = text::numeral(seconds / 60);
        words.append("m");
        words
    } else {
        "<1m".to_owned()
    }
}

impl RateLimitSnapshot {
    /// The weekly window with the most used; of two alike, the second.
    pub open spec fn weekly(self) -> Option<SnapshotWindow> {
        let first = self.primary is Some && self.primary->0.window_duration_mins == Some(
            WEEKLY_MINUTES,
        );
        let second = self.secondary is Some && self.secondary->0.window_duration_mins == Some(
            WEEKLY_MINUTES,
        );
        if first && (!second || self.primary->0.used_percent > self.secondary->0.used_percent) {
            self.primary
        } else if second {
            self.secondary
        } else {
            None
        }
    }
}

/// Whether an optional window is a weekly one.
fn is_weekly(window: &Option<SnapshotWindow>) -> (weekly: bool)
    ensures
        weekly == (window is Some && window->0.window_duration_mins == Some(WEEKLY_MINUTES)),
{
    match window {
        Some(window) => match window.window_duration_mins {
            Some(minutes) => minutes == WEEKLY_MINUTES,
            None => false,
        },
        None => false,
    }
}

/// The usage of the account with an alias.
pub open spec fn usage_named(usages: Seq<UsageModel>, alias: Seq<char>) -> Option<UsageModel> {
    match lists::first(Seq::new(usages.len(), |i: int| usages[i].account.alias == alias)) {
        Some(i) => Some(usages[i]),
        None => None,
    }
}

/// The fresh quota of the account with an alias.
pub open spec fn member_quota(usages: Seq<UsageModel>, alias: Seq<char>, now: i64) -> Option<
    WeeklyQuota,
> {
    match usage_named(usages, alias) {
        Some(usage) => match shown_quota(usage) {
            Some(quota) => if quota.fresh(now) {
                Some(quota)
            } else {
                None
            },
            None => None,
        },
        None => None,
    }
}

/// Every member of the pool has a fresh quota, and no two members are the same login.
pub open spec fn pool_known(usages: Seq<UsageModel>, aliases: Seq<Seq<char>>, now: i64) -> bool {
    &&& forall|i: int|
        0 <= i < aliases.len() ==> member_quota(usages, #[trigger] aliases[i], now) is Some
    &&& forall|i: int, j: int|
        #![trigger aliases[i], aliases[j]]
        0 <= i < j < aliases.len() ==> usage_named(usages, aliases[i])->0.account.identity()
            != usage_named(usages, aliases[j])->0.account.identity()
}

/// The quotas of the pool's members.
pub open spec fn member_quotas(
    usages: Seq<UsageModel>,
    aliases: Seq<Seq<char>>,
    now: i64,
) -> Seq<WeeklyQuota> {
    Seq::new(aliases.len(), |i: int| member_quota(usages, aliases[i], now)->0)
}

/// The earliest reset of quotas; an unknown reset cannot be skipped.
pub open spec fn earliest_reset(quotas: Seq<WeeklyQuota>) -> Option<i64>
    decreases quotas.len(),
{
    if quotas.len() == 0 {
        None
    } else if quotas.len() == 1 {
        quotas[0].resets_at
    } else {
        match (earliest_reset(quotas.drop_last()), quotas.last().resets_at) {
            (Some(before), Some(last)) => Some(
                if last < before {
                    last
                } else {
                    before
                },
            ),
            _ => None,
        }
    }
}

/// When the oldest of quotas was read.
pub open spec fn oldest_check(quotas: Seq<WeeklyQuota>) -> i64
    decreases quotas.len(),
{
    if quotas.len() <= 1 {
        quotas[0].checked_at
    } else {
        let before = oldest_check(quotas.drop_last());
        if quotas.last().checked_at < before {
            quotas.last().checked_at
        } else {
            before
        }
    }
}

/// The quota of a pool: the sum of its members', while all of them are known.
pub open spec fn pool_quota(usages: Seq<UsageModel>, aliases: Seq<Seq<char>>, now: i64) -> Option<
    WeeklyQuota,
> {
    let quotas = member_quotas(usages, aliases, now);
    if aliases.len() == 0 || !pool_known(usages, aliases, now) {
        None
    } else {
        Some(
            WeeklyQuota {
                remaining_percent: rounding::total(
                    Seq::new(quotas.len(), |i: int| quotas[i].remaining_percent),
                ),
                resets_at: earliest_reset(quotas),
                checked_at: oldest_check(quotas),
            },
        )
    }
}

impl StatusModel {
    /// The weekly quota of the account in use among usages that were read.
    pub open spec fn account_quota(self, usages: Seq<UsageModel>) -> Option<WeeklyQuota> {
        match self.account {
            Some(account) => match lists::first(
                Seq::new(usages.len(), |i: int| account.names(usages[i].account)),
            ) {
                Some(i) => shown_quota(usages[i]),
                None => None,
            },
            None => None,
        }
    }

    /// The status once an account is taken into use. What was read for a different one no longer
    /// counts.
    pub open spec fn selected(self, account: AccountModel) -> StatusModel {
        if self.account is Some && self.account->0.names(account) {
            StatusModel { account: Some(account), ..self }
        } else {
            StatusModel {
                account: Some(account),
                pool: self.pool,
                weekly: None,
                pool_weekly: None,
                pending_request: None,
                next_check: None,
            }
        }
    }

    /// The status once usages were read. Without the quota of the account in use, that of its pool
    /// is not shown either.
    pub open spec fn read(self, usages: Seq<UsageModel>, now: i64) -> StatusModel {
        let weekly = self.account_quota(usages);
        StatusModel {
            weekly,
            pool_weekly: if weekly is Some && self.pool is Some {
                pool_quota(usages, self.pool->0.accounts, now)
            } else {
                None
            },
            ..self
        }
    }

    /// The quota of the account in use in words.
    pub open spec fn weekly_words(self, now: i64) -> Option<Seq<char>> {
        match self.weekly {
            Some(quota) => if quota.remaining_percent.in_range() {
                quota.shown(now)
            } else {
                None
            },
            None => None,
        }
    }
}

/// The usage of the account with an alias.
fn find_usage<'a>(usages: &'a Vec<ManagedAccountUsage>, alias: &str) -> (usage: Option<
    &'a ManagedAccountUsage,
>)
    ensures
        (match usage {
            Some(usage) => Some(usage@),
            None => None,
        }) == usage_named(text::views(usages@), alias@),
{
    let ghost models = text::views(usages@);
    let ghost flags = Seq::new(models.len(), |i: int| models[i].account.alias == alias@);
    let mut i: usize = 0;
    while i < usages.len()
        invariant
            i <= usages.len(),
            models == text::views(usages@),
            flags == Seq::new(models.len(), |i: int| models[i].account.alias == alias@),
            forall|j: int| 0 <= j < i ==> !#[trigger] flags[j],
        decreases usages.len() - i,
    {
        assert(models[i as int] == usages@[i as int]@);
        if text::same_text(usages[i].account.alias.as_str(), alias) {
            proof {
                lists::lemma_first_is(flags, i as int);
            }
            return Some(&usages[i]);
        }
        i = i + 1;
    }
    proof {
        lists::lemma_first_none(flags);
    }
    None
}

/// The quota of the account in use.
fn quota_of(usages: &Vec<ManagedAccountUsage>, account: &ManagedAccount) -> (quota: Option<
    WeeklyQuota,
>)
    ensures
        quota == (match lists::first(
            Seq::new(
                text::views(usages@).len(),
                |i: int| account@.names(text::views(usages@)[i].account),
            ),
        ) {
            Some(i) => shown_quota(text::views(usages@)[i]),
            None => None,
        }),
{
    let ghost models = text::views(usages@);
    let ghost flags = Seq::new(models.len(), |i: int| account@.names(models[i].account));
    let mut i: usize = 0;
    while i < usages.len()
        invariant
            i <= usages.len(),
            models == text::views(usages@),
            flags == Seq::new(models.len(), |i: int| account@.names(models[i].account)),
            forall|j: int| 0 <= j < i ==> !#[trigger] flags[j],
        decreases usages.len() - i,
    {
        assert(models[i as int] == usages@[i as int]@);
        if account.same_named(&usages[i].account) {
            proof {
                lists::lemma_first_is(flags, i as int);
            }
            return WeeklyQuota::from_usage(&usages[i]);
        }
        i = i + 1;
    }
    proof {
        lists::lemma_first_none(flags);
    }
    None
}

/// Whether an account of the list has the login of another.
fn lists_login(accounts: &Vec<ManagedAccount>, account: &ManagedAccount) -> (found: bool)
    ensures
        found <==> exists|i: int|
            0 <= i < accounts.len() && (#[trigger] accounts@[i])@.identity()
                == account@.identity(),
{
    let mut i: usize = 0;
    while i < accounts.len()
        invariant
            i <= accounts.len(),
            forall|j: int|
                0 <= j < i ==> (#[trigger] accounts@[j])@.identity() != account@.identity(),
        decreases accounts.len() - i,
    {
        if accounts[i].same_identity(account) {
            return true;
        }
        i = i + 1;
    }
    false
}

/// The quotas of a pool's members, while all of them are known.
fn read_members(usages: &Vec<ManagedAccountUsage>, aliases: &Vec<String>, now: i64) -> (quotas:
    Option<Vec<WeeklyQuota>>)
    ensures
        quotas is Some <==> pool_known(text::views(usages@), text::views(aliases@), now),
        quotas matches Some(quotas) ==> quotas@ == member_quotas(
            text::views(usages@),
            text::views(aliases@),
            now,
        ),
{
    let ghost models = text::views(usages@);
    let ghost names = text::views(aliases@);
    let mut seen: Vec<ManagedAccount> = Vec::new();
    let mut quotas: Vec<WeeklyQuota> = Vec::new();
    let mut i: usize = 0;
    while i < aliases.len()
        invariant
            i <= aliases.len(),
            models == text::views(usages@),
            names == text::views(aliases@),
            quotas.len() == i,
            seen.len() == i,
            forall|j: int|
                0 <= j < i ==> member_quota(models, #[trigger] names[j], now) == Some(quotas@[j])
                    && seen@[j]@ == usage_named(models, names[j])->0.account,
            forall|j: int, k: int|
                #![trigger names[j], names[k]]
                0 <= j < k < i ==> usage_named(models, names[j])->0.account.identity()
                    != usage_named(models, names[k])->0.account.identity(),
        decreases aliases.len() - i,
    {
        assert(names[i as int] == aliases@[i as int]@);
        let usage: &ManagedAccountUsage = match find_usage(usages, aliases[i].as_str()) {
            Some(usage) => usage,
            None => {
                assert(member_quota(models, names[i as int], now) is None);
                return None;
            },
        };
        if lists_login(&seen, &usage.account) {
            proof {
                let j = choose|j: int|
                    0 <= j < seen.len() && (#[trigger] seen@[j])@.identity()
                        == usage@.account.identity();
                assert(member_quota(models, names[j], now) is Some);
                assert(!pool_known(models, names, now)) by {
                    assert(usage_named(models, names[j])->0.account.identity() == usage_named(
                        models,
                        names[i as int],
                    )->0.account.identity());
                }
            }
            return None;
        }
        let quota: WeeklyQuota = match WeeklyQuota::from_usage(usage) {
            Some(quota) => quota,
            None => {
                assert(member_quota(models, names[i as int], now) is None);
                return None;
            },
        };
        if !quota.is_fresh(now) {
            assert(member_quota(models, names[i as int], now) is None);
            return None;
        }
        seen.push(usage.account.clone());
        quotas.push(quota);
        proof {
            assert forall|j: int, k: int|
                #![trigger names[j], names[k]]
                0 <= j < k < i + 1 implies usage_named(models, names[j])->0.account.identity()
                != usage_named(models, names[k])->0.account.identity() by {
                if k == i {
                    assert(member_quota(models, names[j], now) is Some);
                    assert(seen@[j]@.identity() != usage@.account.identity());
                }
            }
        }
        i = i + 1;
    }
    assert(quotas@ =~= member_quotas(models, names, now));
    Some(quotas)
}

/// The quota of a pool from those of its members.
fn combine(quotas: &Vec<WeeklyQuota>) -> (quota: WeeklyQuota)
    requires
        quotas.len() > 0,
        forall|i: int|
            0 <= i < quotas.len() ==> (#[trigger] quotas@[i]).remaining_percent.in_range(),
    ensures
        quota == (WeeklyQuota {
            remaining_percent: rounding::total(
                Seq::new(quotas@.len(), |i: int| quotas@[i].remaining_percent),
            ),
            resets_at: earliest_reset(quotas@),
            checked_at: oldest_check(quotas@),
        }),
{
    let mut percents: Vec<Percent> = Vec::new();
    percents.push(quotas[0].remaining_percent);
    let mut resets_at: Option<i64> = quotas[0].resets_at;
    let mut checked_at: i64 = quotas[0].checked_at;
    let mut i: usize = 1;
    assert(quotas@.take(1)[0] == quotas@[0]);
    while i < quotas.len()
        invariant
            1 <= i <= quotas.len(),
            percents.len() == i,
            forall|j: int| 0 <= j < i ==> #[trigger] percents@[j] == quotas@[j].remaining_percent,
            resets_at == earliest_reset(quotas@.take(i as int)),
            checked_at == oldest_check(quotas@.take(i as int)),
        decreases quotas.len() - i,
    {
        assert(quotas@.take(i + 1).drop_last() =~= quotas@.take(i as int));
        assert(quotas@.take(i + 1).last() == quotas@[i as int]);
        percents.push(quotas[i].remaining_percent);
        resets_at = match (resets_at, quotas[i].resets_at) {
            (Some(before), Some(last)) => Some(
                if last < before {
                    last
                } else {
                    before
                },
            ),
            _ => None,
        };
        if quotas[i].checked_at < checked_at {
            checked_at = quotas[i].checked_at;
        }
        i = i + 1;
    }
    assert(quotas@.take(i as int) =~= quotas@);
    assert(percents@ =~= Seq::new(quotas@.len(), |i: int| quotas@[i].remaining_percent));
    assert forall|j: int| 0 <= j < percents.len() implies 0 <= (#[trigger] percents@[j]).key()
        <= INFINITE by {
        assert(quotas@[j].remaining_percent.in_range());
    }
    WeeklyQuota { remaining_percent: rounding::sum_of(&percents), resets_at, checked_at }
}

impl AccountStatus {
    /// A status for an account and a pool, with nothing read yet.
    pub fn new(account: Option<ManagedAccount>, pool: Option<AccountPool>) -> (status:
        AccountStatus)
        ensures
            status@ == (StatusModel {
                account: text::opt_view(account),
                pool: text::opt_view(pool),
                weekly: None,
                pool_weekly: None,
                pending_request: None,
                next_check: None,
            }),
    {
        AccountStatus {
            account,
            pool,
            weekly: None,
            pool_weekly: None,
            pending_request: None,
            next_check: None,
        }
    }

    /// Takes another account into use. What was read for a different one no longer counts.
    pub fn select(&mut self, account: ManagedAccount)
        ensures
            final(self)@ == old(self)@.selected(account@),
    {
        let same: bool = match &self.account {
            Some(current) => current.same_named(&account),
            None => false,
        };
        if !same {
            self.weekly = None;
            self.pool_weekly = None;
            self.pending_request = None;
            self.next_check = None;
        }
        self.account = Some(account);
    }

    /// Takes the weekly quota from a snapshot.
    pub fn record_snapshot(&mut self, snapshot: &RateLimitSnapshot, now: i64)
        ensures
            match snapshot.weekly() {
                Some(window) => {
                    &&& final(self)@.weekly is Some
                    &&& final(self)@.weekly->0.remaining_percent.is_integer(
                        100 - window.used_percent,
                    )
                    &&& final(self)@.weekly->0.resets_at == window.resets_at
                    &&& final(self)@.weekly->0.checked_at == now
                },
                None => final(self)@.weekly is None,
            },
            final(self)@ == (StatusModel { weekly: final(self)@.weekly, ..old(self)@ }),
    {
        let first: bool = is_weekly(&snapshot.primary);
        let second: bool = is_weekly(&snapshot.secondary);
        let mut window: Option<SnapshotWindow> = None;
        if second {
            window = snapshot.secondary;
        }
        if first {
            let more: bool = match (snapshot.primary, snapshot.secondary) {
                (Some(primary), Some(secondary)) => primary.used_percent > secondary.used_percent,
                _ => true,
            };
            if !second || more {
                window = snapshot.primary;
            }
        }
        self.weekly = match window {
            Some(window) => Some(
                WeeklyQuota {
                    remaining_percent: Percent::from_integer(100 - window.used_percent as i64),
                    resets_at: window.resets_at,
                    checked_at: now,
                },
            ),
            None => None,
        };
    }

    /// The quota of the account in use in words.
    pub fn weekly_display(&self, now: i64) -> (words: Option<String>)
        ensures
            text::opt_view(words) == self@.weekly_words(now),
    {
        match &self.weekly {
            Some(quota) => {
                if quota.remaining_percent.is_in_range() {
                    quota.display(now)
                } else {
                    None
                }
            },
            None => None,
        }
    }

    /// The account in use and its quota. `label` is the alias as it may be shown.
    pub fn account_display(&self, label: &str, now: i64) -> (words: Option<String>)
        ensures
            text::opt_view(words) == (if self@.account is Some {
                Some(
                    label@ + " "@ + (match self@.weekly_words(now) {
                        Some(quota) => quota,
                        None => "unknown"@,
                    }),
                )
            } else {
                None
            }),
    {
        if self.account.is_none() {
            return None;
        }
        let mut words: String = label.to_owned();
        words.append(" ");
        match self.weekly_display(now) {
            Some(quota) => {
                words.append(quota.as_str());
            },
            None => {
                words.append("unknown");
            },
        }
        Some(words)
    }

    /// The pool in use and its quota. `label` is the name as it may be shown.
    pub fn pool_display(&self, label: &str, now: i64) -> (words: Option<String>)
        ensures
            text::opt_view(words) == (if self@.pool is Some {
                Some(
                    label@ + " "@ + (match self@.pool_weekly {
                        Some(quota) => match quota.shown(now) {
                            Some(quota) => quota,
                            None => "unknown"@,
                        },
                        None => "unknown"@,
                    }),
                )
            } else {
                None
            }),
    {
        if self.pool.is_none() {
            return None;
        }
        let mut words: String = label.to_owned();
        words.append(" ");
        let quota: Option<String> = match &self.pool_weekly {
            Some(quota) => quota.display(now),
            None => None,
        };
        match quota {
            Some(quota) => {
                words.append(quota.as_str());
            },
            None => {
                words.append("unknown");
            },
        }
        Some(words)
    }

    /// Takes the quotas from usages that were read.
    pub fn record_usage(&mut self, usages: &Vec<ManagedAccountUsage>, now: i64)
        ensures
            final(self)@ == old(self)@.read(text::views(usages@), now),
    {
        let ghost models = text::views(usages@);
        let weekly: Option<WeeklyQuota> = match &self.account {
            Some(account) => quota_of(usages, account),
            None => None,
        };
        let mut pool_weekly: Option<WeeklyQuota> = None;
        if weekly.is_some() {
            if let Some(pool) = &self.pool {
                if pool.accounts.len() > 0 {
                    if let Some(quotas) = read_members(usages, &pool.accounts, now) {
                        proof {
                            let names = text::views(pool.accounts@);
                            assert forall|i: int| 0 <= i < quotas.len() implies (
                            #[trigger] quotas@[i]).remaining_percent.in_range() by {
                                assert(member_quota(models, names[i], now) is Some);
                            }
                        }
                        pool_weekly = Some(combine(&quotas));
                    }
                }
                assert(text::views(pool.accounts@).len() == pool.accounts.len());
            }
        }
        self.weekly = weekly;
        self.pool_weekly = pool_weekly;
    }
}

/// A pool's quota is shown only while every member has a fresh quota of its own login, and it is
/// their sum.
pub proof fn law_pool_quota_needs_every_member(
    usages: Seq<UsageModel>,
    aliases: Seq<Seq<char>>,
    now: i64,
    i: int,
)
    requires
        pool_quota(usages, aliases, now) is Some,
        0 <= i < aliases.len(),
    ensures
        member_quota(usages, aliases[i], now) is Some,
        member_quota(usages, aliases[i], now)->0.fresh(now),
        pool_quota(usages, aliases, now)->0.checked_at <= member_quota(
            usages,
            aliases[i],
            now,
        )->0.checked_at,
        pool_quota(usages, aliases, now)->0.resets_at is Some ==> member_quota(
            usages,
            aliases[i],
            now,
        )->0.resets_at is Some && pool_quota(usages, aliases, now)->0.resets_at->0 <= member_quota(
            usages,
            aliases[i],
            now,
        )->0.resets_at->0,
{
    let quotas = member_quotas(usages, aliases, now);
    lemma_least(quotas, i);
    assert(member_quota(usages, aliases[i], now) is Some);
    assert(quotas[i] == member_quota(usages, aliases[i], now)->0);
}

/// The earliest reset and the oldest check are at most those of each quota.
proof fn lemma_least(quotas: Seq<WeeklyQuota>, i: int)
    requires
        0 <= i < quotas.len(),
    ensures
        oldest_check(quotas) <= quotas[i].checked_at,
        earliest_reset(quotas) is Some ==> quotas[i].resets_at is Some && earliest_reset(quotas)->0
            <= quotas[i].resets_at->0,
    decreases quotas.len(),
{
    if quotas.len() > 1 && i < quotas.len() - 1 {
        lemma_least(quotas.drop_last(), i);
    }
}

/// A read that failed, which gives no usages, shows no quota.
pub proof fn law_failed_read_shows_nothing(status: StatusModel, now: i64)
    ensures
        status.read(seq![], now).weekly is None,
        status.read(seq![], now).pool_weekly is None,
{
    if let Some(account) = status.account {
        lists::lemma_first(
            Seq::new(
                Seq::<UsageModel>::empty().len(),
                |i: int| account.names(Seq::<UsageModel>::empty()[i].account),
            ),
        );
    }
}

/// A countdown on the status line has up to two units, cut to whole ones: days and hours from a day
/// on, hours and minutes from an hour on, minutes from a minute on, and less than a minute else; what
/// is not ahead is due.
pub proof fn law_status_countdown(seconds: int)
    ensures
        seconds <= 0 ==> countdown(seconds) == "due"@,
        0 < seconds < 60 ==> countdown(seconds) == "<1m"@,
        60 <= seconds < 3600 ==> exists|m: int|
            m * 60 <= seconds < (m + 1) * 60 && countdown(seconds) == #[trigger] text::decimal(m)
                + "m"@,
        3600 <= seconds < 86400 ==> exists|h: int, m: int|
            {
                &&& 0 <= m < 60
                &&& (60 * h + m) * 60 <= seconds < (60 * h + m + 1) * 60
                &&& countdown(seconds) == #[trigger] text::decimal(h) + "h"@
                    + #[trigger] text::decimal(m) + "m"@
            },
        seconds >= 86400 ==> exists|d: int, h: int|
            {
                &&& 0 <= h < 24
                &&& (24 * d + h) * 3600 <= seconds < (24 * d + h + 1) * 3600
                &&& countdown(seconds) == #[trigger] text::decimal(d) + "d"@
                    + #[trigger] text::decimal(h) + "h"@
            },
{
    if seconds >= 86400 {
        let d = seconds / 86400;
        let h = seconds % 86400 / 3600;
        assert(countdown(seconds) == text::decimal(d) + "d"@ + text::decimal(h) + "h"@);
    } else if seconds >= 3600 {
        let h = seconds / 3600;
        let m = seconds % 3600 / 60;
        assert(countdown(seconds) == text::decimal(h) + "h"@ + text::decimal(m) + "m"@);
    } else if seconds >= 60 {
        let m = seconds / 60;
        assert(countdown(seconds) == text::decimal(m) + "m"@);
    }
}

/// A quota is shown for fifteen minutes after it was read, as a whole percentage, with a countdown
/// where its reset has a date.
pub proof fn law_quota_is_shown_while_fresh(quota: WeeklyQuota, now: i64)
    requires
        i64::MIN <= now - quota.checked_at <= i64::MAX,
        quota.resets_at is Some ==> i64::MIN <= quota.resets_at->0 - now <= i64::MAX,
    ensures
        quota.shown(now) is Some <==> quota.checked_at <= now < quota.checked_at + 900 && 0
            <= quota.remaining_percent.key() && quota.remaining_percent.finite(),
        quota.shown(now) is Some ==> quota.shown(now)->0 == quota.remaining_percent.rounded()
            + "%"@ + (if quota.resets_at is Some && -8_334_601_228_800 <= quota.resets_at->0
            <= 8_210_266_876_799 {
            " "@ + countdown(quota.resets_at->0 - now)
        } else {
            ""@
        }),
{
    reveal_strlit("");
    let remaining = quota.remaining_percent.rounded() + "%"@;
    assert(remaining + ""@ =~= remaining);
    if quota.resets_at is Some {
        let words = countdown(quota.resets_at->0 - now);
        assert(remaining + " "@ + words =~= remaining + (" "@ + words));
    }
}

/// A reading shows a weekly quota exactly where it did not fail and its weekly window has a
/// percentage from zero to one hundred: that percentage, the window's reset if it has a date, and
/// the time of the reading.
pub proof fn law_reading_shows_its_weekly_window(usage: UsageModel)
    ensures
        shown_quota(usage) is Some <==> usage.error is None && usage.weekly_window() is Some
            && usage.weekly_window()->0.remaining_percent.in_range(),
        shown_quota(usage) matches Some(quota) ==> {
            let window = usage.weekly_window()->0;
            &&& quota.remaining_percent == window.remaining_percent
            &&& quota.checked_at == usage.checked_at
            &&& window.resets_at is Some && -8_334_601_228_800 <= window.resets_at->0
                <= 8_210_266_876_799 ==> quota.resets_at == window.resets_at
            &&& !(window.resets_at is Some && -8_334_601_228_800 <= window.resets_at->0
                <= 8_210_266_876_799) ==> quota.resets_at is None
        },
{
}

/// Of the windows that come with a response, only those of seven days count, and of two such the one
/// that is used more; where both are used alike, the second.
pub proof fn law_snapshot_shows_the_most_used_week(snapshot: RateLimitSnapshot)
    ensures
        ({
            let first = snapshot.primary is Some && snapshot.primary->0.window_duration_mins
                == Some(10_080i64);
            let second = snapshot.secondary is Some && snapshot.secondary->0.window_duration_mins
                == Some(10_080i64);
            &&& snapshot.weekly() is Some <==> first || second
            &&& first && !second ==> snapshot.weekly() == snapshot.primary
            &&& second && !first ==> snapshot.weekly() == snapshot.secondary
            &&& first && second ==> {
                &&& snapshot.weekly()->0.used_percent >= snapshot.primary->0.used_percent
                &&& snapshot.weekly()->0.used_percent >= snapshot.secondary->0.used_percent
                &&& snapshot.primary->0.used_percent == snapshot.secondary->0.used_percent
                    ==> snapshot.weekly() == snapshot.secondary
                &&& snapshot.weekly() == snapshot.primary || snapshot.weekly()
                    == snapshot.secondary
            }
        }),
{
}

/// The account with an alias is the first one that is listed under it.
pub proof fn law_usage_is_found_by_alias(usages: Seq<UsageModel>, alias: Seq<char>)
    ensures
        usage_named(usages, alias) is Some <==> exists|i: int|
            0 <= i < usages.len() && (#[trigger] usages[i]).account.alias == alias,
        usage_named(usages, alias) matches Some(usage) ==> exists|i: int|
            {
                &&& 0 <= i < usages.len()
                &&& #[trigger] usages[i] == usage
                &&& usage.account.alias == alias
                &&& forall|j: int| 0 <= j < i ==> (#[trigger] usages[j]).account.alias != alias
            },
{
    let flags = Seq::new(usages.len(), |i: int| usages[i].account.alias == alias);
    lists::lemma_first(flags);
    if let Some(i) = lists::first(flags) {
        assert(usages[i].account.alias == alias);
        assert forall|j: int| 0 <= j < i implies (#[trigger] usages[j]).account.alias != alias by {
            assert(!flags[j]);
        }
    } else {
        assert forall|i: int| 0 <= i < usages.len() implies (#[trigger] usages[i]).account.alias
            != alias by {
            assert(!flags[i]);
        }
    }
}

/// The quota of a pool is shown exactly where the pool has members, each of them has a quota that
/// was read less than fifteen minutes ago, and no login counts twice.
pub proof fn law_pool_quota_counts_each_member_once(
    usages: Seq<UsageModel>,
    aliases: Seq<Seq<char>>,
    now: i64,
)
    ensures
        pool_quota(usages, aliases, now) is Some <==> {
            &&& aliases.len() > 0
            &&& forall|i: int|
                0 <= i < aliases.len() ==> {
                    let usage = usage_named(usages, #[trigger] aliases[i]);
                    &&& usage is Some && shown_quota(usage->0) is Some
                    &&& 0 <= clock::span(now, usage->0.checked_at) < 900
                }
            &&& forall|i: int, j: int|
                #![trigger aliases[i], aliases[j]]
                0 <= i < j < aliases.len() ==> {
                    let a = usage_named(usages, aliases[i])->0.account;
                    let b = usage_named(usages, aliases[j])->0.account;
                    a.user_id != b.user_id || a.workspace_id != b.workspace_id
                }
        },
{
    assert forall|i: int| 0 <= i < aliases.len() implies (member_quota(
        usages,
        #[trigger] aliases[i],
        now,
    ) is Some <==> {
        let usage = usage_named(usages, aliases[i]);
        &&& usage is Some && shown_quota(usage->0) is Some
        &&& 0 <= clock::span(now, usage->0.checked_at) < 900
    }) by {}
}

/// The quota of a pool is the sum of what its members have left, in their order; it is as old as the
/// oldest of their readings, and it resets at the earliest of their resets, or at an unknown time
/// where one of these is unknown.
pub proof fn law_pool_quota_is_the_sum(
    usages: Seq<UsageModel>,
    aliases: Seq<Seq<char>>,
    now: i64,
)
    requires
        pool_quota(usages, aliases, now) is Some,
    ensures
        ({
            let quota = pool_quota(usages, aliases, now)->0;
            let members = Seq::new(
                aliases.len(),
                |i: int| shown_quota(usage_named(usages, aliases[i])->0)->0,
            );
            &&& quota.remaining_percent == rounding::total(
                Seq::new(members.len(), |i: int| members[i].remaining_percent),
            )
            &&& forall|i: int|
                0 <= i < members.len() ==> quota.checked_at <= (#[trigger] members[i]).checked_at
            &&& exists|i: int|
                0 <= i < members.len() && quota.checked_at == (#[trigger] members[i]).checked_at
            &&& quota.resets_at is None <==> exists|i: int|
                0 <= i < members.len() && (#[trigger] members[i]).resets_at is None
            &&& quota.resets_at is Some ==> {
                &&& forall|i: int|
                    0 <= i < members.len() ==> quota.resets_at->0 <= (
                    #[trigger] members[i]).resets_at->0
                &&& exists|i: int|
                    0 <= i < members.len() && quota.resets_at == (#[trigger] members[i]).resets_at
            }
        }),
{
    let members = Seq::new(
        aliases.len(),
        |i: int| shown_quota(usage_named(usages, aliases[i])->0)->0,
    );
    let quotas = member_quotas(usages, aliases, now);
    assert forall|i: int| 0 <= i < aliases.len() implies #[trigger] quotas[i] == members[i] by {
        assert(member_quota(usages, aliases[i], now) is Some);
    }
    assert(quotas =~= members);
    lemma_least_is_attained(members);
    assert forall|i: int| 0 <= i < members.len() implies pool_quota(usages, aliases, now)->0.checked_at
        <= (#[trigger] members[i]).checked_at && (pool_quota(
        usages,
        aliases,
        now,
    )->0.resets_at is Some ==> pool_quota(usages, aliases, now)->0.resets_at->0
        <= members[i].resets_at->0 && members[i].resets_at is Some) by {
        lemma_least(members, i);
    }
}

/// The oldest reading and the earliest reset are those of some quota.
proof fn lemma_least_is_attained(quotas: Seq<WeeklyQuota>)
    requires
        quotas.len() > 0,
    ensures
        exists|i: int|
            0 <= i < quotas.len() && oldest_check(quotas) == (#[trigger] quotas[i]).checked_at,
        earliest_reset(quotas) is Some ==> exists|i: int|
            0 <= i < quotas.len() && earliest_reset(quotas) == (#[trigger] quotas[i]).resets_at,
        earliest_reset(quotas) is None ==> exists|i: int|
            0 <= i < quotas.len() && (#[trigger] quotas[i]).resets_at is None,
    decreases quotas.len(),
{
    let last = quotas.len() - 1;
    assert(quotas[last] == quotas.last());
    if quotas.len() > 1 {
        let shorter = quotas.drop_last();
        lemma_least_is_attained(shorter);
        let i = choose|i: int|
            0 <= i < shorter.len() && oldest_check(shorter) == (#[trigger] shorter[i]).checked_at;
        assert(quotas[i] == shorter[i]);
        if earliest_reset(shorter) is Some {
            let k = choose|k: int|
                0 <= k < shorter.len() && earliest_reset(shorter) == (
                #[trigger] shorter[k]).resets_at;
            assert(quotas[k] == shorter[k]);
        } else {
            let k = choose|k: int|
                0 <= k < shorter.len() && (#[trigger] shorter[k]).resets_at is None;
            assert(quotas[k] == shorter[k]);
        }
    }
}

/// Readings give the quota of the account in use, by alias and login; that of its pool is shown only
/// beside it. Nothing else of the status changes.
pub proof fn law_readings_give_the_quota(
    status: StatusModel,
    usages: Seq<UsageModel>,
    now: i64,
    i: int,
)
    requires
        status.account is Some,
        0 <= i < usages.len(),
        usages[i].account.alias == status.account->0.alias,
        usages[i].account.user_id == status.account->0.user_id,
        usages[i].account.workspace_id == status.account->0.workspace_id,
        forall|j: int| 0 <= j < i ==> !status.account->0.names((#[trigger] usages[j]).account),
    ensures
        ({
            let after = status.read(usages, now);
            &&& after.weekly == shown_quota(usages[i])
            &&& after.weekly is Some && status.pool is Some ==> after.pool_weekly == pool_quota(
                usages,
                status.pool->0.accounts,
                now,
            )
            &&& after.weekly is None || status.pool is None ==> after.pool_weekly is None
            &&& after.account == status.account && after.pool == status.pool
            &&& after.pending_request == status.pending_request && after.next_check
                == status.next_check
        }),
{
    let account = status.account->0;
    let flags = Seq::new(usages.len(), |j: int| account.names(usages[j].account));
    lists::lemma_first_is(flags, i);
}

/// An account that is taken into use keeps what was read for it. Any other begins anew, in the same
/// pool.
pub proof fn law_other_account_begins_anew(status: StatusModel, account: AccountModel)
    ensures
        ({
            let after = status.selected(account);
            let same = status.account is Some && status.account->0.alias == account.alias
                && status.account->0.user_id == account.user_id && status.account->0.workspace_id
                == account.workspace_id;
            &&& after.account == Some(account) && after.pool == status.pool
            &&& same ==> after.weekly == status.weekly && after.pool_weekly == status.pool_weekly
                && after.pending_request == status.pending_request && after.next_check
                == status.next_check
            &&& !same ==> after.weekly is None && after.pool_weekly is None
                && after.pending_request is None && after.next_check is None
        }),
{
}

/// The quota of the account in use is shown only as a percentage from zero to one hundred.
pub proof fn law_weekly_words(status: StatusModel, now: i64)
    ensures
        status.weekly_words(now) is Some ==> status.weekly is Some
            && status.weekly->0.remaining_percent.in_range() && status.weekly_words(now)
            == status.weekly->0.shown(now),
        status.weekly is Some && status.weekly->0.remaining_percent.in_range() ==>
            status.weekly_words(now) == status.weekly->0.shown(now),
{
}

/// A `AccountStatus` is seen with every field as it is.
pub proof fn law_account_status_is_seen_whole(value: AccountStatus)
    ensures
        value@.account == text::opt_view(value.account),
        value@.pool == text::opt_view(value.pool),
        value@.weekly == value.weekly,
        value@.pool_weekly == value.pool_weekly,
        value@.pending_request == text::opt_view(value.pending_request),
        value@.next_check == value.next_check,
{
}

} // verus!
