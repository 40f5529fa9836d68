//! What the usage service says about an account.
//!
//! The caller makes the requests, within their time limits, and hands over the replies. A reading is
//! filled in as the replies come; one that fails half-way keeps what it has and is marked as
//! failed.

use crate::account_pool::AccountModel;
use crate::account_pool::AccountPoolConfig;
use crate::account_pool::AccountQuotaWindow;
use crate::account_pool::BankedReset;
use crate::account_pool::ConfigModel;
use crate::account_pool::ManagedAccount;
use crate::account_pool::ManagedAccountUsage;
use crate::account_pool::PoolModel;
use crate::account_pool::ResetModel;
use crate::account_pool::UsageModel;
use crate::account_pool::WindowModel;
use crate::clock;
use crate::lists;
use crate::percent;
use crate::percent::Percent;
use crate::redemption::RedemptionError;
use crate::redemption::ResetOutcome;
use crate::rounding;
use crate::store::AccountStore;
use crate::text;
use vstd::prelude::*;

verus! {

/// A quota window as the service reports it.
#[derive(Debug, PartialEq)]
pub struct WindowReply {
    pub window_minutes: Option<i64>,
    pub used_percent: Percent,
    pub resets_at: Option<i64>,
}

/// A rate limit as the service reports it.
#[derive(Debug, PartialEq)]
pub struct LimitReply {
    pub limit_id: Option<String>,
    /// The plan, if one is reported, as far as it has a name.
    pub plan: Option<Option<String>>,
    pub spend_control_reached: Option<bool>,
    pub normal_model_slug: Option<String>,
    pub primary: Option<WindowReply>,
    pub secondary: Option<WindowReply>,
}

/// A `LimitReply` as a mathematical value.
pub struct LimitModel {
    pub limit_id: Option<Seq<char>>,
    pub plan: Option<Option<Seq<char>>>,
    pub spend_control_reached: Option<bool>,
    pub normal_model_slug: Option<Seq<char>>,
    pub primary: Option<WindowReply>,
    pub secondary: Option<WindowReply>,
}

impl View for LimitReply {
    type V = LimitModel;

    open spec fn view(&self) -> LimitModel {
        LimitModel {
            limit_id: text::opt_view(self.limit_id),
            plan: match self.plan {
                Some(plan) => Some(text::opt_view(plan)),
                None => None,
            },
            spend_control_reached: self.spend_control_reached,
            normal_model_slug: text::opt_view(self.normal_model_slug),
            primary: self.primary,
            secondary: self.secondary,
        }
    }
}

/// The rate limits of an account as the service reports them.
#[derive(Debug, PartialEq)]
pub struct LimitsReply {
    pub account_id: Option<String>,
    pub user_id: Option<String>,
    pub ordinary_usage_allowed: Option<bool>,
    pub rate_limits: Vec<LimitReply>,
    pub available_resets: Option<i64>,
}

/// A `LimitsReply` as a mathematical value.
pub struct LimitsModel {
    pub account_id: Option<Seq<char>>,
    pub user_id: Option<Seq<char>>,
    pub ordinary_usage_allowed: Option<bool>,
    pub rate_limits: Seq<LimitModel>,
    pub available_resets: Option<i64>,
}

impl View for LimitsReply {
    type V = LimitsModel;

    open spec fn view(&self) -> LimitsModel {
        LimitsModel {
            account_id: text::opt_view(self.account_id),
            user_id: text::opt_view(self.user_id),
            ordinary_usage_allowed: self.ordinary_usage_allowed,
            rate_limits: text::views(self.rate_limits@),
            available_resets: self.available_resets,
        }
    }
}

/// A banked reset as the service reports it.
#[derive(Debug, PartialEq, Eq)]
pub struct CreditReply {
    pub id: String,
    pub status: String,
    pub reset_type: String,
    pub expires_at: Option<String>,
}

/// A `CreditReply` as a mathematical value.
pub struct CreditModel {
    pub id: Seq<char>,
    pub status: Seq<char>,
    pub reset_type: Seq<char>,
    pub expires_at: Option<Seq<char>>,
}

impl View for CreditReply {
    type V = CreditModel;

    open spec fn view(&self) -> CreditModel {
        CreditModel {
            id: self.id@,
            status: self.status@,
            reset_type: self.reset_type@,
            expires_at: text::opt_view(self.expires_at),
        }
    }
}

/// Why a reading fails.
#[derive(Clone, Copy, Debug, PartialEq, Eq, Structural)]
pub enum UsageError {
    IdentityMismatch,
    SpendControl,
    UnknownDuration,
    InvalidWindow,
}

impl UsageError {
    /// The error in words.
    pub open spec fn words(self) -> Seq<char> {
        match self {
            UsageError::IdentityMismatch => "Usage identity does not match account"@,
            UsageError::SpendControl => "Spend control prevents quota recovery"@,
            UsageError::UnknownDuration => "Unknown quota window duration"@,
            UsageError::InvalidWindow => "Invalid quota window"@,
        }
    }

    /// Puts the error in words.
    pub fn message(self) -> (words: &'static str)
        ensures
            words@ == self.words(),
    {
        match self {
            UsageError::IdentityMismatch => "Usage identity does not match account",
            UsageError::SpendControl => "Spend control prevents quota recovery",
            UsageError::UnknownDuration => "Unknown quota window duration",
            UsageError::InvalidWindow => "Invalid quota window",
        }
    }
}

/// How a request for the rate limits went.
#[derive(Clone, Copy, Debug, PartialEq, Eq, Structural)]
pub enum LimitsStatus {
    Received,
    Unauthorized,
    Failed,
}

/// What follows a request for the rate limits.
#[derive(Clone, Copy, Debug, PartialEq, Eq, Structural)]
pub enum LimitsNext {
    /// Take the reply.
    Apply,
    /// Refresh the credentials and ask once more.
    RefreshAndRetry,
    /// Give the reading up.
    Fail,
}

/// The windows that a limit adds, and what is wrong with the first one that cannot be taken.
pub open spec fn window_taken(limit: LimitModel, window: Option<WindowReply>) -> (
    Seq<WindowModel>,
    Option<UsageError>,
) {
    match window {
        None => (seq![], None),
        Some(window) => match window.window_minutes {
            None => (seq![], Some(UsageError::UnknownDuration)),
            Some(minutes) => if minutes <= 0 || !window.used_percent.in_range() {
                (seq![], Some(UsageError::InvalidWindow))
            } else {
                (
                    seq![
                        WindowModel {
                            limit_id: match limit.limit_id {
                                Some(id) => id,
                                None => "codex"@,
                            },
                            model: limit.normal_model_slug,
                            remaining_percent: Percent {
                                bits: window.used_percent.left() as u64,
                            },
                            window_minutes: minutes,
                            resets_at: window.resets_at,
                        },
                    ],
                    None,
                )
            },
        },
    }
}

/// The windows of a limit up to the first one that cannot be taken.
pub open spec fn limit_taken(limit: LimitModel) -> (Seq<WindowModel>, Option<UsageError>) {
    let (primary, fault) = window_taken(limit, limit.primary);
    let (secondary, second_fault) = window_taken(limit, limit.secondary);
    if limit.spend_control_reached == Some(true) {
        (seq![], Some(UsageError::SpendControl))
    } else if fault is Some {
        (seq![], fault)
    } else {
        (primary + secondary, second_fault)
    }
}

/// The windows of all limits up to the first one that cannot be taken.
pub open spec fn limits_taken(limits: Seq<LimitModel>) -> (Seq<WindowModel>, Option<UsageError>)
    decreases limits.len(),
{
    if limits.len() == 0 {
        (seq![], None)
    } else {
        let (windows, fault) = limits_taken(limits.drop_last());
        let (more, last_fault) = limit_taken(limits.last());
        if fault is Some {
            (windows, fault)
        } else {
            (windows + more, last_fault)
        }
    }
}

impl LimitsModel {
    /// The reply is about another account.
    pub open spec fn of_other(self, account: AccountModel) -> bool {
        ||| self.account_id is Some && self.account_id->0 != account.workspace_id
        ||| self.user_id is Some && self.user_id->0 != account.user_id
    }

    /// The plan that the reply gives an account.
    pub open spec fn plan(self, before: Option<Seq<char>>) -> Option<Seq<char>> {
        if self.rate_limits.len() > 0 && self.rate_limits[0].plan is Some {
            self.rate_limits[0].plan->0
        } else {
            before
        }
    }

    /// A reading once the reply has been taken, and what is wrong with the reply. A reply about
    /// another account leaves the reading as it is.
    pub open spec fn taken(self, account: AccountModel, usage: UsageModel) -> (
        UsageModel,
        Option<UsageError>,
    ) {
        let (windows, fault) = limits_taken(self.rate_limits);
        if self.of_other(account) {
            (usage, Some(UsageError::IdentityMismatch))
        } else {
            (
                UsageModel {
                    account: AccountModel { plan: self.plan(usage.account.plan), ..usage.account },
                    ordinary_usage_allowed: self.ordinary_usage_allowed,
                    windows: usage.windows + windows,
                    available_resets: if fault is None {
                        self.available_resets
                    } else {
                        usage.available_resets
                    },
                    ..usage
                },
                fault,
            )
        }
    }
}

/// The credit that a reply stands for: an available one for rate limits that has not expired and
/// whose date, if any, can be read.
pub open spec fn credit_taken(credit: CreditModel, now: i64) -> Option<ResetModel> {
    let expires_at = match credit.expires_at {
        Some(value) => clock::rfc3339_seconds(value),
        None => None,
    };
    let readable = credit.expires_at is None || expires_at is Some;
    if credit.status == "available"@ && credit.reset_type == "codex_rate_limits"@ && readable && (
    expires_at is None || expires_at->0 > now) {
        Some(ResetModel { id: credit.id, expires_at })
    } else {
        None
    }
}

/// The credits that replies stand for, in order.
pub open spec fn credits_taken(credits: Seq<CreditModel>, now: i64) -> Seq<ResetModel>
    decreases credits.len(),
{
    if credits.len() == 0 {
        seq![]
    } else {
        let before = credits_taken(credits.drop_last(), now);
        match credit_taken(credits.last(), now) {
            Some(credit) => before.push(credit),
            None => before,
        }
    }
}

/// The account as the store describes it now, where it still holds it.
pub open spec fn stored_account(config: Option<ConfigModel>, account: AccountModel) -> AccountModel {
    match config {
        Some(config) => match lists::first(
            Seq::new(config.accounts.len(), |i: int| config.accounts[i].names(account)),
        ) {
            Some(i) => config.accounts[i],
            None => account,
        },
        None => account,
    }
}

/// The names of the pools that list an alias.
pub open spec fn pool_names(pools: Seq<PoolModel>, alias: Seq<char>) -> Seq<Seq<char>>
    decreases pools.len(),
{
    if pools.len() == 0 {
        seq![]
    } else {
        let before = pool_names(pools.drop_last(), alias);
        if pools.last().lists(alias) {
            before.push(pools.last().name)
        } else {
            before
        }
    }
}

/// A reading before any reply.
pub open spec fn blank(
    config: Option<ConfigModel>,
    account: AccountModel,
    model: Option<Seq<char>>,
    now: i64,
) -> UsageModel {
    UsageModel {
        account: stored_account(config, account),
        pools: match config {
            Some(config) => pool_names(config.pools, account.alias),
            None => seq![],
        },
        model,
        model_supported: None,
        ordinary_usage_allowed: None,
        windows: seq![],
        available_resets: None,
        resets: None,
        checked_at: now,
        error: None,
    }
}

/// A reading that failed: what allows the account to be used or reset is taken back.
pub open spec fn failed(usage: UsageModel) -> UsageModel {
    UsageModel {
        error: Some("Authentication or usage lookup failed; availability is unknown"@),
        ordinary_usage_allowed: None,
        model_supported: None,
        resets: None,
        ..usage
    }
}

/// Whether an optional text is another than expected.
fn differs(value: &Option<String>, expected: &String) -> (other: bool)
    ensures
        other == (text::opt_view(*value) is Some && text::opt_view(*value)->0 != expected@),
{
    match value {
        Some(value) => !text::same_text(value.as_str(), expected.as_str()),
        None => false,
    }
}

/// Adds a window of a limit to a reading.
fn take_window(
    windows: &mut Vec<AccountQuotaWindow>,
    limit: &LimitReply,
    window: &Option<WindowReply>,
) -> (taken: Result<(), UsageError>)
    ensures
        text::views(final(windows)@) == text::views(old(windows)@) + window_taken(
            limit@,
            *window,
        ).0,
        taken == (match window_taken(limit@, *window).1 {
            Some(error) => Err(error),
            None => Ok(()),
        }),
{
    let ghost before = text::views(windows@);
    let window: &WindowReply = match window {
        Some(window) => window,
        None => {
            assert(before + seq![] =~= before);
            return Ok(());
        },
    };
    let minutes: i64 = match window.window_minutes {
        Some(minutes) => minutes,
        None => {
            assert(before + seq![] =~= before);
            return Err(UsageError::UnknownDuration);
        },
    };
    if minutes <= 0 || !window.used_percent.is_in_range() {
        assert(before + seq![] =~= before);
        return Err(UsageError::InvalidWindow);
    }
    let limit_id: String = match &limit.limit_id {
        Some(id) => id.clone(),
        None => "codex".to_owned(),
    };
    let quota: AccountQuotaWindow = AccountQuotaWindow {
        limit_id,
        model: text::clone_opt(&limit.normal_model_slug),
        remaining_percent: window.used_percent.remaining(),
        window_minutes: minutes,
        resets_at: window.resets_at,
    };
    let ghost added = quota@;
    windows.push(quota);
    assert(text::views(windows@) =~= before + seq![added]);
    Ok(())
}

/// Adds the windows of a limit to a reading.
fn take_limit(windows: &mut Vec<AccountQuotaWindow>, limit: &LimitReply) -> (taken: Result<
    (),
    UsageError,
>)
    ensures
        text::views(final(windows)@) == text::views(old(windows)@) + limit_taken(limit@).0,
        taken == (match limit_taken(limit@).1 {
            Some(error) => Err(error),
            None => Ok(()),
        }),
{
    let ghost before = text::views(windows@);
    assert(before + seq![] =~= before);
    if let Some(true) = limit.spend_control_reached {
        return Err(UsageError::SpendControl);
    }
    if let Err(error) = take_window(windows, limit, &limit.primary) {
        return Err(error);
    }
    let ghost primary = window_taken(limit@, limit@.primary).0;
    let ghost secondary = window_taken(limit@, limit@.secondary).0;
    let taken: Result<(), UsageError> = take_window(windows, limit, &limit.secondary);
    assert(before + primary + secondary =~= before + (primary + secondary));
    taken
}

/// The usage service of an account store.
#[derive(Clone, Copy, Debug, PartialEq, Eq, Structural)]
pub struct ManagedBackend {
    store: AccountStore,
}

impl ManagedBackend {
    /// The store whose accounts are read.
    pub closed spec fn store(self) -> AccountStore {
        self.store
    }

    /// The usage service of an account store.
    pub fn new(store: AccountStore) -> (backend: ManagedBackend)
        ensures
            backend.store() == store,
    {
        ManagedBackend { store }
    }

    /// Begins a reading. `config` is the store, where it can be read.
    pub fn usage(
        &self,
        config: &Option<AccountPoolConfig>,
        account: &ManagedAccount,
        model: &Option<String>,
        now: i64,
    ) -> (usage: ManagedAccountUsage)
        ensures
            usage@ == blank(text::opt_view(*config), account@, text::opt_view(*model), now),
    {
        let usage: ManagedAccountUsage = ManagedAccountUsage {
            account: match config {
                Some(config) => current_account(config, account),
                None => account.clone(),
            },
            pools: match config {
                Some(config) => pools_of(config, account.alias.as_str()),
                None => Vec::new(),
            },
            model: text::clone_opt(model),
            model_supported: None,
            ordinary_usage_allowed: None,
            windows: Vec::new(),
            available_resets: None,
            resets: None,
            checked_at: now,
            error: None,
        };
        assert(usage@.windows =~= seq![]);
        proof {
            if config is None {
                assert(usage@.pools =~= seq![]);
            }
        }
        usage
    }

    /// What follows a request for the rate limits: an unauthorized one is tried once more with
    /// refreshed credentials.
    pub fn after_limits(&self, status: LimitsStatus, retried: bool) -> (next: LimitsNext)
        ensures
            next == (match status {
                LimitsStatus::Received => LimitsNext::Apply,
                LimitsStatus::Unauthorized => if retried {
                    LimitsNext::Fail
                } else {
                    LimitsNext::RefreshAndRetry
                },
                LimitsStatus::Failed => LimitsNext::Fail,
            }),
    {
        match status {
            LimitsStatus::Received => LimitsNext::Apply,
            LimitsStatus::Unauthorized => if retried {
                LimitsNext::Fail
            } else {
                LimitsNext::RefreshAndRetry
            },
            LimitsStatus::Failed => LimitsNext::Fail,
        }
    }

    /// Takes the rate limits into a reading. A reply about another account is refused; of one with a
    /// bad window, the windows before it are kept.
    pub fn read_usage(
        &self,
        account: &ManagedAccount,
        reply: LimitsReply,
        usage: &mut ManagedAccountUsage,
    ) -> (taken: Result<(), UsageError>)
        ensures
            final(usage)@ == reply@.taken(account@, old(usage)@).0,
            taken == (match reply@.taken(account@, old(usage)@).1 {
                Some(error) => Err(error),
                None => Ok(()),
            }),
    {
        if differs(&reply.account_id, &account.workspace_id) || differs(
            &reply.user_id,
            &account.user_id,
        ) {
            return Err(UsageError::IdentityMismatch);
        }
        let ghost before = usage@;
        let ghost limits = reply@.rate_limits;
        usage.ordinary_usage_allowed = reply.ordinary_usage_allowed;
        if reply.rate_limits.len() > 0 {
            assert(limits[0] == reply.rate_limits@[0]@);
            if let Some(plan) = &reply.rate_limits[0].plan {
                usage.account.plan = text::clone_opt(plan);
            }
        }
        let ghost start = usage@;
        assert(before.windows + seq![] =~= before.windows);
        let mut i: usize = 0;
        while i < reply.rate_limits.len()
            invariant
                i <= reply.rate_limits.len(),
                limits == reply@.rate_limits,
                !reply@.of_other(account@),
                before == old(usage)@,
                start == (UsageModel {
                    account: AccountModel {
                        plan: reply@.plan(before.account.plan),
                        ..before.account
                    },
                    ordinary_usage_allowed: reply@.ordinary_usage_allowed,
                    ..before
                }),
                usage@ == (UsageModel {
                    windows: before.windows + limits_taken(limits.take(i as int)).0,
                    ..start
                }),
                limits_taken(limits.take(i as int)).1 is None,
            decreases reply.rate_limits.len() - i,
        {
            let ghost taken_before = limits_taken(limits.take(i as int)).0;
            let ghost more = limit_taken(limits[i as int]).0;
            proof {
                assert(limits.take(i + 1).drop_last() =~= limits.take(i as int));
                assert(limits[i as int] == reply.rate_limits@[i as int]@);
                assert(before.windows + taken_before + more =~= before.windows + (taken_before
                    + more));
            }
            if let Err(error) = take_limit(&mut usage.windows, &reply.rate_limits[i]) {
                proof {
                    lemma_first_fault_stays(limits, i + 1);
                    assert(limits_taken(limits) == limits_taken(limits.take(i + 1)));
                }
                return Err(error);
            }
            i = i + 1;
        }
        assert(limits.take(i as int) =~= limits);
        usage.available_resets = reply.available_resets;
        Ok(())
    }

    /// Takes the models of the account into a reading for a model.
    pub fn read_models(&self, slugs: &Vec<String>, usage: &mut ManagedAccountUsage)
        ensures
            final(usage)@ == (UsageModel {
                model_supported: match old(usage)@.model {
                    Some(model) => Some(text::views(slugs@).contains(model)),
                    None => old(usage)@.model_supported,
                },
                ..old(usage)@
            }),
    {
        let supported: Option<bool> = match &usage.model {
            Some(model) => Some(text::holds_text(slugs, model.as_str())),
            None => usage.model_supported,
        };
        usage.model_supported = supported;
    }

    /// Takes the banked resets into a reading. Reset details are a separate capability: where they
    /// cannot be read, none are known.
    pub fn read_resets(
        &self,
        available_count: i64,
        credits: &Vec<CreditReply>,
        now: i64,
        usage: &mut ManagedAccountUsage,
    )
        ensures
            final(usage)@ == (UsageModel {
                available_resets: Some(available_count),
                resets: Some(credits_taken(text::views(credits@), now)),
                ..old(usage)@
            }),
    {
        let resets: Vec<BankedReset> = live_credits(credits, now);
        usage.available_resets = Some(available_count);
        usage.resets = Some(resets);
    }

    /// Marks a reading as failed. Errors of the service may hold response bodies or addresses with
    /// credentials, so they are not passed on.
    pub fn fail(&self, usage: &mut ManagedAccountUsage)
        ensures
            final(usage)@ == failed(old(usage)@),
    {
        usage.error = Some("Authentication or usage lookup failed; availability is unknown".to_owned());
        usage.ordinary_usage_allowed = None;
        usage.model_supported = None;
        usage.resets = None;
    }

    /// The answer to a reset request, if one came.
    pub fn redeem(&self, answer: Option<ResetOutcome>) -> (outcome: Result<
        ResetOutcome,
        RedemptionError,
    >)
        ensures
            outcome == (match answer {
                Some(outcome) => Ok(outcome),
                None => Err(RedemptionError::ResponseUnknown),
            }),
    {
        match answer {
            Some(outcome) => Ok(outcome),
            None => Err(RedemptionError::ResponseUnknown),
        }
    }
}

/// Nothing after the first fault is taken.
proof fn lemma_first_fault_stays(limits: Seq<LimitModel>, i: int)
    requires
        0 <= i <= limits.len(),
        limits_taken(limits.take(i)).1 is Some,
    ensures
        limits_taken(limits) == limits_taken(limits.take(i)),
    decreases limits.len(),
{
    if i < limits.len() {
        let shorter = limits.drop_last();
        assert(shorter.take(i) =~= limits.take(i));
        lemma_first_fault_stays(shorter, i);
    } else {
        assert(limits.take(i) =~= limits);
    }
}

/// The credits that replies stand for.
fn live_credits(credits: &Vec<CreditReply>, now: i64) -> (resets: Vec<BankedReset>)
    ensures
        text::views(resets@) == credits_taken(text::views(credits@), now),
{
    let ghost models = text::views(credits@);
    let mut resets: Vec<BankedReset> = Vec::new();
    let mut i: usize = 0;
    assert(text::views(resets@) =~= seq![]);
    while i < credits.len()
        invariant
            i <= credits.len(),
            models == text::views(credits@),
            text::views(resets@) == credits_taken(models.take(i as int), now),
        decreases credits.len() - i,
    {
        assert(models.take(i + 1).drop_last() =~= models.take(i as int));
        let ghost before = resets@;
        if let Some(reset) = live_credit(&credits[i], now) {
            let ghost added = reset@;
            resets.push(reset);
            assert(text::views(resets@) =~= text::views(before).push(added));
        }
        i = i + 1;
    }
    assert(models.take(i as int) =~= models);
    resets
}

/// The credit that a reply stands for.
fn live_credit(credit: &CreditReply, now: i64) -> (reset: Option<BankedReset>)
    ensures
        text::opt_view(reset) == credit_taken(credit@, now),
{
    if !text::same_text(credit.status.as_str(), "available") || !text::same_text(
        credit.reset_type.as_str(),
        "codex_rate_limits",
    ) {
        return None;
    }
    let expires_at: Option<i64> = match &credit.expires_at {
        Some(value) => match clock::parse_rfc3339(value.as_str()) {
            Some(seconds) => Some(seconds),
            None => {
                return None;
            },
        },
        None => None,
    };
    let expired: bool = match expires_at {
        Some(expiry) => expiry <= now,
        None => false,
    };
    if expired {
        None
    } else {
        Some(BankedReset { id: credit.id.clone(), expires_at })
    }
}

/// The account as the store describes it now.
fn current_account(config: &AccountPoolConfig, account: &ManagedAccount) -> (found: ManagedAccount)
    ensures
        found@ == stored_account(Some(config@), account@),
{
    let ghost flags = Seq::new(
        config@.accounts.len(),
        |i: int| config@.accounts[i].names(account@),
    );
    let mut i: usize = 0;
    while i < config.accounts.len()
        invariant
            i <= config.accounts.len(),
            flags == Seq::new(
                config@.accounts.len(),
                |i: int| config@.accounts[i].names(account@),
            ),
            forall|j: int| 0 <= j < i ==> !#[trigger] flags[j],
        decreases config.accounts.len() - i,
    {
        assert(config@.accounts[i as int] == config.accounts@[i as int]@);
        if config.accounts[i].same_named(account) {
            proof {
                lists::lemma_first_is(flags, i as int);
            }
            return config.accounts[i].clone();
        }
        i = i + 1;
    }
    proof {
        lists::lemma_first_none(flags);
    }
    account.clone()
}

/// The names of the pools that list an alias.
fn pools_of(config: &AccountPoolConfig, alias: &str) -> (names: Vec<String>)
    ensures
        text::views(names@) == pool_names(config@.pools, alias@),
{
    let ghost pools = config@.pools;
    let mut names: Vec<String> = Vec::new();
    let mut i: usize = 0;
    assert(text::views(names@) =~= seq![]);
    while i < config.pools.len()
        invariant
            i <= config.pools.len(),
            pools == config@.pools,
            text::views(names@) == pool_names(pools.take(i as int), alias@),
        decreases config.pools.len() - i,
    {
        assert(pools.take(i + 1).drop_last() =~= pools.take(i as int));
        assert(pools[i as int] == config.pools@[i as int]@);
        let ghost before = names@;
        if text::holds_text(&config.pools[i].accounts, alias) {
            names.push(config.pools[i].name.clone());
            assert(text::views(names@) =~= text::views(before).push(pools[i as int].name));
        }
        i = i + 1;
    }
    assert(pools.take(i as int) =~= pools);
    names
}

/// A failed reading is never known, so the account is neither used nor reset for it, and it offers
/// no credit.
pub proof fn law_failed_reading_is_unknown(usage: UsageModel, now: i64)
    ensures
        !failed(usage).known_at(now),
        !failed(usage).usable_at(now),
        failed(usage).earliest(now) is None,
{
}

/// Only credits that are available for rate limits and have not expired are listed.
pub proof fn law_listed_credits_are_live(credits: Seq<CreditModel>, now: i64)
    ensures
        forall|i: int|
            0 <= i < credits_taken(credits, now).len() ==> (#[trigger] credits_taken(
                credits,
                now,
            )[i]).live(now),
    decreases credits.len(),
{
    if credits.len() > 0 {
        law_listed_credits_are_live(credits.drop_last(), now);
        let before = credits_taken(credits.drop_last(), now);
        let after = credits_taken(credits, now);
        assert forall|i: int| 0 <= i < after.len() implies (#[trigger] after[i]).live(now) by {
            if i < before.len() {
                assert(after[i] == before[i]);
            }
        }
    }
}

/// The windows that a reading takes from a reply have a positive length and a percentage from zero
/// to one hundred.
pub proof fn law_taken_windows_are_sound(limits: Seq<LimitModel>)
    ensures
        forall|i: int|
            0 <= i < limits_taken(limits).0.len() ==> (#[trigger] limits_taken(
                limits,
            ).0[i]).sound(),
    decreases limits.len(),
{
    if limits.len() > 0 {
        law_taken_windows_are_sound(limits.drop_last());
        let limit = limits.last();
        if limit.primary is Some {
            rounding::law_left_is_in_range(limit.primary->0.used_percent);
        }
        if limit.secondary is Some {
            rounding::law_left_is_in_range(limit.secondary->0.used_percent);
        }
        let before = limits_taken(limits.drop_last()).0;
        let more = limit_taken(limit).0;
        assert forall|i: int| 0 <= i < more.len() implies (#[trigger] more[i]).sound() by {}
        let after = limits_taken(limits).0;
        assert forall|i: int| 0 <= i < after.len() implies (#[trigger] after[i]).sound() by {
            if i < before.len() {
                assert(after[i] == before[i]);
            } else {
                assert(after[i] == more[i - before.len()]);
            }
        }
    }
}

/// How many windows rate limits report.
pub open spec fn reported(limits: Seq<LimitModel>) -> nat
    decreases limits.len(),
{
    if limits.len() == 0 {
        0
    } else {
        reported(limits.drop_last()) + (if limits.last().primary is Some {
            1nat
        } else {
            0
        }) + (if limits.last().secondary is Some {
            1nat
        } else {
            0
        })
    }
}

/// A window of a reading says what the service reports of it: its length, its reset, the limit's id
/// or that of the ordinary quota, the limit's model, and one hundred percent less what is used, as
/// near as a double comes.
pub open spec fn tells(taken: WindowModel, limit: LimitModel, reply: WindowReply) -> bool {
    &&& reply.window_minutes == Some(taken.window_minutes)
    &&& taken.resets_at == reply.resets_at
    &&& match limit.limit_id {
        Some(id) => taken.limit_id == id,
        None => taken.limit_id == seq!['c', 'o', 'd', 'e', 'x'],
    }
    &&& taken.model == limit.normal_model_slug
    &&& taken.remaining_percent.bits < 0x8000_0000_0000_0000
    &&& rounding::rounds_to(
        (100 * percent::one() - percent::magnitude_value(reply.used_percent.magnitude())) as nat,
        taken.remaining_percent.bits as nat,
    )
}

/// A window that is taken says what the service reports of it.
proof fn lemma_window_tells(limit: LimitModel, window: Option<WindowReply>)
    requires
        window_taken(limit, window).1 is None,
    ensures
        window_taken(limit, window).0.len() == (if window is Some {
            1nat
        } else {
            0
        }),
        window is Some ==> tells(window_taken(limit, window).0[0], limit, window->0),
{
    reveal_strlit("codex");
    assert("codex"@ =~= seq!['c', 'o', 'd', 'e', 'x']);
    if let Some(window) = window {
        rounding::law_left_is_one_hundred_less_used(window.used_percent);
    }
}

/// The windows that faultless limits add are those that they report, one for one and in order: the
/// first window of each limit before its second, and both after those of the limits before.
pub proof fn law_windows_follow_the_reply(limits: Seq<LimitModel>, k: int)
    requires
        limits_taken(limits).1 is None,
        0 <= k < limits.len(),
    ensures
        ({
            let windows = limits_taken(limits).0;
            let at = reported(limits.take(k)) as int;
            let next = if limits[k].primary is Some {
                at + 1
            } else {
                at
            };
            &&& windows.len() == reported(limits)
            &&& limits[k].primary is Some ==> 0 <= at < windows.len() && tells(
                windows[at],
                limits[k],
                limits[k].primary->0,
            )
            &&& limits[k].secondary is Some ==> 0 <= next < windows.len() && tells(
                windows[next],
                limits[k],
                limits[k].secondary->0,
            )
        }),
    decreases limits.len(),
{
    let shorter = limits.drop_last();
    let before = limits_taken(shorter).0;
    let last = limits.last();
    lemma_window_tells(last, last.primary);
    lemma_window_tells(last, last.secondary);
    lemma_window_count(shorter);
    if k < shorter.len() {
        law_windows_follow_the_reply(shorter, k);
        assert(shorter.take(k) =~= limits.take(k));
    } else {
        assert(limits.take(k) =~= shorter);
    }
}

/// Faultless limits add as many windows as they report.
proof fn lemma_window_count(limits: Seq<LimitModel>)
    requires
        limits_taken(limits).1 is None,
    ensures
        limits_taken(limits).0.len() == reported(limits),
    decreases limits.len(),
{
    if limits.len() > 0 {
        lemma_window_count(limits.drop_last());
        lemma_window_tells(limits.last(), limits.last().primary);
        lemma_window_tells(limits.last(), limits.last().secondary);
    }
}

/// Nothing is wrong with a limit.
spec fn faultless(limit: LimitModel) -> bool {
    limit_taken(limit).1 is None
}

/// Rate limits are faultless where each of them is.
proof fn lemma_faultless(limits: Seq<LimitModel>)
    ensures
        limits_taken(limits).1 is None <==> forall|k: int|
            0 <= k < limits.len() ==> faultless(#[trigger] limits[k]),
    decreases limits.len(),
{
    if limits.len() > 0 {
        let shorter = limits.drop_last();
        lemma_faultless(shorter);
        assert(limits[limits.len() - 1] == limits.last());
        if limits_taken(shorter).1 is Some {
            let k = choose|k: int| 0 <= k < shorter.len() && !faultless(#[trigger] shorter[k]);
            assert(!faultless(limits[k]));
        } else {
            assert forall|k: int| 0 <= k < shorter.len() implies faultless(
                #[trigger] limits[k],
            ) by {
                assert(faultless(shorter[k]));
            }
        }
    }
}

/// Rate limits are faultless exactly where none reports a reached spend control and every window
/// has a positive length and a percentage from zero to one hundred.
pub proof fn law_faultless_limits(limits: Seq<LimitModel>)
    ensures
        limits_taken(limits).1 is None <==> forall|k: int|
            0 <= k < limits.len() ==> {
                &&& (#[trigger] limits[k]).spend_control_reached != Some(true)
                &&& limits[k].primary matches Some(window) ==> window.window_minutes is Some
                    && window.window_minutes->0 >= 1 && window.used_percent.in_range()
                &&& limits[k].secondary matches Some(window) ==> window.window_minutes is Some
                    && window.window_minutes->0 >= 1 && window.used_percent.in_range()
            },
{
    lemma_faultless(limits);
    if limits_taken(limits).1 is Some {
        let k = choose|k: int| 0 <= k < limits.len() && !faultless(#[trigger] limits[k]);
        assert(!faultless(limits[k]));
    }
}

/// The fault of a reply is that of the first limit with one: a reached spend control, else the first
/// window of the limit, if that is bad, else the second. The windows before it are kept, and none
/// after it.
pub proof fn law_first_fault_ends_the_reading(limits: Seq<LimitModel>, k: int)
    requires
        0 <= k < limits.len(),
        limits_taken(limits.take(k)).1 is None,
        limits_taken(limits.take(k + 1)).1 is Some,
    ensures
        ({
            let kept = limits_taken(limits.take(k)).0;
            let windows = limits_taken(limits).0;
            let fault = limits_taken(limits).1;
            let primary_bad = limits[k].primary is Some && (
            limits[k].primary->0.window_minutes is None
                || limits[k].primary->0.window_minutes->0 <= 0
                || !limits[k].primary->0.used_percent.in_range());
            if limits[k].spend_control_reached == Some(true) {
                windows == kept && fault == Some(UsageError::SpendControl)
            } else if primary_bad {
                windows == kept && fault == Some(
                    if limits[k].primary->0.window_minutes is None {
                        UsageError::UnknownDuration
                    } else {
                        UsageError::InvalidWindow
                    },
                )
            } else {
                &&& limits[k].secondary is Some
                &&& fault == Some(
                    if limits[k].secondary->0.window_minutes is None {
                        UsageError::UnknownDuration
                    } else {
                        UsageError::InvalidWindow
                    },
                )
                &&& if limits[k].primary is Some {
                    &&& windows.len() == kept.len() + 1
                    &&& windows.drop_last() == kept
                    &&& tells(windows.last(), limits[k], limits[k].primary->0)
                } else {
                    windows == kept
                }
            }
        }),
{
    lemma_first_fault_stays(limits, k + 1);
    assert(limits.take(k + 1).drop_last() =~= limits.take(k));
    assert(limits.take(k + 1).last() == limits[k]);
    let limit = limits[k];
    let kept = limits_taken(limits.take(k)).0;
    let windows = limits_taken(limits).0;
    if limit.spend_control_reached != Some(true) && window_taken(limit, limit.primary).1 is None {
        lemma_window_tells(limit, limit.primary);
        assert(window_taken(limit, limit.secondary).0 =~= seq![]);
        if limit.primary is Some {
            assert(windows.drop_last() =~= kept);
        } else {
            assert(windows =~= kept);
        }
    } else {
        assert(windows =~= kept);
    }
}

/// A reply about another user or workspace changes nothing and is refused. Any other one sets
/// whether ordinary usage is allowed, appends its windows, and gives the first limit's plan, if that
/// has one; the banked resets are taken where nothing is wrong. The rest of the reading stays.
pub proof fn law_reply_fills_the_reading(
    reply: LimitsModel,
    account: AccountModel,
    usage: UsageModel,
)
    ensures
        ({
            let (after, fault) = reply.taken(account, usage);
            let other = (reply.account_id is Some && reply.account_id != Some(account.workspace_id))
                || (reply.user_id is Some && reply.user_id != Some(account.user_id));
            &&& fault == Some(UsageError::IdentityMismatch) <==> other
            &&& other ==> after == usage
            &&& !other ==> {
                &&& fault == limits_taken(reply.rate_limits).1
                &&& after.ordinary_usage_allowed == reply.ordinary_usage_allowed
                &&& after.windows == usage.windows + limits_taken(reply.rate_limits).0
                &&& fault is None ==> after.available_resets == reply.available_resets
                &&& fault is Some ==> after.available_resets == usage.available_resets
                &&& reply.rate_limits.len() > 0 && reply.rate_limits[0].plan is Some
                    ==> after.account.plan == reply.rate_limits[0].plan->0
                &&& reply.rate_limits.len() == 0 || reply.rate_limits[0].plan is None
                    ==> after.account.plan == usage.account.plan
            }
            &&& after.account.alias == usage.account.alias
            &&& after.account.user_id == usage.account.user_id
            &&& after.account.workspace_id == usage.account.workspace_id
            &&& after.account.email == usage.account.email
            &&& after.pools == usage.pools
            &&& after.model == usage.model
            &&& after.model_supported == usage.model_supported
            &&& after.resets == usage.resets
            &&& after.checked_at == usage.checked_at
            &&& after.error == usage.error
        }),
{
    lemma_fault_is_no_mismatch(reply.rate_limits);
}

/// A fault of rate limits is never one of identity.
proof fn lemma_fault_is_no_mismatch(limits: Seq<LimitModel>)
    ensures
        limits_taken(limits).1 != Some(UsageError::IdentityMismatch),
    decreases limits.len(),
{
    if limits.len() > 0 {
        lemma_fault_is_no_mismatch(limits.drop_last());
    }
}

/// A reply stands for a credit exactly where it is available for rate limits and its date, if it has
/// one, can be read and is still to come; the credit has the reply's id and date.
pub proof fn law_credit_is_available_and_unexpired(credit: CreditModel, now: i64)
    ensures
        credit_taken(credit, now) is Some <==> {
            &&& credit.status == "available"@
            &&& credit.reset_type == "codex_rate_limits"@
            &&& credit.expires_at is Some ==> {
                &&& clock::rfc3339_seconds(credit.expires_at->0) is Some
                &&& clock::rfc3339_seconds(credit.expires_at->0)->0 > now
            }
        },
        credit_taken(credit, now) matches Some(taken) ==> {
            &&& taken.id == credit.id
            &&& credit.expires_at is None ==> taken.expires_at is None
            &&& credit.expires_at is Some ==> taken.expires_at == clock::rfc3339_seconds(
                credit.expires_at->0,
            )
        },
{
}

/// Credits are taken one by one and in order: a reply that stands for none adds nothing, and any
/// other adds its credit at its place.
pub proof fn law_credits_are_taken_in_order(
    first: Seq<CreditModel>,
    second: Seq<CreditModel>,
    one: CreditModel,
    now: i64,
)
    ensures
        credits_taken(first + second, now) == credits_taken(first, now) + credits_taken(
            second,
            now,
        ),
        credits_taken(seq![one], now) == (match credit_taken(one, now) {
            Some(credit) => seq![credit],
            None => seq![],
        }),
    decreases second.len(),
{
    assert(seq![one].drop_last() =~= seq![]);
    assert(credits_taken(seq![], now) =~= seq![]);
    if second.len() == 0 {
        assert(first + second =~= first);
        assert(credits_taken(first, now) + seq![] =~= credits_taken(first, now));
    } else {
        law_credits_are_taken_in_order(first, second.drop_last(), one, now);
        assert((first + second).drop_last() =~= first + second.drop_last());
        assert((first + second).last() == second.last());
        assert(credits_taken(first + second, now) =~= credits_taken(first, now) + credits_taken(
            second,
            now,
        ));
    }
}

/// A reading begins with the account as the store holds it under the same alias and login, and with
/// the names of the pools that list its alias; nothing else is known of it, and it is as old as the
/// clock says.
pub proof fn law_reading_begins_blank(
    config: ConfigModel,
    account: AccountModel,
    model: Option<Seq<char>>,
    now: i64,
    i: int,
)
    ensures
        ({
            let usage = blank(Some(config), account, model, now);
            &&& usage.model == model && usage.checked_at == now && usage.error is None
            &&& usage.ordinary_usage_allowed is None && usage.model_supported is None
            &&& usage.windows.len() == 0 && usage.available_resets is None && usage.resets is None
            &&& usage.account.alias == account.alias
            &&& usage.account.user_id == account.user_id
            &&& usage.account.workspace_id == account.workspace_id
            &&& usage.account == account || config.accounts.contains(usage.account)
            &&& 0 <= i < config.accounts.len() && config.accounts[i].alias == account.alias
                && config.accounts[i].user_id == account.user_id && config.accounts[i].workspace_id
                == account.workspace_id ==> config.accounts.contains(usage.account)
            &&& 0 <= i < config.pools.len() && config.pools[i].accounts.contains(account.alias)
                ==> usage.pools.contains(config.pools[i].name)
        }),
        blank(None, account, model, now).account == account,
        blank(None, account, model, now).pools.len() == 0,
{
    let flags = Seq::new(config.accounts.len(), |i: int| config.accounts[i].names(account));
    lists::lemma_first(flags);
    if 0 <= i < config.accounts.len() && config.accounts[i].names(account) {
        assert(flags[i]);
    }
    if let Some(k) = lists::first(flags) {
        assert(config.accounts.contains(config.accounts[k]));
    }
    if 0 <= i < config.pools.len() && config.pools[i].accounts.contains(account.alias) {
        lemma_pool_is_named(config.pools, account.alias, i);
    }
}

/// A pool that lists an alias is named.
proof fn lemma_pool_is_named(pools: Seq<PoolModel>, alias: Seq<char>, i: int)
    requires
        0 <= i < pools.len(),
        pools[i].accounts.contains(alias),
    ensures
        pool_names(pools, alias).contains(pools[i].name),
    decreases pools.len(),
{
    let shorter = pools.drop_last();
    let before = pool_names(shorter, alias);
    let after = pool_names(pools, alias);
    if i < shorter.len() {
        lemma_pool_is_named(shorter, alias, i);
        let k = choose|k: int| 0 <= k < before.len() && before[k] == pools[i].name;
        assert(after[k] == pools[i].name);
    } else {
        assert(after[before.len() as int] == pools[i].name);
    }
}

/// The pools of an account are named one by one, in the order of the store, and only where they list
/// it.
pub proof fn law_pools_are_named_in_order(
    first: Seq<PoolModel>,
    second: Seq<PoolModel>,
    pool: PoolModel,
    alias: Seq<char>,
)
    ensures
        pool_names(first + second, alias) == pool_names(first, alias) + pool_names(second, alias),
        pool_names(seq![pool], alias) == (if pool.accounts.contains(alias) {
            seq![pool.name]
        } else {
            seq![]
        }),
    decreases second.len(),
{
    assert(seq![pool].drop_last() =~= seq![]);
    assert(pool_names(seq![], alias) =~= seq![]);
    if second.len() == 0 {
        assert(first + second =~= first);
        assert(pool_names(first, alias) + seq![] =~= pool_names(first, alias));
    } else {
        law_pools_are_named_in_order(first, second.drop_last(), pool, alias);
        assert((first + second).drop_last() =~= first + second.drop_last());
        assert((first + second).last() == second.last());
        assert(pool_names(first + second, alias) =~= pool_names(first, alias) + pool_names(
            second,
            alias,
        ));
    }
}

/// A failed reading keeps what tells the account and its windows, and takes back what would let it
/// be used or reset.
pub proof fn law_failed_reading_keeps_the_rest(usage: UsageModel)
    ensures
        failed(usage).error is Some,
        failed(usage).ordinary_usage_allowed is None,
        failed(usage).model_supported is None,
        failed(usage).resets is None,
        failed(usage).account == usage.account,
        failed(usage).pools == usage.pools,
        failed(usage).model == usage.model,
        failed(usage).windows == usage.windows,
        failed(usage).available_resets == usage.available_resets,
        failed(usage).checked_at == usage.checked_at,
{
}

/// A `LimitReply` is seen with every field as it is.
pub proof fn law_limit_reply_is_seen_whole(value: LimitReply)
    ensures
        value@.limit_id == text::opt_view(value.limit_id),
        value@.plan == (match value.plan {
            Some(plan) => Some(text::opt_view(plan)),
            None => None,
        }),
        value@.spend_control_reached == value.spend_control_reached,
        value@.normal_model_slug == text::opt_view(value.normal_model_slug),
        value@.primary == value.primary,
        value@.secondary == value.secondary,
{
}

/// A `LimitsReply` is seen with every field as it is.
pub proof fn law_limits_reply_is_seen_whole(value: LimitsReply)
    ensures
        value@.account_id == text::opt_view(value.account_id),
        value@.user_id == text::opt_view(value.user_id),
        value@.ordinary_usage_allowed == value.ordinary_usage_allowed,
        value@.rate_limits == text::views(value.rate_limits@),
        value@.available_resets == value.available_resets,
{
}

/// A `CreditReply` is seen with every field as it is.
pub proof fn law_credit_reply_is_seen_whole(value: CreditReply)
    ensures
        value@.id == value.id@,
        value@.status == value.status@,
        value@.reset_type == value.reset_type@,
        value@.expires_at == text::opt_view(value.expires_at),
{
}

/// Every fault of a reading is told in words of its own.
pub proof fn law_reading_faults_are_told()
    ensures
        UsageError::IdentityMismatch.words() == "Usage identity does not match account"@,
        UsageError::SpendControl.words() == "Spend control prevents quota recovery"@,
        UsageError::UnknownDuration.words() == "Unknown quota window duration"@,
        UsageError::InvalidWindow.words() == "Invalid quota window"@,
{
}

} // verus!
