//! Credential-free descriptions of locally managed accounts and session pools.

use crate::clock;
use crate::percent;
use crate::percent::Percent;
use crate::text;
use vstd::prelude::*;

verus! {

/// What a session runs on: one account, or a pool that may switch between accounts.
#[derive(Debug, PartialEq, Eq)]
pub enum AccountSelection {
    Account(String),
    Pool(String),
}

/// An `AccountSelection` as a mathematical value.
pub enum SelectionModel {
    Account(Seq<char>),
    Pool(Seq<char>),
}

impl View for AccountSelection {
    type V = SelectionModel;

    open spec fn view(&self) -> SelectionModel {
        match self {
            AccountSelection::Account(name) => SelectionModel::Account(name@),
            AccountSelection::Pool(name) => SelectionModel::Pool(name@),
        }
    }
}

impl Clone for AccountSelection {
    fn clone(&self) -> (copy: Self)
        ensures
            copy@ == self@,
    {
        match self {
            AccountSelection::Account(name) => AccountSelection::Account(name.clone()),
            AccountSelection::Pool(name) => AccountSelection::Pool(name.clone()),
        }
    }
}

impl AccountSelection {
    /// Whether two selections name the same thing.
    pub fn same(&self, other: &AccountSelection) -> (same: bool)
        ensures
            same == (self@ == other@),
    {
        match (self, other) {
            (AccountSelection::Account(a), AccountSelection::Account(b)) => text::same_text(
                a.as_str(),
                b.as_str(),
            ),
            (AccountSelection::Pool(a), AccountSelection::Pool(b)) => text::same_text(
                a.as_str(),
                b.as_str(),
            ),
            _ => false,
        }
    }
}

/// Copies an optional selection.
pub fn clone_selection(selection: &Option<AccountSelection>) -> (copy: Option<AccountSelection>)
    ensures
        text::opt_view(copy) == text::opt_view(*selection),
{
    match selection {
        Some(value) => Some(value.clone()),
        None => None,
    }
}

/// A stored login under its local alias.
#[derive(Debug, PartialEq, Eq)]
pub struct ManagedAccount {
    pub alias: String,
    pub user_id: String,
    pub workspace_id: String,
    pub email: Option<String>,
    pub plan: Option<String>,
}

/// A `ManagedAccount` as a mathematical value.
pub struct AccountModel {
    pub alias: Seq<char>,
    pub user_id: Seq<char>,
    pub workspace_id: Seq<char>,
    pub email: Option<Seq<char>>,
    pub plan: Option<Seq<char>>,
}

impl AccountModel {
    /// The user and workspace that own the login.
    pub open spec fn identity(self) -> (Seq<char>, Seq<char>) {
        (self.user_id, self.workspace_id)
    }

    /// The same login under the same alias; email and plan may have changed since.
    pub open spec fn names(self, other: AccountModel) -> bool {
        self.alias == other.alias && self.identity() == other.identity()
    }

    /// Both accounts cannot be stored together: they share their alias or their login.
    pub open spec fn clashes(self, other: AccountModel) -> bool {
        self.alias == other.alias || self.identity() == other.identity()
    }
}

impl View for ManagedAccount {
    type V = AccountModel;

    open spec fn view(&self) -> AccountModel {
        AccountModel {
            alias: self.alias@,
            user_id: self.user_id@,
            workspace_id: self.workspace_id@,
            email: text::opt_view(self.email),
            plan: text::opt_view(self.plan),
        }
    }
}

impl Clone for ManagedAccount {
    fn clone(&self) -> (copy: Self)
        ensures
            copy@ == self@,
    {
        ManagedAccount {
            alias: self.alias.clone(),
            user_id: self.user_id.clone(),
            workspace_id: self.workspace_id.clone(),
            email: text::clone_opt(&self.email),
            plan: text::clone_opt(&self.plan),
        }
    }
}

impl ManagedAccount {
    /// Whether two accounts belong to the same user and workspace.
    pub fn same_identity(&self, other: &ManagedAccount) -> (same: bool)
        ensures
            same == (self@.identity() == other@.identity()),
    {
        text::same_text(self.user_id.as_str(), other.user_id.as_str()) && text::same_text(
            self.workspace_id.as_str(),
            other.workspace_id.as_str(),
        )
    }

    /// Whether two accounts are the same login under the same alias.
    pub fn same_named(&self, other: &ManagedAccount) -> (same: bool)
        ensures
            same == self@.names(other@),
    {
        text::same_text(self.alias.as_str(), other.alias.as_str()) && self.same_identity(other)
    }

    /// Whether two accounts agree in every field.
    pub fn same(&self, other: &ManagedAccount) -> (same: bool)
        ensures
            same == (self@ == other@),
    {
        self.same_named(other) && text::same_opt(&self.email, &other.email) && text::same_opt(
            &self.plan,
            &other.plan,
        )
    }
}

/// Copies a list of accounts.
pub fn clone_accounts(accounts: &Vec<ManagedAccount>) -> (copy: Vec<ManagedAccount>)
    ensures
        text::views(copy@) == text::views(accounts@),
{
    let mut copy: Vec<ManagedAccount> = Vec::new();
    let mut i: usize = 0;
    while i < accounts.len()
        invariant
            i <= accounts.len(),
            copy.len() == i,
            forall|j: int| 0 <= j < i ==> #[trigger] copy@[j]@ == accounts@[j]@,
        decreases accounts.len() - i,
    {
        copy.push(accounts[i].clone());
        i = i + 1;
    }
    assert(text::views(copy@) =~= text::views(accounts@));
    copy
}

/// Whether two lists of accounts agree in every field.
pub fn same_accounts(a: &Vec<ManagedAccount>, b: &Vec<ManagedAccount>) -> (same: bool)
    ensures
        same == (text::views(a@) == text::views(b@)),
{
    if a.len() != b.len() {
        assert(text::views(a@).len() != text::views(b@).len());
        return false;
    }
    let mut i: usize = 0;
    while i < a.len()
        invariant
            i <= a.len(),
            a.len() == b.len(),
            forall|j: int| 0 <= j < i ==> #[trigger] a@[j]@ == b@[j]@,
        decreases a.len() - i,
    {
        if !a[i].same(&b[i]) {
            assert(text::views(a@)[i as int] != text::views(b@)[i as int]);
            return false;
        }
        i = i + 1;
    }
    assert(text::views(a@) =~= text::views(b@));
    true
}

/// An ordered group of accounts that sessions may switch between.
#[derive(Debug, PartialEq, Eq)]
pub struct AccountPool {
    pub name: String,
    /// Ordered aliases. The order breaks quota and reset-credit ties.
    pub accounts: Vec<String>,
    /// Use existing banked credits only when every eligible account is weekly exhausted.
    pub redeem_weekly_resets: bool,
}

/// An `AccountPool` as a mathematical value.
pub struct PoolModel {
    pub name: Seq<char>,
    pub accounts: Seq<Seq<char>>,
    pub redeem_weekly_resets: bool,
}

impl View for AccountPool {
    type V = PoolModel;

    open spec fn view(&self) -> PoolModel {
        PoolModel {
            name: self.name@,
            accounts: text::views(self.accounts@),
            redeem_weekly_resets: self.redeem_weekly_resets,
        }
    }
}

impl Clone for AccountPool {
    fn clone(&self) -> (copy: Self)
        ensures
            copy@ == self@,
    {
        AccountPool {
            name: self.name.clone(),
            accounts: text::clone_texts(&self.accounts),
            redeem_weekly_resets: self.redeem_weekly_resets,
        }
    }
}

/// Copies a list of pools.
pub fn clone_pools(pools: &Vec<AccountPool>) -> (copy: Vec<AccountPool>)
    ensures
        text::views(copy@) == text::views(pools@),
{
    let mut copy: Vec<AccountPool> = Vec::new();
    let mut i: usize = 0;
    while i < pools.len()
        invariant
            i <= pools.len(),
            copy.len() == i,
            forall|j: int| 0 <= j < i ==> #[trigger] copy@[j]@ == pools@[j]@,
        decreases pools.len() - i,
    {
        copy.push(pools[i].clone());
        i = i + 1;
    }
    assert(text::views(copy@) =~= text::views(pools@));
    copy
}

/// Every stored account and pool, and what new sessions use unless told otherwise.
#[derive(Debug, PartialEq, Eq)]
pub struct AccountPoolConfig {
    pub accounts: Vec<ManagedAccount>,
    pub pools: Vec<AccountPool>,
    pub default_selection: Option<AccountSelection>,
}

/// An `AccountPoolConfig` as a mathematical value.
pub struct ConfigModel {
    pub accounts: Seq<AccountModel>,
    pub pools: Seq<PoolModel>,
    pub default_selection: Option<SelectionModel>,
}

impl View for AccountPoolConfig {
    type V = ConfigModel;

    open spec fn view(&self) -> ConfigModel {
        ConfigModel {
            accounts: text::views(self.accounts@),
            pools: text::views(self.pools@),
            default_selection: text::opt_view(self.default_selection),
        }
    }
}

impl Clone for AccountPoolConfig {
    fn clone(&self) -> (copy: Self)
        ensures
            copy@ == self@,
    {
        AccountPoolConfig {
            accounts: clone_accounts(&self.accounts),
            pools: clone_pools(&self.pools),
            default_selection: clone_selection(&self.default_selection),
        }
    }
}

impl Default for AccountPoolConfig {
    fn default() -> (config: Self)
        ensures
            config@.accounts.len() == 0,
            config@.pools.len() == 0,
            config@.default_selection is None,
    {
        AccountPoolConfig { accounts: Vec::new(), pools: Vec::new(), default_selection: None }
    }
}

/// One quota window of an account.
#[derive(Debug, PartialEq)]
pub struct AccountQuotaWindow {
    pub limit_id: String,
    pub model: Option<String>,
    pub remaining_percent: Percent,
    pub window_minutes: i64,
    pub resets_at: Option<i64>,
}

/// An `AccountQuotaWindow` as a mathematical value.
pub struct WindowModel {
    pub limit_id: Seq<char>,
    pub model: Option<Seq<char>>,
    pub remaining_percent: Percent,
    pub window_minutes: i64,
    pub resets_at: Option<i64>,
}

impl View for AccountQuotaWindow {
    type V = WindowModel;

    open spec fn view(&self) -> WindowModel {
        WindowModel {
            limit_id: self.limit_id@,
            model: text::opt_view(self.model),
            remaining_percent: self.remaining_percent,
            window_minutes: self.window_minutes,
            resets_at: self.resets_at,
        }
    }
}

impl Clone for AccountQuotaWindow {
    fn clone(&self) -> (copy: Self)
        ensures
            copy@ == self@,
    {
        AccountQuotaWindow {
            limit_id: self.limit_id.clone(),
            model: text::clone_opt(&self.model),
            remaining_percent: self.remaining_percent,
            window_minutes: self.window_minutes,
            resets_at: self.resets_at,
        }
    }
}

/// Copies a list of quota windows.
pub fn clone_windows(windows: &Vec<AccountQuotaWindow>) -> (copy: Vec<AccountQuotaWindow>)
    ensures
        text::views(copy@) == text::views(windows@),
{
    let mut copy: Vec<AccountQuotaWindow> = Vec::new();
    let mut i: usize = 0;
    while i < windows.len()
        invariant
            i <= windows.len(),
            copy.len() == i,
            forall|j: int| 0 <= j < i ==> #[trigger] copy@[j]@ == windows@[j]@,
        decreases windows.len() - i,
    {
        copy.push(windows[i].clone());
        i = i + 1;
    }
    assert(text::views(copy@) =~= text::views(windows@));
    copy
}

/// A banked credit that resets the quota of an account once.
#[derive(Debug, PartialEq, Eq)]
pub struct BankedReset {
    pub id: String,
    pub expires_at: Option<i64>,
}

/// A `BankedReset` as a mathematical value.
pub struct ResetModel {
    pub id: Seq<char>,
    pub expires_at: Option<i64>,
}

impl ResetModel {
    /// The credit has not expired.
    pub open spec fn live(self, now: i64) -> bool {
        self.expires_at is None || self.expires_at->0 > now
    }
}

impl View for BankedReset {
    type V = ResetModel;

    open spec fn view(&self) -> ResetModel {
        ResetModel { id: self.id@, expires_at: self.expires_at }
    }
}

impl Clone for BankedReset {
    fn clone(&self) -> (copy: Self)
        ensures
            copy@ == self@,
    {
        BankedReset { id: self.id.clone(), expires_at: self.expires_at }
    }
}

impl BankedReset {
    /// Whether the credit has not expired.
    pub fn is_live(&self, now: i64) -> (answer: bool)
        ensures
            answer == self@.live(now),
    {
        match self.expires_at {
            Some(expiry) => expiry > now,
            None => true,
        }
    }
}

/// Copies a list of credits.
pub fn clone_resets(resets: &Vec<BankedReset>) -> (copy: Vec<BankedReset>)
    ensures
        text::views(copy@) == text::views(resets@),
{
    let mut copy: Vec<BankedReset> = Vec::new();
    let mut i: usize = 0;
    while i < resets.len()
        invariant
            i <= resets.len(),
            copy.len() == i,
            forall|j: int| 0 <= j < i ==> #[trigger] copy@[j]@ == resets@[j]@,
        decreases resets.len() - i,
    {
        copy.push(resets[i].clone());
        i = i + 1;
    }
    assert(text::views(copy@) =~= text::views(resets@));
    copy
}

/// What is known of an account's quota.
#[derive(Debug, PartialEq)]
pub struct ManagedAccountUsage {
    pub account: ManagedAccount,
    pub pools: Vec<String>,
    pub model: Option<String>,
    pub model_supported: Option<bool>,
    pub ordinary_usage_allowed: Option<bool>,
    pub windows: Vec<AccountQuotaWindow>,
    pub available_resets: Option<i64>,
    /// Absent means details are unknown, including failed reads.
    pub resets: Option<Vec<BankedReset>>,
    pub checked_at: i64,
    pub error: Option<String>,
}

/// A `ManagedAccountUsage` as a mathematical value.
pub struct UsageModel {
    pub account: AccountModel,
    pub pools: Seq<Seq<char>>,
    pub model: Option<Seq<char>>,
    pub model_supported: Option<bool>,
    pub ordinary_usage_allowed: Option<bool>,
    pub windows: Seq<WindowModel>,
    pub available_resets: Option<i64>,
    pub resets: Option<Seq<ResetModel>>,
    pub checked_at: i64,
    pub error: Option<Seq<char>>,
}

/// The view of an optional list.
pub open spec fn opt_views<T: View>(items: Option<Vec<T>>) -> Option<Seq<T::V>> {
    match items {
        Some(list) => Some(text::views(list@)),
        None => None,
    }
}

impl View for ManagedAccountUsage {
    type V = UsageModel;

    open spec fn view(&self) -> UsageModel {
        UsageModel {
            account: self.account@,
            pools: text::views(self.pools@),
            model: text::opt_view(self.model),
            model_supported: self.model_supported,
            ordinary_usage_allowed: self.ordinary_usage_allowed,
            windows: text::views(self.windows@),
            available_resets: self.available_resets,
            resets: opt_views(self.resets),
            checked_at: self.checked_at,
            error: text::opt_view(self.error),
        }
    }
}

impl Clone for ManagedAccountUsage {
    fn clone(&self) -> (copy: Self)
        ensures
            copy@ == self@,
    {
        ManagedAccountUsage {
            account: self.account.clone(),
            pools: text::clone_texts(&self.pools),
            model: text::clone_opt(&self.model),
            model_supported: self.model_supported,
            ordinary_usage_allowed: self.ordinary_usage_allowed,
            windows: clone_windows(&self.windows),
            available_resets: self.available_resets,
            resets: match &self.resets {
                Some(resets) => Some(clone_resets(resets)),
                None => None,
            },
            checked_at: self.checked_at,
            error: text::clone_opt(&self.error),
        }
    }
}

/// Why a pool waits before it tries again.
#[derive(Clone, Copy, Debug, PartialEq, Eq, Structural)]
pub enum PoolWaitReason {
    UnknownAvailability,
    ShortWindow,
    WeeklyQuota,
    RedemptionPending,
}

impl PoolWaitReason {
    /// The reason in words.
    pub open spec fn words(self) -> Seq<char> {
        match self {
            PoolWaitReason::UnknownAvailability => "availability is unknown"@,
            PoolWaitReason::ShortWindow => "short-window quota is exhausted"@,
            PoolWaitReason::WeeklyQuota => "weekly quota is exhausted"@,
            PoolWaitReason::RedemptionPending => "reset recovery is pending"@,
        }
    }

    /// Puts the reason in words.
    pub fn describe(self) -> (words: &'static str)
        ensures
            words@ == self.words(),
    {
        match self {
            PoolWaitReason::UnknownAvailability => "availability is unknown",
            PoolWaitReason::ShortWindow => "short-window quota is exhausted",
            PoolWaitReason::WeeklyQuota => "weekly quota is exhausted",
            PoolWaitReason::RedemptionPending => "reset recovery is pending",
        }
    }
}

/// What a session reports about its account.
#[allow(inconsistent_fields)]
#[derive(Debug, PartialEq, Eq)]
pub enum AccountPoolEvent {
    Selected { account: ManagedAccount },
    Switched { account: String, previous_account: String },
    Redeemed { account: String },
    Waiting { account: String, reason: PoolWaitReason, next_check_at: i64 },
}

/// An `AccountPoolEvent` as a mathematical value.
#[allow(inconsistent_fields)]
pub enum EventModel {
    Selected { account: AccountModel },
    Switched { account: Seq<char>, previous_account: Seq<char> },
    Redeemed { account: Seq<char> },
    Waiting { account: Seq<char>, reason: PoolWaitReason, next_check_at: i64 },
}

impl View for AccountPoolEvent {
    type V = EventModel;

    open spec fn view(&self) -> EventModel {
        match self {
            AccountPoolEvent::Selected { account } => EventModel::Selected { account: account@ },
            AccountPoolEvent::Switched { account, previous_account } => EventModel::Switched {
                account: account@,
                previous_account: previous_account@,
            },
            AccountPoolEvent::Redeemed { account } => EventModel::Redeemed { account: account@ },
            AccountPoolEvent::Waiting { account, reason, next_check_at } => EventModel::Waiting {
                account: account@,
                reason: *reason,
                next_check_at: *next_check_at,
            },
        }
    }
}

impl Clone for AccountPoolEvent {
    fn clone(&self) -> (copy: Self)
        ensures
            copy@ == self@,
    {
        match self {
            AccountPoolEvent::Selected { account } => AccountPoolEvent::Selected {
                account: account.clone(),
            },
            AccountPoolEvent::Switched { account, previous_account } => AccountPoolEvent::Switched {
                account: account.clone(),
                previous_account: previous_account.clone(),
            },
            AccountPoolEvent::Redeemed { account } => AccountPoolEvent::Redeemed {
                account: account.clone(),
            },
            AccountPoolEvent::Waiting { account, reason, next_check_at } => {
                AccountPoolEvent::Waiting {
                    account: account.clone(),
                    reason: *reason,
                    next_check_at: *next_check_at,
                }
            },
        }
    }
}

impl EventModel {
    /// The event as the user reads it.
    pub open spec fn message(self) -> Seq<char> {
        match self {
            EventModel::Selected { account } => "Using account "@ + account.alias,
            EventModel::Switched { account, previous_account } => "Account switched from "@
                + previous_account + " to "@ + account + "; continuing with the same model"@,
            EventModel::Redeemed { account } => "Used a banked reset for "@ + account
                + "; quota recovery verified"@,
            EventModel::Waiting { account, reason, next_check_at } => "Account "@ + account
                + ": waiting because "@ + reason.words() + ". Next check: "@ + clock::time_text(
                next_check_at,
            ) + ". Cancel to stop monitoring."@,
        }
    }
}

impl AccountPoolEvent {
    /// Writes the event as the user reads it.
    pub fn message(&self) -> (text: String)
        ensures
            text@ == self@.message(),
    {
        match self {
            AccountPoolEvent::Selected { account } => {
                let mut text: String = "Using account ".to_owned();
                text.append(account.alias.as_str());
                text
            },
            AccountPoolEvent::Switched { account, previous_account } => {
                let mut text: String = "Account switched from ".to_owned();
                text.append(previous_account.as_str());
                text.append(" to ");
                text.append(account.as_str());
                text.append("; continuing with the same model");
                text
            },
            AccountPoolEvent::Redeemed { account } => {
                let mut text: String = "Used a banked reset for ".to_owned();
                text.append(account.as_str());
                text.append("; quota recovery verified");
                text
            },
            AccountPoolEvent::Waiting { account, reason, next_check_at } => {
                let mut text: String = "Account ".to_owned();
                text.append(account.as_str());
                text.append(": waiting because ");
                text.append(reason.describe());
                text.append(". Next check: ");
                text.append(clock::display_time(*next_check_at).as_str());
                text.append(". Cancel to stop monitoring.");
                text
            },
        }
    }
}

/// A reset time in words.
pub open spec fn reset_words(resets_at: Option<i64>) -> Seq<char> {
    match resets_at {
        Some(time) => clock::time_text(time),
        None => "unknown"@,
    }
}

impl WindowModel {
    /// The line of a usage summary for this window.
    pub open spec fn summary(self) -> Seq<char> {
        "  "@ + self.limit_id + ": "@ + self.remaining_percent.rounded() + "% remaining ("@
            + text::decimal(self.window_minutes as int) + " minutes), resets "@ + reset_words(
            self.resets_at,
        )
    }
}

impl AccountQuotaWindow {
    /// Writes the line of a usage summary for this window.
    fn summary(&self) -> (line: String)
        ensures
            line@ == self@.summary(),
    {
        let mut line: String = "  ".to_owned();
        line.append(self.limit_id.as_str());
        line.append(": ");
        line.append(percent::rounded_text(self.remaining_percent).as_str());
        line.append("% remaining (");
        line.append(text::numeral(self.window_minutes).as_str());
        line.append(" minutes), resets ");
        match self.resets_at {
            Some(time) => {
                line.append(clock::display_time(time).as_str());
            },
            None => {
                line.append("unknown");
            },
        }
        line
    }
}

/// An optional text, or a word in its place.
pub open spec fn or_word(value: Option<Seq<char>>, word: Seq<char>) -> Seq<char> {
    match value {
        Some(value) => value,
        None => word,
    }
}

impl UsageModel {
    /// The first line of a usage summary.
    pub open spec fn headline(self) -> Seq<char> {
        self.account.alias + " | "@ + or_word(self.account.plan, "plan unknown"@) + " | pools: "@
            + text::joined(self.pools, ", "@) + " | checked "@ + clock::time_text(self.checked_at)
    }

    /// The line of a usage summary on banked resets and the last error.
    pub open spec fn resets_line(self) -> Seq<char> {
        "  Banked resets: "@ + (match self.available_resets {
            Some(count) => text::decimal(count as int),
            None => "unknown"@,
        }) + " | "@ + or_word(self.error, "authenticated"@)
    }

    /// The lines of a usage summary.
    pub open spec fn summary_lines(self) -> Seq<Seq<char>> {
        let windows = Seq::new(self.windows.len(), |i: int| self.windows[i].summary());
        let lines = seq![self.headline()] + windows + seq![self.resets_line()];
        if self.windows.len() == 0 {
            lines + seq!["  Quota windows: unknown"@]
        } else {
            lines
        }
    }
}

impl ManagedAccountUsage {
    /// Writes a summary of the usage, one line per window.
    pub fn display_summary(&self) -> (summary: String)
        ensures
            summary@ == text::joined(self@.summary_lines(), "\n"@),
    {
        let mut lines: Vec<String> = Vec::new();
        let mut headline: String = self.account.alias.clone();
        headline.append(" | ");
        match &self.account.plan {
            Some(plan) => {
                headline.append(plan.as_str());
            },
            None => {
                headline.append("plan unknown");
            },
        }
        headline.append(" | pools: ");
        headline.append(text::join(&self.pools, ", ").as_str());
        headline.append(" | checked ");
        headline.append(clock::display_time(self.checked_at).as_str());
        lines.push(headline);
        let mut i: usize = 0;
        while i < self.windows.len()
            invariant
                i <= self.windows.len(),
                lines.len() == i + 1,
                lines@[0]@ == self@.headline(),
                forall|j: int|
                    0 <= j < i ==> #[trigger] lines@[j + 1]@ == self@.windows[j].summary(),
            decreases self.windows.len() - i,
        {
            lines.push(self.windows[i].summary());
            i = i + 1;
        }
        let mut resets: String = "  Banked resets: ".to_owned();
        match self.available_resets {
            Some(count) => {
                resets.append(text::numeral(count).as_str());
            },
            None => {
                resets.append("unknown");
            },
        }
        resets.append(" | ");
        match &self.error {
            Some(error) => {
                resets.append(error.as_str());
            },
            None => {
                resets.append("authenticated");
            },
        }
        lines.push(resets);
        if self.windows.len() == 0 {
            lines.push("  Quota windows: unknown".to_owned());
        }
        proof {
            let want = self@.summary_lines();
            assert forall|j: int| 0 <= j < want.len() implies text::views(lines@)[j] == want[j] by {
                if 0 < j <= self.windows.len() {
                    assert(lines@[(j - 1) + 1]@ == self@.windows[j - 1].summary());
                }
            }
            assert(text::views(lines@) =~= want);
        }
        text::join(&lines, "\n")
    }
}

/// Two accounts are the same login where user and workspace agree; they are the same account where
/// the alias agrees as well, and cannot be stored together where either does.
pub proof fn law_same_login(a: AccountModel, b: AccountModel)
    ensures
        a.identity() == b.identity() <==> a.user_id == b.user_id && a.workspace_id
            == b.workspace_id,
        a.names(b) <==> a.alias == b.alias && a.user_id == b.user_id && a.workspace_id
            == b.workspace_id,
        a.clashes(b) <==> a.alias == b.alias || (a.user_id == b.user_id && a.workspace_id
            == b.workspace_id),
{
}

/// A credit is live until the time at which it expires, and for good where it has none.
pub proof fn law_credit_lives_until_it_expires(credit: ResetModel, now: i64)
    ensures
        credit.live(now) <==> (credit.expires_at matches Some(expiry) ==> now < expiry),
{
}

/// The user reads where a session goes on and from where, which account was reset, and why, for
/// which account and until when a session waits.
pub proof fn law_events_are_told(
    alias: Seq<char>,
    other: Seq<char>,
    reason: PoolWaitReason,
    next_check_at: i64,
)
    ensures
        (EventModel::Switched { account: alias, previous_account: other }).message()
            == "Account switched from "@ + other + " to "@ + alias
            + "; continuing with the same model"@,
        (EventModel::Redeemed { account: alias }).message() == "Used a banked reset for "@ + alias
            + "; quota recovery verified"@,
        (EventModel::Waiting { account: alias, reason, next_check_at }).message() == "Account "@
            + alias + ": waiting because "@ + (match reason {
            PoolWaitReason::UnknownAvailability => "availability is unknown"@,
            PoolWaitReason::ShortWindow => "short-window quota is exhausted"@,
            PoolWaitReason::WeeklyQuota => "weekly quota is exhausted"@,
            PoolWaitReason::RedemptionPending => "reset recovery is pending"@,
        }) + ". Next check: "@ + clock::time_text(next_check_at)
            + ". Cancel to stop monitoring."@,
{
}

/// A usage summary has a line on the account, one on each window in order, and one on the banked
/// resets; where there is no window, one more says so.
pub proof fn law_summary_has_a_line_per_window(usage: UsageModel, i: int)
    ensures
        ({
            let lines = usage.summary_lines();
            let window = usage.windows[i];
            &&& lines.len() == usage.windows.len() + (if usage.windows.len() == 0 {
                3int
            } else {
                2int
            })
            &&& lines[0] == usage.account.alias + " | "@ + (match usage.account.plan {
                Some(plan) => plan,
                None => "plan unknown"@,
            }) + " | pools: "@ + text::joined(usage.pools, ", "@) + " | checked "@
                + clock::time_text(usage.checked_at)
            &&& 0 <= i < usage.windows.len() ==> lines[i + 1] == "  "@ + window.limit_id + ": "@
                + window.remaining_percent.rounded() + "% remaining ("@ + text::decimal(
                window.window_minutes as int,
            ) + " minutes), resets "@ + (match window.resets_at {
                Some(time) => clock::time_text(time),
                None => "unknown"@,
            })
            &&& lines[usage.windows.len() as int + 1] == "  Banked resets: "@ + (
            match usage.available_resets {
                Some(count) => text::decimal(count as int),
                None => "unknown"@,
            }) + " | "@ + (match usage.error {
                Some(error) => error,
                None => "authenticated"@,
            })
            &&& usage.windows.len() == 0 ==> lines[2] == "  Quota windows: unknown"@
        }),
{
}

/// A `AccountSelection` is seen as the form it has, with every part of it.
pub proof fn law_account_selection_is_seen_whole(value: AccountSelection)
    ensures
        value@ == (match value {
            AccountSelection::Account(name) => SelectionModel::Account(name@),
            AccountSelection::Pool(name) => SelectionModel::Pool(name@),
        }),
{
}

/// A `ManagedAccount` is seen with every field as it is.
pub proof fn law_managed_account_is_seen_whole(value: ManagedAccount)
    ensures
        value@.alias == value.alias@,
        value@.user_id == value.user_id@,
        value@.workspace_id == value.workspace_id@,
        value@.email == text::opt_view(value.email),
        value@.plan == text::opt_view(value.plan),
{
}

/// A `AccountPool` is seen with every field as it is.
pub proof fn law_account_pool_is_seen_whole(value: AccountPool)
    ensures
        value@.name == value.name@,
        value@.accounts == text::views(value.accounts@),
        value@.redeem_weekly_resets == value.redeem_weekly_resets,
{
}

/// A `AccountPoolConfig` is seen with every field as it is.
pub proof fn law_account_pool_config_is_seen_whole(value: AccountPoolConfig)
    ensures
        value@.accounts == text::views(value.accounts@),
        value@.pools == text::views(value.pools@),
        value@.default_selection == text::opt_view(value.default_selection),
{
}

/// A `AccountQuotaWindow` is seen with every field as it is.
pub proof fn law_account_quota_window_is_seen_whole(value: AccountQuotaWindow)
    ensures
        value@.limit_id == value.limit_id@,
        value@.model == text::opt_view(value.model),
        value@.remaining_percent == value.remaining_percent,
        value@.window_minutes == value.window_minutes,
        value@.resets_at == value.resets_at,
{
}

/// A `BankedReset` is seen with every field as it is.
pub proof fn law_banked_reset_is_seen_whole(value: BankedReset)
    ensures
        value@.id == value.id@,
        value@.expires_at == value.expires_at,
{
}

/// A `ManagedAccountUsage` is seen with every field as it is.
pub proof fn law_managed_account_usage_is_seen_whole(value: ManagedAccountUsage)
    ensures
        value@.account == value.account@,
        value@.pools == text::views(value.pools@),
        value@.model == text::opt_view(value.model),
        value@.model_supported == value.model_supported,
        value@.ordinary_usage_allowed == value.ordinary_usage_allowed,
        value@.windows == text::views(value.windows@),
        value@.available_resets == value.available_resets,
        value@.resets == opt_views(value.resets),
        value@.checked_at == value.checked_at,
        value@.error == text::opt_view(value.error),
{
}

/// A `AccountPoolEvent` is seen as the form it has, with every part of it.
pub proof fn law_account_pool_event_is_seen_whole(value: AccountPoolEvent)
    ensures
        value@ == (match value {
            AccountPoolEvent::Selected { account } => EventModel::Selected { account: account@ },
            AccountPoolEvent::Switched { account, previous_account } => EventModel::Switched {
                account: account@,
                previous_account: previous_account@,
            },
            AccountPoolEvent::Redeemed { account } => EventModel::Redeemed { account: account@ },
            AccountPoolEvent::Waiting { account, reason, next_check_at } => EventModel::Waiting {
                account: account@,
                reason: reason,
                next_check_at: next_check_at,
            },
        }),
{
}

/// Every reason to wait is told in words of its own.
pub proof fn law_wait_reasons_are_told()
    ensures
        PoolWaitReason::UnknownAvailability.words() == "availability is unknown"@,
        PoolWaitReason::ShortWindow.words() == "short-window quota is exhausted"@,
        PoolWaitReason::WeeklyQuota.words() == "weekly quota is exhausted"@,
        PoolWaitReason::RedemptionPending.words() == "reset recovery is pending"@,
{
}

/// A list that may be missing is seen item by item where it is there.
pub proof fn law_list_is_seen_where_it_is_there<T: View>(items: Option<Vec<T>>)
    ensures
        opt_views(items) is Some <==> items is Some,
        items is Some ==> opt_views(items)->0 == text::views(items->0@),
{
}

} // verus!
