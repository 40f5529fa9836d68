//! Reports on accounts and pools as Markdown. Values and countdowns are captured together; showing a
//! report again never implies a fresh quota read.

use crate::account_pool;
use crate::account_pool::AccountModel;
use crate::account_pool::AccountPool;
use crate::account_pool::AccountQuotaWindow;
use crate::account_pool::AccountSelection;
use crate::account_pool::ManagedAccount;
use crate::account_pool::ManagedAccountUsage;
use crate::account_pool::PoolModel;
use crate::account_pool::SelectionModel;
use crate::account_pool::UsageModel;
use crate::account_pool::WindowModel;
use crate::clock;
use crate::lists;
use crate::percent;
use crate::percent::Percent;
use crate::quota;
use crate::server::AccountResponseModel;
use crate::server::LoginAccountResponse;
use crate::server::LoginPrompt;
use crate::server::ManagedAccountResponse;
use crate::server::ManagedPoolResponse;
use crate::server::PoolPageModel;
use crate::text;
use vstd::prelude::*;

verus! {

/// How much of each account a report shows.
#[derive(Clone, Copy, Debug, PartialEq, Eq, Structural)]
pub enum AccountReportView {
    Summary,
    Usage,
}

/// A report as Markdown.
#[derive(Debug, PartialEq, Eq)]
pub struct AccountPoolReport {
    pub markdown: String,
}

/// The default selection in words.
pub open spec fn default_words(selection: Option<SelectionModel>) -> Seq<char> {
    "Default for new sessions: "@ + (match selection {
        Some(SelectionModel::Account(alias)) => "account "@ + text::literal_text(alias),
        Some(SelectionModel::Pool(name)) => "pool "@ + text::literal_text(name),
        None => "current login"@,
    })
}

/// A percentage in words; one that is not from zero to one hundred is not known.
pub open spec fn percent_words(remaining: Percent) -> Seq<char> {
    if remaining.in_range() {
        remaining.rounded() + "%"@
    } else {
        "Unknown"@
    }
}

/// The time until a reset in words. A time without a date is not known.
pub open spec fn reset_words(resets_at: Option<i64>, now: i64) -> Seq<char> {
    if resets_at is None || !clock::representable(resets_at->0 as int) {
        "Unknown"@
    } else {
        let seconds = clock::span(resets_at->0, now);
        let hours = seconds / 3600;
        if seconds <= 0 {
            "Due"@
        } else if hours >= 24 {
            text::decimal(hours / 24) + "d "@ + text::decimal(hours % 24) + "h"@
        } else if hours > 0 {
            text::decimal(hours) + "h"@
        } else if seconds >= 60 {
            text::decimal(seconds / 60) + "m"@
        } else {
            "<1m"@
        }
    }
}

/// A time to the minute in words. A time without a date is not known.
pub open spec fn time_words(timestamp: i64) -> Seq<char> {
    if clock::representable(timestamp as int) {
        clock::formatted(timestamp, clock::minute_pattern())
    } else {
        "Unknown"@
    }
}

impl AccountResponseModel {
    /// The usage of an account. Plan metadata can change during a usage refresh, so only the
    /// account's identity and alias count.
    pub open spec fn usage_of(self, account: AccountModel) -> Option<UsageModel> {
        match lists::first(
            Seq::new(self.usage.len(), |i: int| self.usage[i].account.names(account)),
        ) {
            Some(i) => Some(self.usage[i]),
            None => None,
        }
    }

    /// The row of an account in the table.
    pub open spec fn account_row(self, account: AccountModel, now: i64) -> Seq<char> {
        let usage = self.usage_of(account);
        let shown = match usage {
            Some(usage) => usage.account,
            None => account,
        };
        let known = usage is Some && usage->0.error is None;
        let weekly = if known {
            usage->0.weekly_window()
        } else {
            None
        };
        let remaining = match weekly {
            Some(window) => percent_words(window.remaining_percent),
            None => "Unknown"@,
        };
        let reset = match weekly {
            Some(window) => reset_words(window.resets_at, now),
            None => "Unknown"@,
        };
        let resets = if known && usage->0.available_resets is Some && usage->0.available_resets->0
            >= 0 {
            text::decimal(usage->0.available_resets->0 as int)
        } else {
            "Unknown"@
        };
        "| "@ + text::literal_text(shown.alias) + " | "@ + text::literal_text(
            account_pool::or_word(shown.email, "Unknown"@),
        ) + " | "@ + text::literal_text(account_pool::or_word(shown.plan, "Unknown"@)) + " | "@
            + remaining + " | "@ + reset + " | "@ + resets + " |"@
    }

    /// The table of the accounts.
    pub open spec fn account_table(self, now: i64) -> Seq<Seq<char>> {
        seq![
            "| Alias | Email | Plan | Weekly left | Reset in | Available resets |"@,
            "| --- | --- | --- | --- | --- | --- |"@,
        ] + Seq::new(self.data.len(), |i: int| self.account_row(self.data[i], now))
    }

    /// The paragraphs on one account.
    pub open spec fn account_details(
        self,
        account: AccountModel,
        view: AccountReportView,
        now: i64,
    ) -> Seq<Seq<char>> {
        let headline = "**"@ + text::literal_text(account.alias) + "** · Workspace ID: "@
            + text::literal_text(account.workspace_id);
        match self.usage_of(account) {
            None => seq![headline, "Usage not loaded. Run /accounts to refresh."@],
            Some(usage) => {
                let pools = if usage.pools.len() == 0 {
                    "None"@
                } else {
                    text::literal_text(text::joined(usage.pools, ", "@))
                };
                let checked = "Pools: "@ + pools + " · Checked: "@ + time_words(usage.checked_at);
                if usage.error is Some {
                    seq![
                        headline,
                        checked,
                        "Usage unavailable: "@ + text::literal_text(usage.error->0),
                    ]
                } else if view == AccountReportView::Usage && usage.windows.len() > 0 {
                    seq![headline, checked, text::joined(window_table(usage.windows, now), "\n"@)]
                } else {
                    seq![headline, checked]
                }
            },
        }
    }

    /// The paragraphs on the first accounts.
    pub open spec fn details(self, count: int, view: AccountReportView, now: i64) -> Seq<Seq<char>>
        decreases count,
    {
        if count <= 0 {
            seq![]
        } else {
            self.details(count - 1, view, now) + self.account_details(
                self.data[count - 1],
                view,
                now,
            )
        }
    }

    /// The paragraphs before the table.
    pub open spec fn introduction(self) -> Seq<Seq<char>> {
        let title = "**Accounts ("@ + text::decimal(self.data.len() as int) + ")**"@;
        let start = seq![title, default_words(self.default_selection)];
        match self.login {
            Some(prompt) => start + seq![
                match prompt {
                    LoginPrompt::Browser { address, .. } => "Complete sign-in in your browser: "@
                        + text::literal_text(address),
                    LoginPrompt::Device { address, code, .. } => "Open "@ + text::literal_text(
                        address,
                    ) + " and enter code **"@ + text::literal_text(code) + "**."@,
                    LoginPrompt::ApiKey | LoginPrompt::ChatgptAuthTokens
                    | LoginPrompt::AmazonBedrock => "Sign-in completed."@,
                },
                "Run /accounts after sign-in to refresh."@,
            ],
            None => if self.data.len() == 0 {
                start + seq![
                    "No managed accounts. Use /accounts add ALIAS or /accounts import ALIAS to add one."@,
                ]
            } else {
                start
            },
        }
    }

    /// The paragraphs of a report on accounts.
    pub open spec fn report(self, view: AccountReportView, now: i64) -> Seq<Seq<char>> {
        let table = if self.data.len() == 0 {
            seq![]
        } else {
            seq![
                text::joined(self.account_table(now), "\n"@),
                "Refresh with /accounts for current usage and banked resets."@,
            ]
        };
        self.introduction() + table + self.details(self.data.len() as int, view, now)
    }
}

/// The row of a window in the table of an account's windows.
pub open spec fn window_row(window: WindowModel, now: i64) -> Seq<char> {
    "| "@ + text::literal_text(window.limit_id) + " | "@ + text::decimal(
        window.window_minutes as int,
    ) + " min | "@ + percent_words(window.remaining_percent) + " | "@ + reset_words(
        window.resets_at,
        now,
    ) + " | "@ + (match window.resets_at {
        Some(time) => time_words(time),
        None => "Unknown"@,
    }) + " |"@
}

/// The table of an account's windows.
pub open spec fn window_table(windows: Seq<WindowModel>, now: i64) -> Seq<Seq<char>> {
    seq![
        "| Limit | Window | Left | Reset in | Resets at |"@,
        "| --- | --- | --- | --- | --- |"@,
    ] + Seq::new(windows.len(), |i: int| window_row(windows[i], now))
}

/// The row of a pool in the table.
pub open spec fn pool_row(pool: PoolModel) -> Seq<char> {
    "| "@ + text::literal_text(pool.name) + " | "@ + text::literal_text(
        text::joined(pool.accounts, ", "@),
    ) + " | "@ + (if pool.redeem_weekly_resets {
        "Enabled"@
    } else {
        "Disabled"@
    }) + " |"@
}

impl PoolPageModel {
    /// The table of the pools.
    pub open spec fn pool_table(self) -> Seq<Seq<char>> {
        seq![
            "| Name | Accounts (in order) | Automatic weekly resets |"@,
            "| --- | --- | --- |"@,
        ] + Seq::new(self.data.len(), |i: int| pool_row(self.data[i]))
    }

    /// The paragraphs of a report on pools.
    pub open spec fn report(self) -> Seq<Seq<char>> {
        let start = seq![
            "**Pools ("@ + text::decimal(self.data.len() as int) + ")**"@,
            default_words(self.default_selection),
        ];
        if self.data.len() == 0 {
            start + seq!["No pools configured. Create one with /pools create NAME ALIAS..."@]
        } else {
            start + seq![
                text::joined(self.pool_table(), "\n"@),
                "Use /accounts for quota by account and /pools select NAME to set the default for new sessions."@,
            ]
        }
    }
}

/// The default selection in words.
fn default_selection(selection: &Option<AccountSelection>) -> (words: String)
    ensures
        words@ == default_words(text::opt_view(*selection)),
{
    let mut words: String = "Default for new sessions: ".to_owned();
    match selection {
        Some(AccountSelection::Account(alias)) => {
            let mut named: String = "account ".to_owned();
            named.append(text::literal(alias.as_str()).as_str());
            words.append(named.as_str());
        },
        Some(AccountSelection::Pool(name)) => {
            let mut named: String = "pool ".to_owned();
            named.append(text::literal(name.as_str()).as_str());
            words.append(named.as_str());
        },
        None => {
            words.append("current login");
        },
    }
    words
}

/// A percentage in words.
pub fn percent(remaining: Percent) -> (words: String)
    ensures
        words@ == percent_words(remaining),
{
    if remaining.is_in_range() {
        let mut words: String = percent::rounded_text(remaining);
        words.append("%");
        words
    } else {
        "Unknown".to_owned()
    }
}

/// The time until a reset in words.
pub fn reset_in(resets_at: Option<i64>, now: i64) -> (words: String)
    ensures
        words@ == reset_words(resets_at, now),
{
    let resets_at: i64 = match resets_at {
        Some(resets_at) => resets_at,
        None => {
            return "Unknown".to_owned();
        },
    };
    if !clock::is_representable(resets_at) {
        return "Unknown".to_owned();
    }
    let seconds: i64 = clock::seconds_between(resets_at, now);
    if seconds <= 0 {
        return "Due".to_owned();
    }
    let hours: i64 = seconds / 3600;
    if hours >= 24 {
        let mut words: String = text::numeral(hours / 24);
        words.append("d ");
        words.append(text::numeral(hours % 24).as_str());
        words.append("h");
        words
    } else if hours > 0 {
        let mut words: String = text::numeral(hours);
        words.append("h");
        words
    } else if seconds >= 60 {
        let mut words: String = text::numeral(seconds / 60);
        words.append("m");
        words
    } else {
        "<1m".to_owned()
    }
}

/// A time to the minute in words.
pub fn timestamp(value: i64) -> (words: String)
    ensures
        words@ == time_words(value),
{
    match clock::minute_text(value) {
        Some(words) => words,
        None => "Unknown".to_owned(),
    }
}

/// The usage of an account.
fn account_usage<'a>(response: &'a ManagedAccountResponse, account: &ManagedAccount) -> (usage:
    Option<&'a ManagedAccountUsage>)
    ensures
        (match usage {
            Some(usage) => Some(usage@),
            None => None,
        }) == response@.usage_of(account@),
{
    let ghost flags = Seq::new(
        response@.usage.len(),
        |i: int| response@.usage[i].account.names(account@),
    );
    let mut i: usize = 0;
    while i < response.usage.len()
        invariant
            i <= response.usage.len(),
            flags == Seq::new(
                response@.usage.len(),
                |i: int| response@.usage[i].account.names(account@),
            ),
            forall|j: int| 0 <= j < i ==> !#[trigger] flags[j],
        decreases response.usage.len() - i,
    {
        assert(response@.usage[i as int] == response.usage@[i as int]@);
        if response.usage[i].account.same_named(account) {
            proof {
                lists::lemma_first_is(flags, i as int);
            }
            return Some(&response.usage[i]);
        }
        i = i + 1;
    }
    proof {
        lists::lemma_first_none(flags);
    }
    None
}

/// An optional text, or a word in its place.
fn or_unknown(value: &Option<String>) -> (words: String)
    ensures
        words@ == account_pool::or_word(text::opt_view(*value), "Unknown"@),
{
    match value {
        Some(value) => value.clone(),
        None => "Unknown".to_owned(),
    }
}

/// The row of an account in the table.
fn account_row(response: &ManagedAccountResponse, account: &ManagedAccount, now: i64) -> (row:
    String)
    ensures
        row@ == response@.account_row(account@, now),
{
    let usage: Option<&ManagedAccountUsage> = account_usage(response, account);
    let shown: &ManagedAccount = match usage {
        Some(usage) => &usage.account,
        None => account,
    };
    let mut remaining: String = "Unknown".to_owned();
    let mut reset: String = "Unknown".to_owned();
    let mut resets: String = "Unknown".to_owned();
    if let Some(usage) = usage {
        if usage.error.is_none() {
            if let Some(window) = quota::weekly_window(usage) {
                remaining = percent(window.remaining_percent);
                reset = reset_in(window.resets_at, now);
            }
            if let Some(count) = usage.available_resets {
                if count >= 0 {
                    resets = text::numeral(count);
                }
            }
        }
    }
    let mut row: String = "| ".to_owned();
    row.append(text::literal(shown.alias.as_str()).as_str());
    row.append(" | ");
    row.append(text::literal(or_unknown(&shown.email).as_str()).as_str());
    row.append(" | ");
    row.append(text::literal(or_unknown(&shown.plan).as_str()).as_str());
    row.append(" | ");
    row.append(remaining.as_str());
    row.append(" | ");
    row.append(reset.as_str());
    row.append(" | ");
    row.append(resets.as_str());
    row.append(" |");
    row
}

/// The table of the accounts.
fn account_table(response: &ManagedAccountResponse, now: i64) -> (table: String)
    ensures
        table@ == text::joined(response@.account_table(now), "\n"@),
{
    let mut rows: Vec<String> = Vec::new();
    rows.push("| Alias | Email | Plan | Weekly left | Reset in | Available resets |".to_owned());
    rows.push("| --- | --- | --- | --- | --- | --- |".to_owned());
    let mut i: usize = 0;
    while i < response.data.len()
        invariant
            i <= response.data.len(),
            rows.len() == i + 2,
            rows@[0]@ == "| Alias | Email | Plan | Weekly left | Reset in | Available resets |"@,
            rows@[1]@ == "| --- | --- | --- | --- | --- | --- |"@,
            forall|j: int|
                0 <= j < i ==> #[trigger] rows@[j + 2]@ == response@.account_row(
                    response@.data[j],
                    now,
                ),
        decreases response.data.len() - i,
    {
        assert(response@.data[i as int] == response.data@[i as int]@);
        rows.push(account_row(response, &response.data[i], now));
        i = i + 1;
    }
    proof {
        let want = response@.account_table(now);
        assert forall|j: int| 0 <= j < want.len() implies text::views(rows@)[j]
            == #[trigger] want[j] by {
            if j >= 2 {
                assert(rows@[(j - 2) + 2]@ == response@.account_row(response@.data[j - 2], now));
            }
        }
        assert(text::views(rows@) =~= want);
    }
    text::join(&rows, "\n")
}

/// The row of a window in the table of an account's windows.
fn window_line(window: &AccountQuotaWindow, now: i64) -> (row: String)
    ensures
        row@ == window_row(window@, now),
{
    let mut row: String = "| ".to_owned();
    row.append(text::literal(window.limit_id.as_str()).as_str());
    row.append(" | ");
    row.append(text::numeral(window.window_minutes).as_str());
    row.append(" min | ");
    row.append(percent(window.remaining_percent).as_str());
    row.append(" | ");
    row.append(reset_in(window.resets_at, now).as_str());
    row.append(" | ");
    match window.resets_at {
        Some(time) => {
            row.append(timestamp(time).as_str());
        },
        None => {
            row.append("Unknown");
        },
    }
    row.append(" |");
    row
}

/// The table of an account's windows.
fn window_lines(usage: &ManagedAccountUsage, now: i64) -> (table: String)
    ensures
        table@ == text::joined(window_table(usage@.windows, now), "\n"@),
{
    let mut rows: Vec<String> = Vec::new();
    rows.push("| Limit | Window | Left | Reset in | Resets at |".to_owned());
    rows.push("| --- | --- | --- | --- | --- |".to_owned());
    let mut i: usize = 0;
    while i < usage.windows.len()
        invariant
            i <= usage.windows.len(),
            rows.len() == i + 2,
            rows@[0]@ == "| Limit | Window | Left | Reset in | Resets at |"@,
            rows@[1]@ == "| --- | --- | --- | --- | --- |"@,
            forall|j: int|
                0 <= j < i ==> #[trigger] rows@[j + 2]@ == window_row(usage@.windows[j], now),
        decreases usage.windows.len() - i,
    {
        assert(usage@.windows[i as int] == usage.windows@[i as int]@);
        rows.push(window_line(&usage.windows[i], now));
        i = i + 1;
    }
    proof {
        let want = window_table(usage@.windows, now);
        assert forall|j: int| 0 <= j < want.len() implies text::views(rows@)[j]
            == #[trigger] want[j] by {
            if j >= 2 {
                assert(rows@[(j - 2) + 2]@ == window_row(usage@.windows[j - 2], now));
            }
        }
        assert(text::views(rows@) =~= want);
    }
    text::join(&rows, "\n")
}

/// Adds the paragraphs on one account.
fn add_details(
    lines: &mut Vec<String>,
    response: &ManagedAccountResponse,
    account: &ManagedAccount,
    view: AccountReportView,
    now: i64,
)
    ensures
        text::views(final(lines)@) == text::views(old(lines)@) + response@.account_details(
            account@,
            view,
            now,
        ),
{
    let ghost before = text::views(lines@);
    let ghost want = response@.account_details(account@, view, now);
    let mut headline: String = "**".to_owned();
    headline.append(text::literal(account.alias.as_str()).as_str());
    headline.append("** · Workspace ID: ");
    headline.append(text::literal(account.workspace_id.as_str()).as_str());
    lines.push(headline);
    let usage: &ManagedAccountUsage = match account_usage(response, account) {
        Some(usage) => usage,
        None => {
            lines.push("Usage not loaded. Run /accounts to refresh.".to_owned());
            assert(text::views(lines@) =~= before + want);
            return ;
        },
    };
    let mut checked: String = "Pools: ".to_owned();
    if usage.pools.len() == 0 {
        checked.append("None");
    } else {
        checked.append(text::literal(text::join(&usage.pools, ", ").as_str()).as_str());
    }
    checked.append(" · Checked: ");
    checked.append(timestamp(usage.checked_at).as_str());
    lines.push(checked);
    if let Some(error) = &usage.error {
        let mut unavailable: String = "Usage unavailable: ".to_owned();
        unavailable.append(text::literal(error.as_str()).as_str());
        lines.push(unavailable);
    } else if view == AccountReportView::Usage && usage.windows.len() > 0 {
        lines.push(window_lines(usage, now));
    }
    assert(text::views(lines@) =~= before + want);
}

/// The paragraphs before the table.
fn introduction(response: &ManagedAccountResponse) -> (lines: Vec<String>)
    ensures
        text::views(lines@) == response@.introduction(),
{
    let mut lines: Vec<String> = Vec::new();
    let mut title: String = "**Accounts (".to_owned();
    title.append(text::count_numeral(response.data.len()).as_str());
    title.append(")**");
    lines.push(title);
    lines.push(default_selection(&response.default_selection));
    if let Some(login) = &response.login {
        match login {
            LoginAccountResponse::Chatgpt { auth_url, .. } => {
                let mut prompt: String = "Complete sign-in in your browser: ".to_owned();
                prompt.append(text::literal(auth_url.as_str()).as_str());
                lines.push(prompt);
            },
            LoginAccountResponse::ChatgptDeviceCode { verification_url, user_code, .. } => {
                let mut prompt: String = "Open ".to_owned();
                prompt.append(text::literal(verification_url.as_str()).as_str());
                prompt.append(" and enter code **");
                prompt.append(text::literal(user_code.as_str()).as_str());
                prompt.append("**.");
                lines.push(prompt);
            },
            _ => {
                lines.push("Sign-in completed.".to_owned());
            },
        }
        lines.push("Run /accounts after sign-in to refresh.".to_owned());
    } else if response.data.len() == 0 {
        lines.push(
            "No managed accounts. Use /accounts add ALIAS or /accounts import ALIAS to add one.".to_owned(),
        );
    }
    assert(text::views(lines@) =~= response@.introduction());
    lines
}

/// The row of a pool in the table.
fn pool_line(pool: &AccountPool) -> (row: String)
    ensures
        row@ == pool_row(pool@),
{
    let mut row: String = "| ".to_owned();
    row.append(text::literal(pool.name.as_str()).as_str());
    row.append(" | ");
    row.append(text::literal(text::join(&pool.accounts, ", ").as_str()).as_str());
    row.append(" | ");
    if pool.redeem_weekly_resets {
        row.append("Enabled");
    } else {
        row.append("Disabled");
    }
    row.append(" |");
    row
}

/// The table of the pools.
fn pool_lines(response: &ManagedPoolResponse) -> (table: String)
    ensures
        table@ == text::joined(response@.pool_table(), "\n"@),
{
    let mut rows: Vec<String> = Vec::new();
    rows.push("| Name | Accounts (in order) | Automatic weekly resets |".to_owned());
    rows.push("| --- | --- | --- |".to_owned());
    let mut i: usize = 0;
    while i < response.data.len()
        invariant
            i <= response.data.len(),
            rows.len() == i + 2,
            rows@[0]@ == "| Name | Accounts (in order) | Automatic weekly resets |"@,
            rows@[1]@ == "| --- | --- | --- |"@,
            forall|j: int| 0 <= j < i ==> #[trigger] rows@[j + 2]@ == pool_row(response@.data[j]),
        decreases response.data.len() - i,
    {
        assert(response@.data[i as int] == response.data@[i as int]@);
        rows.push(pool_line(&response.data[i]));
        i = i + 1;
    }
    proof {
        let want = response@.pool_table();
        assert forall|j: int| 0 <= j < want.len() implies text::views(rows@)[j]
            == #[trigger] want[j] by {
            if j >= 2 {
                assert(rows@[(j - 2) + 2]@ == pool_row(response@.data[j - 2]));
            }
        }
        assert(text::views(rows@) =~= want);
    }
    text::join(&rows, "\n")
}

impl AccountPoolReport {
    /// A report on accounts.
    pub fn accounts(
        response: &ManagedAccountResponse,
        view: AccountReportView,
        now: i64,
    ) -> (report: AccountPoolReport)
        ensures
            report.markdown@ == text::joined(response@.report(view, now), "\n\n"@),
    {
        let mut lines: Vec<String> = introduction(response);
        let ghost start = response@.introduction();
        let ghost mut table: Seq<Seq<char>> = seq![];
        assert(start + table =~= start);
        if response.data.len() > 0 {
            lines.push(account_table(response, now));
            lines.push("Refresh with /accounts for current usage and banked resets.".to_owned());
            proof {
                table = seq![
                    text::joined(response@.account_table(now), "\n"@),
                    "Refresh with /accounts for current usage and banked resets."@,
                ];
                assert(text::views(lines@) =~= start + table);
            }
        }
        let ghost head = start + table;
        assert(head + response@.details(0, view, now) =~= head);
        let mut i: usize = 0;
        while i < response.data.len()
            invariant
                i <= response.data.len(),
                text::views(lines@) == head + response@.details(i as int, view, now),
            decreases response.data.len() - i,
        {
            assert(response@.data[i as int] == response.data@[i as int]@);
            add_details(&mut lines, response, &response.data[i], view, now);
            proof {
                let before = response@.details(i as int, view, now);
                let more = response@.account_details(response@.data[i as int], view, now);
                assert(head + before + more =~= head + (before + more));
            }
            i = i + 1;
        }
        assert(text::views(lines@) == response@.report(view, now));
        AccountPoolReport { markdown: text::join(&lines, "\n\n") }
    }

    /// A report on pools.
    pub fn pools(response: &ManagedPoolResponse) -> (report: AccountPoolReport)
        ensures
            report.markdown@ == text::joined(response@.report(), "\n\n"@),
    {
        let mut lines: Vec<String> = Vec::new();
        let mut title: String = "**Pools (".to_owned();
        title.append(text::count_numeral(response.data.len()).as_str());
        title.append(")**");
        lines.push(title);
        lines.push(default_selection(&response.default_selection));
        if response.data.len() == 0 {
            lines.push(
                "No pools configured. Create one with /pools create NAME ALIAS...".to_owned(),
            );
        } else {
            lines.push(pool_lines(response));
            lines.push(
                "Use /accounts for quota by account and /pools select NAME to set the default for new sessions.".to_owned(),
            );
        }
        assert(text::views(lines@) =~= response@.report());
        AccountPoolReport { markdown: text::join(&lines, "\n\n") }
    }
}

/// A countdown names the greatest unit that fits, cut to whole units: a reset at least a day ahead in
/// days and hours, one at least an hour ahead in hours, one at least a minute ahead in minutes; any
/// nearer one is less than a minute away, and one that is not ahead is due. A reset without a date is
/// not known.
pub proof fn law_countdown(resets_at: i64, now: i64)
    requires
        resets_at - now <= i64::MAX,
    ensures
        ({
            let words = reset_words(Some(resets_at), now);
            let left = resets_at - now;
            if !(-8_334_601_228_800 <= resets_at <= 8_210_266_876_799) {
                words == "Unknown"@
            } else if left <= 0 {
                words == "Due"@
            } else if left >= 86400 {
                exists|d: int, h: int|
                    {
                        &&& 0 < d && 0 <= h < 24
                        &&& (24 * d + h) * 3600 <= left < (24 * d + h + 1) * 3600
                        &&& words == #[trigger] text::decimal(d) + seq!['d', ' ']
                            + #[trigger] text::decimal(h) + seq!['h']
                    }
            } else if left >= 3600 {
                exists|h: int|
                    {
                        &&& h * 3600 <= left < (h + 1) * 3600
                        &&& words == #[trigger] text::decimal(h) + seq!['h']
                    }
            } else if left >= 60 {
                exists|m: int|
                    {
                        &&& m * 60 <= left < (m + 1) * 60
                        &&& words == #[trigger] text::decimal(m) + seq!['m']
                    }
            } else {
                words == seq!['<', '1', 'm']
            }
        }),
        reset_words(None, now) == "Unknown"@,
{
    reveal_strlit("d ");
    reveal_strlit("h");
    reveal_strlit("m");
    reveal_strlit("<1m");
    assert("d "@ =~= seq!['d', ' ']);
    assert("h"@ =~= seq!['h']);
    assert("m"@ =~= seq!['m']);
    assert("<1m"@ =~= seq!['<', '1', 'm']);
    let left = resets_at - now;
    if clock::representable(resets_at as int) && left >= 86400 {
        let hours = left / 3600;
        let d = hours / 24;
        let h = hours % 24;
        assert(24 * d + h == hours);
        assert(reset_words(Some(resets_at), now) == text::decimal(d) + seq!['d', ' ']
            + text::decimal(h) + seq!['h']);
    } else if clock::representable(resets_at as int) && left >= 3600 {
        let h = left / 3600;
        assert(reset_words(Some(resets_at), now) == text::decimal(h) + seq!['h']);
    } else if clock::representable(resets_at as int) && left >= 60 {
        let m = left / 60;
        assert(reset_words(Some(resets_at), now) == text::decimal(m) + seq!['m']);
    }
}

/// A percentage is shown as a whole number where it is from zero to one hundred, and as unknown
/// otherwise.
pub proof fn law_percentage_is_shown(remaining: Percent)
    ensures
        remaining.in_range() ==> percent_words(remaining) == remaining.rounded() + seq!['%'],
        !remaining.in_range() ==> percent_words(remaining) == "Unknown"@,
{
    reveal_strlit("%");
    assert("%"@ =~= seq!['%']);
}

/// A time is shown to the minute where it has a date, and as unknown otherwise.
pub proof fn law_time_is_shown_to_the_minute(timestamp: i64)
    ensures
        -8_334_601_228_800 <= timestamp <= 8_210_266_876_799 ==> time_words(timestamp)
            == clock::formatted(timestamp, "%Y-%m-%d %H:%M UTC"@),
        timestamp < -8_334_601_228_800 || timestamp > 8_210_266_876_799 ==> time_words(timestamp)
            == "Unknown"@,
{
}

/// An account's row shows what the newest reading says of it: its alias, email and plan as read, the
/// least that any weekly window has left and when that resets, and how many resets are banked. A
/// failed reading shows no quota, and an account without a reading is shown as it is stored.
pub proof fn law_account_row_shows_the_reading(
    response: AccountResponseModel,
    account: AccountModel,
    now: i64,
    i: int,
)
    requires
        0 <= i < response.usage.len(),
        response.usage[i].account.alias == account.alias,
        response.usage[i].account.user_id == account.user_id,
        response.usage[i].account.workspace_id == account.workspace_id,
        forall|j: int|
            0 <= j < i ==> !(#[trigger] response.usage[j]).account.names(account),
    ensures
        ({
            let usage = response.usage[i];
            let weekly = usage.weekly_window();
            let shows = usage.error is None;
            response.account_row(account, now) == "| "@ + text::literal_text(usage.account.alias)
                + " | "@ + text::literal_text(
                match usage.account.email {
                    Some(email) => email,
                    None => "Unknown"@,
                },
            ) + " | "@ + text::literal_text(
                match usage.account.plan {
                    Some(plan) => plan,
                    None => "Unknown"@,
                },
            ) + " | "@ + (if shows && weekly is Some {
                percent_words(weekly->0.remaining_percent)
            } else {
                "Unknown"@
            }) + " | "@ + (if shows && weekly is Some {
                reset_words(weekly->0.resets_at, now)
            } else {
                "Unknown"@
            }) + " | "@ + (if shows && usage.available_resets is Some && usage.available_resets->0
                >= 0 {
                text::decimal(usage.available_resets->0 as int)
            } else {
                "Unknown"@
            }) + " |"@
        }),
        response.usage_of(account) == Some(response.usage[i]),
{
    let flags = Seq::new(
        response.usage.len(),
        |j: int| response.usage[j].account.names(account),
    );
    lists::lemma_first_is(flags, i);
}

/// A window's row shows its limit, its length in minutes, what is left of it, and when it resets,
/// both from now and by the calendar.
pub proof fn law_window_row_shows_the_window(window: WindowModel, now: i64)
    ensures
        window_row(window, now) == "| "@ + text::literal_text(window.limit_id) + " | "@
            + text::decimal(window.window_minutes as int) + " min | "@ + percent_words(
            window.remaining_percent,
        ) + " | "@ + reset_words(window.resets_at, now) + " | "@ + (match window.resets_at {
            Some(time) => time_words(time),
            None => "Unknown"@,
        }) + " |"@,
{
}

/// A pool's row shows its name, its accounts in their order, and whether it may spend resets.
pub proof fn law_pool_row_shows_the_pool(pool: PoolModel)
    ensures
        pool_row(pool) == "| "@ + text::literal_text(pool.name) + " | "@ + text::literal_text(
            text::joined(pool.accounts, ", "@),
        ) + " | "@ + (if pool.redeem_weekly_resets {
            "Enabled"@
        } else {
            "Disabled"@
        }) + " |"@,
{
}

/// Tables have a heading, a rule under it, and then a row for each item, in order.
pub proof fn law_tables_have_a_row_each(
    accounts: AccountResponseModel,
    pools: PoolPageModel,
    windows: Seq<WindowModel>,
    now: i64,
    i: int,
)
    ensures
        accounts.account_table(now).len() == accounts.data.len() + 2,
        0 <= i < accounts.data.len() ==> accounts.account_table(now)[i + 2]
            == accounts.account_row(accounts.data[i], now),
        accounts.account_table(now)[0]
            == "| Alias | Email | Plan | Weekly left | Reset in | Available resets |"@,
        window_table(windows, now).len() == windows.len() + 2,
        0 <= i < windows.len() ==> window_table(windows, now)[i + 2] == window_row(windows[i], now),
        window_table(windows, now)[0] == "| Limit | Window | Left | Reset in | Resets at |"@,
        pools.pool_table().len() == pools.data.len() + 2,
        0 <= i < pools.data.len() ==> pools.pool_table()[i + 2] == pool_row(pools.data[i]),
        pools.pool_table()[0] == "| Name | Accounts (in order) | Automatic weekly resets |"@,
{
}

/// The default selection is told by its kind and its name.
pub proof fn law_default_is_told(name: Seq<char>)
    ensures
        default_words(None) == "Default for new sessions: "@ + "current login"@,
        default_words(Some(SelectionModel::Account(name))) == "Default for new sessions: "@ + (
        "account "@ + text::literal_text(name)),
        default_words(Some(SelectionModel::Pool(name))) == "Default for new sessions: "@ + (
        "pool "@ + text::literal_text(name)),
{
}

/// The paragraphs on an account name it and its workspace. With a reading they tell its pools and
/// when it was read, then the error of a failed reading, or, where usage is asked for, the windows of
/// one that did not fail; without a reading they say that there is none.
pub proof fn law_account_details(
    response: AccountResponseModel,
    account: AccountModel,
    view: AccountReportView,
    now: i64,
)
    ensures
        ({
            let details = response.account_details(account, view, now);
            let usage = response.usage_of(account);
            &&& details[0] == "**"@ + text::literal_text(account.alias) + "** · Workspace ID: "@
                + text::literal_text(account.workspace_id)
            &&& usage is None ==> details.len() == 2 && details[1]
                == "Usage not loaded. Run /accounts to refresh."@
            &&& usage is Some ==> {
                &&& details[1] == "Pools: "@ + (if usage->0.pools.len() == 0 {
                    "None"@
                } else {
                    text::literal_text(text::joined(usage->0.pools, ", "@))
                }) + " · Checked: "@ + time_words(usage->0.checked_at)
                &&& usage->0.error is Some ==> details.len() == 3 && details[2]
                    == "Usage unavailable: "@ + text::literal_text(usage->0.error->0)
                &&& usage->0.error is None && view == AccountReportView::Usage
                    && usage->0.windows.len() > 0 ==> details.len() == 3 && details[2]
                    == text::joined(window_table(usage->0.windows, now), "\n"@)
                &&& usage->0.error is None && (view == AccountReportView::Summary
                    || usage->0.windows.len() == 0) ==> details.len() == 2
            }
        }),
{
}

/// A report on accounts counts them and tells the default; where there are any, their table comes
/// before the paragraphs on each of them, in order.
pub proof fn law_account_report(
    response: AccountResponseModel,
    view: AccountReportView,
    now: i64,
)
    ensures
        ({
            let report = response.report(view, now);
            let start = response.introduction();
            let table = text::joined(response.account_table(now), "\n"@);
            &&& start[0] == "**Accounts ("@ + text::decimal(response.data.len() as int) + ")**"@
            &&& start[1] == default_words(response.default_selection)
            &&& start.len() == (if response.login is Some {
                4int
            } else if response.data.len() == 0 {
                3int
            } else {
                2int
            })
            &&& response.data.len() == 0 ==> report =~= start
            &&& response.data.len() > 0 ==> {
                &&& report.len() == start.len() + 2 + response.details(
                    response.data.len() as int,
                    view,
                    now,
                ).len()
                &&& report.take(start.len() as int) =~= start
                &&& report[start.len() as int] == table
                &&& report.skip(start.len() as int + 2) =~= response.details(
                    response.data.len() as int,
                    view,
                    now,
                )
            }
        }),
        forall|count: int|
            0 <= count ==> #[trigger] response.details(count + 1, view, now) == response.details(
                count,
                view,
                now,
            ) + response.account_details(response.data[count], view, now),
        response.details(0, view, now).len() == 0,
{
    assert forall|count: int| 0 <= count implies #[trigger] response.details(
        count + 1,
        view,
        now,
    ) == response.details(count, view, now) + response.account_details(
        response.data[count],
        view,
        now,
    ) by {}
}

/// A report on pools counts them and tells the default, and shows their table where there are any.
pub proof fn law_pool_report(response: PoolPageModel)
    ensures
        response.report()[0] == "**Pools ("@ + text::decimal(response.data.len() as int) + ")**"@,
        response.report()[1] == default_words(response.default_selection),
        response.data.len() > 0 ==> response.report().len() == 4 && response.report()[2]
            == text::joined(response.pool_table(), "\n"@),
        response.data.len() == 0 ==> response.report().len() == 3,
{
}

/// A sign-in that has begun is told with the address to open, and with the code to enter where it
/// needs one; without accounts the user is told how to add one.
pub proof fn law_sign_in_is_told(response: AccountResponseModel)
    ensures
        response.login matches Some(LoginPrompt::Browser { login_id, address }) ==>
            response.introduction()[2] == "Complete sign-in in your browser: "@
            + text::literal_text(address),
        response.login matches Some(LoginPrompt::Device { login_id, address, code }) ==>
            response.introduction()[2] == "Open "@ + text::literal_text(address)
            + " and enter code **"@ + text::literal_text(code) + "**."@,
        response.login matches Some(LoginPrompt::ApiKey) ==> response.introduction()[2]
            == "Sign-in completed."@,
        response.login is Some ==> response.introduction()[3]
            == "Run /accounts after sign-in to refresh."@,
        response.login is None && response.data.len() == 0 ==> response.introduction()[2]
            == "No managed accounts. Use /accounts add ALIAS or /accounts import ALIAS to add one."@,
{
}

} // verus!
