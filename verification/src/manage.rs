//! The `/accounts` and `/pools` commands: what a line asks for, and how its pages are gathered.

use crate::account_pool;
use crate::account_pool::AccountModel;
use crate::account_pool::AccountPool;
use crate::account_pool::ManagedAccount;
use crate::account_pool::ManagedAccountUsage;
use crate::account_pool::PoolModel;
use crate::account_pool::UsageModel;
use crate::lists;
use crate::paging;
use crate::report::AccountReportView;
use crate::server::AccountResponseModel;
use crate::server::ManagedAccountAction;
use crate::server::ManagedAccountParams;
use crate::server::ManagedAccountResponse;
use crate::server::ManagedPoolAction;
use crate::server::ManagedPoolParams;
use crate::server::ManagedPoolResponse;
use crate::server::PoolPageModel;
use crate::text;
use vstd::prelude::*;

verus! {

/// The page length that is asked for.
pub const PAGE_LENGTH: u32 = 100;

/// Why a line is not understood.
#[derive(Clone, Copy, Debug, PartialEq, Eq, Structural)]
pub enum LineError {
    AccountsUsage,
    DeviceAuth,
    PoolsUsage,
}

impl LineError {
    /// The error in words.
    pub open spec fn words(self) -> Seq<char> {
        match self {
            LineError::AccountsUsage =>
                "Usage: /accounts [list|usage [alias]|add alias|import alias|select alias|remove alias|redeem alias|clear]"@,
            LineError::DeviceAuth => "--device-auth is only available with /accounts add ALIAS"@,
            LineError::PoolsUsage =>
                "Usage: /pools [list|inspect NAME|create NAME ALIAS...|update NAME ALIAS...|select NAME|remove NAME|clear]. Add --no-auto-reset to wait for weekly recovery."@,
        }
    }

    /// Puts the error in words.
    pub fn message(self) -> (words: &'static str)
        ensures
            words@ == self.words(),
    {
        match self {
            LineError::AccountsUsage =>
                "Usage: /accounts [list|usage [alias]|add alias|import alias|select alias|remove alias|redeem alias|clear]",
            LineError::DeviceAuth => "--device-auth is only available with /accounts add ALIAS",
            LineError::PoolsUsage =>
                "Usage: /pools [list|inspect NAME|create NAME ALIAS...|update NAME ALIAS...|select NAME|remove NAME|clear]. Add --no-auto-reset to wait for weekly recovery.",
        }
    }
}

/// An `/accounts` command while its pages are gathered.
#[derive(Debug, PartialEq)]
pub struct AccountsCommand {
    pub action: ManagedAccountAction,
    pub alias: Option<String>,
    pub device_auth: bool,
    pub view: AccountReportView,
    pub cursor: Option<String>,
    pub selection_updated: bool,
    pub data: Vec<ManagedAccount>,
    pub usage: Vec<ManagedAccountUsage>,
}

/// An `AccountsCommand` as a mathematical value.
pub struct AccountsModel {
    pub action: ManagedAccountAction,
    pub alias: Option<Seq<char>>,
    pub device_auth: bool,
    pub view: AccountReportView,
    pub cursor: Option<Seq<char>>,
    pub selection_updated: bool,
    pub data: Seq<AccountModel>,
    pub usage: Seq<UsageModel>,
}

impl View for AccountsCommand {
    type V = AccountsModel;

    open spec fn view(&self) -> AccountsModel {
        AccountsModel {
            action: self.action,
            alias: text::opt_view(self.alias),
            device_auth: self.device_auth,
            view: self.view,
            cursor: text::opt_view(self.cursor),
            selection_updated: self.selection_updated,
            data: text::views(self.data@),
            usage: text::views(self.usage@),
        }
    }
}

/// A `/pools` command while its pages are gathered.
#[derive(Debug, PartialEq, Eq)]
pub struct PoolsCommand {
    pub action: ManagedPoolAction,
    pub name: Option<String>,
    pub pool: Option<AccountPool>,
    pub cursor: Option<String>,
    pub data: Vec<AccountPool>,
}

/// A `PoolsCommand` as a mathematical value.
pub struct PoolsModel {
    pub action: ManagedPoolAction,
    pub name: Option<Seq<char>>,
    pub pool: Option<PoolModel>,
    pub cursor: Option<Seq<char>>,
    pub data: Seq<PoolModel>,
}

impl View for PoolsCommand {
    type V = PoolsModel;

    open spec fn view(&self) -> PoolsModel {
        PoolsModel {
            action: self.action,
            name: text::opt_view(self.name),
            pool: text::opt_view(self.pool),
            cursor: text::opt_view(self.cursor),
            data: text::views(self.data@),
        }
    }
}

/// The action and alias that the words of an `/accounts` line stand for.
pub open spec fn account_words(words: Seq<Seq<char>>) -> Option<
    (ManagedAccountAction, Option<Seq<char>>),
> {
    if words.len() == 0 {
        Some((ManagedAccountAction::Usage, None))
    } else if words.len() == 1 {
        if words[0] == "list"@ || words[0] == "usage"@ {
            Some((ManagedAccountAction::Usage, None))
        } else if words[0] == "clear"@ {
            Some((ManagedAccountAction::Select, None))
        } else {
            None
        }
    } else if words.len() == 2 {
        let alias = Some(words[1]);
        if words[0] == "usage"@ {
            Some((ManagedAccountAction::Usage, alias))
        } else if words[0] == "add"@ {
            Some((ManagedAccountAction::Add, alias))
        } else if words[0] == "import"@ {
            Some((ManagedAccountAction::Import, alias))
        } else if words[0] == "select"@ {
            Some((ManagedAccountAction::Select, alias))
        } else if words[0] == "remove"@ {
            Some((ManagedAccountAction::Remove, alias))
        } else if words[0] == "redeem"@ {
            Some((ManagedAccountAction::Redeem, alias))
        } else {
            None
        }
    } else {
        None
    }
}

/// What an `/accounts` line asks for.
pub open spec fn account_line(line: Seq<Seq<char>>) -> Result<AccountsModel, LineError> {
    let device_auth = line.len() > 0 && line.last() == "--device-auth"@;
    let words = if device_auth {
        line.drop_last()
    } else {
        line
    };
    match account_words(words) {
        None => Err(LineError::AccountsUsage),
        Some((action, alias)) => if device_auth && action != ManagedAccountAction::Add {
            Err(LineError::DeviceAuth)
        } else {
            Ok(
                AccountsModel {
                    action,
                    alias,
                    device_auth,
                    view: if words.len() > 0 && words[0] == "usage"@ {
                        AccountReportView::Usage
                    } else {
                        AccountReportView::Summary
                    },
                    cursor: None,
                    selection_updated: false,
                    data: seq![],
                    usage: seq![],
                },
            )
        },
    }
}

/// The pool that the words after `create` or `update` define.
pub open spec fn defined_pool(words: Seq<Seq<char>>) -> PoolModel {
    let members = words.skip(2);
    PoolModel {
        name: words[1],
        accounts: members.filter(|alias: Seq<char>| alias != "--no-auto-reset"@),
        redeem_weekly_resets: !members.contains("--no-auto-reset"@),
    }
}

/// What a `/pools` line asks for.
pub open spec fn pool_line(words: Seq<Seq<char>>) -> Result<PoolsModel, LineError> {
    let asked = |action: ManagedPoolAction, name: Option<Seq<char>>, pool: Option<PoolModel>|
        Ok::<PoolsModel, LineError>(
            PoolsModel { action, name, pool, cursor: None, data: seq![] },
        );
    if words.len() == 0 || (words.len() == 1 && words[0] == "list"@) {
        asked(ManagedPoolAction::List, None, None)
    } else if words.len() == 1 && words[0] == "clear"@ {
        asked(ManagedPoolAction::Select, None, None)
    } else if words.len() == 2 && words[0] == "inspect"@ {
        asked(ManagedPoolAction::Read, Some(words[1]), None)
    } else if words.len() == 2 && words[0] == "select"@ {
        asked(ManagedPoolAction::Select, Some(words[1]), None)
    } else if words.len() == 2 && words[0] == "remove"@ {
        asked(ManagedPoolAction::Remove, Some(words[1]), None)
    } else if words.len() > 2 && words[0] == "create"@ {
        asked(ManagedPoolAction::Create, None, Some(defined_pool(words)))
    } else if words.len() > 2 && words[0] == "update"@ {
        asked(ManagedPoolAction::Update, None, Some(defined_pool(words)))
    } else {
        Err(LineError::PoolsUsage)
    }
}

/// Whether the word at a position is the given one.
fn word_is(words: &Vec<String>, i: usize, word: &str) -> (same: bool)
    requires
        i < words.len(),
    ensures
        same == (text::views(words@)[i as int] == word@),
{
    text::same_text(words[i].as_str(), word)
}

/// The action and alias that the words of an `/accounts` line stand for.
fn parse_account_words(words: &Vec<String>) -> (parsed: Option<
    (ManagedAccountAction, Option<String>),
>)
    ensures
        (match parsed {
            Some((action, alias)) => Some((action, text::opt_view(alias))),
            None => None,
        }) == account_words(text::views(words@)),
{
    if words.len() == 0 {
        return Some((ManagedAccountAction::Usage, None));
    }
    if words.len() == 1 {
        if word_is(words, 0, "list") || word_is(words, 0, "usage") {
            return Some((ManagedAccountAction::Usage, None));
        }
        if word_is(words, 0, "clear") {
            return Some((ManagedAccountAction::Select, None));
        }
        return None;
    }
    if words.len() != 2 {
        return None;
    }
    assert(text::views(words@)[1] == words@[1]@);
    let action: ManagedAccountAction = if word_is(words, 0, "usage") {
        ManagedAccountAction::Usage
    } else if word_is(words, 0, "add") {
        ManagedAccountAction::Add
    } else if word_is(words, 0, "import") {
        ManagedAccountAction::Import
    } else if word_is(words, 0, "select") {
        ManagedAccountAction::Select
    } else if word_is(words, 0, "remove") {
        ManagedAccountAction::Remove
    } else if word_is(words, 0, "redeem") {
        ManagedAccountAction::Redeem
    } else {
        return None;
    };
    Some((action, Some(words[1].clone())))
}

/// Understands an `/accounts` line.
pub fn manage_accounts(args: &str) -> (command: Result<AccountsCommand, LineError>)
    ensures
        (match command {
            Ok(command) => Ok(command@),
            Err(error) => Err(error),
        }) == account_line(text::words(args@)),
{
    let mut words: Vec<String> = text::split_words(args);
    let ghost line = text::words(args@);
    let count: usize = words.len();
    let device_auth: bool = count > 0 && word_is(&words, count - 1, "--device-auth");
    if device_auth {
        let _ = words.pop();
        assert(text::views(words@) =~= line.drop_last());
    }
    let ghost rest = text::views(words@);
    let (action, alias): (ManagedAccountAction, Option<String>) = match parse_account_words(
        &words,
    ) {
        Some(parsed) => parsed,
        None => {
            return Err(LineError::AccountsUsage);
        },
    };
    if device_auth && action != ManagedAccountAction::Add {
        return Err(LineError::DeviceAuth);
    }
    let view: AccountReportView = if words.len() > 0 && word_is(&words, 0, "usage") {
        AccountReportView::Usage
    } else {
        AccountReportView::Summary
    };
    let command: AccountsCommand = AccountsCommand {
        action,
        alias,
        device_auth,
        view,
        cursor: None,
        selection_updated: false,
        data: Vec::new(),
        usage: Vec::new(),
    };
    assert(command@.data =~= seq![]);
    assert(command@.usage =~= seq![]);
    Ok(command)
}

impl AccountsModel {
    /// The command once a page came, and the answer to report, if that was the last. A selection is
    /// followed by the usage of all accounts; paging never repeats it.
    pub open spec fn taken(self, response: AccountResponseModel) -> (
        AccountsModel,
        Option<AccountResponseModel>,
    ) {
        if self.action == ManagedAccountAction::Select {
            (
                AccountsModel {
                    action: ManagedAccountAction::Usage,
                    alias: None,
                    cursor: None,
                    selection_updated: true,
                    ..self
                },
                None,
            )
        } else {
            let data = self.data + response.data;
            let usage = self.usage + response.usage;
            if self.action != ManagedAccountAction::Usage || response.next_cursor is None {
                (self, Some(AccountResponseModel { data, usage, ..response }))
            } else {
                (AccountsModel { data, usage, cursor: response.next_cursor, ..self }, None)
            }
        }
    }
}

/// Adds accounts to a list.
fn append_accounts(list: &mut Vec<ManagedAccount>, more: &Vec<ManagedAccount>)
    ensures
        text::views(final(list)@) == text::views(old(list)@) + text::views(more@),
{
    let ghost before = text::views(list@);
    let mut copy: Vec<ManagedAccount> = account_pool::clone_accounts(more);
    let ghost added = text::views(copy@);
    list.append(&mut copy);
    assert(text::views(list@) =~= before + added);
}

/// Adds usages to a list.
fn append_usages(list: &mut Vec<ManagedAccountUsage>, more: &Vec<ManagedAccountUsage>)
    ensures
        text::views(final(list)@) == text::views(old(list)@) + text::views(more@),
{
    let ghost before = text::views(list@);
    let mut i: usize = 0;
    assert(before + text::views(more@).take(0) =~= before);
    while i < more.len()
        invariant
            i <= more.len(),
            text::views(list@) == before + text::views(more@).take(i as int),
        decreases more.len() - i,
    {
        let usage: ManagedAccountUsage = more[i].clone();
        let ghost shorter = text::views(list@);
        let ghost added = usage@;
        list.push(usage);
        assert(text::views(list@) =~= shorter.push(added));
        assert(text::views(more@).take(i + 1) =~= text::views(more@).take(i as int).push(added));
        assert(text::views(list@) =~= before + text::views(more@).take(i + 1));
        i = i + 1;
    }
    assert(text::views(more@).take(i as int) =~= text::views(more@));
}

impl AccountsCommand {
    /// The next request.
    pub fn params(&self) -> (params: ManagedAccountParams)
        ensures
            params.action == self@.action,
            text::opt_view(params.alias) == self@.alias,
            params.account_selection is None,
            params.thread_id is None,
            params.device_auth == Some(self@.device_auth),
            params.model is None,
            text::opt_view(params.cursor) == self@.cursor,
            params.limit == Some(PAGE_LENGTH),
    {
        ManagedAccountParams {
            action: self.action,
            account_selection: None,
            thread_id: None,
            alias: text::clone_opt(&self.alias),
            device_auth: Some(self.device_auth),
            model: None,
            cursor: text::clone_opt(&self.cursor),
            limit: Some(PAGE_LENGTH),
        }
    }

    /// Takes a page. Gives the answer to report, if that was the last.
    pub fn take(&mut self, response: ManagedAccountResponse) -> (last: Option<
        ManagedAccountResponse,
    >)
        ensures
            (final(self)@, text::opt_view(last)) == old(self)@.taken(response@),
    {
        if self.action == ManagedAccountAction::Select {
            self.action = ManagedAccountAction::Usage;
            self.alias = None;
            self.cursor = None;
            self.selection_updated = true;
            return None;
        }
        if self.action != ManagedAccountAction::Usage || response.next_cursor.is_none() {
            let mut data: Vec<ManagedAccount> = account_pool::clone_accounts(&self.data);
            append_accounts(&mut data, &response.data);
            let mut usage: Vec<ManagedAccountUsage> = Vec::new();
            assert(text::views(usage@) + self@.usage =~= self@.usage);
            append_usages(&mut usage, &self.usage);
            append_usages(&mut usage, &response.usage);
            return Some(ManagedAccountResponse { data, usage, ..response });
        }
        append_accounts(&mut self.data, &response.data);
        append_usages(&mut self.usage, &response.usage);
        self.cursor = response.next_cursor;
        None
    }

    /// What the user is told where a request fails.
    pub fn failure(&self, error: &str) -> (words: String)
        ensures
            words@ == (if self@.selection_updated {
                "Default account updated, but usage could not be refreshed: "@ + error@
                    + ". Run /accounts to retry."@
            } else {
                error@
            }),
    {
        if self.selection_updated {
            let mut words: String =
                "Default account updated, but usage could not be refreshed: ".to_owned();
            words.append(error);
            words.append(". Run /accounts to retry.");
            words
        } else {
            error.to_owned()
        }
    }
}

/// The pool that the words after `create` or `update` define.
fn define_pool(words: &Vec<String>) -> (pool: AccountPool)
    requires
        words.len() > 2,
    ensures
        pool@ == defined_pool(text::views(words@)),
{
    let ghost models = text::views(words@);
    let ghost members = models.skip(2);
    let ghost keep = |alias: Seq<char>| alias != "--no-auto-reset"@;
    let mut accounts: Vec<String> = Vec::new();
    let mut redeem: bool = true;
    let mut i: usize = 2;
    proof {
        reveal(Seq::filter);
        assert(members.take(0).filter(keep) =~= Seq::empty());
        assert(text::views(accounts@) =~= Seq::empty());
    }
    while i < words.len()
        invariant
            2 <= i <= words.len(),
            models == text::views(words@),
            members == models.skip(2),
            keep == (|alias: Seq<char>| alias != "--no-auto-reset"@),
            text::views(accounts@) == members.take(i - 2).filter(keep),
            redeem <==> !members.take(i - 2).contains("--no-auto-reset"@),
        decreases words.len() - i,
    {
        proof {
            lists::lemma_filter_step(members, keep, i - 2);
            assert(members[i - 2] == words@[i as int]@);
            assert(members.take(i - 1) =~= members.take(i - 2).push(members[i - 2]));
        }
        let ghost before = text::views(accounts@);
        if text::same_text(words[i].as_str(), "--no-auto-reset") {
            redeem = false;
            assert(members.take(i - 1)[i - 2] == "--no-auto-reset"@);
        } else {
            accounts.push(words[i].clone());
            assert(text::views(accounts@) =~= before.push(members[i - 2]));
            proof {
                let shorter = members.take(i - 2);
                let longer = members.take(i - 1);
                let flag = "--no-auto-reset"@;
                if longer.contains(flag) {
                    let k = choose|k: int| 0 <= k < longer.len() && longer[k] == flag;
                    assert(shorter[k] == flag);
                }
                if shorter.contains(flag) {
                    let k = choose|k: int| 0 <= k < shorter.len() && shorter[k] == flag;
                    assert(longer[k] == flag);
                }
            }
        }
        i = i + 1;
    }
    assert(members.take(i - 2) =~= members);
    AccountPool { name: words[1].clone(), accounts, redeem_weekly_resets: redeem }
}

/// A `/pools` command before its first page.
fn pools_command(action: ManagedPoolAction, name: Option<String>, pool: Option<AccountPool>) -> (
    command: PoolsCommand)
    ensures
        command@ == (PoolsModel {
            action,
            name: text::opt_view(name),
            pool: text::opt_view(pool),
            cursor: None,
            data: seq![],
        }),
{
    let command: PoolsCommand = PoolsCommand {
        action,
        name,
        pool,
        cursor: None,
        data: Vec::new(),
    };
    assert(command@.data =~= seq![]);
    command
}

/// Understands a `/pools` line.
pub fn manage_pools(args: &str) -> (command: Result<PoolsCommand, LineError>)
    ensures
        (match command {
            Ok(command) => Ok(command@),
            Err(error) => Err(error),
        }) == pool_line(text::words(args@)),
{
    let words: Vec<String> = text::split_words(args);
    let count: usize = words.len();
    assert(text::words(args@).len() == count);
    if count == 0 || (count == 1 && word_is(&words, 0, "list")) {
        return Ok(pools_command(ManagedPoolAction::List, None, None));
    }
    if count == 1 {
        if word_is(&words, 0, "clear") {
            return Ok(pools_command(ManagedPoolAction::Select, None, None));
        }
        return Err(LineError::PoolsUsage);
    }
    if count == 2 {
        let name: Option<String> = Some(words[1].clone());
        if word_is(&words, 0, "inspect") {
            return Ok(pools_command(ManagedPoolAction::Read, name, None));
        }
        if word_is(&words, 0, "select") {
            return Ok(pools_command(ManagedPoolAction::Select, name, None));
        }
        if word_is(&words, 0, "remove") {
            return Ok(pools_command(ManagedPoolAction::Remove, name, None));
        }
        return Err(LineError::PoolsUsage);
    }
    if word_is(&words, 0, "create") {
        return Ok(pools_command(ManagedPoolAction::Create, None, Some(define_pool(&words))));
    }
    if word_is(&words, 0, "update") {
        return Ok(pools_command(ManagedPoolAction::Update, None, Some(define_pool(&words))));
    }
    Err(LineError::PoolsUsage)
}

impl PoolsModel {
    /// The command once a page came, and the answer to report, if that was the last.
    pub open spec fn taken(self, response: PoolPageModel) -> (PoolsModel, Option<PoolPageModel>) {
        let data = self.data + response.data;
        if self.action != ManagedPoolAction::List || response.next_cursor is None {
            (
                self,
                Some(
                    PoolPageModel {
                        data,
                        next_cursor: None,
                        default_selection: response.default_selection,
                    },
                ),
            )
        } else {
            (PoolsModel { data, cursor: response.next_cursor, ..self }, None)
        }
    }
}

/// Adds pools to a list.
fn append_pools(list: &mut Vec<AccountPool>, more: &Vec<AccountPool>)
    ensures
        text::views(final(list)@) == text::views(old(list)@) + text::views(more@),
{
    let ghost before = text::views(list@);
    let mut copy: Vec<AccountPool> = account_pool::clone_pools(more);
    let ghost added = text::views(copy@);
    list.append(&mut copy);
    assert(text::views(list@) =~= before + added);
}

impl PoolsCommand {
    /// The next request.
    pub fn params(&self) -> (params: ManagedPoolParams)
        ensures
            params.action == self@.action,
            text::opt_view(params.name) == self@.name,
            text::opt_view(params.pool) == self@.pool,
            text::opt_view(params.cursor) == self@.cursor,
            params.limit == Some(PAGE_LENGTH),
    {
        ManagedPoolParams {
            action: self.action,
            name: text::clone_opt(&self.name),
            pool: match &self.pool {
                Some(pool) => Some(pool.clone()),
                None => None,
            },
            cursor: text::clone_opt(&self.cursor),
            limit: Some(PAGE_LENGTH),
        }
    }

    /// Takes a page. Gives the answer to report, if that was the last.
    pub fn take(&mut self, response: ManagedPoolResponse) -> (last: Option<ManagedPoolResponse>)
        ensures
            (final(self)@, text::opt_view(last)) == old(self)@.taken(response@),
    {
        if self.action != ManagedPoolAction::List || response.next_cursor.is_none() {
            let mut data: Vec<AccountPool> = account_pool::clone_pools(&self.data);
            append_pools(&mut data, &response.data);
            return Some(
                ManagedPoolResponse {
                    data,
                    next_cursor: None,
                    default_selection: response.default_selection,
                },
            );
        }
        append_pools(&mut self.data, &response.data);
        self.cursor = response.next_cursor;
        None
    }
}

/// A default is selected at most once: whatever page comes, the next request does not select.
pub proof fn law_paging_never_repeats_a_selection(
    command: AccountsModel,
    response: AccountResponseModel,
)
    ensures
        command.taken(response).1 is None ==> command.taken(response).0.action
            == ManagedAccountAction::Usage,
        command.action == ManagedAccountAction::Select ==> command.taken(response).0.alias is None
            && command.taken(response).0.data == command.data,
{
}

/// The items that gathering page after page gives, from a cursor on.
pub open spec fn gathered<T: paging::Named>(
    items: Seq<T::V>,
    cursor: Option<Seq<char>>,
    pages: nat,
) -> Seq<T::V>
    decreases pages,
{
    let page = paging::page_items::<T>(items, cursor, Some(PAGE_LENGTH));
    match paging::page_next::<T>(items, cursor, Some(PAGE_LENGTH)) {
        Some(next) if pages > 0 => page + gathered::<T>(items, Some(next), (pages - 1) as nat),
        _ => page,
    }
}

/// Gathering page after page gives every item of a rising list, each once and in order, once enough
/// pages are read: no more than there are items.
pub proof fn law_gathered_pages_are_complete<T: paging::Named>(
    items: Seq<T::V>,
    cursor: Option<Seq<char>>,
    pages: nat,
)
    requires
        paging::rising::<T>(items),
        pages >= paging::after_cursor::<T>(items, cursor).len(),
    ensures
        gathered::<T>(items, cursor, pages) == paging::after_cursor::<T>(items, cursor),
    decreases pages,
{
    paging::law_pages_cover_the_list::<T>(items, cursor, Some(PAGE_LENGTH));
    if let Some(next) = paging::page_next::<T>(items, cursor, Some(PAGE_LENGTH)) {
        let rest = paging::after_cursor::<T>(items, Some(next));
        assert(rest.len() < paging::after_cursor::<T>(items, cursor).len());
        law_gathered_pages_are_complete::<T>(items, Some(next), (pages - 1) as nat);
    }
}

/// Gathering from the start gives the whole list.
pub proof fn law_gathered_pages_give_the_list<T: paging::Named>(items: Seq<T::V>)
    requires
        paging::rising::<T>(items),
    ensures
        gathered::<T>(items, None, items.len()) == items,
{
    paging::law_pages_cover_the_list::<T>(items, None, Some(PAGE_LENGTH));
    law_gathered_pages_are_complete::<T>(items, None, items.len());
}

/// A line on accounts is one of its known forms, each with its own request; the device flag may end
/// the line that adds an account, and no other. Anything else is refused with the usage of the
/// command.
pub proof fn law_account_lines(alias: Seq<char>)
    requires
        alias != "--device-auth"@,
    ensures
        account_words(seq![]) == Some((ManagedAccountAction::Usage, None::<Seq<char>>)),
        account_words(seq!["list"@]) == Some((ManagedAccountAction::Usage, None::<Seq<char>>)),
        account_words(seq!["usage"@]) == Some((ManagedAccountAction::Usage, None::<Seq<char>>)),
        account_words(seq!["clear"@]) == Some((ManagedAccountAction::Select, None::<Seq<char>>)),
        account_words(seq!["usage"@, alias]) == Some((ManagedAccountAction::Usage, Some(alias))),
        account_words(seq!["add"@, alias]) == Some((ManagedAccountAction::Add, Some(alias))),
        account_words(seq!["import"@, alias]) == Some((ManagedAccountAction::Import, Some(alias))),
        account_words(seq!["select"@, alias]) == Some((ManagedAccountAction::Select, Some(alias))),
        account_words(seq!["remove"@, alias]) == Some((ManagedAccountAction::Remove, Some(alias))),
        account_words(seq!["redeem"@, alias]) == Some((ManagedAccountAction::Redeem, Some(alias))),
        account_line(seq!["add"@, alias, "--device-auth"@]) matches Ok(command) && command.action
            == ManagedAccountAction::Add && command.alias == Some(alias) && command.device_auth,
        account_line(seq!["add"@, alias]) matches Ok(command) && command.action
            == ManagedAccountAction::Add && command.alias == Some(alias) && !command.device_auth,
        account_line(seq!["import"@, alias, "--device-auth"@]) == Err::<AccountsModel, LineError>(
            LineError::DeviceAuth,
        ),
        account_line(seq!["usage"@, alias]) matches Ok(command) && command.view
            == AccountReportView::Usage && !command.device_auth,
        account_line(seq!["list"@]) matches Ok(command) && command.view
            == AccountReportView::Summary && command.action == ManagedAccountAction::Usage,
{
    lemma_account_words();
    assert(seq!["add"@, alias, "--device-auth"@].drop_last() =~= seq!["add"@, alias]);
    assert(seq!["import"@, alias, "--device-auth"@].drop_last() =~= seq!["import"@, alias]);
}

/// The words of the command on accounts differ.
proof fn lemma_account_words()
    ensures
        "list"@ != "usage"@,
        "usage"@ != "clear"@,
        "list"@ != "clear"@,
        "usage"@ != "add"@,
        "usage"@ != "import"@,
        "usage"@ != "select"@,
        "usage"@ != "remove"@,
        "usage"@ != "redeem"@,
        "add"@ != "import"@,
        "add"@ != "select"@,
        "add"@ != "remove"@,
        "add"@ != "redeem"@,
        "import"@ != "select"@,
        "import"@ != "remove"@,
        "import"@ != "redeem"@,
        "select"@ != "remove"@,
        "select"@ != "redeem"@,
        "remove"@ != "redeem"@,
        "list"@ != "--device-auth"@,
        "clear"@ != "--device-auth"@,
        "usage"@ != "--device-auth"@,
{
    reveal_strlit("list");
    reveal_strlit("usage");
    reveal_strlit("clear");
    reveal_strlit("add");
    reveal_strlit("import");
    reveal_strlit("select");
    reveal_strlit("remove");
    reveal_strlit("redeem");
    reveal_strlit("--device-auth");
    assert("list"@.len() == 4 && "usage"@.len() == 5 && "clear"@.len() == 5 && "add"@.len() == 3);
    assert("import"@.len() == 6 && "select"@.len() == 6 && "remove"@.len() == 6
        && "redeem"@.len() == 6);
    assert("--device-auth"@.len() == 13);
    assert("usage"@[0] == 'u' && "clear"@[0] == 'c');
    assert("import"@[0] == 'i' && "select"@[0] == 's' && "remove"@[0] == 'r' && "redeem"@[0]
        == 'r');
    assert("remove"@[2] == 'm' && "redeem"@[2] == 'd');
}

/// What a line on accounts asks for starts a gathering without items; the flag decides on the device
/// code, and only a line that says usage shows the windows.
pub proof fn law_account_command_starts_empty(line: Seq<Seq<char>>)
    ensures
        ({
            let flagged = line.len() > 0 && line[line.len() - 1] == "--device-auth"@;
            let words = if flagged {
                line.take(line.len() - 1)
            } else {
                line
            };
            let parsed = account_words(words);
            let made = account_line(line);
            &&& made == Err::<AccountsModel, LineError>(LineError::AccountsUsage)
                <==> parsed is None
            &&& made == Err::<AccountsModel, LineError>(LineError::DeviceAuth) <==> flagged && (
            parsed matches Some((action, _)) && action != ManagedAccountAction::Add)
            &&& made matches Ok(command) ==> {
                &&& parsed == Some((command.action, command.alias))
                &&& command.device_auth == flagged
                &&& command.view == AccountReportView::Usage <==> words.len() > 0 && words[0]
                    == "usage"@
                &&& command.cursor is None && !command.selection_updated
                &&& command.data.len() == 0 && command.usage.len() == 0
            }
        }),
        line.len() > 3 ==> account_line(line) is Err,
{
    if line.len() > 0 {
        assert(line.take(line.len() - 1) =~= line.drop_last());
    }
}

/// The pool that a line defines has the name after the command and the aliases after that, in order
/// and without the flag; it may spend resets unless the flag is among them.
pub proof fn law_defined_pool(name: Seq<char>, members: Seq<Seq<char>>, command: Seq<char>)
    ensures
        ({
            let pool = defined_pool(seq![command, name] + members);
            &&& pool.name == name
            &&& pool.accounts == members.filter(
                |alias: Seq<char>| alias != "--no-auto-reset"@,
            )
            &&& pool.redeem_weekly_resets <==> !members.contains("--no-auto-reset"@)
        }),
{
    assert((seq![command, name] + members).skip(2) =~= members);
}

/// A line on pools is one of its known forms, each with its own request; anything else is refused
/// with the usage of the command.
pub proof fn law_pool_lines(name: Seq<char>, words: Seq<Seq<char>>)
    ensures
        pool_line(seq![]) matches Ok(command) && command.action == ManagedPoolAction::List
            && command.name is None && command.pool is None,
        pool_line(seq!["list"@]) matches Ok(command) && command.action == ManagedPoolAction::List
            && command.name is None && command.pool is None,
        pool_line(seq!["clear"@]) matches Ok(command) && command.action
            == ManagedPoolAction::Select && command.name is None,
        pool_line(seq!["inspect"@, name]) matches Ok(command) && command.action
            == ManagedPoolAction::Read && command.name == Some(name) && command.pool is None,
        pool_line(seq!["select"@, name]) matches Ok(command) && command.action
            == ManagedPoolAction::Select && command.name == Some(name) && command.pool is None,
        pool_line(seq!["remove"@, name]) matches Ok(command) && command.action
            == ManagedPoolAction::Remove && command.name == Some(name) && command.pool is None,
        words.len() > 2 && words[0] == "create"@ ==> (pool_line(words) matches Ok(command)
            && command.action == ManagedPoolAction::Create && command.pool == Some(
            defined_pool(words),
        )),
        words.len() > 2 && words[0] == "update"@ ==> (pool_line(words) matches Ok(command)
            && command.action == ManagedPoolAction::Update && command.pool == Some(
            defined_pool(words),
        )),
        words.len() > 2 && words[0] != "create"@ && words[0] != "update"@ ==> pool_line(words)
            == Err::<PoolsModel, LineError>(LineError::PoolsUsage),
        words.len() == 1 && words[0] != "list"@ && words[0] != "clear"@ ==> pool_line(words)
            == Err::<PoolsModel, LineError>(LineError::PoolsUsage),
        words.len() == 2 && words[0] != "inspect"@ && words[0] != "select"@ && words[0]
            != "remove"@ ==> pool_line(words) == Err::<PoolsModel, LineError>(
            LineError::PoolsUsage,
        ),
        pool_line(words) matches Ok(command) ==> command.cursor is None && command.data.len() == 0,
{
    reveal_strlit("list");
    reveal_strlit("clear");
    reveal_strlit("inspect");
    reveal_strlit("select");
    reveal_strlit("remove");
    reveal_strlit("create");
    reveal_strlit("update");
    assert("list"@.len() == 4 && "clear"@.len() == 5 && "inspect"@.len() == 7);
    assert("select"@.len() == 6 && "remove"@.len() == 6 && "create"@.len() == 6
        && "update"@.len() == 6);
    assert("select"@[0] == 's' && "remove"@[0] == 'r' && "create"@[0] == 'c' && "update"@[0]
        == 'u');
}

/// Pages of accounts are gathered in order until the last of them; a request for anything but usage
/// has one page. After the default was chosen, the usage is asked for from the start.
pub proof fn law_account_pages_are_gathered(
    command: AccountsModel,
    response: AccountResponseModel,
)
    ensures
        ({
            let (after, last) = command.taken(response);
            let select = command.action == ManagedAccountAction::Select;
            let more = command.action == ManagedAccountAction::Usage
                && response.next_cursor is Some;
            &&& last is Some <==> !select && !more
            &&& last is Some ==> {
                &&& last->0.data == command.data + response.data
                &&& last->0.usage == command.usage + response.usage
                &&& last->0.login == response.login
                &&& last->0.default_selection == response.default_selection
                &&& last->0.selected_account == response.selected_account
            }
            &&& more ==> {
                &&& after.data == command.data + response.data
                &&& after.usage == command.usage + response.usage
                &&& after.cursor == response.next_cursor
                &&& after.action == command.action && after.alias == command.alias
                &&& after.view == command.view && after.selection_updated
                    == command.selection_updated
            }
            &&& select ==> {
                &&& after.action == ManagedAccountAction::Usage
                &&& after.alias is None && after.cursor is None && after.selection_updated
                &&& after.data == command.data && after.usage == command.usage
                &&& after.view == command.view
            }
        }),
{
}

/// Pages of pools are gathered in order until the last of them; a request for anything but the list
/// has one page.
pub proof fn law_pool_pages_are_gathered(command: PoolsModel, response: PoolPageModel)
    ensures
        ({
            let (after, last) = command.taken(response);
            let more = command.action == ManagedPoolAction::List && response.next_cursor is Some;
            &&& last is Some <==> !more
            &&& last is Some ==> last->0.data == command.data + response.data
                && last->0.default_selection == response.default_selection
            &&& more ==> after.data == command.data + response.data && after.cursor
                == response.next_cursor && after.action == command.action && after.name
                == command.name
        }),
{
}

/// Pages are asked for at their greatest length.
pub proof fn law_pages_are_asked_for_in_full()
    ensures
        PAGE_LENGTH == 100,
        paging::valid_limit(Some(PAGE_LENGTH)),
{
}

/// A `AccountsCommand` is seen with every field as it is.
pub proof fn law_accounts_command_is_seen_whole(value: AccountsCommand)
    ensures
        value@.action == value.action,
        value@.alias == text::opt_view(value.alias),
        value@.device_auth == value.device_auth,
        value@.view == value.view,
        value@.cursor == text::opt_view(value.cursor),
        value@.selection_updated == value.selection_updated,
        value@.data == text::views(value.data@),
        value@.usage == text::views(value.usage@),
{
}

/// A `PoolsCommand` is seen with every field as it is.
pub proof fn law_pools_command_is_seen_whole(value: PoolsCommand)
    ensures
        value@.action == value.action,
        value@.name == text::opt_view(value.name),
        value@.pool == text::opt_view(value.pool),
        value@.cursor == text::opt_view(value.cursor),
        value@.data == text::views(value.data@),
{
}

/// A line that is no command is answered with the usage of its command.
pub proof fn law_line_errors_are_told()
    ensures
        LineError::AccountsUsage.words()
            == "Usage: /accounts [list|usage [alias]|add alias|import alias|select alias|remove alias|redeem alias|clear]"@,
        LineError::DeviceAuth.words()
            == "--device-auth is only available with /accounts add ALIAS"@,
        LineError::PoolsUsage.words()
            == "Usage: /pools [list|inspect NAME|create NAME ALIAS...|update NAME ALIAS...|select NAME|remove NAME|clear]. Add --no-auto-reset to wait for weekly recovery."@,
{
}

} // verus!
