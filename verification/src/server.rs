//! Requests to manage accounts and pools, and the pages that answer them.

use crate::account_pool;
use crate::account_pool::AccountModel;
use crate::account_pool::AccountPool;
use crate::account_pool::AccountPoolConfig;
use crate::account_pool::AccountPoolEvent;
use crate::account_pool::AccountSelection;
use crate::account_pool::ConfigModel;
use crate::account_pool::ManagedAccount;
use crate::account_pool::ManagedAccountUsage;
use crate::account_pool::PoolModel;
use crate::account_pool::SelectionModel;
use crate::account_pool::UsageModel;
use crate::lists;
use crate::paging;
use crate::storage::StoreError;
use crate::store;
use crate::text;
use vstd::prelude::*;

verus! {

/// The code of an answer to a request that cannot be carried out.
pub const INVALID_PARAMS: i64 = -32602;

/// What a client may do with accounts.
#[derive(Clone, Copy, Debug, PartialEq, Eq, Structural)]
pub enum ManagedAccountAction {
    Add,
    Import,
    List,
    Select,
    Remove,
    Usage,
    Redeem,
    Resolve,
    Models,
}

/// A request on accounts.
#[derive(Clone, Debug, PartialEq, Eq)]
pub struct ManagedAccountParams {
    pub action: ManagedAccountAction,
    /// Session selection to resolve; without one, saved state or the user default is used.
    pub account_selection: Option<AccountSelection>,
    pub thread_id: Option<String>,
    pub alias: Option<String>,
    /// Use device-code login; the default is a browser login.
    pub device_auth: Option<bool>,
    pub model: Option<String>,
    pub cursor: Option<String>,
    pub limit: Option<u32>,
}

/// What a client may do with pools.
#[derive(Clone, Copy, Debug, PartialEq, Eq, Structural)]
pub enum ManagedPoolAction {
    Create,
    List,
    Read,
    Update,
    Select,
    Remove,
}

/// A request on pools.
#[derive(Clone, Debug, PartialEq, Eq)]
pub struct ManagedPoolParams {
    pub action: ManagedPoolAction,
    pub name: Option<String>,
    pub pool: Option<AccountPool>,
    pub cursor: Option<String>,
    pub limit: Option<u32>,
}

/// Why a request is refused.
#[derive(Clone, Copy, Debug, PartialEq, Eq, Structural)]
pub enum RequestError {
    PageLimit,
    AliasRequired,
    NameRequired,
    PoolRequired,
    UnknownAccount,
    UnknownPool,
    Store(StoreError),
}

impl RequestError {
    /// The error in words. `name` is the account or pool that the request named.
    pub open spec fn words(self, name: Seq<char>) -> Seq<char> {
        match self {
            RequestError::PageLimit => "limit must be between 1 and 100"@,
            RequestError::AliasRequired => "An account alias is required"@,
            RequestError::NameRequired => "A pool name is required"@,
            RequestError::PoolRequired => "A pool definition is required"@,
            RequestError::UnknownAccount => "Unknown account: "@ + name,
            RequestError::UnknownPool => "Unknown pool: "@ + name,
            RequestError::Store(error) => error.words(name),
        }
    }

    /// Puts the error in words. `name` is the account or pool that the request named.
    pub fn message(self, name: &str) -> (words: String)
        ensures
            words@ == self.words(name@),
    {
        match self {
            RequestError::PageLimit => "limit must be between 1 and 100".to_owned(),
            RequestError::AliasRequired => "An account alias is required".to_owned(),
            RequestError::NameRequired => "A pool name is required".to_owned(),
            RequestError::PoolRequired => "A pool definition is required".to_owned(),
            RequestError::UnknownAccount => {
                let mut words: String = "Unknown account: ".to_owned();
                words.append(name);
                words
            },
            RequestError::UnknownPool => {
                let mut words: String = "Unknown pool: ".to_owned();
                words.append(name);
                words
            },
            RequestError::Store(error) => error.message(name),
        }
    }

    /// The answer to a refused request: every refusal is one of the parameters.
    pub fn rejection(self, name: &str) -> (answer: (i64, String))
        ensures
            answer.0 == INVALID_PARAMS,
            answer.1@ == self.words(name@),
    {
        (INVALID_PARAMS, self.message(name))
    }
}

/// What a request on accounts asks for before the accounts are listed.
#[derive(Debug, PartialEq, Eq)]
pub enum AccountRequest {
    /// Nothing.
    List,
    /// Open the session that the request selects, and list its models if asked to.
    Resolve { models: bool },
    /// Log in under an alias, with a device code or in a browser.
    Add { alias: String, device: bool },
    /// Import the user's own login under an alias.
    Import { alias: String },
    /// Choose the default.
    Select { selection: Option<AccountSelection> },
    /// Remove an account.
    Remove { alias: String },
    /// Redeem a banked reset.
    Redeem { alias: String },
}

/// An `AccountRequest` as a mathematical value.
pub enum AccountRequestModel {
    List,
    Resolve { models: bool },
    Add { alias: Seq<char>, device: bool },
    Import { alias: Seq<char> },
    Select { selection: Option<SelectionModel> },
    Remove { alias: Seq<char> },
    Redeem { alias: Seq<char> },
}

impl View for AccountRequest {
    type V = AccountRequestModel;

    open spec fn view(&self) -> AccountRequestModel {
        match self {
            AccountRequest::List => AccountRequestModel::List,
            AccountRequest::Resolve { models } => AccountRequestModel::Resolve { models: *models },
            AccountRequest::Add { alias, device } => AccountRequestModel::Add {
                alias: alias@,
                device: *device,
            },
            AccountRequest::Import { alias } => AccountRequestModel::Import { alias: alias@ },
            AccountRequest::Select { selection } => AccountRequestModel::Select {
                selection: text::opt_view(*selection),
            },
            AccountRequest::Remove { alias } => AccountRequestModel::Remove { alias: alias@ },
            AccountRequest::Redeem { alias } => AccountRequestModel::Redeem { alias: alias@ },
        }
    }
}

/// What a request on pools asks for before the pools are listed.
#[derive(Debug, PartialEq, Eq)]
pub enum PoolRequest {
    /// Nothing.
    List,
    /// Create or replace a pool.
    Put { pool: AccountPool, create: bool },
    /// Choose the default.
    Select { selection: Option<AccountSelection> },
    /// Remove a pool.
    Remove { name: String },
}

/// A `PoolRequest` as a mathematical value.
pub enum PoolRequestModel {
    List,
    Put { pool: PoolModel, create: bool },
    Select { selection: Option<SelectionModel> },
    Remove { name: Seq<char> },
}

impl View for PoolRequest {
    type V = PoolRequestModel;

    open spec fn view(&self) -> PoolRequestModel {
        match self {
            PoolRequest::List => PoolRequestModel::List,
            PoolRequest::Put { pool, create } => PoolRequestModel::Put {
                pool: pool@,
                create: *create,
            },
            PoolRequest::Select { selection } => PoolRequestModel::Select {
                selection: text::opt_view(*selection),
            },
            PoolRequest::Remove { name } => PoolRequestModel::Remove { name: name@ },
        }
    }
}

/// A page of accounts.
#[derive(Debug, PartialEq, Eq)]
pub struct AccountPage {
    pub data: Vec<ManagedAccount>,
    pub next_cursor: Option<String>,
    pub default_selection: Option<AccountSelection>,
}

/// An `AccountPage` as a mathematical value.
pub struct AccountPageModel {
    pub data: Seq<AccountModel>,
    pub next_cursor: Option<Seq<char>>,
    pub default_selection: Option<SelectionModel>,
}

impl View for AccountPage {
    type V = AccountPageModel;

    open spec fn view(&self) -> AccountPageModel {
        AccountPageModel {
            data: text::views(self.data@),
            next_cursor: text::opt_view(self.next_cursor),
            default_selection: text::opt_view(self.default_selection),
        }
    }
}

/// A page of pools.
#[derive(Clone, Debug, PartialEq, Eq)]
pub struct ManagedPoolResponse {
    pub data: Vec<AccountPool>,
    pub next_cursor: Option<String>,
    pub default_selection: Option<AccountSelection>,
}

/// A `ManagedPoolResponse` as a mathematical value.
pub struct PoolPageModel {
    pub data: Seq<PoolModel>,
    pub next_cursor: Option<Seq<char>>,
    pub default_selection: Option<SelectionModel>,
}

impl View for ManagedPoolResponse {
    type V = PoolPageModel;

    open spec fn view(&self) -> PoolPageModel {
        PoolPageModel {
            data: text::views(self.data@),
            next_cursor: text::opt_view(self.next_cursor),
            default_selection: text::opt_view(self.default_selection),
        }
    }
}

/// What a client needs to finish a login.
#[derive(Clone, Debug, PartialEq, Eq)]
pub enum LoginAccountResponse {
    Chatgpt { login_id: String, auth_url: String },
    ChatgptDeviceCode { login_id: String, verification_url: String, user_code: String },
    ApiKey,
    ChatgptAuthTokens,
    AmazonBedrock,
}

/// A `LoginAccountResponse` as a mathematical value.
pub enum LoginPrompt {
    /// Open an address.
    Browser { login_id: Seq<char>, address: Seq<char> },
    /// Open an address and enter a code.
    Device { login_id: Seq<char>, address: Seq<char>, code: Seq<char> },
    ApiKey,
    ChatgptAuthTokens,
    AmazonBedrock,
}

impl View for LoginAccountResponse {
    type V = LoginPrompt;

    open spec fn view(&self) -> LoginPrompt {
        match self {
            LoginAccountResponse::Chatgpt { login_id, auth_url } => LoginPrompt::Browser {
                login_id: login_id@,
                address: auth_url@,
            },
            LoginAccountResponse::ChatgptDeviceCode { login_id, verification_url, user_code } =>
                LoginPrompt::Device {
                login_id: login_id@,
                address: verification_url@,
                code: user_code@,
            },
            LoginAccountResponse::ApiKey => LoginPrompt::ApiKey,
            LoginAccountResponse::ChatgptAuthTokens => LoginPrompt::ChatgptAuthTokens,
            LoginAccountResponse::AmazonBedrock => LoginPrompt::AmazonBedrock,
        }
    }
}

/// The account that a selection resolves to, as the provider describes it.
#[derive(Clone, Debug, PartialEq, Eq)]
pub struct GetAccountResponse {
    pub account: Option<String>,
    pub requires_openai_auth: bool,
}

/// A `GetAccountResponse` as a mathematical value.
pub struct ResolvedModel {
    pub account: Option<Seq<char>>,
    pub requires_openai_auth: bool,
}

impl View for GetAccountResponse {
    type V = ResolvedModel;

    open spec fn view(&self) -> ResolvedModel {
        ResolvedModel {
            account: text::opt_view(self.account),
            requires_openai_auth: self.requires_openai_auth,
        }
    }
}

/// The answer to a request on accounts.
#[derive(Clone, Debug, PartialEq)]
pub struct ManagedAccountResponse {
    /// Absent where the selection uses legacy authentication.
    pub resolved: Option<GetAccountResponse>,
    pub selected_account: Option<ManagedAccount>,
    pub selected_pool: Option<AccountPool>,
    pub models: Option<Vec<String>>,
    pub data: Vec<ManagedAccount>,
    pub next_cursor: Option<String>,
    pub usage: Vec<ManagedAccountUsage>,
    pub login: Option<LoginAccountResponse>,
    pub default_selection: Option<AccountSelection>,
}

/// A `ManagedAccountResponse` as a mathematical value.
pub struct AccountResponseModel {
    pub resolved: Option<ResolvedModel>,
    pub selected_account: Option<AccountModel>,
    pub selected_pool: Option<PoolModel>,
    pub models: Option<Seq<Seq<char>>>,
    pub data: Seq<AccountModel>,
    pub next_cursor: Option<Seq<char>>,
    pub usage: Seq<UsageModel>,
    pub login: Option<LoginPrompt>,
    pub default_selection: Option<SelectionModel>,
}

impl View for ManagedAccountResponse {
    type V = AccountResponseModel;

    open spec fn view(&self) -> AccountResponseModel {
        AccountResponseModel {
            resolved: text::opt_view(self.resolved),
            selected_account: text::opt_view(self.selected_account),
            selected_pool: text::opt_view(self.selected_pool),
            models: account_pool::opt_views(self.models),
            data: text::views(self.data@),
            next_cursor: text::opt_view(self.next_cursor),
            usage: text::views(self.usage@),
            login: text::opt_view(self.login),
            default_selection: text::opt_view(self.default_selection),
        }
    }
}

/// A change of a thread's account.
#[derive(Clone, Debug, PartialEq, Eq)]
pub struct ThreadAccountPoolNotification {
    pub thread_id: String,
    pub event: AccountPoolEvent,
}

/// The end of a login.
#[derive(Clone, Debug, PartialEq, Eq)]
pub struct AccountLoginCompletedNotification {
    pub login_id: Option<String>,
    pub success: bool,
    pub error: Option<String>,
}

/// What a request on accounts asks for.
pub open spec fn account_request(
    action: ManagedAccountAction,
    alias: Option<Seq<char>>,
    device_auth: Option<bool>,
    limit: Option<u32>,
) -> Result<AccountRequestModel, RequestError> {
    if !paging::valid_limit(limit) {
        Err(RequestError::PageLimit)
    } else {
        match action {
            ManagedAccountAction::Resolve => Ok(AccountRequestModel::Resolve { models: false }),
            ManagedAccountAction::Models => Ok(AccountRequestModel::Resolve { models: true }),
            ManagedAccountAction::List | ManagedAccountAction::Usage => Ok(
                AccountRequestModel::List,
            ),
            ManagedAccountAction::Select => Ok(
                AccountRequestModel::Select {
                    selection: match alias {
                        Some(alias) => Some(SelectionModel::Account(alias)),
                        None => None,
                    },
                },
            ),
            _ => match alias {
                None => Err(RequestError::AliasRequired),
                Some(alias) => Ok(
                    match action {
                        ManagedAccountAction::Add => AccountRequestModel::Add {
                            alias,
                            device: device_auth == Some(true),
                        },
                        ManagedAccountAction::Import => AccountRequestModel::Import { alias },
                        ManagedAccountAction::Remove => AccountRequestModel::Remove { alias },
                        _ => AccountRequestModel::Redeem { alias },
                    },
                ),
            },
        }
    }
}

/// What a request on pools asks for.
pub open spec fn pool_request(
    action: ManagedPoolAction,
    name: Option<Seq<char>>,
    pool: Option<PoolModel>,
    limit: Option<u32>,
) -> Result<PoolRequestModel, RequestError> {
    if !paging::valid_limit(limit) {
        Err(RequestError::PageLimit)
    } else {
        match action {
            ManagedPoolAction::Create | ManagedPoolAction::Update => match pool {
                Some(pool) => Ok(
                    PoolRequestModel::Put { pool, create: action == ManagedPoolAction::Create },
                ),
                None => Err(RequestError::PoolRequired),
            },
            ManagedPoolAction::Select => Ok(
                PoolRequestModel::Select {
                    selection: match name {
                        Some(name) => Some(SelectionModel::Pool(name)),
                        None => None,
                    },
                },
            ),
            ManagedPoolAction::Remove => match name {
                Some(name) => Ok(PoolRequestModel::Remove { name }),
                None => Err(RequestError::NameRequired),
            },
            ManagedPoolAction::List | ManagedPoolAction::Read => Ok(PoolRequestModel::List),
        }
    }
}

/// The accounts of a store by alias; those of one alias, where one is asked for.
pub open spec fn listed_accounts(config: ConfigModel, alias: Option<Seq<char>>) -> Seq<
    AccountModel,
> {
    let sorted = paging::by_name::<ManagedAccount>(config.accounts);
    match alias {
        Some(alias) => sorted.filter(|account: AccountModel| account.alias == alias),
        None => sorted,
    }
}

/// The page that answers a request on accounts. An alias that was imported comes before the one
/// that was asked for.
pub open spec fn account_page(
    stored: Option<ConfigModel>,
    action: ManagedAccountAction,
    alias: Option<Seq<char>>,
    imported: Option<Seq<char>>,
    cursor: Option<Seq<char>>,
    limit: Option<u32>,
) -> Result<AccountPageModel, RequestError> {
    let wanted = if imported is Some {
        imported
    } else {
        alias
    };
    match store::loaded(stored) {
        Err(error) => Err(RequestError::Store(error)),
        Ok(config) => {
            let accounts = listed_accounts(config, wanted);
            if wanted is Some && accounts.len() == 0 && (action == ManagedAccountAction::Usage
                || action == ManagedAccountAction::List) {
                Err(RequestError::UnknownAccount)
            } else if !paging::valid_limit(limit) {
                Err(RequestError::PageLimit)
            } else {
                Ok(
                    AccountPageModel {
                        data: paging::page_items::<ManagedAccount>(accounts, cursor, limit),
                        next_cursor: paging::page_next::<ManagedAccount>(accounts, cursor, limit),
                        default_selection: config.default_selection,
                    },
                )
            }
        },
    }
}

/// The page that answers a request on pools.
pub open spec fn pool_page(
    stored: Option<ConfigModel>,
    action: ManagedPoolAction,
    name: Option<Seq<char>>,
    cursor: Option<Seq<char>>,
    limit: Option<u32>,
) -> Result<PoolPageModel, RequestError> {
    match store::loaded(stored) {
        Err(error) => Err(RequestError::Store(error)),
        Ok(config) => {
            let kept = if action == ManagedPoolAction::Read && name is Some {
                config.pools.filter(|pool: PoolModel| pool.name == name->0)
            } else {
                config.pools
            };
            let pools = paging::by_name::<AccountPool>(kept);
            if action == ManagedPoolAction::Read && name is None {
                Err(RequestError::NameRequired)
            } else if action == ManagedPoolAction::Read && kept.len() == 0 {
                Err(RequestError::UnknownPool)
            } else if !paging::valid_limit(limit) {
                Err(RequestError::PageLimit)
            } else {
                Ok(
                    PoolPageModel {
                        data: paging::page_items::<AccountPool>(pools, cursor, limit),
                        next_cursor: paging::page_next::<AccountPool>(pools, cursor, limit),
                        default_selection: config.default_selection,
                    },
                )
            }
        },
    }
}

/// The pools with a name.
fn pools_named(pools: Vec<AccountPool>, name: &str) -> (kept: Vec<AccountPool>)
    ensures
        text::views(kept@) == text::views(pools@).filter(|pool: PoolModel| pool.name == name@),
{
    let ghost keep = |pool: PoolModel| pool.name == name@;
    let ghost models = text::views(pools@);
    let mut kept: Vec<AccountPool> = Vec::new();
    let mut i: usize = 0;
    assert(models.take(0).filter(keep) =~= Seq::empty()) by {
        reveal(Seq::filter);
    }
    while i < pools.len()
        invariant
            i <= pools.len(),
            models == text::views(pools@),
            keep == (|pool: PoolModel| pool.name == name@),
            text::views(kept@) == models.take(i as int).filter(keep),
        decreases pools.len() - i,
    {
        proof {
            lists::lemma_filter_step(models, keep, i as int);
        }
        let ghost before = kept@;
        if text::same_text(pools[i].name.as_str(), name) {
            kept.push(pools[i].clone());
            assert(text::views(kept@) =~= text::views(before).push(models[i as int]));
        }
        i = i + 1;
    }
    assert(models.take(i as int) =~= models);
    kept
}

/// What a request on accounts asks for before the accounts are listed.
pub fn managed_account(params: &ManagedAccountParams) -> (request: Result<
    AccountRequest,
    RequestError,
>)
    ensures
        (match request {
            Ok(request) => Ok(request@),
            Err(error) => Err(error),
        }) == account_request(
            params.action,
            text::opt_view(params.alias),
            params.device_auth,
            params.limit,
        ),
{
    if paging::validate_page_limit(params.limit).is_err() {
        return Err(RequestError::PageLimit);
    }
    match params.action {
        ManagedAccountAction::Resolve => Ok(AccountRequest::Resolve { models: false }),
        ManagedAccountAction::Models => Ok(AccountRequest::Resolve { models: true }),
        ManagedAccountAction::List | ManagedAccountAction::Usage => Ok(AccountRequest::List),
        ManagedAccountAction::Select => Ok(
            AccountRequest::Select {
                selection: match &params.alias {
                    Some(alias) => Some(AccountSelection::Account(alias.clone())),
                    None => None,
                },
            },
        ),
        _ => {
            let alias: String = match &params.alias {
                Some(alias) => alias.clone(),
                None => {
                    return Err(RequestError::AliasRequired);
                },
            };
            match params.action {
                ManagedAccountAction::Add => {
                    let device: bool = match params.device_auth {
                        Some(true) => true,
                        _ => false,
                    };
                    Ok(AccountRequest::Add { alias, device })
                },
                ManagedAccountAction::Import => Ok(AccountRequest::Import { alias }),
                ManagedAccountAction::Remove => Ok(AccountRequest::Remove { alias }),
                _ => Ok(AccountRequest::Redeem { alias }),
            }
        },
    }
}

/// The page that answers a request on accounts, once it has been carried out.
pub fn managed_account_response(
    params: &ManagedAccountParams,
    imported: &Option<String>,
    stored: Option<AccountPoolConfig>,
) -> (page: Result<AccountPage, RequestError>)
    ensures
        (match page {
            Ok(page) => Ok(page@),
            Err(error) => Err(error),
        }) == account_page(
            text::opt_view(stored),
            params.action,
            text::opt_view(params.alias),
            text::opt_view(*imported),
            text::opt_view(params.cursor),
            params.limit,
        ),
{
    let config: AccountPoolConfig = match store::load_config(stored) {
        Ok(config) => config,
        Err(error) => {
            return Err(RequestError::Store(error));
        },
    };
    let ghost model = config@;
    let AccountPoolConfig { accounts, pools: _, default_selection } = config;
    let wanted: &Option<String> = if imported.is_some() {
        imported
    } else {
        &params.alias
    };
    let mut accounts: Vec<ManagedAccount> = paging::sort_by_name(accounts);
    if let Some(alias) = wanted {
        accounts = store::accounts_named(&accounts, alias.as_str());
        if accounts.len() == 0 && (params.action == ManagedAccountAction::Usage || params.action
            == ManagedAccountAction::List) {
            assert(text::views(accounts@).len() == 0);
            return Err(RequestError::UnknownAccount);
        }
    }
    assert(text::views(accounts@) == listed_accounts(model, text::opt_view(*wanted)));
    assert(text::views(accounts@).len() == accounts.len());
    match paging::page(accounts, &params.cursor, params.limit) {
        Ok((data, next_cursor)) => Ok(AccountPage { data, next_cursor, default_selection }),
        Err(_) => Err(RequestError::PageLimit),
    }
}

/// Whether the usage of the listed accounts is asked for.
pub fn wants_usage(params: &ManagedAccountParams) -> (wanted: bool)
    ensures
        wanted == (params.action == ManagedAccountAction::Usage),
{
    params.action == ManagedAccountAction::Usage
}

/// What came of carrying out a request on accounts.
#[derive(Debug, PartialEq)]
pub enum AccountOutcome {
    /// Nothing that the answer speaks of.
    Done,
    /// The session that a selection resolves to, as its provider describes it, its account and pool,
    /// and its models where they were asked for.
    Resolved {
        resolved: GetAccountResponse,
        account: ManagedAccount,
        pool: Option<AccountPool>,
        models: Option<Vec<String>>,
    },
    /// A login that has begun.
    Login(LoginAccountResponse),
    /// The usage after a reset.
    Redeemed(ManagedAccountUsage),
}

/// The answer to a request on accounts: its page, what came of it, and the usage that was read of
/// the listed accounts.
pub fn account_answer(
    outcome: AccountOutcome,
    page: AccountPage,
    readings: Vec<ManagedAccountUsage>,
) -> (response: ManagedAccountResponse)
    ensures
        response.data == page.data,
        response.next_cursor == page.next_cursor,
        response.default_selection == page.default_selection,
        match outcome {
            AccountOutcome::Resolved { resolved, account, pool, models } => {
                &&& response.resolved == Some(resolved)
                &&& response.selected_account == Some(account)
                &&& response.selected_pool == pool
                &&& response.models == models
            },
            _ => {
                &&& response.resolved is None
                &&& response.selected_account is None
                &&& response.selected_pool is None
                &&& response.models is None
            },
        },
        response.login == (match outcome {
            AccountOutcome::Login(login) => Some(login),
            _ => None,
        }),
        response.usage@ == (match outcome {
            AccountOutcome::Redeemed(usage) => seq![usage] + readings@,
            _ => readings@,
        }),
{
    let mut response: ManagedAccountResponse = ManagedAccountResponse {
        resolved: None,
        selected_account: None,
        selected_pool: None,
        models: None,
        data: page.data,
        next_cursor: page.next_cursor,
        usage: Vec::new(),
        login: None,
        default_selection: page.default_selection,
    };
    let mut readings: Vec<ManagedAccountUsage> = readings;
    match outcome {
        AccountOutcome::Done => {},
        AccountOutcome::Resolved { resolved, account, pool, models } => {
            response.resolved = Some(resolved);
            response.selected_account = Some(account);
            response.selected_pool = pool;
            response.models = models;
        },
        AccountOutcome::Login(login) => {
            response.login = Some(login);
        },
        AccountOutcome::Redeemed(usage) => {
            response.usage.push(usage);
        },
    }
    response.usage.append(&mut readings);
    response
}

/// What a request on pools asks for before the pools are listed.
pub fn managed_pool(params: &ManagedPoolParams) -> (request: Result<PoolRequest, RequestError>)
    ensures
        (match request {
            Ok(request) => Ok(request@),
            Err(error) => Err(error),
        }) == pool_request(
            params.action,
            text::opt_view(params.name),
            text::opt_view(params.pool),
            params.limit,
        ),
{
    if paging::validate_page_limit(params.limit).is_err() {
        return Err(RequestError::PageLimit);
    }
    match params.action {
        ManagedPoolAction::Create | ManagedPoolAction::Update => match &params.pool {
            Some(pool) => Ok(
                PoolRequest::Put {
                    pool: pool.clone(),
                    create: params.action == ManagedPoolAction::Create,
                },
            ),
            None => Err(RequestError::PoolRequired),
        },
        ManagedPoolAction::Select => Ok(
            PoolRequest::Select {
                selection: match &params.name {
                    Some(name) => Some(AccountSelection::Pool(name.clone())),
                    None => None,
                },
            },
        ),
        ManagedPoolAction::Remove => match &params.name {
            Some(name) => Ok(PoolRequest::Remove { name: name.clone() }),
            None => Err(RequestError::NameRequired),
        },
        ManagedPoolAction::List | ManagedPoolAction::Read => Ok(PoolRequest::List),
    }
}

/// The page that answers a request on pools, once it has been carried out.
pub fn managed_pool_response(params: &ManagedPoolParams, stored: Option<AccountPoolConfig>) -> (
    page: Result<ManagedPoolResponse, RequestError>)
    ensures
        (match page {
            Ok(page) => Ok(page@),
            Err(error) => Err(error),
        }) == pool_page(
            text::opt_view(stored),
            params.action,
            text::opt_view(params.name),
            text::opt_view(params.cursor),
            params.limit,
        ),
{
    let config: AccountPoolConfig = match store::load_config(stored) {
        Ok(config) => config,
        Err(error) => {
            return Err(RequestError::Store(error));
        },
    };
    let AccountPoolConfig { accounts: _, mut pools, default_selection } = config;
    if params.action == ManagedPoolAction::Read {
        let name: &String = match &params.name {
            Some(name) => name,
            None => {
                return Err(RequestError::NameRequired);
            },
        };
        pools = pools_named(pools, name.as_str());
        assert(text::views(pools@).len() == pools.len());
        if pools.len() == 0 {
            return Err(RequestError::UnknownPool);
        }
    }
    let pools: Vec<AccountPool> = paging::sort_by_name(pools);
    match paging::page(pools, &params.cursor, params.limit) {
        Ok((data, next_cursor)) => Ok(
            ManagedPoolResponse { data, next_cursor, default_selection },
        ),
        Err(_) => Err(RequestError::PageLimit),
    }
}

/// The notice that a login has ended. What went wrong is not passed on.
pub fn login_completed(login_id: String, success: bool) -> (
    notice: AccountLoginCompletedNotification)
    ensures
        notice.login_id == Some(login_id),
        notice.success == success,
        text::opt_view(notice.error) == (if success {
            None
        } else {
            Some("Named account login was cancelled or failed"@)
        }),
{
    AccountLoginCompletedNotification {
        login_id: Some(login_id),
        success,
        error: if success {
            None
        } else {
            Some("Named account login was cancelled or failed".to_owned())
        },
    }
}

/// A request with a page length that may not be asked for is refused before anything is changed.
pub proof fn law_bad_page_length_changes_nothing(
    account: ManagedAccountAction,
    pool: ManagedPoolAction,
    name: Option<Seq<char>>,
    definition: Option<PoolModel>,
    device_auth: Option<bool>,
    limit: Option<u32>,
)
    requires
        limit is Some,
        limit->0 == 0 || limit->0 > paging::LONGEST_PAGE,
    ensures
        account_request(account, name, device_auth, limit) == Err::<AccountRequestModel, _>(
            RequestError::PageLimit,
        ),
        pool_request(pool, name, definition, limit) == Err::<PoolRequestModel, _>(
            RequestError::PageLimit,
        ),
{
}

/// The accounts of a valid store have different aliases, so pages of them cover them all, each
/// once.
pub proof fn law_pages_cover_the_accounts(
    config: ConfigModel,
    cursor: Option<Seq<char>>,
    limit: Option<u32>,
)
    requires
        config.valid(),
        paging::valid_limit(limit),
    ensures
        ({
            let accounts = listed_accounts(config, None);
            let rest = paging::after_cursor::<ManagedAccount>(accounts, cursor);
            let page = paging::page_items::<ManagedAccount>(accounts, cursor, limit);
            &&& accounts.to_multiset() == config.accounts.to_multiset()
            &&& paging::after_cursor::<ManagedAccount>(accounts, None) == accounts
            &&& match paging::page_next::<ManagedAccount>(accounts, cursor, limit) {
                Some(next) => rest == page + paging::after_cursor::<ManagedAccount>(
                    accounts,
                    Some(next),
                ),
                None => rest == page,
            }
        }),
{
    paging::law_sorted_by_name::<ManagedAccount>(config.accounts);
    paging::law_sorted_names_rise::<ManagedAccount>(config.accounts);
    paging::law_pages_cover_the_list::<ManagedAccount>(
        listed_accounts(config, None),
        cursor,
        limit,
    );
}

/// The pools of a valid store have different names, so pages of them cover them all, each once.
pub proof fn law_pages_cover_the_pools(
    config: ConfigModel,
    cursor: Option<Seq<char>>,
    limit: Option<u32>,
)
    requires
        config.valid(),
        paging::valid_limit(limit),
    ensures
        ({
            let pools = paging::by_name::<AccountPool>(config.pools);
            let rest = paging::after_cursor::<AccountPool>(pools, cursor);
            let page = paging::page_items::<AccountPool>(pools, cursor, limit);
            &&& pools.to_multiset() == config.pools.to_multiset()
            &&& paging::after_cursor::<AccountPool>(pools, None) == pools
            &&& match paging::page_next::<AccountPool>(pools, cursor, limit) {
                Some(next) => rest == page + paging::after_cursor::<AccountPool>(pools, Some(next)),
                None => rest == page,
            }
        }),
{
    paging::law_sorted_by_name::<AccountPool>(config.pools);
    paging::law_sorted_names_rise::<AccountPool>(config.pools);
    paging::law_pages_cover_the_list::<AccountPool>(
        paging::by_name::<AccountPool>(config.pools),
        cursor,
        limit,
    );
}

/// Adding, importing, removing and redeeming need an alias; choosing the default takes one or none;
/// listing and usage ask for nothing else, and resolving asks for the models only where these are
/// wanted. A login is by browser unless a device code is asked for.
pub proof fn law_account_requests(
    alias: Seq<char>,
    device_auth: Option<bool>,
    limit: Option<u32>,
)
    requires
        limit is None || 1 <= limit->0 <= 100,
    ensures
        account_request(ManagedAccountAction::Add, Some(alias), device_auth, limit) == Ok::<_,
            RequestError,
        >(AccountRequestModel::Add { alias, device: device_auth == Some(true) }),
        account_request(ManagedAccountAction::Import, Some(alias), device_auth, limit) == Ok::<_,
            RequestError,
        >(AccountRequestModel::Import { alias }),
        account_request(ManagedAccountAction::Remove, Some(alias), device_auth, limit) == Ok::<_,
            RequestError,
        >(AccountRequestModel::Remove { alias }),
        account_request(ManagedAccountAction::Redeem, Some(alias), device_auth, limit) == Ok::<_,
            RequestError,
        >(AccountRequestModel::Redeem { alias }),
        forall|action: ManagedAccountAction|
            action == ManagedAccountAction::Add || action == ManagedAccountAction::Import || action
                == ManagedAccountAction::Remove || action == ManagedAccountAction::Redeem
                ==> #[trigger] account_request(action, None, device_auth, limit) == Err::<
                AccountRequestModel,
                _,
            >(RequestError::AliasRequired),
        account_request(ManagedAccountAction::Select, Some(alias), device_auth, limit) == Ok::<_,
            RequestError,
        >(AccountRequestModel::Select { selection: Some(SelectionModel::Account(alias)) }),
        account_request(ManagedAccountAction::Select, None, device_auth, limit) == Ok::<_,
            RequestError,
        >(AccountRequestModel::Select { selection: None }),
        forall|name: Option<Seq<char>>|
            #![trigger account_request(ManagedAccountAction::List, name, device_auth, limit)]
            account_request(ManagedAccountAction::List, name, device_auth, limit) == Ok::<_,
                RequestError,
            >(AccountRequestModel::List),
        forall|name: Option<Seq<char>>|
            #![trigger account_request(ManagedAccountAction::Usage, name, device_auth, limit)]
            account_request(ManagedAccountAction::Usage, name, device_auth, limit) == Ok::<_,
                RequestError,
            >(AccountRequestModel::List),
        forall|name: Option<Seq<char>>|
            #![trigger account_request(ManagedAccountAction::Resolve, name, device_auth, limit)]
            account_request(ManagedAccountAction::Resolve, name, device_auth, limit) == Ok::<_,
                RequestError,
            >(AccountRequestModel::Resolve { models: false }),
        forall|name: Option<Seq<char>>|
            #![trigger account_request(ManagedAccountAction::Models, name, device_auth, limit)]
            account_request(ManagedAccountAction::Models, name, device_auth, limit) == Ok::<_,
                RequestError,
            >(AccountRequestModel::Resolve { models: true }),
{
}

/// Creating and updating need a definition, removing needs a name, and choosing the default takes a
/// name or none; listing and reading ask for nothing else.
pub proof fn law_pool_requests(name: Seq<char>, pool: PoolModel, limit: Option<u32>)
    requires
        limit is None || 1 <= limit->0 <= 100,
    ensures
        forall|named: Option<Seq<char>>|
            #![trigger pool_request(ManagedPoolAction::Create, named, Some(pool), limit)]
            pool_request(ManagedPoolAction::Create, named, Some(pool), limit) == Ok::<_,
                RequestError,
            >(PoolRequestModel::Put { pool, create: true }),
        forall|named: Option<Seq<char>>|
            #![trigger pool_request(ManagedPoolAction::Update, named, Some(pool), limit)]
            pool_request(ManagedPoolAction::Update, named, Some(pool), limit) == Ok::<_,
                RequestError,
            >(PoolRequestModel::Put { pool, create: false }),
        forall|named: Option<Seq<char>>, action: ManagedPoolAction|
            action == ManagedPoolAction::Create || action == ManagedPoolAction::Update
                ==> #[trigger] pool_request(action, named, None, limit) == Err::<
                PoolRequestModel,
                _,
            >(RequestError::PoolRequired),
        forall|given: Option<PoolModel>|
            #![trigger pool_request(ManagedPoolAction::Remove, Some(name), given, limit)]
            pool_request(ManagedPoolAction::Remove, Some(name), given, limit) == Ok::<_,
                RequestError,
            >(PoolRequestModel::Remove { name }),
        forall|given: Option<PoolModel>|
            #![trigger pool_request(ManagedPoolAction::Remove, None, given, limit)]
            pool_request(ManagedPoolAction::Remove, None, given, limit) == Err::<
                PoolRequestModel,
                _,
            >(RequestError::NameRequired),
        forall|given: Option<PoolModel>|
            #![trigger pool_request(ManagedPoolAction::Select, Some(name), given, limit)]
            pool_request(ManagedPoolAction::Select, Some(name), given, limit) == Ok::<_,
                RequestError,
            >(PoolRequestModel::Select { selection: Some(SelectionModel::Pool(name)) }),
        forall|given: Option<PoolModel>|
            #![trigger pool_request(ManagedPoolAction::Select, None, given, limit)]
            pool_request(ManagedPoolAction::Select, None, given, limit) == Ok::<_, RequestError>(
                PoolRequestModel::Select { selection: None },
            ),
        forall|named: Option<Seq<char>>, given: Option<PoolModel>, action: ManagedPoolAction|
            action == ManagedPoolAction::List || action == ManagedPoolAction::Read
                ==> #[trigger] pool_request(action, named, given, limit) == Ok::<_, RequestError>(
                PoolRequestModel::List,
            ),
{
}

/// An answer lists the accounts by alias: the imported one, where one was imported, else the one that
/// the request names, else all. An unknown one is refused where accounts or their usage are asked
/// for. The default of the store comes with every page.
pub proof fn law_account_pages(
    stored: Option<ConfigModel>,
    action: ManagedAccountAction,
    alias: Option<Seq<char>>,
    imported: Option<Seq<char>>,
    cursor: Option<Seq<char>>,
    limit: Option<u32>,
)
    ensures
        ({
            let made = account_page(stored, action, alias, imported, cursor, limit);
            let config = store::loaded(stored);
            let wanted = if imported is Some {
                imported
            } else {
                alias
            };
            let sorted = paging::by_name::<ManagedAccount>(config->Ok_0.accounts);
            let listed = if wanted is Some {
                sorted.filter(|account: AccountModel| account.alias == wanted->0)
            } else {
                sorted
            };
            let reads = action == ManagedAccountAction::List || action
                == ManagedAccountAction::Usage;
            let unknown = wanted is Some && listed.len() == 0 && reads;
            &&& config is Err ==> made is Err && made->Err_0 == RequestError::Store(config->Err_0)
            &&& config is Ok && unknown ==> made is Err && made->Err_0
                == RequestError::UnknownAccount
            &&& config is Ok && !unknown && !paging::valid_limit(limit) ==> made is Err
                && made->Err_0 == RequestError::PageLimit
            &&& config is Ok && !unknown && paging::valid_limit(limit) ==> {
                &&& made is Ok
                &&& made->Ok_0.data == paging::page_items::<ManagedAccount>(listed, cursor, limit)
                &&& made->Ok_0.next_cursor == paging::page_next::<ManagedAccount>(
                    listed,
                    cursor,
                    limit,
                )
                &&& made->Ok_0.default_selection == config->Ok_0.default_selection
            }
        }),
{
}

/// An answer lists the pools by name; reading one lists that alone, and needs a name that is stored.
/// The default of the store comes with every page.
pub proof fn law_pool_pages(
    stored: Option<ConfigModel>,
    action: ManagedPoolAction,
    name: Option<Seq<char>>,
    cursor: Option<Seq<char>>,
    limit: Option<u32>,
)
    ensures
        ({
            let made = pool_page(stored, action, name, cursor, limit);
            let config = store::loaded(stored);
            let read = action == ManagedPoolAction::Read;
            let named = config->Ok_0.pools.filter(|pool: PoolModel| pool.name == name->0);
            let listed = paging::by_name::<AccountPool>(
                if read {
                    named
                } else {
                    config->Ok_0.pools
                },
            );
            &&& config is Err ==> made is Err && made->Err_0 == RequestError::Store(config->Err_0)
            &&& config is Ok && read && name is None ==> made is Err && made->Err_0
                == RequestError::NameRequired
            &&& config is Ok && read && name is Some && named.len() == 0 ==> made is Err
                && made->Err_0 == RequestError::UnknownPool
            &&& config is Ok && (!read || (name is Some && named.len() > 0)) ==> {
                &&& !paging::valid_limit(limit) ==> made is Err && made->Err_0
                    == RequestError::PageLimit
                &&& paging::valid_limit(limit) ==> {
                    &&& made is Ok
                    &&& made->Ok_0.data == paging::page_items::<AccountPool>(listed, cursor, limit)
                    &&& made->Ok_0.next_cursor == paging::page_next::<AccountPool>(
                        listed,
                        cursor,
                        limit,
                    )
                    &&& made->Ok_0.default_selection == config->Ok_0.default_selection
                }
            }
        }),
{
}

/// A `AccountRequest` is seen as the form it has, with every part of it.
pub proof fn law_account_request_is_seen_whole(value: AccountRequest)
    ensures
        value@ == (match value {
            AccountRequest::List => AccountRequestModel::List,
            AccountRequest::Resolve { models } => AccountRequestModel::Resolve { models: models },
            AccountRequest::Add { alias, device } => AccountRequestModel::Add {
                alias: alias@,
                device: device,
            },
            AccountRequest::Import { alias } => AccountRequestModel::Import { alias: alias@ },
            AccountRequest::Select { selection } => AccountRequestModel::Select {
                selection: text::opt_view(selection),
            },
            AccountRequest::Remove { alias } => AccountRequestModel::Remove { alias: alias@ },
            AccountRequest::Redeem { alias } => AccountRequestModel::Redeem { alias: alias@ },
        }),
{
}

/// A `PoolRequest` is seen as the form it has, with every part of it.
pub proof fn law_pool_request_is_seen_whole(value: PoolRequest)
    ensures
        value@ == (match value {
            PoolRequest::List => PoolRequestModel::List,
            PoolRequest::Put { pool, create } => PoolRequestModel::Put {
                pool: pool@,
                create: create,
            },
            PoolRequest::Select { selection } => PoolRequestModel::Select {
                selection: text::opt_view(selection),
            },
            PoolRequest::Remove { name } => PoolRequestModel::Remove { name: name@ },
        }),
{
}

/// A `AccountPage` is seen with every field as it is.
pub proof fn law_account_page_is_seen_whole(value: AccountPage)
    ensures
        value@.data == text::views(value.data@),
        value@.next_cursor == text::opt_view(value.next_cursor),
        value@.default_selection == text::opt_view(value.default_selection),
{
}

/// A `ManagedPoolResponse` is seen with every field as it is.
pub proof fn law_managed_pool_response_is_seen_whole(value: ManagedPoolResponse)
    ensures
        value@.data == text::views(value.data@),
        value@.next_cursor == text::opt_view(value.next_cursor),
        value@.default_selection == text::opt_view(value.default_selection),
{
}

/// A `LoginAccountResponse` is seen as the form it has, with every part of it.
pub proof fn law_login_account_response_is_seen_whole(value: LoginAccountResponse)
    ensures
        value@ == (match value {
            LoginAccountResponse::Chatgpt { login_id, auth_url } => LoginPrompt::Browser {
                login_id: login_id@,
                address: auth_url@,
            },
            LoginAccountResponse::ChatgptDeviceCode { login_id, verification_url, user_code } =>
                LoginPrompt::Device {
                login_id: login_id@,
                address: verification_url@,
                code: user_code@,
            },
            LoginAccountResponse::ApiKey => LoginPrompt::ApiKey,
            LoginAccountResponse::ChatgptAuthTokens => LoginPrompt::ChatgptAuthTokens,
            LoginAccountResponse::AmazonBedrock => LoginPrompt::AmazonBedrock,
        }),
{
}

/// A `GetAccountResponse` is seen with every field as it is.
pub proof fn law_get_account_response_is_seen_whole(value: GetAccountResponse)
    ensures
        value@.account == text::opt_view(value.account),
        value@.requires_openai_auth == value.requires_openai_auth,
{
}

/// A `ManagedAccountResponse` is seen with every field as it is.
pub proof fn law_managed_account_response_is_seen_whole(value: ManagedAccountResponse)
    ensures
        value@.resolved == text::opt_view(value.resolved),
        value@.selected_account == text::opt_view(value.selected_account),
        value@.selected_pool == text::opt_view(value.selected_pool),
        value@.models == account_pool::opt_views(value.models),
        value@.data == text::views(value.data@),
        value@.next_cursor == text::opt_view(value.next_cursor),
        value@.usage == text::views(value.usage@),
        value@.login == text::opt_view(value.login),
        value@.default_selection == text::opt_view(value.default_selection),
{
}

/// Every fault of a request is told in words of its own, and one of the store in the store's; the
/// code is the one for parameters that are not valid.
pub proof fn law_request_errors_are_told(name: Seq<char>, error: StoreError)
    ensures
        INVALID_PARAMS == -32602,
        RequestError::PageLimit.words(name) == "limit must be between 1 and 100"@,
        RequestError::AliasRequired.words(name) == "An account alias is required"@,
        RequestError::NameRequired.words(name) == "A pool name is required"@,
        RequestError::PoolRequired.words(name) == "A pool definition is required"@,
        RequestError::UnknownAccount.words(name) == "Unknown account: "@ + name,
        RequestError::UnknownPool.words(name) == "Unknown pool: "@ + name,
        RequestError::Store(error).words(name) == error.words(name),
{
}

} // verus!
