//! The account and pool commands of the command line. Credentials never enter command output.

use crate::account_pool::AccountModel;
use crate::account_pool::AccountPool;
use crate::account_pool::AccountPoolConfig;
use crate::account_pool::AccountSelection;
use crate::account_pool::ConfigModel;
use crate::account_pool::ManagedAccount;
use crate::account_pool::PoolModel;
use crate::account_pool::SelectionModel;
use crate::storage;
use crate::storage::StoreError;
use crate::store;
use crate::text;
use vstd::prelude::*;

verus! {

/// What the user may do with accounts.
#[derive(Debug, PartialEq, Eq)]
pub enum AccountCommand {
    /// Sign in to another ChatGPT subscription without replacing the current login.
    Add { alias: String, device_auth: bool },
    /// Import the current stored ChatGPT login.
    Import { alias: String },
    List,
    /// Set the default account for future sessions, or clear explicit defaults.
    Select { alias: Option<String>, clear: bool },
    Remove { alias: String },
    Usage { alias: Option<String>, model: Option<String> },
    /// Explicitly use an existing banked reset; never purchases credits.
    Redeem { alias: String, model: Option<String> },
}

/// An account command.
#[derive(Debug, PartialEq, Eq)]
pub struct AccountCli {
    pub action: AccountCommand,
    pub json: bool,
    /// Refresh read-only output every sixty seconds until interrupted.
    pub watch: bool,
}

/// The definition of a pool.
#[derive(Debug, PartialEq, Eq)]
pub struct PoolDefinition {
    pub name: String,
    pub accounts: Vec<String>,
    /// Wait for weekly recovery instead of automatically spending banked resets.
    pub no_auto_reset: bool,
}

/// What the user may do with pools.
#[derive(Debug, PartialEq, Eq)]
pub enum PoolCommand {
    Create(PoolDefinition),
    List,
    Inspect { name: String },
    /// Replace the ordered membership and weekly reset policy.
    Update(PoolDefinition),
    /// Select a default pool for future sessions.
    Select { name: Option<String>, clear: bool },
    Remove { name: String },
}

/// A pool command.
#[derive(Debug, PartialEq, Eq)]
pub struct PoolCli {
    pub action: PoolCommand,
    pub json: bool,
    pub watch: bool,
}

impl vstd::std_specs::convert::FromSpecImpl<PoolDefinition> for AccountPool {
    open spec fn obeys_from_spec() -> bool {
        true
    }

    open spec fn from_spec(value: PoolDefinition) -> AccountPool {
        AccountPool {
            name: value.name,
            accounts: value.accounts,
            redeem_weekly_resets: !value.no_auto_reset,
        }
    }
}

impl From<PoolDefinition> for AccountPool {
    fn from(value: PoolDefinition) -> (pool: AccountPool) {
        AccountPool {
            name: value.name,
            accounts: value.accounts,
            redeem_weekly_resets: !value.no_auto_reset,
        }
    }
}

/// Why a command is refused.
#[derive(Clone, Copy, Debug, PartialEq, Eq, Structural)]
pub enum CliError {
    AccountWatch,
    PoolWatch,
    AliasOrClear,
    NameOrClear,
    UnknownAccount,
    UnknownPool,
    Store(StoreError),
}

impl CliError {
    /// The error in words. `name` is the account or pool that the command named.
    pub open spec fn words(self, name: Seq<char>) -> Seq<char> {
        match self {
            CliError::AccountWatch => "--watch is available for list and usage only"@,
            CliError::PoolWatch => "--watch is available for list and inspect only"@,
            CliError::AliasOrClear => "Provide an account alias or --clear"@,
            CliError::NameOrClear => "Provide a pool name or --clear"@,
            CliError::UnknownAccount => "Unknown account: "@ + name,
            CliError::UnknownPool => "Unknown pool"@,
            CliError::Store(error) => error.words(name),
        }
    }

    /// Puts the error in words. `name` is the account or pool that the command named.
    pub fn message(self, name: &str) -> (words: String)
        ensures
            words@ == self.words(name@),
    {
        match self {
            CliError::AccountWatch => "--watch is available for list and usage only".to_owned(),
            CliError::PoolWatch => "--watch is available for list and inspect only".to_owned(),
            CliError::AliasOrClear => "Provide an account alias or --clear".to_owned(),
            CliError::NameOrClear => "Provide a pool name or --clear".to_owned(),
            CliError::UnknownAccount => {
                let mut words: String = "Unknown account: ".to_owned();
                words.append(name);
                words
            },
            CliError::UnknownPool => "Unknown pool".to_owned(),
            CliError::Store(error) => error.message(name),
        }
    }
}

/// What an account command comes to.
#[derive(Debug, PartialEq, Eq)]
pub enum AccountTask {
    /// Log in, then show the account.
    Add { alias: String, device_auth: bool },
    /// Import the login, then show the account.
    Import { alias: String },
    /// Choose the default, then show the store.
    Select { selection: Option<AccountSelection> },
    /// Remove the account, then show the store.
    Remove { alias: String },
    /// Redeem a reset, then show the usage.
    Redeem { alias: String, model: Option<String> },
    /// Show the store, again and again while watching.
    List { watch: bool },
    /// Show the usage, again and again while watching.
    Usage { alias: Option<String>, model: Option<String>, watch: bool },
}

/// An `AccountTask` as a mathematical value.
pub enum AccountTaskModel {
    Add { alias: Seq<char>, device_auth: bool },
    Import { alias: Seq<char> },
    Select { selection: Option<SelectionModel> },
    Remove { alias: Seq<char> },
    Redeem { alias: Seq<char>, model: Option<Seq<char>> },
    List { watch: bool },
    Usage { alias: Option<Seq<char>>, model: Option<Seq<char>>, watch: bool },
}

impl View for AccountTask {
    type V = AccountTaskModel;

    open spec fn view(&self) -> AccountTaskModel {
        match self {
            AccountTask::Add { alias, device_auth } => AccountTaskModel::Add {
                alias: alias@,
                device_auth: *device_auth,
            },
            AccountTask::Import { alias } => AccountTaskModel::Import { alias: alias@ },
            AccountTask::Select { selection } => AccountTaskModel::Select {
                selection: text::opt_view(*selection),
            },
            AccountTask::Remove { alias } => AccountTaskModel::Remove { alias: alias@ },
            AccountTask::Redeem { alias, model } => AccountTaskModel::Redeem {
                alias: alias@,
                model: text::opt_view(*model),
            },
            AccountTask::List { watch } => AccountTaskModel::List { watch: *watch },
            AccountTask::Usage { alias, model, watch } => AccountTaskModel::Usage {
                alias: text::opt_view(*alias),
                model: text::opt_view(*model),
                watch: *watch,
            },
        }
    }
}

/// What a pool command comes to.
#[derive(Debug, PartialEq, Eq)]
pub enum PoolTask {
    /// Create or replace a pool, then show the store.
    Put { pool: AccountPool, create: bool },
    /// Choose the default, then show the store.
    Select { selection: Option<AccountSelection> },
    /// Remove the pool, then show the store.
    Remove { name: String },
    /// Show the pool, again and again while watching.
    Inspect { name: String, watch: bool },
    /// Show the store, again and again while watching.
    List { watch: bool },
}

/// A `PoolTask` as a mathematical value.
pub enum PoolTaskModel {
    Put { pool: PoolModel, create: bool },
    Select { selection: Option<SelectionModel> },
    Remove { name: Seq<char> },
    Inspect { name: Seq<char>, watch: bool },
    List { watch: bool },
}

impl View for PoolTask {
    type V = PoolTaskModel;

    open spec fn view(&self) -> PoolTaskModel {
        match self {
            PoolTask::Put { pool, create } => PoolTaskModel::Put { pool: pool@, create: *create },
            PoolTask::Select { selection } => PoolTaskModel::Select {
                selection: text::opt_view(*selection),
            },
            PoolTask::Remove { name } => PoolTaskModel::Remove { name: name@ },
            PoolTask::Inspect { name, watch } => PoolTaskModel::Inspect {
                name: name@,
                watch: *watch,
            },
            PoolTask::List { watch } => PoolTaskModel::List { watch: *watch },
        }
    }
}

/// A definition as a pool.
pub open spec fn defined(definition: PoolDefinition) -> PoolModel {
    PoolModel {
        name: definition.name@,
        accounts: text::views(definition.accounts@),
        redeem_weekly_resets: !definition.no_auto_reset,
    }
}

/// What an account command comes to. Only what reads can be watched, and a selection needs an alias
/// or the wish to clear.
pub open spec fn account_task(cli: AccountCli) -> Result<AccountTaskModel, CliError> {
    let reads = cli.action is List || cli.action is Usage;
    if cli.watch && !reads {
        Err(CliError::AccountWatch)
    } else {
        match cli.action {
            AccountCommand::Add { alias, device_auth } => Ok(
                AccountTaskModel::Add { alias: alias@, device_auth },
            ),
            AccountCommand::Import { alias } => Ok(AccountTaskModel::Import { alias: alias@ }),
            AccountCommand::List => Ok(AccountTaskModel::List { watch: cli.watch }),
            AccountCommand::Select { alias, clear } => match alias {
                Some(alias) => Ok(
                    AccountTaskModel::Select { selection: Some(SelectionModel::Account(alias@)) },
                ),
                None => if clear {
                    Ok(AccountTaskModel::Select { selection: None })
                } else {
                    Err(CliError::AliasOrClear)
                },
            },
            AccountCommand::Remove { alias } => Ok(AccountTaskModel::Remove { alias: alias@ }),
            AccountCommand::Usage { alias, model } => Ok(
                AccountTaskModel::Usage {
                    alias: text::opt_view(alias),
                    model: text::opt_view(model),
                    watch: cli.watch,
                },
            ),
            AccountCommand::Redeem { alias, model } => Ok(
                AccountTaskModel::Redeem { alias: alias@, model: text::opt_view(model) },
            ),
        }
    }
}

/// What a pool command comes to. Only what reads can be watched, and a selection needs a name or the
/// wish to clear.
pub open spec fn pool_task(cli: PoolCli) -> Result<PoolTaskModel, CliError> {
    let reads = cli.action is List || cli.action is Inspect;
    if cli.watch && !reads {
        Err(CliError::PoolWatch)
    } else {
        match cli.action {
            PoolCommand::Create(definition) => Ok(
                PoolTaskModel::Put { pool: defined(definition), create: true },
            ),
            PoolCommand::Update(definition) => Ok(
                PoolTaskModel::Put { pool: defined(definition), create: false },
            ),
            PoolCommand::List => Ok(PoolTaskModel::List { watch: cli.watch }),
            PoolCommand::Inspect { name } => Ok(
                PoolTaskModel::Inspect { name: name@, watch: cli.watch },
            ),
            PoolCommand::Select { name, clear } => match name {
                Some(name) => Ok(
                    PoolTaskModel::Select { selection: Some(SelectionModel::Pool(name@)) },
                ),
                None => if clear {
                    Ok(PoolTaskModel::Select { selection: None })
                } else {
                    Err(CliError::NameOrClear)
                },
            },
            PoolCommand::Remove { name } => Ok(PoolTaskModel::Remove { name: name@ }),
        }
    }
}

impl AccountCli {
    /// What the command comes to.
    pub fn run(self) -> (task: Result<AccountTask, CliError>)
        ensures
            (match task {
                Ok(task) => Ok(task@),
                Err(error) => Err(error),
            }) == account_task(self),
    {
        let watch: bool = self.watch;
        let reads: bool = match &self.action {
            AccountCommand::List | AccountCommand::Usage { .. } => true,
            _ => false,
        };
        if watch && !reads {
            return Err(CliError::AccountWatch);
        }
        match self.action {
            AccountCommand::Add { alias, device_auth } => Ok(
                AccountTask::Add { alias, device_auth },
            ),
            AccountCommand::Import { alias } => Ok(AccountTask::Import { alias }),
            AccountCommand::List => Ok(AccountTask::List { watch }),
            AccountCommand::Select { alias, clear } => match alias {
                Some(alias) => Ok(
                    AccountTask::Select { selection: Some(AccountSelection::Account(alias)) },
                ),
                None => if clear {
                    Ok(AccountTask::Select { selection: None })
                } else {
                    Err(CliError::AliasOrClear)
                },
            },
            AccountCommand::Remove { alias } => Ok(AccountTask::Remove { alias }),
            AccountCommand::Usage { alias, model } => Ok(
                AccountTask::Usage { alias, model, watch },
            ),
            AccountCommand::Redeem { alias, model } => Ok(AccountTask::Redeem { alias, model }),
        }
    }
}

impl PoolCli {
    /// What the command comes to.
    pub fn run(self) -> (task: Result<PoolTask, CliError>)
        ensures
            (match task {
                Ok(task) => Ok(task@),
                Err(error) => Err(error),
            }) == pool_task(self),
    {
        let watch: bool = self.watch;
        let reads: bool = match &self.action {
            PoolCommand::List | PoolCommand::Inspect { .. } => true,
            _ => false,
        };
        if watch && !reads {
            return Err(CliError::PoolWatch);
        }
        match self.action {
            PoolCommand::Create(definition) => {
                let pool: AccountPool = AccountPool::from(definition);
                Ok(PoolTask::Put { pool, create: true })
            },
            PoolCommand::Update(definition) => {
                let pool: AccountPool = AccountPool::from(definition);
                Ok(PoolTask::Put { pool, create: false })
            },
            PoolCommand::List => Ok(PoolTask::List { watch }),
            PoolCommand::Inspect { name } => Ok(PoolTask::Inspect { name, watch }),
            PoolCommand::Select { name, clear } => match name {
                Some(name) => Ok(PoolTask::Select { selection: Some(AccountSelection::Pool(name)) }),
                None => if clear {
                    Ok(PoolTask::Select { selection: None })
                } else {
                    Err(CliError::NameOrClear)
                },
            },
            PoolCommand::Remove { name } => Ok(PoolTask::Remove { name }),
        }
    }
}

/// Whether a command shows its output once more.
pub fn shows_again(watch: bool, interrupted: bool) -> (again: bool)
    ensures
        again == (watch && !interrupted),
{
    watch && !interrupted
}

/// The accounts whose usage is shown: all of the store, or those with an alias.
pub open spec fn usage_accounts(stored: Option<ConfigModel>, alias: Option<Seq<char>>) -> Result<
    Seq<AccountModel>,
    CliError,
> {
    match (store::loaded(stored), alias) {
        (Err(error), _) => Err(CliError::Store(error)),
        (Ok(config), None) => Ok(config.accounts),
        (Ok(config), Some(alias)) => if config.has_account(alias) {
            Ok(config.accounts.filter(|account: AccountModel| account.alias == alias))
        } else {
            Err(CliError::UnknownAccount)
        },
    }
}

/// The accounts whose usage is shown.
pub fn accounts_to_show(stored: Option<AccountPoolConfig>, alias: &Option<String>) -> (accounts:
    Result<Vec<ManagedAccount>, CliError>)
    ensures
        (match accounts {
            Ok(accounts) => Ok(text::views(accounts@)),
            Err(error) => Err(error),
        }) == usage_accounts(text::opt_view(stored), text::opt_view(*alias)),
{
    let config: AccountPoolConfig = match store::load_config(stored) {
        Ok(config) => config,
        Err(error) => {
            return Err(CliError::Store(error));
        },
    };
    let alias: &String = match alias {
        Some(alias) => alias,
        None => {
            return Ok(config.accounts);
        },
    };
    if storage::find_account(&config, alias.as_str()).is_none() {
        return Err(CliError::UnknownAccount);
    }
    Ok(store::accounts_named(&config.accounts, alias.as_str()))
}

/// The pool that is shown.
pub fn pool_to_show(stored: Option<AccountPoolConfig>, name: &str) -> (pool: Result<
    AccountPool,
    CliError,
>)
    ensures
        (match pool {
            Ok(pool) => Ok(pool@),
            Err(error) => Err(error),
        }) == (match store::loaded(text::opt_view(stored)) {
            Err(error) => Err(CliError::Store(error)),
            Ok(config) => match config.pool_at(name@) {
                Some(i) => Ok(config.pools[i]),
                None => Err(CliError::UnknownPool),
            },
        }),
{
    let config: AccountPoolConfig = match store::load_config(stored) {
        Ok(config) => config,
        Err(error) => {
            return Err(CliError::Store(error));
        },
    };
    match storage::find_pool(&config, name) {
        Some(i) => {
            assert(config@.pools[i as int] == config.pools@[i as int]@);
            Ok(config.pools[i].clone())
        },
        None => Err(CliError::UnknownPool),
    }
}

/// Watching is for what can be shown again: for accounts the list and the usage, for pools the list
/// and one pool. Nothing else can be watched.
pub proof fn law_only_reads_are_watched(accounts: AccountCli, pools: PoolCli)
    ensures
        account_task(accounts) == Err::<AccountTaskModel, CliError>(CliError::AccountWatch)
            <==> accounts.watch && !(accounts.action is List) && !(accounts.action is Usage),
        pool_task(pools) == Err::<PoolTaskModel, CliError>(CliError::PoolWatch) <==> pools.watch
            && !(pools.action is List) && !(pools.action is Inspect),
{
}

/// A command on accounts becomes the task that it names, with what it was given; choosing the default
/// needs an alias or the wish to clear it, and the alias counts for more.
pub proof fn law_account_tasks(cli: AccountCli)
    requires
        !cli.watch || cli.action is List || cli.action is Usage,
    ensures
        match cli.action {
            AccountCommand::Add { alias, device_auth } => account_task(cli) == Ok::<_, CliError>(
                AccountTaskModel::Add { alias: alias@, device_auth },
            ),
            AccountCommand::Import { alias } => account_task(cli) == Ok::<_, CliError>(
                AccountTaskModel::Import { alias: alias@ },
            ),
            AccountCommand::List => account_task(cli) == Ok::<_, CliError>(
                AccountTaskModel::List { watch: cli.watch },
            ),
            AccountCommand::Select { alias: Some(alias), clear } => account_task(cli) == Ok::<_,
                CliError,
            >(AccountTaskModel::Select { selection: Some(SelectionModel::Account(alias@)) }),
            AccountCommand::Select { alias: None, clear } => account_task(cli) == (if clear {
                Ok(AccountTaskModel::Select { selection: None })
            } else {
                Err(CliError::AliasOrClear)
            }),
            AccountCommand::Remove { alias } => account_task(cli) == Ok::<_, CliError>(
                AccountTaskModel::Remove { alias: alias@ },
            ),
            AccountCommand::Usage { alias, model } => account_task(cli) == Ok::<_, CliError>(
                AccountTaskModel::Usage {
                    alias: text::opt_view(alias),
                    model: text::opt_view(model),
                    watch: cli.watch,
                },
            ),
            AccountCommand::Redeem { alias, model } => account_task(cli) == Ok::<_, CliError>(
                AccountTaskModel::Redeem { alias: alias@, model: text::opt_view(model) },
            ),
        },
{
}

/// A command on pools becomes the task that it names, with what it was given; creating differs from
/// updating, and a definition allows resets unless it says not to.
pub proof fn law_pool_tasks(cli: PoolCli)
    requires
        !cli.watch || cli.action is List || cli.action is Inspect,
    ensures
        match cli.action {
            PoolCommand::Create(definition) => pool_task(cli) == Ok::<_, CliError>(
                PoolTaskModel::Put { pool: defined(definition), create: true },
            ),
            PoolCommand::Update(definition) => pool_task(cli) == Ok::<_, CliError>(
                PoolTaskModel::Put { pool: defined(definition), create: false },
            ),
            PoolCommand::List => pool_task(cli) == Ok::<_, CliError>(
                PoolTaskModel::List { watch: cli.watch },
            ),
            PoolCommand::Inspect { name } => pool_task(cli) == Ok::<_, CliError>(
                PoolTaskModel::Inspect { name: name@, watch: cli.watch },
            ),
            PoolCommand::Select { name: Some(name), clear } => pool_task(cli) == Ok::<_, CliError>(
                PoolTaskModel::Select { selection: Some(SelectionModel::Pool(name@)) },
            ),
            PoolCommand::Select { name: None, clear } => pool_task(cli) == (if clear {
                Ok(PoolTaskModel::Select { selection: None })
            } else {
                Err(CliError::NameOrClear)
            }),
            PoolCommand::Remove { name } => pool_task(cli) == Ok::<_, CliError>(
                PoolTaskModel::Remove { name: name@ },
            ),
        },
{
}

/// A definition makes a pool of its name and accounts, in order, that may spend resets unless it
/// says not to.
pub proof fn law_definition_makes_a_pool(definition: PoolDefinition)
    ensures
        defined(definition).name == definition.name@,
        defined(definition).accounts.len() == definition.accounts@.len(),
        forall|i: int|
            0 <= i < definition.accounts@.len() ==> (#[trigger] defined(definition).accounts[i])
                == definition.accounts@[i]@,
        defined(definition).redeem_weekly_resets <==> !definition.no_auto_reset,
{
}

/// Usage is shown for the account that is named, where it is stored, and else for all, in the order
/// of the store.
pub proof fn law_accounts_to_show(stored: Option<ConfigModel>, alias: Option<Seq<char>>)
    ensures
        ({
            let made = usage_accounts(stored, alias);
            let config = store::loaded(stored);
            &&& config is Err ==> made is Err && made->Err_0 == CliError::Store(config->Err_0)
            &&& config is Ok && alias is None ==> made is Ok && made->Ok_0 == config->Ok_0.accounts
            &&& config is Ok && alias is Some && !config->Ok_0.has_account(alias->0) ==> made is Err
                && made->Err_0 == CliError::UnknownAccount
            &&& config is Ok && alias is Some && config->Ok_0.has_account(alias->0) ==> made is Ok
                && made->Ok_0 == config->Ok_0.accounts.filter(
                |account: AccountModel| account.alias == alias->0,
            )
        }),
{
}

/// What is wrong with a command is told in words.
pub proof fn law_command_errors_are_told(name: Seq<char>)
    ensures
        CliError::AccountWatch.words(name) == "--watch is available for list and usage only"@,
        CliError::PoolWatch.words(name) == "--watch is available for list and inspect only"@,
        CliError::AliasOrClear.words(name) == "Provide an account alias or --clear"@,
        CliError::NameOrClear.words(name) == "Provide a pool name or --clear"@,
        CliError::UnknownAccount.words(name) == "Unknown account: "@ + name,
        CliError::UnknownPool.words(name) == "Unknown pool"@,
{
}

/// A `AccountTask` is seen as the form it has, with every part of it.
pub proof fn law_account_task_is_seen_whole(value: AccountTask)
    ensures
        value@ == (match value {
            AccountTask::Add { alias, device_auth } => AccountTaskModel::Add {
                alias: alias@,
                device_auth: device_auth,
            },
            AccountTask::Import { alias } => AccountTaskModel::Import { alias: alias@ },
            AccountTask::Select { selection } => AccountTaskModel::Select {
                selection: text::opt_view(selection),
            },
            AccountTask::Remove { alias } => AccountTaskModel::Remove { alias: alias@ },
            AccountTask::Redeem { alias, model } => AccountTaskModel::Redeem {
                alias: alias@,
                model: text::opt_view(model),
            },
            AccountTask::List { watch } => AccountTaskModel::List { watch: watch },
            AccountTask::Usage { alias, model, watch } => AccountTaskModel::Usage {
                alias: text::opt_view(alias),
                model: text::opt_view(model),
                watch: watch,
            },
        }),
{
}

/// A `PoolTask` is seen as the form it has, with every part of it.
pub proof fn law_pool_task_is_seen_whole(value: PoolTask)
    ensures
        value@ == (match value {
            PoolTask::Put { pool, create } => PoolTaskModel::Put { pool: pool@, create: create },
            PoolTask::Select { selection } => PoolTaskModel::Select {
                selection: text::opt_view(selection),
            },
            PoolTask::Remove { name } => PoolTaskModel::Remove { name: name@ },
            PoolTask::Inspect { name, watch } => PoolTaskModel::Inspect {
                name: name@,
                watch: watch,
            },
            PoolTask::List { watch } => PoolTaskModel::List { watch: watch },
        }),
{
}

} // verus!
