//! The account store: how each command reads and changes the stored accounts and pools.

use crate::account_pool::AccountModel;
use crate::account_pool::AccountPool;
use crate::account_pool::AccountPoolConfig;
use crate::account_pool::AccountSelection;
use crate::account_pool::ConfigModel;
use crate::account_pool::ManagedAccount;
use crate::account_pool::ManagedAccountUsage;
use crate::account_pool::PoolModel;
use crate::account_pool::SelectionModel;
use crate::account_pool::UsageModel;
use crate::digest;
use crate::lists;
use crate::policy;
use crate::storage;
use crate::storage::StoreError;
use crate::text;
use vstd::prelude::*;

verus! {

/// Where credentials are kept.
#[derive(Clone, Copy, Debug, PartialEq, Eq, Structural)]
pub enum CredentialStorage {
    File,
    Keyring,
    Auto,
    Ephemeral,
}

/// The account store of one user.
///
/// The files themselves are read and written by the caller, under the store's locks; `stored` is
/// what the accounts file holds, or nothing where there is no such file.
#[derive(Clone, Copy, Debug, PartialEq, Eq, Structural)]
pub struct AccountStore {
    pub credential_storage: CredentialStorage,
    pub chatgpt_login_allowed: bool,
}

/// What a login says about itself.
#[derive(Clone, Debug, PartialEq, Eq)]
pub struct Login {
    /// A ChatGPT login that is managed locally.
    pub chatgpt: bool,
    /// The authentication policy allows it.
    pub allowed: bool,
    pub user_id: Option<String>,
    pub workspace_id: Option<String>,
    pub email: Option<String>,
    /// The plan of the login's tokens, or nothing where the tokens cannot be read.
    pub plan: Option<Option<String>>,
}

/// A `Login` as a mathematical value.
pub struct LoginModel {
    pub chatgpt: bool,
    pub allowed: bool,
    pub user_id: Option<Seq<char>>,
    pub workspace_id: Option<Seq<char>>,
    pub email: Option<Seq<char>>,
    pub plan: Option<Option<Seq<char>>>,
}

impl LoginModel {
    /// The login belongs to the account's user and workspace.
    pub open spec fn belongs_to(self, account: AccountModel) -> bool {
        self.user_id == Some(account.user_id) && self.workspace_id == Some(account.workspace_id)
    }
}

impl View for Login {
    type V = LoginModel;

    open spec fn view(&self) -> LoginModel {
        LoginModel {
            chatgpt: self.chatgpt,
            allowed: self.allowed,
            user_id: text::opt_view(self.user_id),
            workspace_id: text::opt_view(self.workspace_id),
            email: text::opt_view(self.email),
            plan: match self.plan {
                Some(plan) => Some(text::opt_view(plan)),
                None => None,
            },
        }
    }
}

/// Whether an optional text is the given one.
fn is_text(value: &Option<String>, expected: &String) -> (same: bool)
    ensures
        same == (text::opt_view(*value) == Some(expected@)),
{
    match value {
        Some(value) => text::same_text(value.as_str(), expected.as_str()),
        None => false,
    }
}

impl Login {
    /// Whether the login belongs to the account's user and workspace.
    pub fn is_of(&self, account: &ManagedAccount) -> (same: bool)
        ensures
            same == self@.belongs_to(account@),
    {
        is_text(&self.user_id, &account.user_id) && is_text(
            &self.workspace_id,
            &account.workspace_id,
        )
    }
}

/// What the accounts file holds, checked. Without a file there are no accounts and no pools.
pub open spec fn loaded(stored: Option<ConfigModel>) -> Result<ConfigModel, StoreError> {
    match stored {
        Some(config) => config.checked(),
        None => Ok(
            ConfigModel { accounts: Seq::empty(), pools: Seq::empty(), default_selection: None },
        ),
    }
}

/// A command that reads the store first: where the store cannot be read, that is the result.
pub open spec fn after_loading(
    stored: Option<ConfigModel>,
    command: spec_fn(ConfigModel) -> Result<ConfigModel, StoreError>,
) -> Result<ConfigModel, StoreError> {
    match loaded(stored) {
        Ok(config) => command(config),
        Err(error) => Err(error),
    }
}

impl ConfigModel {
    /// Some pool lists the alias.
    pub open spec fn pooled(self, alias: Seq<char>) -> bool {
        exists|i: int| 0 <= i < self.pools.len() && (#[trigger] self.pools[i]).lists(alias)
    }

    /// The store without an account, and without it as the default.
    pub open spec fn without_account(self, alias: Seq<char>) -> ConfigModel {
        ConfigModel {
            accounts: self.accounts.filter(|account: AccountModel| account.alias != alias),
            pools: self.pools,
            default_selection: if self.default_selection == Some(SelectionModel::Account(alias)) {
                None
            } else {
                self.default_selection
            },
        }
    }

    /// The store without a pool, and without it as the default.
    pub open spec fn without_pool(self, name: Seq<char>) -> ConfigModel {
        ConfigModel {
            accounts: self.accounts,
            pools: self.pools.filter(|pool: PoolModel| pool.name != name),
            default_selection: if self.default_selection == Some(SelectionModel::Pool(name)) {
                None
            } else {
                self.default_selection
            },
        }
    }

    /// Removing an account: it must exist and no pool may list it.
    pub open spec fn account_removed(self, alias: Seq<char>) -> Result<ConfigModel, StoreError> {
        if !self.has_account(alias) {
            Err(StoreError::UnknownAccount)
        } else if self.pooled(alias) {
            Err(StoreError::AccountInPool)
        } else {
            Ok(self.without_account(alias))
        }
    }

    /// Removing a pool: it must exist.
    pub open spec fn pool_removed(self, name: Seq<char>) -> Result<ConfigModel, StoreError> {
        if !self.has_pool(name) {
            Err(StoreError::UnknownPoolName)
        } else {
            Ok(self.without_pool(name))
        }
    }

    /// The store with a pool in place of the one of that name, or after all others.
    pub open spec fn with_pool(self, pool: PoolModel) -> ConfigModel {
        ConfigModel {
            pools: match self.pool_at(pool.name) {
                Some(i) => self.pools.update(i, pool),
                None => self.pools.push(pool),
            },
            ..self
        }
    }

    /// Creating or replacing a pool: the result must be valid.
    pub open spec fn pool_put(self, pool: PoolModel, create: bool) -> Result<
        ConfigModel,
        StoreError,
    > {
        if create && self.has_pool(pool.name) {
            Err(StoreError::PoolExists)
        } else if !create && !self.has_pool(pool.name) {
            Err(StoreError::UnknownPool)
        } else {
            self.with_pool(pool).checked()
        }
    }

    /// Choosing a default: the result must be valid.
    pub open spec fn default_selected(self, selection: Option<SelectionModel>) -> Result<
        ConfigModel,
        StoreError,
    > {
        (ConfigModel { default_selection: selection, ..self }).checked()
    }
}

impl PoolModel {
    /// The pool lists the alias.
    pub open spec fn lists(self, alias: Seq<char>) -> bool {
        self.accounts.contains(alias)
    }
}

/// The view of a result that carries a store.
pub open spec fn config_result(result: Result<AccountPoolConfig, StoreError>) -> Result<
    ConfigModel,
    StoreError,
> {
    match result {
        Ok(config) => Ok(config@),
        Err(error) => Err(error),
    }
}

/// Whether a pool of the list contains the alias.
fn is_pooled(config: &AccountPoolConfig, alias: &str) -> (found: bool)
    ensures
        found == config@.pooled(alias@),
{
    let mut i: usize = 0;
    while i < config.pools.len()
        invariant
            i <= config.pools.len(),
            forall|j: int| 0 <= j < i ==> !(#[trigger] config@.pools[j]).lists(alias@),
        decreases config.pools.len() - i,
    {
        assert(config@.pools[i as int] == config.pools@[i as int]@);
        if text::holds_text(&config.pools[i].accounts, alias) {
            assert(config@.pools[i as int].lists(alias@));
            return true;
        }
        i = i + 1;
    }
    false
}

/// The accounts with another alias.
fn other_accounts(accounts: Vec<ManagedAccount>, alias: &str) -> (kept: Vec<ManagedAccount>)
    ensures
        text::views(kept@) == text::views(accounts@).filter(
            |account: AccountModel| account.alias != alias@,
        ),
{
    let ghost keep = |account: AccountModel| account.alias != alias@;
    let ghost models = text::views(accounts@);
    let mut kept: Vec<ManagedAccount> = Vec::new();
    let mut i: usize = 0;
    assert(models.take(0).filter(keep) =~= Seq::empty()) by {
        reveal(Seq::filter);
    }
    while i < accounts.len()
        invariant
            i <= accounts.len(),
            models == text::views(accounts@),
            keep == (|account: AccountModel| account.alias != alias@),
            text::views(kept@) == models.take(i as int).filter(keep),
        decreases accounts.len() - i,
    {
        proof {
            lists::lemma_filter_step(models, keep, i as int);
        }
        let ghost before = kept@;
        if !text::same_text(accounts[i].alias.as_str(), alias) {
            kept.push(accounts[i].clone());
            assert(text::views(kept@) =~= text::views(before).push(models[i as int]));
        }
        i = i + 1;
    }
    assert(models.take(i as int) =~= models);
    kept
}

/// The pools with another name.
fn other_pools(pools: Vec<AccountPool>, name: &str) -> (kept: Vec<AccountPool>)
    ensures
        text::views(kept@) == text::views(pools@).filter(|pool: PoolModel| pool.name != name@),
{
    let ghost keep = |pool: PoolModel| pool.name != name@;
    let ghost models = text::views(pools@);
    let mut kept: Vec<AccountPool> = Vec::new();
    let mut i: usize = 0;
    assert(models.take(0).filter(keep) =~= Seq::empty()) by {
        reveal(Seq::filter);
    }
    while i < pools.len()
        invariant
            i <= pools.len(),
            models == text::views(pools@),
            keep == (|pool: PoolModel| pool.name != name@),
            text::views(kept@) == models.take(i as int).filter(keep),
        decreases pools.len() - i,
    {
        proof {
            lists::lemma_filter_step(models, keep, i as int);
        }
        let ghost before = kept@;
        if !text::same_text(pools[i].name.as_str(), name) {
            kept.push(pools[i].clone());
            assert(text::views(kept@) =~= text::views(before).push(models[i as int]));
        }
        i = i + 1;
    }
    assert(models.take(i as int) =~= models);
    kept
}

/// Checks what the accounts file holds.
pub fn load_config(stored: Option<AccountPoolConfig>) -> (read: Result<
    AccountPoolConfig,
    StoreError,
>)
    ensures
        config_result(read) == loaded(text::opt_view(stored)),
        read matches Ok(config) ==> config@.valid(),
{
    let config: AccountPoolConfig = match stored {
        Some(config) => config,
        None => AccountPoolConfig::default(),
    };
    proof {
        if stored is None {
            assert(config@.accounts =~= Seq::empty());
            assert(config@.pools =~= Seq::empty());
        }
    }
    match storage::validate_config(&config) {
        Ok(()) => Ok(config),
        Err(error) => {
            proof {
                if stored is None {
                    assert(config@.valid());
                }
            }
            Err(error)
        },
    }
}

impl AccountStore {
    /// The store of a user with the given credential storage and login policy.
    pub fn new(
        credential_storage: CredentialStorage,
        chatgpt_login_allowed: bool,
    ) -> (store: AccountStore)
        ensures
            store.credential_storage == credential_storage,
            store.chatgpt_login_allowed == chatgpt_login_allowed,
    {
        AccountStore { credential_storage, chatgpt_login_allowed }
    }

    /// Checks what the accounts file holds.
    pub fn read(&self, stored: Option<AccountPoolConfig>) -> (read: Result<
        AccountPoolConfig,
        StoreError,
    >)
        ensures
            config_result(read) == loaded(text::opt_view(stored)),
            read matches Ok(config) ==> config@.valid(),
    {
        load_config(stored)
    }

    /// The directory of the store, below the user's home.
    pub fn root(&self) -> (path: Vec<String>)
        ensures
            text::views(path@) == seq!["accounts"@],
    {
        let mut path: Vec<String> = Vec::new();
        path.push("accounts".to_owned());
        assert(text::views(path@) =~= seq!["accounts"@]);
        path
    }

    /// The directory of an account's credentials, below the user's home.
    pub fn credential_home(&self, account: &ManagedAccount) -> (path: Vec<String>)
        ensures
            text::views(path@) == seq![
                "accounts"@,
                "credentials"@,
                digest::credential_key(account@.user_id, account@.workspace_id),
            ],
            digest::key_text(path@[2]@),
    {
        let mut path: Vec<String> = Vec::new();
        path.push("accounts".to_owned());
        path.push("credentials".to_owned());
        path.push(digest::identity_key(account.user_id.as_str(), account.workspace_id.as_str()));
        assert(text::views(path@) =~= seq![
            "accounts"@,
            "credentials"@,
            digest::credential_key(account@.user_id, account@.workspace_id),
        ]);
        path
    }

    /// Removes an account that no pool lists. Gives the store to write and the account whose
    /// credentials are to be removed.
    pub fn remove_account(&self, stored: Option<AccountPoolConfig>, alias: &str) -> (removed:
        Result<(AccountPoolConfig, ManagedAccount), StoreError>)
        ensures
            (match removed {
                Ok((config, _)) => Ok(config@),
                Err(error) => Err(error),
            }) == after_loading(
                text::opt_view(stored),
                |config: ConfigModel| config.account_removed(alias@),
            ),
            removed matches Ok((_, account)) ==> {
                let before = loaded(text::opt_view(stored))->Ok_0;
                account@ == before.accounts[before.account_at(alias@)->0]
            },
    {
        let config: AccountPoolConfig = match self.read(stored) {
            Ok(config) => config,
            Err(error) => {
                return Err(error);
            },
        };
        let account: ManagedAccount = match storage::find_account(&config, alias) {
            Some(i) => {
                assert(config@.accounts[i as int] == config.accounts@[i as int]@);
                config.accounts[i].clone()
            },
            None => {
                return Err(StoreError::UnknownAccount);
            },
        };
        if is_pooled(&config, alias) {
            return Err(StoreError::AccountInPool);
        }
        let ghost before = config@;
        let AccountPoolConfig { accounts, pools, default_selection } = config;
        let removed: AccountPoolConfig = AccountPoolConfig {
            accounts: other_accounts(accounts, alias),
            pools,
            default_selection: match default_selection {
                Some(AccountSelection::Account(name)) if text::same_text(name.as_str(), alias) => None,
                other => other,
            },
        };
        assert(removed@ == before.without_account(alias@));
        Ok((removed, account))
    }

    /// Creates a pool, or replaces one.
    pub fn put_pool(
        &self,
        stored: Option<AccountPoolConfig>,
        pool: AccountPool,
        create: bool,
    ) -> (put: Result<AccountPoolConfig, StoreError>)
        ensures
            config_result(put) == after_loading(
                text::opt_view(stored),
                |config: ConfigModel| config.pool_put(pool@, create),
            ),
            put matches Ok(config) ==> config@.valid(),
    {
        let mut config: AccountPoolConfig = match self.read(stored) {
            Ok(config) => config,
            Err(error) => {
                return Err(error);
            },
        };
        let ghost before = config@;
        let ghost model = pool@;
        let existing: Option<usize> = storage::find_pool(&config, pool.name.as_str());
        match existing {
            Some(index) => {
                if create {
                    return Err(StoreError::PoolExists);
                }
                config.pools.set(index, pool);
                assert(config@.pools =~= before.pools.update(index as int, model));
            },
            None => {
                if !create {
                    return Err(StoreError::UnknownPool);
                }
                config.pools.push(pool);
                assert(config@.pools =~= before.pools.push(model));
            },
        }
        assert(config@ == before.with_pool(model));
        match storage::validate_config(&config) {
            Ok(()) => Ok(config),
            Err(error) => Err(error),
        }
    }

    /// Removes a pool.
    pub fn remove_pool(&self, stored: Option<AccountPoolConfig>, name: &str) -> (removed: Result<
        AccountPoolConfig,
        StoreError,
    >)
        ensures
            config_result(removed) == after_loading(
                text::opt_view(stored),
                |config: ConfigModel| config.pool_removed(name@),
            ),
    {
        let config: AccountPoolConfig = match self.read(stored) {
            Ok(config) => config,
            Err(error) => {
                return Err(error);
            },
        };
        if storage::find_pool(&config, name).is_none() {
            return Err(StoreError::UnknownPoolName);
        }
        let ghost before = config@;
        let AccountPoolConfig { accounts, pools, default_selection } = config;
        let removed: AccountPoolConfig = AccountPoolConfig {
            accounts,
            pools: other_pools(pools, name),
            default_selection: match default_selection {
                Some(AccountSelection::Pool(pool)) if text::same_text(pool.as_str(), name) => None,
                other => other,
            },
        };
        assert(removed@ == before.without_pool(name@));
        Ok(removed)
    }

    /// Chooses what new sessions use unless told otherwise.
    pub fn select_default(
        &self,
        stored: Option<AccountPoolConfig>,
        selection: Option<AccountSelection>,
    ) -> (selected: Result<AccountPoolConfig, StoreError>)
        ensures
            config_result(selected) == after_loading(
                text::opt_view(stored),
                |config: ConfigModel| config.default_selected(text::opt_view(selection)),
            ),
            selected matches Ok(config) ==> config@.valid(),
    {
        let mut config: AccountPoolConfig = match self.read(stored) {
            Ok(config) => config,
            Err(error) => {
                return Err(error);
            },
        };
        let ghost before = config@;
        config.default_selection = selection;
        assert(config@ == ConfigModel { default_selection: text::opt_view(selection), ..before });
        match storage::validate_config(&config) {
            Ok(()) => Ok(config),
            Err(error) => Err(error),
        }
    }

    /// Checks that the store still holds an account before its credentials are used.
    pub fn manager(&self, stored: Option<AccountPoolConfig>, account: &ManagedAccount) -> (checked:
        Result<(), StoreError>)
        ensures
            checked == (match loaded(text::opt_view(stored)) {
                Ok(config) if held(config.accounts, account@) => Ok(()),
                Ok(_) => Err(StoreError::AccountChanged),
                Err(error) => Err(error),
            }),
    {
        let config: AccountPoolConfig = match self.read(stored) {
            Ok(config) => config,
            Err(error) => {
                return Err(error);
            },
        };
        if holds_account(&config.accounts, account) {
            Ok(())
        } else {
            Err(StoreError::AccountChanged)
        }
    }

    /// Checks that the credentials of an account hold its own ChatGPT login.
    pub fn verify_login(&self, account: &ManagedAccount, login: &Option<Login>) -> (checked: Result<
        (),
        StoreError,
    >)
        ensures
            checked == (match text::opt_view(*login) {
                Some(login) if login.belongs_to(account@) && login.chatgpt => Ok(()),
                Some(_) => Err(StoreError::CredentialsMismatch),
                None => Err(StoreError::LoginRequired),
            }),
    {
        match login {
            Some(login) => {
                if login.is_of(account) && login.chatgpt {
                    Ok(())
                } else {
                    Err(StoreError::CredentialsMismatch)
                }
            },
            None => Err(StoreError::LoginRequired),
        }
    }

    /// The account whose banked reset a user asks to redeem.
    pub fn redeem(&self, stored: Option<AccountPoolConfig>, alias: &str) -> (found: Result<
        ManagedAccount,
        StoreError,
    >)
        ensures
            (match found {
                Ok(account) => Ok(account@),
                Err(error) => Err(error),
            }) == (match loaded(text::opt_view(stored)) {
                Ok(config) => match config.account_at(alias@) {
                    Some(i) => Ok(config.accounts[i]),
                    None => Err(StoreError::UnknownAccount),
                },
                Err(error) => Err(error),
            }),
    {
        let config: AccountPoolConfig = match self.read(stored) {
            Ok(config) => config,
            Err(error) => {
                return Err(error);
            },
        };
        match storage::find_account(&config, alias) {
            Some(i) => {
                assert(config@.accounts[i as int] == config.accounts@[i as int]@);
                Ok(config.accounts[i].clone())
            },
            None => Err(StoreError::UnknownAccount),
        }
    }

    /// The credit that a user's request redeems: the one of a pending attempt, else the live
    /// credit that expires first.
    pub fn redeem_credit(
        &self,
        pending: Option<String>,
        usage: &ManagedAccountUsage,
        now: i64,
    ) -> (credit: Result<String, StoreError>)
        ensures
            (match credit {
                Ok(credit) => Ok(credit@),
                Err(error) => Err(error),
            }) == requested_credit(text::opt_view(pending), usage@, now),
    {
        if let Some(credit) = pending {
            return Ok(credit);
        }
        match policy::earliest_credit(usage, now) {
            Some(credit) => Ok(credit.id.clone()),
            None => Err(StoreError::NoUsableReset),
        }
    }
}

/// The credit that a user's request redeems.
pub open spec fn requested_credit(pending: Option<Seq<char>>, usage: UsageModel, now: i64) -> Result<
    Seq<char>,
    StoreError,
> {
    match (pending, usage.earliest(now)) {
        (Some(credit), _) => Ok(credit),
        (None, Some(credit)) => Ok(credit.id),
        (None, None) => Err(StoreError::NoUsableReset),
    }
}

/// The accounts with an alias.
pub fn accounts_named(accounts: &Vec<ManagedAccount>, alias: &str) -> (kept: Vec<ManagedAccount>)
    ensures
        text::views(kept@) == text::views(accounts@).filter(
            |account: AccountModel| account.alias == alias@,
        ),
{
    let ghost keep = |account: AccountModel| account.alias == alias@;
    let ghost models = text::views(accounts@);
    let mut kept: Vec<ManagedAccount> = Vec::new();
    let mut i: usize = 0;
    assert(models.take(0).filter(keep) =~= Seq::empty()) by {
        reveal(Seq::filter);
    }
    while i < accounts.len()
        invariant
            i <= accounts.len(),
            models == text::views(accounts@),
            keep == (|account: AccountModel| account.alias == alias@),
            text::views(kept@) == models.take(i as int).filter(keep),
        decreases accounts.len() - i,
    {
        proof {
            lists::lemma_filter_step(models, keep, i as int);
        }
        let ghost before = kept@;
        if text::same_text(accounts[i].alias.as_str(), alias) {
            kept.push(accounts[i].clone());
            assert(text::views(kept@) =~= text::views(before).push(models[i as int]));
        }
        i = i + 1;
    }
    assert(models.take(i as int) =~= models);
    kept
}

/// The list holds this login under this alias.
pub open spec fn held(accounts: Seq<AccountModel>, account: AccountModel) -> bool {
    exists|i: int| 0 <= i < accounts.len() && (#[trigger] accounts[i]).names(account)
}

/// Whether the list holds this login under this alias.
pub fn holds_account(accounts: &Vec<ManagedAccount>, account: &ManagedAccount) -> (found: bool)
    ensures
        found == held(text::views(accounts@), account@),
{
    let ghost models = text::views(accounts@);
    let mut i: usize = 0;
    while i < accounts.len()
        invariant
            i <= accounts.len(),
            models == text::views(accounts@),
            forall|j: int| 0 <= j < i ==> !(#[trigger] models[j]).names(account@),
        decreases accounts.len() - i,
    {
        if accounts[i].same_named(account) {
            assert(models[i as int].names(account@));
            return true;
        }
        i = i + 1;
    }
    false
}

/// Removing an account from a valid store leaves a valid store that lacks that account and keeps
/// every other.
pub proof fn law_removed_account_leaves_valid_store(config: ConfigModel, alias: Seq<char>)
    requires
        config.valid(),
        config.account_removed(alias) is Ok,
    ensures
        config.account_removed(alias)->Ok_0.valid(),
        !config.account_removed(alias)->Ok_0.has_account(alias),
        forall|i: int|
            0 <= i < config.accounts.len() && (#[trigger] config.accounts[i]).alias != alias
                ==> config.account_removed(alias)->Ok_0.accounts.contains(config.accounts[i]),
        config.account_removed(alias)->Ok_0.pools == config.pools,
{
    let keep = |account: AccountModel| account.alias != alias;
    let after = config.without_account(alias);
    let kept = after.accounts;
    lists::lemma_filter_members(config.accounts, keep);
    lists::lemma_filter_distinct(config.accounts, keep);
    assert forall|i: int| 0 <= i < kept.len() implies {
        &&& storage::valid_name((#[trigger] kept[i]).alias)
        &&& kept[i].user_id.len() > 0
        &&& kept[i].workspace_id.len() > 0
        &&& kept[i].alias != alias
    } by {
        assert(keep(kept[i]) && config.accounts.contains(kept[i]));
    }
    assert forall|other: Seq<char>| other != alias && config.has_account(other) implies
        #[trigger] after.has_account(other) by {
        let i = choose|i: int|
            0 <= i < config.accounts.len() && #[trigger] config.accounts[i].alias == other;
        assert(keep(config.accounts[i]));
        assert(kept.contains(config.accounts[i]));
        let j = choose|j: int| 0 <= j < kept.len() && kept[j] == config.accounts[i];
        assert(kept[j].alias == other);
    }
    assert forall|i: int| 0 <= i < after.pools.len() implies {
        &&& storage::valid_name((#[trigger] after.pools[i]).name)
        &&& after.valid_members(after.pools[i].accounts)
    } by {
        let members = config.pools[i].accounts;
        assert(!config.pools[i].lists(alias));
        assert forall|k: int| 0 <= k < members.len() implies after.has_account(
            #[trigger] members[k],
        ) by {
            assert(config.has_account(members[k]));
            assert(members.contains(members[k]));
        }
    }
    if let Some(SelectionModel::Pool(name)) = config.default_selection {
        assert(config.has_pool(name));
        let i = choose|i: int|
            0 <= i < config.pools.len() && #[trigger] config.pools[i].name == name;
        assert(after.pools[i].name == name);
    }
}

/// Removing a pool from a valid store leaves a valid store that lacks that pool and keeps every
/// other, and every account.
pub proof fn law_removed_pool_leaves_valid_store(config: ConfigModel, name: Seq<char>)
    requires
        config.valid(),
        config.pool_removed(name) is Ok,
    ensures
        config.pool_removed(name)->Ok_0.valid(),
        !config.pool_removed(name)->Ok_0.has_pool(name),
        forall|i: int|
            0 <= i < config.pools.len() && (#[trigger] config.pools[i]).name != name
                ==> config.pool_removed(name)->Ok_0.pools.contains(config.pools[i]),
        config.pool_removed(name)->Ok_0.accounts == config.accounts,
{
    let keep = |pool: PoolModel| pool.name != name;
    let after = config.without_pool(name);
    let kept = after.pools;
    lists::lemma_filter_members(config.pools, keep);
    lists::lemma_filter_distinct(config.pools, keep);
    assert forall|other: Seq<char>| config.has_account(other) implies #[trigger] after.has_account(
        other,
    ) by {
        let i = choose|i: int|
            0 <= i < config.accounts.len() && #[trigger] config.accounts[i].alias == other;
        assert(after.accounts[i].alias == other);
    }
    assert forall|i: int| 0 <= i < kept.len() implies {
        &&& storage::valid_name((#[trigger] kept[i]).name)
        &&& after.valid_members(kept[i].accounts)
        &&& kept[i].name != name
    } by {
        assert(keep(kept[i]) && config.pools.contains(kept[i]));
        let members = kept[i].accounts;
        assert(config.valid_members(members));
        assert forall|k: int| 0 <= k < members.len() implies after.has_account(
            #[trigger] members[k],
        ) by {
            assert(config.has_account(members[k]));
        }
    }
    if let Some(SelectionModel::Pool(other)) = config.default_selection {
        if other != name {
            assert(config.has_pool(other));
            let i = choose|i: int|
                0 <= i < config.pools.len() && #[trigger] config.pools[i].name == other;
            assert(keep(config.pools[i]));
            assert(kept.contains(config.pools[i]));
            let j = choose|j: int| 0 <= j < kept.len() && kept[j] == config.pools[i];
            assert(kept[j].name == other);
        }
    }
}

/// A missing store is empty, a valid one is read as it is, and one with a fault is not read.
pub proof fn law_store_is_loaded(stored: Option<ConfigModel>)
    ensures
        stored is None ==> loaded(stored) is Ok && loaded(stored)->Ok_0.accounts.len() == 0
            && loaded(stored)->Ok_0.pools.len() == 0
            && loaded(stored)->Ok_0.default_selection is None,
        stored is Some && stored->0.fault() is None ==> loaded(stored) == Ok::<
            ConfigModel,
            StoreError,
        >(stored->0),
        stored is Some && stored->0.fault() is Some ==> loaded(stored) == Err::<
            ConfigModel,
            StoreError,
        >(stored->0.fault()->0),
{
}

/// A command on a store that cannot be loaded fails as the loading does, and acts on one that can.
pub proof fn law_commands_act_on_the_loaded_store(
    stored: Option<ConfigModel>,
    command: spec_fn(ConfigModel) -> Result<ConfigModel, StoreError>,
)
    ensures
        loaded(stored) matches Ok(config) ==> after_loading(stored, command) == command(config),
        loaded(stored) matches Err(error) ==> after_loading(stored, command) == Err::<
            ConfigModel,
            StoreError,
        >(error),
{
}

/// An account can be removed where it is stored and no pool lists it. The others keep their order,
/// the pools stay, and the default is dropped where it was the account.
pub proof fn law_account_is_removed(config: ConfigModel, alias: Seq<char>)
    ensures
        ({
            let made = config.account_removed(alias);
            let pooled = exists|i: int|
                0 <= i < config.pools.len() && (#[trigger] config.pools[i]).accounts.contains(alias);
            &&& made == Err::<ConfigModel, StoreError>(StoreError::UnknownAccount)
                <==> !config.has_account(alias)
            &&& made == Err::<ConfigModel, StoreError>(StoreError::AccountInPool)
                <==> config.has_account(alias) && pooled
            &&& made is Ok <==> config.has_account(alias) && !pooled
            &&& made matches Ok(after) ==> {
                &&& after.accounts == config.accounts.filter(
                    |account: AccountModel| account.alias != alias,
                )
                &&& after.pools == config.pools
                &&& config.default_selection == Some(SelectionModel::Account(alias))
                    ==> after.default_selection is None
                &&& config.default_selection != Some(SelectionModel::Account(alias))
                    ==> after.default_selection == config.default_selection
            }
        }),
{
    assert(config.pooled(alias) == exists|i: int|
        0 <= i < config.pools.len() && (#[trigger] config.pools[i]).accounts.contains(alias)) by {
        if config.pooled(alias) {
            let i = choose|i: int|
                0 <= i < config.pools.len() && (#[trigger] config.pools[i]).lists(alias);
            assert(config.pools[i].accounts.contains(alias));
        }
        if exists|i: int|
            0 <= i < config.pools.len() && (#[trigger] config.pools[i]).accounts.contains(alias) {
            let i = choose|i: int|
                0 <= i < config.pools.len() && (#[trigger] config.pools[i]).accounts.contains(
                    alias,
                );
            assert(config.pools[i].lists(alias));
        }
    }
}

/// A pool can be removed where it is stored. The others keep their order, the accounts stay, and the
/// default is dropped where it was the pool.
pub proof fn law_pool_is_removed(config: ConfigModel, name: Seq<char>)
    ensures
        ({
            let made = config.pool_removed(name);
            &&& made is Ok <==> config.has_pool(name)
            &&& made is Err ==> made->Err_0 == StoreError::UnknownPoolName
            &&& made matches Ok(after) ==> {
                &&& after.pools == config.pools.filter(|pool: PoolModel| pool.name != name)
                &&& after.accounts == config.accounts
                &&& config.default_selection == Some(SelectionModel::Pool(name))
                    ==> after.default_selection is None
                &&& config.default_selection != Some(SelectionModel::Pool(name))
                    ==> after.default_selection == config.default_selection
            }
        }),
{
}

/// A new pool must have a new name, and an edit a stored one. A new pool comes last, an edited one
/// keeps its place, and every other pool, the accounts and the default stay; a store that would not
/// be valid is refused with its fault.
pub proof fn law_pool_is_put(config: ConfigModel, pool: PoolModel, create: bool, i: int)
    ensures
        ({
            let made = config.pool_put(pool, create);
            let after = config.with_pool(pool);
            &&& create && config.has_pool(pool.name) ==> made == Err::<ConfigModel, StoreError>(
                StoreError::PoolExists,
            )
            &&& !create && !config.has_pool(pool.name) ==> made == Err::<ConfigModel, StoreError>(
                StoreError::UnknownPool,
            )
            &&& create != config.has_pool(pool.name) ==> {
                &&& after.fault() is None ==> made == Ok::<ConfigModel, StoreError>(after)
                &&& after.fault() is Some ==> made == Err::<ConfigModel, StoreError>(
                    after.fault()->0,
                )
            }
            &&& after.accounts == config.accounts
            &&& after.default_selection == config.default_selection
            &&& !config.has_pool(pool.name) ==> after.pools == config.pools.push(pool)
            &&& config.has_pool(pool.name) ==> after.pools.len() == config.pools.len()
            &&& 0 <= i < config.pools.len() && config.pools[i].name != pool.name ==> after.pools[i]
                == config.pools[i]
            &&& 0 <= i < config.pools.len() && config.pools[i].name == pool.name && (forall|j: int|
                0 <= j < i ==> (#[trigger] config.pools[j]).name != pool.name) ==> after.pools[i]
                == pool
        }),
{
    let flags = Seq::new(config.pools.len(), |k: int| config.pools[k].name == pool.name);
    lists::lemma_first(flags);
    if let Some(k) = lists::first(flags) {
        assert(config.pools[k].name == pool.name);
        if 0 <= i < config.pools.len() && config.pools[i].name == pool.name && (forall|j: int|
            0 <= j < i ==> (#[trigger] config.pools[j]).name != pool.name) {
            lists::lemma_first_is(flags, i);
        }
    } else if config.has_pool(pool.name) {
        let k = choose|k: int|
            0 <= k < config.pools.len() && #[trigger] config.pools[k].name == pool.name;
        assert(flags[k]);
    }
}

/// A default is set where it is stored, and can always be dropped in a valid store; nothing else
/// changes.
pub proof fn law_default_is_set(config: ConfigModel, selection: Option<SelectionModel>)
    requires
        config.valid(),
    ensures
        config.default_selected(selection) is Ok <==> match selection {
            None => true,
            Some(SelectionModel::Account(alias)) => config.has_account(alias),
            Some(SelectionModel::Pool(name)) => config.has_pool(name),
        },
        config.default_selected(selection) matches Ok(after) ==> after.accounts == config.accounts
            && after.pools == config.pools && after.default_selection == selection,
{
    let after = ConfigModel { default_selection: selection, ..config };
    storage::law_faultless_is_valid(after);
    storage::law_valid_store(config);
    storage::law_valid_store(after);
    assert forall|alias: Seq<char>| #[trigger] after.has_account(alias) == config.has_account(
        alias,
    ) by {}
    assert forall|name: Seq<char>| #[trigger] after.has_pool(name) == config.has_pool(name) by {}
}

/// A reset that is asked for by hand takes the credit of an unfinished attempt first, and else the
/// live credit that expires first; without either there is none.
pub proof fn law_requested_credit(pending: Option<Seq<char>>, usage: UsageModel, now: i64)
    ensures
        pending is Some ==> requested_credit(pending, usage, now) == Ok::<Seq<char>, StoreError>(
            pending->0,
        ),
        pending is None && usage.earliest(now) is Some ==> requested_credit(pending, usage, now)
            == Ok::<Seq<char>, StoreError>(usage.earliest(now)->0.id),
        pending is None && usage.earliest(now) is None ==> requested_credit(pending, usage, now)
            == Err::<Seq<char>, StoreError>(StoreError::NoUsableReset),
{
}

/// A login belongs to an account where it tells both the same user and the same workspace.
pub proof fn law_login_belongs_to_its_account(login: LoginModel, account: AccountModel)
    ensures
        login.belongs_to(account) <==> login.user_id == Some(account.user_id)
            && login.workspace_id == Some(account.workspace_id),
{
}

/// A `Login` is seen with every field as it is.
pub proof fn law_login_is_seen_whole(value: Login)
    ensures
        value@.chatgpt == value.chatgpt,
        value@.allowed == value.allowed,
        value@.user_id == text::opt_view(value.user_id),
        value@.workspace_id == text::opt_view(value.workspace_id),
        value@.email == text::opt_view(value.email),
        value@.plan == (match value.plan {
            Some(plan) => Some(text::opt_view(plan)),
            None => None,
        }),
{
}

} // verus!
