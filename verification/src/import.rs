//! Importing a ChatGPT login into the account store under an alias.
//!
//! The caller holds the store's locks and reads the login twice: once to learn whose it is, and
//! once more, under the lock of the destination, to make sure that it is still the same.

use crate::account_pool::AccountModel;
use crate::account_pool::AccountPoolConfig;
use crate::account_pool::ConfigModel;
use crate::account_pool::ManagedAccount;
use crate::account_pool::SelectionModel;
use crate::lists;
use crate::storage;
use crate::storage::StoreError;
use crate::store;
use crate::store::AccountStore;
use crate::store::CredentialStorage;
use crate::store::Login;
use crate::store::LoginModel;
use crate::text;
use vstd::prelude::*;

verus! {

/// A request to import a login, once it may be tried.
#[derive(Debug, PartialEq, Eq)]
pub struct Import {
    alias: String,
}

/// An import whose account is known: what is to be stored, and where.
#[derive(Debug, PartialEq, Eq)]
pub struct ImportPlan {
    account: ManagedAccount,
    config: AccountPoolConfig,
}

/// The login material that is stored for an account.
#[derive(Debug, PartialEq, Eq)]
pub struct StoredCredentials {
    pub tokens: String,
    pub last_refresh: Option<String>,
    pub api_key: Option<String>,
    pub agent_identity: Option<String>,
    pub personal_access_token: Option<String>,
    pub bedrock_api_key: Option<String>,
    pub bedrock_access_keys: Option<String>,
}

/// The account that a login would become under an alias.
pub open spec fn login_account(alias: Seq<char>, login: Option<LoginModel>) -> Result<
    AccountModel,
    StoreError,
> {
    match login {
        None => Err(StoreError::NoStoredLogin),
        Some(login) => if !login.chatgpt || !login.allowed {
            Err(StoreError::LoginNotAllowed)
        } else if login.user_id is None {
            Err(StoreError::NoUserIdentity)
        } else if login.workspace_id is None {
            Err(StoreError::NoWorkspaceIdentity)
        } else if login.plan is None {
            Err(StoreError::TokensUnreadable)
        } else {
            Ok(
                AccountModel {
                    alias,
                    user_id: login.user_id->0,
                    workspace_id: login.workspace_id->0,
                    email: login.email,
                    plan: login.plan->0,
                },
            )
        },
    }
}

impl ConfigModel {
    /// Another login has the alias.
    pub open spec fn alias_taken(self, account: AccountModel) -> bool {
        exists|i: int|
            0 <= i < self.accounts.len() && #[trigger] self.accounts[i].alias == account.alias
                && self.accounts[i].identity() != account.identity()
    }

    /// The account under the alias that its login already has, if it has one.
    pub open spec fn resolved(self, account: AccountModel) -> AccountModel {
        match self.identity_at(account.identity()) {
            Some(i) => AccountModel { alias: self.accounts[i].alias, ..account },
            None => account,
        }
    }

    /// The store with an account in place of the one of that alias, or after all others.
    pub open spec fn with_account(self, account: AccountModel) -> ConfigModel {
        ConfigModel {
            accounts: match self.account_at(account.alias) {
                Some(i) => self.accounts.update(i, account),
                None => self.accounts.push(account),
            },
            ..self
        }
    }
}

/// The account and store of an import: whose login it is, and under which alias it is kept.
pub open spec fn planned(
    alias: Seq<char>,
    stored: Option<ConfigModel>,
    login: Option<LoginModel>,
) -> Result<(AccountModel, ConfigModel), StoreError> {
    match (login_account(alias, login), store::loaded(stored)) {
        (Err(error), _) => Err(error),
        (Ok(_), Err(error)) => Err(error),
        (Ok(account), Ok(config)) => if config.alias_taken(account) {
            Err(StoreError::AliasExists)
        } else {
            Ok((config.resolved(account), config))
        },
    }
}

/// The position of the account with an identity.
fn find_identity(config: &AccountPoolConfig, account: &ManagedAccount) -> (found: Option<usize>)
    ensures
        (match found {
            Some(i) => Some(i as int),
            None => None,
        }) == config@.identity_at(account@.identity()),
        found matches Some(i) ==> i < config.accounts.len(),
{
    let ghost flags = Seq::new(
        config@.accounts.len(),
        |i: int| config@.accounts[i].identity() == account@.identity(),
    );
    let mut i: usize = 0;
    while i < config.accounts.len()
        invariant
            i <= config.accounts.len(),
            flags == Seq::new(
                config@.accounts.len(),
                |i: int| config@.accounts[i].identity() == account@.identity(),
            ),
            forall|j: int| 0 <= j < i ==> !#[trigger] flags[j],
        decreases config.accounts.len() - i,
    {
        assert(config@.accounts[i as int] == config.accounts@[i as int]@);
        if config.accounts[i].same_identity(account) {
            proof {
                lists::lemma_first_is(flags, i as int);
            }
            return Some(i);
        }
        i = i + 1;
    }
    proof {
        lists::lemma_first_none(flags);
    }
    None
}

/// Whether another login has the alias of an account.
fn is_alias_taken(config: &AccountPoolConfig, account: &ManagedAccount) -> (taken: bool)
    ensures
        taken == config@.alias_taken(account@),
{
    let mut i: usize = 0;
    while i < config.accounts.len()
        invariant
            i <= config.accounts.len(),
            forall|j: int|
                0 <= j < i ==> !(#[trigger] config@.accounts[j].alias == account@.alias
                    && config@.accounts[j].identity() != account@.identity()),
        decreases config.accounts.len() - i,
    {
        assert(config@.accounts[i as int] == config.accounts@[i as int]@);
        if text::same_text(config.accounts[i].alias.as_str(), account.alias.as_str())
            && !config.accounts[i].same_identity(account) {
            assert(config@.accounts[i as int].alias == account@.alias);
            return true;
        }
        i = i + 1;
    }
    false
}

/// The account that a login would become under an alias.
fn account_of_login(alias: &str, login: Option<Login>) -> (account: Result<
    ManagedAccount,
    StoreError,
>)
    ensures
        (match account {
            Ok(account) => Ok(account@),
            Err(error) => Err(error),
        }) == login_account(alias@, text::opt_view(login)),
{
    let login: Login = match login {
        Some(login) => login,
        None => {
            return Err(StoreError::NoStoredLogin);
        },
    };
    if !login.chatgpt || !login.allowed {
        return Err(StoreError::LoginNotAllowed);
    }
    let user_id: String = match login.user_id {
        Some(user_id) => user_id,
        None => {
            return Err(StoreError::NoUserIdentity);
        },
    };
    let workspace_id: String = match login.workspace_id {
        Some(workspace_id) => workspace_id,
        None => {
            return Err(StoreError::NoWorkspaceIdentity);
        },
    };
    let plan: Option<String> = match login.plan {
        Some(plan) => plan,
        None => {
            return Err(StoreError::TokensUnreadable);
        },
    };
    Ok(ManagedAccount { alias: alias.to_owned(), user_id, workspace_id, email: login.email, plan })
}

impl AccountStore {
    /// Begins an import: the alias must be a name, and credentials must be kept.
    pub fn import(&self, alias: &str) -> (begun: Result<Import, StoreError>)
        ensures
            (match begun {
                Ok(import) => Ok(import.alias()),
                Err(error) => Err(error),
            }) == (if !storage::valid_name(alias@) {
                Err(StoreError::InvalidName)
            } else if self.credential_storage == CredentialStorage::Ephemeral {
                Err(StoreError::EphemeralStorage)
            } else {
                Ok(alias@)
            }),
    {
        if let Err(error) = storage::validate_name(alias) {
            return Err(error);
        }
        if self.credential_storage == CredentialStorage::Ephemeral {
            return Err(StoreError::EphemeralStorage);
        }
        Ok(Import { alias: alias.to_owned() })
    }
}

impl Import {
    /// The alias that was asked for.
    pub closed spec fn alias(self) -> Seq<char> {
        self.alias@
    }

    /// Settles whose login is imported and under which alias. A login that the store already holds
    /// keeps its alias; an alias that another login has is refused.
    pub fn plan(self, stored: Option<AccountPoolConfig>, login: Option<Login>) -> (plan: Result<
        ImportPlan,
        StoreError,
    >)
        ensures
            (match plan {
                Ok(plan) => Ok((plan.account_model(), plan.config_model())),
                Err(error) => Err(error),
            }) == planned(self.alias(), text::opt_view(stored), text::opt_view(login)),
            plan matches Ok(plan) ==> plan.config_model().valid(),
    {
        let mut account: ManagedAccount = match account_of_login(self.alias.as_str(), login) {
            Ok(account) => account,
            Err(error) => {
                return Err(error);
            },
        };
        let config: AccountPoolConfig = match store::load_config(stored) {
            Ok(config) => config,
            Err(error) => {
                return Err(error);
            },
        };
        if is_alias_taken(&config, &account) {
            return Err(StoreError::AliasExists);
        }
        if let Some(existing) = find_identity(&config, &account) {
            assert(config@.accounts[existing as int] == config.accounts@[existing as int]@);
            account.alias = config.accounts[existing].alias.clone();
        }
        Ok(ImportPlan { account, config })
    }
}

impl ImportPlan {
    /// The account as it will be stored.
    pub closed spec fn account_model(self) -> AccountModel {
        self.account@
    }

    /// The store as it was read.
    pub closed spec fn config_model(self) -> ConfigModel {
        self.config@
    }

    /// The account as it will be stored; its credentials' directory is to be locked.
    pub fn account(&self) -> (account: &ManagedAccount)
        ensures
            account@ == self.account_model(),
    {
        &self.account
    }

    /// Checks the login once more, under the lock of the destination. `payload` tells whether the
    /// stored login could still be loaded.
    pub fn confirm(&self, login: &Option<Login>, payload: bool) -> (confirmed: Result<
        (),
        StoreError,
    >)
        ensures
            confirmed == (match text::opt_view(*login) {
                None => Err(StoreError::LoginRemoved),
                Some(login) => if !login.belongs_to(self.account_model()) {
                    Err(StoreError::IdentityChanged)
                } else if !payload {
                    Err(StoreError::LoginRemoved)
                } else {
                    Ok(())
                },
            }),
    {
        match login {
            None => Err(StoreError::LoginRemoved),
            Some(login) => {
                if !login.is_of(&self.account) {
                    Err(StoreError::IdentityChanged)
                } else if !payload {
                    Err(StoreError::LoginRemoved)
                } else {
                    Ok(())
                }
            },
        }
    }

    /// What is stored of the login: its subscription tokens and when they were refreshed. Other
    /// authentication material stays behind.
    pub fn credentials(&self, tokens: String, last_refresh: Option<String>) -> (stored:
        StoredCredentials)
        ensures
            stored == (StoredCredentials {
                tokens,
                last_refresh,
                api_key: None,
                agent_identity: None,
                personal_access_token: None,
                bedrock_api_key: None,
                bedrock_access_keys: None,
            }),
    {
        StoredCredentials {
            tokens,
            last_refresh,
            api_key: None,
            agent_identity: None,
            personal_access_token: None,
            bedrock_api_key: None,
            bedrock_access_keys: None,
        }
    }

    /// Whether the imported login is the user's own stored one, which is then linked to the
    /// account. `original` tells whether that login could still be loaded.
    pub fn link(
        &self,
        source_is_home: bool,
        source_storage: CredentialStorage,
        original: bool,
    ) -> (linked: Result<bool, StoreError>)
        ensures
            linked == (if !source_is_home || source_storage == CredentialStorage::Ephemeral {
                Ok(false)
            } else if original {
                Ok(true)
            } else {
                Err(StoreError::LoginChanged)
            }),
    {
        if !source_is_home || source_storage == CredentialStorage::Ephemeral {
            Ok(false)
        } else if original {
            Ok(true)
        } else {
            Err(StoreError::LoginChanged)
        }
    }

    /// Gives the store to write, and the account.
    pub fn commit(self) -> (committed: (AccountPoolConfig, ManagedAccount))
        ensures
            committed.0@ == self.config_model().with_account(self.account_model()),
            committed.1@ == self.account_model(),
    {
        let ImportPlan { account, mut config } = self;
        let ghost before = config@;
        match storage::find_account(&config, account.alias.as_str()) {
            Some(index) => {
                config.accounts.set(index, account.clone());
                assert(config@.accounts =~= before.accounts.update(index as int, account@));
            },
            None => {
                config.accounts.push(account.clone());
                assert(config@.accounts =~= before.accounts.push(account@));
            },
        }
        (config, account)
    }
}

/// A login that the store already holds keeps its alias, whatever alias was asked for.
pub proof fn law_known_login_keeps_its_alias(config: ConfigModel, account: AccountModel, i: int)
    requires
        config.valid(),
        0 <= i < config.accounts.len(),
        config.accounts[i].identity() == account.identity(),
    ensures
        config.resolved(account).alias == config.accounts[i].alias,
        config.with_account(config.resolved(account)).accounts == config.accounts.update(
            i,
            config.resolved(account),
        ),
{
    let same_login = Seq::new(
        config.accounts.len(),
        |j: int| config.accounts[j].identity() == account.identity(),
    );
    let alias = config.accounts[i].alias;
    let same_alias = Seq::new(config.accounts.len(), |j: int| config.accounts[j].alias == alias);
    assert forall|j: int| 0 <= j < i implies !#[trigger] same_login[j] by {
        assert(config.accounts[j].identity() != config.accounts[i].identity());
    }
    assert forall|j: int| 0 <= j < i implies !#[trigger] same_alias[j] by {
        assert(config.accounts[j].alias != config.accounts[i].alias);
    }
    lists::lemma_first_is(same_login, i);
    lists::lemma_first_is(same_alias, i);
}

/// An import into a valid store leaves a valid store that holds the account, keeps every account
/// of another login as it was, and keeps the pools. A login without a user or workspace id cannot
/// be kept.
pub proof fn law_import_leaves_valid_store(config: ConfigModel, account: AccountModel)
    requires
        config.valid(),
        storage::valid_name(account.alias),
        account.user_id.len() > 0,
        account.workspace_id.len() > 0,
        !config.alias_taken(account),
    ensures
        config.with_account(config.resolved(account)).valid(),
        store::held(
            config.with_account(config.resolved(account)).accounts,
            config.resolved(account),
        ),
        forall|i: int|
            0 <= i < config.accounts.len() && (#[trigger] config.accounts[i]).identity()
                != account.identity() ==> config.with_account(config.resolved(account)).accounts[i]
                == config.accounts[i],
        config.with_account(config.resolved(account)).pools == config.pools,
        config.with_account(config.resolved(account)).default_selection
            == config.default_selection,
{
    let kept = config.resolved(account);
    let after = config.with_account(kept);
    let same_login = Seq::new(
        config.accounts.len(),
        |j: int| config.accounts[j].identity() == account.identity(),
    );
    lists::lemma_first(same_login);
    match config.identity_at(account.identity()) {
        Some(i) => {
            law_known_login_keeps_its_alias(config, account, i);
            assert(after.accounts[i] == kept);
        },
        None => {
            let same_alias = Seq::new(
                config.accounts.len(),
                |j: int| config.accounts[j].alias == account.alias,
            );
            assert forall|j: int| 0 <= j < config.accounts.len() implies !#[trigger] same_alias[j]
                && config.accounts[j].identity() != account.identity() by {
                assert(!same_login[j]);
                assert(config.accounts[j].alias == config.accounts[j].alias);
            }
            lists::lemma_first_none(same_alias);
            assert(after.accounts =~= config.accounts.push(account));
            assert(after.accounts[config.accounts.len() as int] == kept);
        },
    }
    assert forall|j: int| 0 <= j < config.accounts.len() implies #[trigger] after.accounts[j].alias
        == config.accounts[j].alias && after.accounts[j].identity()
        == config.accounts[j].identity() by {
        if config.identity_at(account.identity()) is Some {
            assert(same_login[config.identity_at(account.identity())->0]);
        }
    }
    assert(store::held(after.accounts, kept));
    assert forall|alias: Seq<char>| config.has_account(alias) implies #[trigger] after.has_account(
        alias,
    ) by {
        let i = choose|i: int|
            0 <= i < config.accounts.len() && #[trigger] config.accounts[i].alias == alias;
        assert(after.accounts[i].alias == alias);
    }
    assert(after.valid_accounts()) by {
        assert forall|i: int| 0 <= i < after.accounts.len() implies {
            &&& storage::valid_name((#[trigger] after.accounts[i]).alias)
            &&& after.accounts[i].user_id.len() > 0
            &&& after.accounts[i].workspace_id.len() > 0
        } by {
            if i < config.accounts.len() {
                assert(after.accounts[i].alias == config.accounts[i].alias);
            }
        }
        assert forall|i: int, j: int|
            #![trigger after.accounts[i], after.accounts[j]]
            0 <= i < j < after.accounts.len() implies after.accounts[i].alias
            != after.accounts[j].alias && after.accounts[i].identity()
            != after.accounts[j].identity() by {
            assert(after.accounts[i].alias == config.accounts[i].alias);
            if j < config.accounts.len() {
                assert(after.accounts[j].alias == config.accounts[j].alias);
                assert(config.accounts[i].alias != config.accounts[j].alias);
            } else {
                assert(config.identity_at(account.identity()) is None);
                assert(!same_login[i]);
            }
        }
    }
    lemma_pools_stay_valid(config, after);
}

/// Pools stay valid where every account keeps its alias.
proof fn lemma_pools_stay_valid(before: ConfigModel, after: ConfigModel)
    requires
        before.valid(),
        after.pools == before.pools,
        after.default_selection == before.default_selection,
        after.valid_accounts(),
        forall|alias: Seq<char>| before.has_account(alias) ==> #[trigger] after.has_account(alias),
    ensures
        after.valid(),
{
    assert forall|i: int| 0 <= i < after.pools.len() implies {
        &&& storage::valid_name((#[trigger] after.pools[i]).name)
        &&& after.valid_members(after.pools[i].accounts)
    } by {
        let members = before.pools[i].accounts;
        assert(before.valid_members(members));
        assert forall|k: int| 0 <= k < members.len() implies after.has_account(
            #[trigger] members[k],
        ) by {
            assert(before.has_account(members[k]));
        }
    }
    if let Some(SelectionModel::Pool(name)) = before.default_selection {
        assert(before.has_pool(name));
        let i = choose|i: int|
            0 <= i < before.pools.len() && #[trigger] before.pools[i].name == name;
        assert(after.pools[i].name == name);
    }
}

/// A login becomes an account exactly where it is an allowed ChatGPT login that tells its user, its
/// workspace and its tokens; the account has the asked alias and what the login tells. Otherwise the
/// first thing that is missing is told.
pub proof fn law_login_becomes_an_account(alias: Seq<char>, login: Option<LoginModel>)
    ensures
        ({
            let made = login_account(alias, login);
            let l = login->0;
            let good = login is Some && l.chatgpt && l.allowed;
            &&& made is Ok <==> good && l.user_id is Some && l.workspace_id is Some && l.plan is Some
            &&& made matches Ok(account) ==> {
                &&& account.alias == alias
                &&& Some(account.user_id) == l.user_id
                &&& Some(account.workspace_id) == l.workspace_id
                &&& account.email == l.email
                &&& Some(account.plan) == l.plan
            }
            &&& made == Err::<AccountModel, StoreError>(StoreError::NoStoredLogin)
                <==> login is None
            &&& made == Err::<AccountModel, StoreError>(StoreError::LoginNotAllowed)
                <==> login is Some && !(l.chatgpt && l.allowed)
            &&& made == Err::<AccountModel, StoreError>(StoreError::NoUserIdentity) <==> good
                && l.user_id is None
            &&& made == Err::<AccountModel, StoreError>(StoreError::NoWorkspaceIdentity) <==> good
                && l.user_id is Some && l.workspace_id is None
            &&& made == Err::<AccountModel, StoreError>(StoreError::TokensUnreadable) <==> good
                && l.user_id is Some && l.workspace_id is Some && l.plan is None
        }),
{
}

/// An import is refused where its login cannot become an account, where the store cannot be loaded,
/// and where another login has the alias; otherwise the account takes the alias under which its login
/// is stored, if it is.
pub proof fn law_import_is_planned(
    alias: Seq<char>,
    stored: Option<ConfigModel>,
    login: Option<LoginModel>,
)
    ensures
        ({
            let made = planned(alias, stored, login);
            let account = login_account(alias, login);
            let config = store::loaded(stored);
            let taken = exists|i: int|
                {
                    &&& 0 <= i < config->Ok_0.accounts.len()
                    &&& (#[trigger] config->Ok_0.accounts[i]).alias == account->Ok_0.alias
                    &&& config->Ok_0.accounts[i].user_id != account->Ok_0.user_id
                        || config->Ok_0.accounts[i].workspace_id != account->Ok_0.workspace_id
                };
            &&& account is Err ==> made is Err && made->Err_0 == account->Err_0
            &&& account is Ok && config is Err ==> made is Err && made->Err_0 == config->Err_0
            &&& account is Ok && config is Ok && taken ==> made is Err && made->Err_0
                == StoreError::AliasExists
            &&& account is Ok && config is Ok && !taken ==> made is Ok && made->Ok_0 == (
                config->Ok_0.resolved(account->Ok_0),
                config->Ok_0,
            )
        }),
{
    let config = store::loaded(stored)->Ok_0;
    let account = login_account(alias, login)->Ok_0;
    assert(config.alias_taken(account) == exists|i: int|
        {
            &&& 0 <= i < config.accounts.len()
            &&& (#[trigger] config.accounts[i]).alias == account.alias
            &&& config.accounts[i].user_id != account.user_id || config.accounts[i].workspace_id
                != account.workspace_id
        }) by {
        if config.alias_taken(account) {
            let i = choose|i: int|
                0 <= i < config.accounts.len() && #[trigger] config.accounts[i].alias
                    == account.alias && config.accounts[i].identity() != account.identity();
            assert(config.accounts[i].alias == account.alias);
        }
    }
}

/// An import changes nothing of an account but its alias, and that only to the one that is stored
/// for its login.
pub proof fn law_resolved_account(config: ConfigModel, account: AccountModel)
    ensures
        config.resolved(account).user_id == account.user_id,
        config.resolved(account).workspace_id == account.workspace_id,
        config.resolved(account).email == account.email,
        config.resolved(account).plan == account.plan,
        config.resolved(account).alias == account.alias || config.has_account(
            config.resolved(account).alias,
        ),
        (forall|i: int|
            0 <= i < config.accounts.len() ==> (#[trigger] config.accounts[i]).user_id
                != account.user_id || config.accounts[i].workspace_id != account.workspace_id)
            ==> config.resolved(account) == account,
{
    let flags = Seq::new(
        config.accounts.len(),
        |j: int| config.accounts[j].identity() == account.identity(),
    );
    lists::lemma_first(flags);
    if let Some(i) = lists::first(flags) {
        assert(config.accounts[i].user_id == account.user_id);
        assert(config.accounts[i].alias == config.resolved(account).alias);
    }
}

/// A new account comes last; one whose alias is stored takes that place, and the others stay.
pub proof fn law_account_takes_its_place(config: ConfigModel, account: AccountModel, i: int)
    ensures
        ({
            let after = config.with_account(account);
            &&& after.pools == config.pools && after.default_selection == config.default_selection
            &&& !config.has_account(account.alias) ==> after.accounts == config.accounts.push(
                account,
            )
            &&& config.has_account(account.alias) ==> after.accounts.len() == config.accounts.len()
            &&& 0 <= i < config.accounts.len() && config.accounts[i].alias != account.alias
                ==> after.accounts[i] == config.accounts[i]
            &&& 0 <= i < config.accounts.len() && config.accounts[i].alias == account.alias && (
            forall|j: int| 0 <= j < i ==> (#[trigger] config.accounts[j]).alias != account.alias)
                ==> after.accounts[i] == account
        }),
{
    let flags = Seq::new(
        config.accounts.len(),
        |k: int| config.accounts[k].alias == account.alias,
    );
    lists::lemma_first(flags);
    if let Some(k) = lists::first(flags) {
        assert(config.accounts[k].alias == account.alias);
        if 0 <= i < config.accounts.len() && config.accounts[i].alias == account.alias && (forall|
            j: int,
        |
            0 <= j < i ==> (#[trigger] config.accounts[j]).alias != account.alias) {
            lists::lemma_first_is(flags, i);
        }
    } else if config.has_account(account.alias) {
        let k = choose|k: int|
            0 <= k < config.accounts.len() && #[trigger] config.accounts[k].alias == account.alias;
        assert(flags[k]);
    }
}

} // verus!
