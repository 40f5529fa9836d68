//! What makes the stored accounts and pools valid, and why a request on them is refused.

use crate::account_pool::AccountPool;
use crate::account_pool::AccountPoolConfig;
use crate::account_pool::AccountSelection;
use crate::account_pool::ConfigModel;
use crate::account_pool::ManagedAccount;
use crate::account_pool::SelectionModel;
use crate::lists;
use crate::text;
use vstd::prelude::*;

verus! {

/// The most accounts that a pool can hold.
pub const POOL_LIMIT: usize = 128;

/// The longest name.
pub const NAME_LIMIT: usize = 64;

/// Why a request on the account store is refused.
#[derive(Clone, Copy, Debug, PartialEq, Eq, Structural)]
pub enum StoreError {
    InvalidName,
    InvalidIdentity,
    InvalidPool,
    UnknownDefaultAccount,
    UnknownDefaultPool,
    EphemeralStorage,
    LoginDisabled,
    NoStoredLogin,
    LoginNotAllowed,
    NoUserIdentity,
    NoWorkspaceIdentity,
    TokensUnreadable,
    AliasExists,
    LoginRemoved,
    IdentityChanged,
    LoginChanged,
    UnknownAccount,
    AccountInPool,
    PoolExists,
    UnknownPool,
    UnknownPoolName,
    AccountChanged,
    LoginRequired,
    CredentialsMismatch,
    NoUsableReset,
}

impl StoreError {
    /// The error in words. `name` is the account or pool that the request named.
    pub open spec fn words(self, name: Seq<char>) -> Seq<char> {
        match self {
            StoreError::InvalidName =>
                "Names must contain 1-64 letters, digits, underscores or hyphens"@,
            StoreError::InvalidIdentity => "Duplicate or invalid account identity"@,
            StoreError::InvalidPool =>
                "Pool must have a unique name and 1-128 distinct existing accounts"@,
            StoreError::UnknownDefaultAccount => "Unknown default account"@,
            StoreError::UnknownDefaultPool => "Unknown default pool"@,
            StoreError::EphemeralStorage =>
                "Named accounts require file, keyring or auto credential storage"@,
            StoreError::LoginDisabled => "ChatGPT login is disabled by authentication policy"@,
            StoreError::NoStoredLogin => "No stored ChatGPT login to import"@,
            StoreError::LoginNotAllowed =>
                "A locally managed ChatGPT login allowed by the authentication policy is required"@,
            StoreError::NoUserIdentity => "Login has no authenticated user identity"@,
            StoreError::NoWorkspaceIdentity => "Login has no workspace identity"@,
            StoreError::TokensUnreadable => "Login tokens could not be read"@,
            StoreError::AliasExists => "Account alias already exists: "@ + name,
            StoreError::LoginRemoved => "Login was removed while importing"@,
            StoreError::IdentityChanged => "Login identity changed during import"@,
            StoreError::LoginChanged => "Login changed during import"@,
            StoreError::UnknownAccount => "Unknown account"@,
            StoreError::AccountInPool => "Remove the account from its pools first"@,
            StoreError::PoolExists => "Pool already exists"@,
            StoreError::UnknownPool => "Unknown pool"@,
            StoreError::UnknownPoolName => "Unknown pool: "@ + name,
            StoreError::AccountChanged => "Account was removed or changed: "@ + name,
            StoreError::LoginRequired => "Account requires login"@,
            StoreError::CredentialsMismatch => "Stored credentials do not match account "@ + name,
            StoreError::NoUsableReset => "No usable banked reset is known"@,
        }
    }

    /// Puts the error in words. `name` is the account or pool that the request named.
    pub fn message(self, name: &str) -> (words: String)
        ensures
            words@ == self.words(name@),
    {
        let (fixed, named): (&str, bool) = match self {
            StoreError::InvalidName => (
                "Names must contain 1-64 letters, digits, underscores or hyphens",
                false,
            ),
            StoreError::InvalidIdentity => ("Duplicate or invalid account identity", false),
            StoreError::InvalidPool => (
                "Pool must have a unique name and 1-128 distinct existing accounts",
                false,
            ),
            StoreError::UnknownDefaultAccount => ("Unknown default account", false),
            StoreError::UnknownDefaultPool => ("Unknown default pool", false),
            StoreError::EphemeralStorage => (
                "Named accounts require file, keyring or auto credential storage",
                false,
            ),
            StoreError::LoginDisabled => (
                "ChatGPT login is disabled by authentication policy",
                false,
            ),
            StoreError::NoStoredLogin => ("No stored ChatGPT login to import", false),
            StoreError::LoginNotAllowed => (
                "A locally managed ChatGPT login allowed by the authentication policy is required",
                false,
            ),
            StoreError::NoUserIdentity => ("Login has no authenticated user identity", false),
            StoreError::NoWorkspaceIdentity => ("Login has no workspace identity", false),
            StoreError::TokensUnreadable => ("Login tokens could not be read", false),
            StoreError::AliasExists => ("Account alias already exists: ", true),
            StoreError::LoginRemoved => ("Login was removed while importing", false),
            StoreError::IdentityChanged => ("Login identity changed during import", false),
            StoreError::LoginChanged => ("Login changed during import", false),
            StoreError::UnknownAccount => ("Unknown account", false),
            StoreError::AccountInPool => ("Remove the account from its pools first", false),
            StoreError::PoolExists => ("Pool already exists", false),
            StoreError::UnknownPool => ("Unknown pool", false),
            StoreError::UnknownPoolName => ("Unknown pool: ", true),
            StoreError::AccountChanged => ("Account was removed or changed: ", true),
            StoreError::LoginRequired => ("Account requires login", false),
            StoreError::CredentialsMismatch => ("Stored credentials do not match account ", true),
            StoreError::NoUsableReset => ("No usable banked reset is known", false),
        };
        let mut words: String = fixed.to_owned();
        if named {
            words.append(name);
        }
        words
    }
}

/// A character that a name may hold.
pub open spec fn name_char(ch: char) -> bool {
    ('0' <= ch && ch <= '9') || ('a' <= ch && ch <= 'z') || ('A' <= ch && ch <= 'Z') || ch == '_'
        || ch == '-'
}

/// A name: one to sixty-four letters, digits, underscores or hyphens.
pub open spec fn valid_name(name: Seq<char>) -> bool {
    &&& 1 <= name.len() <= NAME_LIMIT
    &&& forall|i: int| 0 <= i < name.len() ==> name_char(#[trigger] name[i])
}

/// Checks a name.
pub fn validate_name(name: &str) -> (checked: Result<(), StoreError>)
    ensures
        checked == (if valid_name(name@) {
            Ok(())
        } else {
            Err(StoreError::InvalidName)
        }),
{
    let list: Vec<char> = text::characters(name);
    if list.len() == 0 || list.len() > NAME_LIMIT {
        return Err(StoreError::InvalidName);
    }
    let mut i: usize = 0;
    while i < list.len()
        invariant
            i <= list.len(),
            list@ == name@,
            forall|j: int| 0 <= j < i ==> name_char(#[trigger] name@[j]),
        decreases list.len() - i,
    {
        let ch: char = list[i];
        let allowed: bool = ('0' <= ch && ch <= '9') || ('a' <= ch && ch <= 'z') || ('A' <= ch && ch
            <= 'Z') || ch == '_' || ch == '-';
        if !allowed {
            return Err(StoreError::InvalidName);
        }
        i = i + 1;
    }
    Ok(())
}

impl ConfigModel {
    /// Some account has the alias.
    pub open spec fn has_account(self, alias: Seq<char>) -> bool {
        exists|i: int| 0 <= i < self.accounts.len() && #[trigger] self.accounts[i].alias == alias
    }

    /// Some pool has the name.
    pub open spec fn has_pool(self, name: Seq<char>) -> bool {
        exists|i: int| 0 <= i < self.pools.len() && #[trigger] self.pools[i].name == name
    }

    /// The position of the account with the alias.
    pub open spec fn account_at(self, alias: Seq<char>) -> Option<int> {
        lists::first(Seq::new(self.accounts.len(), |i: int| self.accounts[i].alias == alias))
    }

    /// The position of the pool with the name.
    pub open spec fn pool_at(self, name: Seq<char>) -> Option<int> {
        lists::first(Seq::new(self.pools.len(), |i: int| self.pools[i].name == name))
    }

    /// The position of the account that belongs to a user and workspace.
    pub open spec fn identity_at(self, identity: (Seq<char>, Seq<char>)) -> Option<int> {
        lists::first(
            Seq::new(self.accounts.len(), |i: int| self.accounts[i].identity() == identity),
        )
    }

    /// Every account has a name and an identity, and no two share either.
    pub open spec fn valid_accounts(self) -> bool {
        &&& forall|i: int|
            0 <= i < self.accounts.len() ==> {
                &&& valid_name((#[trigger] self.accounts[i]).alias)
                &&& self.accounts[i].user_id.len() > 0
                &&& self.accounts[i].workspace_id.len() > 0
            }
        &&& forall|i: int, j: int|
            #![trigger self.accounts[i], self.accounts[j]]
            0 <= i < j < self.accounts.len() ==> self.accounts[i].alias != self.accounts[j].alias
                && self.accounts[i].identity() != self.accounts[j].identity()
    }

    /// Every pool has a name of its own and one to 128 distinct accounts of the store.
    pub open spec fn valid_pools(self) -> bool {
        &&& forall|i: int|
            0 <= i < self.pools.len() ==> {
                &&& valid_name((#[trigger] self.pools[i]).name)
                &&& self.valid_members(self.pools[i].accounts)
            }
        &&& forall|i: int, j: int|
            #![trigger self.pools[i], self.pools[j]]
            0 <= i < j < self.pools.len() ==> self.pools[i].name != self.pools[j].name
    }

    /// One to 128 distinct aliases of the store.
    pub open spec fn valid_members(self, aliases: Seq<Seq<char>>) -> bool {
        &&& 1 <= aliases.len() <= POOL_LIMIT
        &&& forall|i: int, j: int|
            #![trigger aliases[i], aliases[j]]
            0 <= i < j < aliases.len() ==> aliases[i] != aliases[j]
        &&& forall|i: int| 0 <= i < aliases.len() ==> self.has_account(#[trigger] aliases[i])
    }

    /// The selection names an account or pool of the store.
    pub open spec fn offers(self, selection: SelectionModel) -> bool {
        match selection {
            SelectionModel::Account(alias) => self.has_account(alias),
            SelectionModel::Pool(name) => self.has_pool(name),
        }
    }

    /// The store can be used.
    pub open spec fn valid(self) -> bool {
        &&& self.valid_accounts()
        &&& self.valid_pools()
        &&& self.default_selection matches Some(selection) ==> self.offers(selection)
    }

    /// What is wrong with the account at a position, given those before it.
    pub open spec fn account_fault(self, i: int) -> Option<StoreError> {
        let account = self.accounts[i];
        if !valid_name(account.alias) {
            Some(StoreError::InvalidName)
        } else if account.user_id.len() == 0 || account.workspace_id.len() == 0 || exists|j: int|
            0 <= j < i && (#[trigger] self.accounts[j]).clashes(account) {
            Some(StoreError::InvalidIdentity)
        } else {
            None
        }
    }

    /// What is wrong with the pool at a position, given those before it.
    pub open spec fn pool_fault(self, i: int) -> Option<StoreError> {
        let pool = self.pools[i];
        if !valid_name(pool.name) {
            Some(StoreError::InvalidName)
        } else if !self.valid_members(pool.accounts) || exists|j: int|
            0 <= j < i && #[trigger] self.pools[j].name == pool.name {
            Some(StoreError::InvalidPool)
        } else {
            None
        }
    }

    /// What is wrong with the default selection.
    pub open spec fn default_fault(self) -> Option<StoreError> {
        match self.default_selection {
            Some(SelectionModel::Account(alias)) if !self.has_account(alias) => Some(
                StoreError::UnknownDefaultAccount,
            ),
            Some(SelectionModel::Pool(name)) if !self.has_pool(name) => Some(
                StoreError::UnknownDefaultPool,
            ),
            _ => None,
        }
    }

    /// The first thing that is wrong with the store: accounts first, then pools, then the default.
    pub open spec fn fault(self) -> Option<StoreError> {
        let accounts = first_fault(Seq::new(self.accounts.len(), |i: int| self.account_fault(i)));
        let pools = first_fault(Seq::new(self.pools.len(), |i: int| self.pool_fault(i)));
        if accounts is Some {
            accounts
        } else if pools is Some {
            pools
        } else {
            self.default_fault()
        }
    }

    /// The store, if nothing is wrong with it.
    pub open spec fn checked(self) -> Result<ConfigModel, StoreError> {
        match self.fault() {
            Some(error) => Err(error),
            None => Ok(self),
        }
    }
}

/// The first fault of a list.
pub open spec fn first_fault(faults: Seq<Option<StoreError>>) -> Option<StoreError>
    decreases faults.len(),
{
    if faults.len() == 0 {
        None
    } else if faults[0] is Some {
        faults[0]
    } else {
        first_fault(faults.drop_first())
    }
}

/// The first fault is the one with none before it.
proof fn lemma_first_fault(faults: Seq<Option<StoreError>>, i: int)
    requires
        0 <= i <= faults.len(),
        forall|j: int| 0 <= j < i ==> #[trigger] faults[j] is None,
    ensures
        i < faults.len() && faults[i] is Some ==> first_fault(faults) == faults[i],
        i == faults.len() ==> first_fault(faults) is None,
    decreases faults.len(),
{
    if faults.len() > 0 && i > 0 {
        assert(faults[0] is None);
        let rest = faults.drop_first();
        assert forall|j: int| 0 <= j < i - 1 implies #[trigger] rest[j] is None by {
            assert(rest[j] == faults[j + 1]);
        }
        lemma_first_fault(rest, i - 1);
        if i < faults.len() {
            assert(rest[i - 1] == faults[i]);
        }
    }
}

/// Where there is no first fault, there is none at all.
proof fn lemma_no_fault(faults: Seq<Option<StoreError>>)
    requires
        first_fault(faults) is None,
    ensures
        forall|j: int| 0 <= j < faults.len() ==> #[trigger] faults[j] is None,
    decreases faults.len(),
{
    if faults.len() > 0 {
        let rest = faults.drop_first();
        lemma_no_fault(rest);
        assert forall|j: int| 0 <= j < faults.len() implies #[trigger] faults[j] is None by {
            if j > 0 {
                assert(rest[j - 1] == faults[j]);
            }
        }
    }
}

/// Nothing is wrong with a store exactly when it is valid.
pub proof fn law_faultless_is_valid(config: ConfigModel)
    ensures
        config.fault() is None <==> config.valid(),
{
    let accounts = Seq::new(config.accounts.len(), |i: int| config.account_fault(i));
    let pools = Seq::new(config.pools.len(), |i: int| config.pool_fault(i));
    if config.fault() is None {
        lemma_no_fault(accounts);
        lemma_no_fault(pools);
        assert forall|i: int| 0 <= i < config.accounts.len() implies {
            &&& valid_name((#[trigger] config.accounts[i]).alias)
            &&& config.accounts[i].user_id.len() > 0
            &&& config.accounts[i].workspace_id.len() > 0
        } by {
            assert(accounts[i] is None);
        }
        assert forall|i: int, j: int|
            #![trigger config.accounts[i], config.accounts[j]]
            0 <= i < j < config.accounts.len() implies config.accounts[i].alias
            != config.accounts[j].alias && config.accounts[i].identity()
            != config.accounts[j].identity() by {
            assert(accounts[j] is None);
            assert(!config.accounts[i].clashes(config.accounts[j]));
        }
        assert forall|i: int| 0 <= i < config.pools.len() implies {
            &&& valid_name((#[trigger] config.pools[i]).name)
            &&& config.valid_members(config.pools[i].accounts)
        } by {
            assert(pools[i] is None);
        }
        assert forall|i: int, j: int|
            #![trigger config.pools[i], config.pools[j]]
            0 <= i < j < config.pools.len() implies config.pools[i].name
            != config.pools[j].name by {
            assert(pools[j] is None);
        }
    }
    if config.valid() {
        assert forall|i: int| 0 <= i < accounts.len() implies #[trigger] accounts[i] is None by {
            let account = config.accounts[i];
            assert forall|j: int| 0 <= j < i implies !(#[trigger] config.accounts[j]).clashes(
                account,
            ) by {}
        }
        lemma_first_fault(accounts, accounts.len() as int);
        assert forall|i: int| 0 <= i < pools.len() implies #[trigger] pools[i] is None by {
            let pool = config.pools[i];
            assert forall|j: int| 0 <= j < i implies #[trigger] config.pools[j].name
                != pool.name by {}
        }
        lemma_first_fault(pools, pools.len() as int);
    }
}

/// Whether an account of the list has the alias.
fn lists_alias(accounts: &Vec<ManagedAccount>, alias: &str) -> (found: bool)
    ensures
        found <==> exists|i: int|
            0 <= i < text::views(accounts@).len() && #[trigger] text::views(accounts@)[i].alias
                == alias@,
{
    let ghost models = text::views(accounts@);
    let mut i: usize = 0;
    while i < accounts.len()
        invariant
            i <= accounts.len(),
            models == text::views(accounts@),
            forall|j: int| 0 <= j < i ==> #[trigger] models[j].alias != alias@,
        decreases accounts.len() - i,
    {
        if text::same_text(accounts[i].alias.as_str(), alias) {
            assert(models[i as int].alias == alias@);
            return true;
        }
        i = i + 1;
    }
    false
}

/// Checks one account against those before it.
fn check_account(config: &AccountPoolConfig, i: usize) -> (fault: Option<StoreError>)
    requires
        i < config.accounts.len(),
    ensures
        fault == config@.account_fault(i as int),
{
    let account: &ManagedAccount = &config.accounts[i];
    let ghost models = config@.accounts;
    assert(models[i as int] == account@);
    if let Err(error) = validate_name(account.alias.as_str()) {
        return Some(error);
    }
    if account.user_id.as_str().unicode_len() == 0 || account.workspace_id.as_str().unicode_len()
        == 0 {
        return Some(StoreError::InvalidIdentity);
    }
    let mut j: usize = 0;
    while j < i
        invariant
            j <= i < config.accounts.len(),
            models == config@.accounts,
            account@ == models[i as int],
            valid_name(account@.alias),
            account@.user_id.len() > 0,
            account@.workspace_id.len() > 0,
            forall|k: int| 0 <= k < j ==> !(#[trigger] models[k]).clashes(account@),
        decreases i - j,
    {
        assert(models[j as int] == config.accounts@[j as int]@);
        if text::same_text(config.accounts[j].alias.as_str(), account.alias.as_str())
            || config.accounts[j].same_identity(account) {
            return Some(StoreError::InvalidIdentity);
        }
        j = j + 1;
    }
    None
}

/// Whether aliases can make up a pool.
fn check_members(config: &AccountPoolConfig, aliases: &Vec<String>) -> (valid: bool)
    ensures
        valid == config@.valid_members(text::views(aliases@)),
{
    if aliases.len() == 0 || aliases.len() > POOL_LIMIT {
        return false;
    }
    let ghost names = text::views(aliases@);
    let mut i: usize = 0;
    while i < aliases.len()
        invariant
            i <= aliases.len(),
            names == text::views(aliases@),
            forall|j: int, k: int|
                #![trigger names[j], names[k]]
                0 <= j < k < i ==> names[j] != names[k],
            forall|j: int| 0 <= j < i ==> config@.has_account(#[trigger] names[j]),
        decreases aliases.len() - i,
    {
        assert(names[i as int] == aliases@[i as int]@);
        if !lists_alias(&config.accounts, aliases[i].as_str()) {
            return false;
        }
        let mut j: usize = 0;
        while j < i
            invariant
                j <= i < aliases.len(),
                names == text::views(aliases@),
                forall|k: int| 0 <= k < j ==> #[trigger] names[k] != names[i as int],
            decreases i - j,
        {
            if text::same_text(aliases[j].as_str(), aliases[i].as_str()) {
                assert(names[j as int] == names[i as int]);
                return false;
            }
            j = j + 1;
        }
        i = i + 1;
    }
    true
}

/// Checks one pool against those before it.
fn check_pool(config: &AccountPoolConfig, i: usize) -> (fault: Option<StoreError>)
    requires
        i < config.pools.len(),
    ensures
        fault == config@.pool_fault(i as int),
{
    let pool: &AccountPool = &config.pools[i];
    let ghost models = config@.pools;
    assert(models[i as int] == pool@);
    if let Err(error) = validate_name(pool.name.as_str()) {
        return Some(error);
    }
    if !check_members(config, &pool.accounts) {
        return Some(StoreError::InvalidPool);
    }
    let mut j: usize = 0;
    while j < i
        invariant
            j <= i < config.pools.len(),
            models == config@.pools,
            pool@ == models[i as int],
            valid_name(pool@.name),
            config@.valid_members(pool@.accounts),
            forall|k: int| 0 <= k < j ==> #[trigger] models[k].name != pool@.name,
        decreases i - j,
    {
        assert(models[j as int] == config.pools@[j as int]@);
        if text::same_text(config.pools[j].name.as_str(), pool.name.as_str()) {
            assert(config@.pools[j as int].name == pool@.name);
            return Some(StoreError::InvalidPool);
        }
        j = j + 1;
    }
    None
}

/// The position of the pool with a name.
pub fn find_pool(config: &AccountPoolConfig, name: &str) -> (found: Option<usize>)
    ensures
        (match found {
            Some(i) => Some(i as int),
            None => None,
        }) == config@.pool_at(name@),
        found matches Some(i) ==> i < config.pools.len() && config@.pools[i as int].name == name@,
        found is Some <==> config@.has_pool(name@),
{
    let ghost flags = Seq::new(config@.pools.len(), |i: int| config@.pools[i].name == name@);
    let mut i: usize = 0;
    while i < config.pools.len()
        invariant
            i <= config.pools.len(),
            flags == Seq::new(config@.pools.len(), |i: int| config@.pools[i].name == name@),
            forall|j: int| 0 <= j < i ==> !#[trigger] flags[j],
        decreases config.pools.len() - i,
    {
        assert(config@.pools[i as int] == config.pools@[i as int]@);
        if text::same_text(config.pools[i].name.as_str(), name) {
            proof {
                lists::lemma_first_is(flags, i as int);
            }
            return Some(i);
        }
        i = i + 1;
    }
    proof {
        lists::lemma_first_none(flags);
        assert forall|j: int| 0 <= j < config@.pools.len() implies #[trigger] config@.pools[j].name
            != name@ by {
            assert(!flags[j]);
        }
    }
    None
}

/// The position of the account with an alias.
pub fn find_account(config: &AccountPoolConfig, alias: &str) -> (found: Option<usize>)
    ensures
        (match found {
            Some(i) => Some(i as int),
            None => None,
        }) == config@.account_at(alias@),
        found matches Some(i) ==> i < config.accounts.len() && config@.accounts[i as int].alias
            == alias@,
        found is Some <==> config@.has_account(alias@),
{
    let ghost flags = Seq::new(
        config@.accounts.len(),
        |i: int| config@.accounts[i].alias == alias@,
    );
    let mut i: usize = 0;
    while i < config.accounts.len()
        invariant
            i <= config.accounts.len(),
            flags == Seq::new(
                config@.accounts.len(),
                |i: int| config@.accounts[i].alias == alias@,
            ),
            forall|j: int| 0 <= j < i ==> !#[trigger] flags[j],
        decreases config.accounts.len() - i,
    {
        assert(config@.accounts[i as int] == config.accounts@[i as int]@);
        if text::same_text(config.accounts[i].alias.as_str(), alias) {
            proof {
                lists::lemma_first_is(flags, i as int);
            }
            return Some(i);
        }
        i = i + 1;
    }
    proof {
        lists::lemma_first_none(flags);
        assert forall|j: int|
            0 <= j < config@.accounts.len() implies #[trigger] config@.accounts[j].alias
            != alias@ by {
            assert(!flags[j]);
        }
    }
    None
}

/// Checks a whole store.
pub fn validate_config(config: &AccountPoolConfig) -> (checked: Result<(), StoreError>)
    ensures
        checked == (match config@.fault() {
            Some(error) => Err(error),
            None => Ok(()),
        }),
        checked is Ok <==> config@.valid(),
{
    let ghost accounts = Seq::new(config@.accounts.len(), |i: int| config@.account_fault(i));
    let ghost pools = Seq::new(config@.pools.len(), |i: int| config@.pool_fault(i));
    proof {
        law_faultless_is_valid(config@);
    }
    let mut i: usize = 0;
    while i < config.accounts.len()
        invariant
            i <= config.accounts.len(),
            accounts == Seq::new(config@.accounts.len(), |i: int| config@.account_fault(i)),
            forall|j: int| 0 <= j < i ==> #[trigger] accounts[j] is None,
            config@.fault() is None <==> config@.valid(),
        decreases config.accounts.len() - i,
    {
        if let Some(error) = check_account(config, i) {
            proof {
                lemma_first_fault(accounts, i as int);
            }
            return Err(error);
        }
        i = i + 1;
    }
    proof {
        lemma_first_fault(accounts, i as int);
    }
    let mut k: usize = 0;
    while k < config.pools.len()
        invariant
            k <= config.pools.len(),
            accounts == Seq::new(config@.accounts.len(), |i: int| config@.account_fault(i)),
            first_fault(accounts) is None,
            pools == Seq::new(config@.pools.len(), |i: int| config@.pool_fault(i)),
            forall|j: int| 0 <= j < k ==> #[trigger] pools[j] is None,
            config@.fault() is None <==> config@.valid(),
        decreases config.pools.len() - k,
    {
        if let Some(error) = check_pool(config, k) {
            proof {
                lemma_first_fault(pools, k as int);
            }
            return Err(error);
        }
        k = k + 1;
    }
    proof {
        lemma_first_fault(pools, k as int);
    }
    match &config.default_selection {
        Some(AccountSelection::Account(alias)) => {
            if !lists_alias(&config.accounts, alias.as_str()) {
                return Err(StoreError::UnknownDefaultAccount);
            }
        },
        Some(AccountSelection::Pool(name)) => {
            if find_pool(config, name.as_str()).is_none() {
                return Err(StoreError::UnknownDefaultPool);
            }
        },
        None => {},
    }
    Ok(())
}

/// A name has one to sixty-four characters, each of them an ASCII letter or digit, an underscore or
/// a hyphen.
pub proof fn law_names(name: Seq<char>)
    ensures
        valid_name(name) <==> {
            &&& name.len() >= 1
            &&& name.len() <= 64
            &&& forall|i: int|
                0 <= i < name.len() ==> {
                    ||| 'a' <= #[trigger] name[i] && name[i] <= 'z'
                    ||| 'A' <= name[i] && name[i] <= 'Z'
                    ||| '0' <= name[i] && name[i] <= '9'
                    ||| name[i] == '_'
                    ||| name[i] == '-'
                }
        },
{
}

/// A store is valid exactly where its accounts have valid and distinct aliases and distinct logins
/// with a user and a workspace, its pools have valid and distinct names and one to a hundred and
/// twenty-eight distinct stored accounts each, and its default, if any, is stored.
pub proof fn law_valid_store(config: ConfigModel)
    ensures
        config.valid() <==> {
            &&& forall|i: int|
                0 <= i < config.accounts.len() ==> valid_name((#[trigger] config.accounts[i]).alias)
                    && config.accounts[i].user_id.len() >= 1
                    && config.accounts[i].workspace_id.len() >= 1
            &&& forall|i: int, j: int|
                #![trigger config.accounts[i], config.accounts[j]]
                0 <= i < config.accounts.len() && 0 <= j < config.accounts.len() && i != j ==> {
                    &&& config.accounts[i].alias != config.accounts[j].alias
                    &&& config.accounts[i].user_id != config.accounts[j].user_id
                        || config.accounts[i].workspace_id != config.accounts[j].workspace_id
                }
            &&& forall|i: int|
                0 <= i < config.pools.len() ==> {
                    let members = (#[trigger] config.pools[i]).accounts;
                    &&& valid_name(config.pools[i].name)
                    &&& 1 <= members.len() <= 128
                    &&& members.no_duplicates()
                    &&& forall|k: int|
                        0 <= k < members.len() ==> config.has_account(#[trigger] members[k])
                }
            &&& forall|i: int, j: int|
                #![trigger config.pools[i], config.pools[j]]
                0 <= i < config.pools.len() && 0 <= j < config.pools.len() && i != j
                    ==> config.pools[i].name != config.pools[j].name
            &&& match config.default_selection {
                None => true,
                Some(SelectionModel::Account(alias)) => config.has_account(alias),
                Some(SelectionModel::Pool(name)) => config.has_pool(name),
            }
        },
{
    assert forall|i: int| 0 <= i < config.pools.len() implies config.valid_members(
        (#[trigger] config.pools[i]).accounts,
    ) == ({
        let members = config.pools[i].accounts;
        &&& 1 <= members.len() <= 128
        &&& members.no_duplicates()
        &&& forall|k: int| 0 <= k < members.len() ==> config.has_account(#[trigger] members[k])
    }) by {
        let members = config.pools[i].accounts;
        if config.valid_members(members) {
            assert(members.no_duplicates());
        }
        if members.no_duplicates() {
            assert forall|a: int, b: int|
                #![trigger members[a], members[b]]
                0 <= a < b < members.len() implies members[a] != members[b] by {}
        }
    }
}

/// An account is stored under an alias, and a pool under a name, where one is listed so; the first
/// that is listed so is found.
pub proof fn law_stored_items_are_found(config: ConfigModel, name: Seq<char>, i: int)
    ensures
        config.has_account(name) <==> exists|k: int|
            0 <= k < config.accounts.len() && (#[trigger] config.accounts[k]).alias == name,
        config.has_pool(name) <==> exists|k: int|
            0 <= k < config.pools.len() && (#[trigger] config.pools[k]).name == name,
        config.account_at(name) == Some(i) <==> {
            &&& 0 <= i < config.accounts.len() && config.accounts[i].alias == name
            &&& forall|j: int| 0 <= j < i ==> (#[trigger] config.accounts[j]).alias != name
        },
        config.pool_at(name) == Some(i) <==> {
            &&& 0 <= i < config.pools.len() && config.pools[i].name == name
            &&& forall|j: int| 0 <= j < i ==> (#[trigger] config.pools[j]).name != name
        },
{
    let aliases = Seq::new(config.accounts.len(), |k: int| config.accounts[k].alias == name);
    let names = Seq::new(config.pools.len(), |k: int| config.pools[k].name == name);
    lists::lemma_first(aliases);
    lists::lemma_first(names);
    if config.account_at(name) == Some(i) {
        assert forall|j: int| 0 <= j < i implies (#[trigger] config.accounts[j]).alias != name by {
            assert(!aliases[j]);
        }
    }
    if config.pool_at(name) == Some(i) {
        assert forall|j: int| 0 <= j < i implies (#[trigger] config.pools[j]).name != name by {
            assert(!names[j]);
        }
    }
    if 0 <= i < config.accounts.len() && config.accounts[i].alias == name && (forall|j: int|
        0 <= j < i ==> (#[trigger] config.accounts[j]).alias != name) {
        lists::lemma_first_is(aliases, i);
    }
    if 0 <= i < config.pools.len() && config.pools[i].name == name && (forall|j: int|
        0 <= j < i ==> (#[trigger] config.pools[j]).name != name) {
        lists::lemma_first_is(names, i);
    }
}

/// What is wrong with an account is its name first; else it lacks a user or a workspace, or shares
/// its alias or its login with an account before it.
pub proof fn law_account_faults(config: ConfigModel, i: int)
    requires
        0 <= i < config.accounts.len(),
    ensures
        ({
            let account = config.accounts[i];
            let shared = exists|j: int|
                0 <= j < i && ((#[trigger] config.accounts[j]).alias == account.alias || (
                config.accounts[j].user_id == account.user_id && config.accounts[j].workspace_id
                    == account.workspace_id));
            let anonymous = account.user_id.len() == 0 || account.workspace_id.len() == 0;
            &&& config.account_fault(i) == Some(StoreError::InvalidName) <==> !valid_name(
                account.alias,
            )
            &&& config.account_fault(i) == Some(StoreError::InvalidIdentity) <==> valid_name(
                account.alias,
            ) && (anonymous || shared)
            &&& config.account_fault(i) is None <==> valid_name(account.alias) && !anonymous
                && !shared
        }),
{
    let account = config.accounts[i];
    assert forall|j: int| 0 <= j < i implies (#[trigger] config.accounts[j]).clashes(account) == (
    config.accounts[j].alias == account.alias || (config.accounts[j].user_id == account.user_id
        && config.accounts[j].workspace_id == account.workspace_id)) by {}
}

/// What is wrong with a pool is its name first; else it has no or too many accounts, one twice or
/// one that is not stored, or shares its name with a pool before it.
pub proof fn law_pool_faults(config: ConfigModel, i: int)
    requires
        0 <= i < config.pools.len(),
    ensures
        ({
            let pool = config.pools[i];
            let members = config.valid_members(pool.accounts);
            let shared = exists|j: int|
                0 <= j < i && (#[trigger] config.pools[j]).name == pool.name;
            &&& config.pool_fault(i) == Some(StoreError::InvalidName) <==> !valid_name(pool.name)
            &&& config.pool_fault(i) == Some(StoreError::InvalidPool) <==> valid_name(pool.name) && (
            !members || shared)
            &&& config.pool_fault(i) is None <==> valid_name(pool.name) && members && !shared
        }),
{
}

/// The fault of a store is that of its first bad account; with none, that of its first bad pool; with
/// none, that of its default.
pub proof fn law_first_fault_is_told(config: ConfigModel, i: int)
    ensures
        0 <= i < config.accounts.len() && config.account_fault(i) is Some && (forall|j: int|
            0 <= j < i ==> (#[trigger] config.account_fault(j)) is None) ==> config.fault()
            == config.account_fault(i),
        0 <= i < config.pools.len() && config.pool_fault(i) is Some && (forall|j: int|
            0 <= j < i ==> (#[trigger] config.pool_fault(j)) is None) && (forall|j: int|
            0 <= j < config.accounts.len() ==> (#[trigger] config.account_fault(j)) is None)
            ==> config.fault() == config.pool_fault(i),
        (forall|j: int|
            0 <= j < config.accounts.len() ==> (#[trigger] config.account_fault(j)) is None) && (
        forall|j: int| 0 <= j < config.pools.len() ==> (#[trigger] config.pool_fault(j)) is None)
            ==> config.fault() == (match config.default_selection {
            None => None,
            Some(SelectionModel::Account(alias)) => if config.has_account(alias) {
                None
            } else {
                Some(StoreError::UnknownDefaultAccount)
            },
            Some(SelectionModel::Pool(name)) => if config.has_pool(name) {
                None
            } else {
                Some(StoreError::UnknownDefaultPool)
            },
        }),
        config.fault() is None ==> config.checked() == Ok::<ConfigModel, StoreError>(config),
        config.fault() is Some ==> config.checked() == Err::<ConfigModel, StoreError>(
            config.fault()->0,
        ),
{
    let accounts = Seq::new(config.accounts.len(), |k: int| config.account_fault(k));
    let pools = Seq::new(config.pools.len(), |k: int| config.pool_fault(k));
    if forall|j: int|
        0 <= j < config.accounts.len() ==> (#[trigger] config.account_fault(j)) is None {
        assert forall|j: int| 0 <= j < accounts.len() implies #[trigger] accounts[j] is None by {
            assert(config.account_fault(j) is None);
        }
        lemma_no_fault_is_first(accounts);
    }
    if forall|j: int| 0 <= j < config.pools.len() ==> (#[trigger] config.pool_fault(j)) is None {
        assert forall|j: int| 0 <= j < pools.len() implies #[trigger] pools[j] is None by {
            assert(config.pool_fault(j) is None);
        }
        lemma_no_fault_is_first(pools);
    }
    if 0 <= i < config.accounts.len() && config.account_fault(i) is Some && (forall|j: int|
        0 <= j < i ==> (#[trigger] config.account_fault(j)) is None) {
        assert forall|j: int| 0 <= j < i implies #[trigger] accounts[j] is None by {
            assert(config.account_fault(j) is None);
        }
        lemma_fault_is_first(accounts, i);
    }
    if 0 <= i < config.pools.len() && config.pool_fault(i) is Some && (forall|j: int|
        0 <= j < i ==> (#[trigger] config.pool_fault(j)) is None) {
        assert forall|j: int| 0 <= j < i implies #[trigger] pools[j] is None by {
            assert(config.pool_fault(j) is None);
        }
        lemma_fault_is_first(pools, i);
    }
}

/// A fault with none before it is the first.
proof fn lemma_fault_is_first(faults: Seq<Option<StoreError>>, i: int)
    requires
        0 <= i < faults.len(),
        faults[i] is Some,
        forall|j: int| 0 <= j < i ==> #[trigger] faults[j] is None,
    ensures
        first_fault(faults) == faults[i],
    decreases faults.len(),
{
    if i > 0 {
        assert(faults[0] is None);
        let rest = faults.drop_first();
        assert forall|j: int| 0 <= j < i - 1 implies #[trigger] rest[j] is None by {
            assert(faults[j + 1] is None);
        }
        lemma_fault_is_first(rest, i - 1);
    }
}

/// Where there is no fault, none is first.
proof fn lemma_no_fault_is_first(faults: Seq<Option<StoreError>>)
    requires
        forall|j: int| 0 <= j < faults.len() ==> #[trigger] faults[j] is None,
    ensures
        first_fault(faults) is None,
    decreases faults.len(),
{
    if faults.len() > 0 {
        let rest = faults.drop_first();
        assert forall|j: int| 0 <= j < rest.len() implies #[trigger] rest[j] is None by {
            assert(faults[j + 1] is None);
        }
        lemma_no_fault_is_first(rest);
    }
}

/// What is wrong with a store or a login is told in words, with the name of the account or pool where
/// that helps.
pub proof fn law_store_errors_are_told(name: Seq<char>)
    ensures
        StoreError::InvalidName.words(name) == "Names must contain 1-64 letters, digits, underscores or hyphens"@,
        StoreError::InvalidIdentity.words(name) == "Duplicate or invalid account identity"@,
        StoreError::InvalidPool.words(name) == "Pool must have a unique name and 1-128 distinct existing accounts"@,
        StoreError::UnknownDefaultAccount.words(name) == "Unknown default account"@,
        StoreError::UnknownDefaultPool.words(name) == "Unknown default pool"@,
        StoreError::EphemeralStorage.words(name) == "Named accounts require file, keyring or auto credential storage"@,
        StoreError::LoginDisabled.words(name) == "ChatGPT login is disabled by authentication policy"@,
        StoreError::NoStoredLogin.words(name) == "No stored ChatGPT login to import"@,
        StoreError::LoginNotAllowed.words(name) == "A locally managed ChatGPT login allowed by the authentication policy is required"@,
        StoreError::NoUserIdentity.words(name) == "Login has no authenticated user identity"@,
        StoreError::NoWorkspaceIdentity.words(name) == "Login has no workspace identity"@,
        StoreError::TokensUnreadable.words(name) == "Login tokens could not be read"@,
        StoreError::AliasExists.words(name) == "Account alias already exists: "@ + name,
        StoreError::LoginRemoved.words(name) == "Login was removed while importing"@,
        StoreError::IdentityChanged.words(name) == "Login identity changed during import"@,
        StoreError::LoginChanged.words(name) == "Login changed during import"@,
        StoreError::UnknownAccount.words(name) == "Unknown account"@,
        StoreError::AccountInPool.words(name) == "Remove the account from its pools first"@,
        StoreError::PoolExists.words(name) == "Pool already exists"@,
        StoreError::UnknownPool.words(name) == "Unknown pool"@,
        StoreError::UnknownPoolName.words(name) == "Unknown pool: "@ + name,
        StoreError::AccountChanged.words(name) == "Account was removed or changed: "@ + name,
        StoreError::LoginRequired.words(name) == "Account requires login"@,
        StoreError::CredentialsMismatch.words(name) == "Stored credentials do not match account "@ + name,
        StoreError::NoUsableReset.words(name) == "No usable banked reset is known"@,
{
}

} // verus!
