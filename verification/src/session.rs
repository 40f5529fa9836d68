//! A session's own selection. Only credential refresh and reset transactions are shared between
//! sessions.

use crate::account_pool::AccountModel;
use crate::account_pool::AccountPool;
use crate::account_pool::AccountPoolConfig;
use crate::account_pool::AccountSelection;
use crate::account_pool::ConfigModel;
use crate::account_pool::ManagedAccount;
use crate::account_pool::ManagedAccountUsage;
use crate::account_pool::PoolModel;
use crate::account_pool::SelectionModel;
use crate::denials::Denials;
use crate::lists;
use crate::membership;
use crate::membership::MembershipModel;
use crate::membership::PoolMembership;
use crate::policy;
use crate::preferences;
use crate::preferences::Preferences;
use crate::storage;
use crate::storage::StoreError;
use crate::store;
use crate::store::Login;
use crate::store::LoginModel;
use crate::text;
use vstd::prelude::*;

verus! {

/// What is kept of a session so that a resumed thread finds its account again.
#[derive(Clone, Debug, PartialEq, Eq)]
pub struct RecoveryState {
    pub selection: AccountSelection,
    pub account: String,
    pub waiting: bool,
}

/// A `RecoveryState` as a mathematical value.
pub struct StateModel {
    pub selection: SelectionModel,
    pub account: Seq<char>,
    pub waiting: bool,
}

impl View for RecoveryState {
    type V = StateModel;

    open spec fn view(&self) -> StateModel {
        StateModel {
            selection: self.selection@,
            account: self.account@,
            waiting: self.waiting,
        }
    }
}

/// A session that runs on a managed account or pool.
#[derive(Debug, PartialEq, Eq)]
pub struct PoolSession {
    pub selection: AccountSelection,
    pub membership: PoolMembership,
    pub waiting: bool,
    pub needs_preflight: bool,
    pub current: ManagedAccount,
    pub denied: Denials,
    pub thread: Option<String>,
}

/// A `PoolSession` as a mathematical value.
pub struct SessionModel {
    pub selection: SelectionModel,
    pub membership: MembershipModel,
    pub waiting: bool,
    pub needs_preflight: bool,
    pub current: AccountModel,
    pub denied: Map<(Seq<char>, Seq<char>), i64>,
    pub thread: Option<Seq<char>>,
}

impl View for PoolSession {
    type V = SessionModel;

    open spec fn view(&self) -> SessionModel {
        SessionModel {
            selection: self.selection@,
            membership: self.membership@,
            waiting: self.waiting,
            needs_preflight: self.needs_preflight,
            current: self.current@,
            denied: self.denied@,
            thread: text::opt_view(self.thread),
        }
    }
}

/// What a preflight check comes to before any network read.
#[derive(Clone, Copy, Debug, PartialEq, Eq, Structural)]
pub enum Preflight {
    /// The session is waiting for quota: recover first.
    Recover,
    /// The session has been checked before.
    Ready,
    /// The usage of the current account is to be read.
    Check,
}

/// What a session uses: what it is told to, else what its thread used before, else the default.
pub open spec fn chosen(
    explicit: Option<SelectionModel>,
    saved: Option<StateModel>,
    config: ConfigModel,
) -> Option<SelectionModel> {
    if explicit is Some {
        explicit
    } else if saved is Some {
        Some(saved->0.selection)
    } else {
        config.default_selection
    }
}

/// The position of the alias in a list of accounts.
pub open spec fn alias_position(accounts: Seq<AccountModel>, alias: Seq<char>) -> Option<int> {
    lists::first(Seq::new(accounts.len(), |i: int| accounts[i].alias == alias))
}

/// The position of the account that a session starts on: the thread's own, else the one that last
/// served the pool, else the first.
pub open spec fn starting(
    selection: SelectionModel,
    saved: Option<StateModel>,
    preferences: Option<Map<Seq<char>, AccountModel>>,
    accounts: Seq<AccountModel>,
) -> int {
    let own = match saved {
        Some(saved) => if saved.selection == selection {
            alias_position(accounts, saved.account)
        } else {
            None
        },
        None => None,
    };
    let hint = preferences::preferred(preferences, selection, accounts);
    if own is Some {
        own->0
    } else if hint is Some {
        hint->0
    } else {
        0
    }
}

/// The session that is opened, or nothing where no account is managed.
pub open spec fn opened(
    stored: Option<ConfigModel>,
    explicit: Option<SelectionModel>,
    resumed: Option<Seq<char>>,
    saved: Option<StateModel>,
    preferences: Option<Map<Seq<char>, AccountModel>>,
) -> Result<Option<SessionModel>, StoreError> {
    let saved = if resumed is Some {
        saved
    } else {
        None
    };
    if resumed is Some && !storage::valid_name(resumed->0) {
        Err(StoreError::InvalidName)
    } else {
        match store::loaded(stored) {
            Err(error) => Err(error),
            Ok(config) => match chosen(explicit, saved, config) {
                None => Ok(None),
                Some(selection) => match config.membership(selection) {
                    Err(error) => Err(error),
                    Ok(membership) => Ok(
                        Some(
                            SessionModel {
                                selection,
                                membership,
                                waiting: saved is Some && saved->0.selection == selection
                                    && saved->0.waiting,
                                needs_preflight: true,
                                current: membership.accounts[starting(
                                    selection,
                                    saved,
                                    preferences,
                                    membership.accounts,
                                )],
                                denied: Map::empty(),
                                thread: None,
                            },
                        ),
                    ),
                },
            },
        }
    }
}

/// The position of the alias in a list of accounts.
fn find_alias(accounts: &Vec<ManagedAccount>, alias: &str) -> (found: Option<usize>)
    ensures
        (match found {
            Some(i) => Some(i as int),
            None => None,
        }) == alias_position(text::views(accounts@), alias@),
        found matches Some(i) ==> i < accounts.len(),
{
    let ghost models = text::views(accounts@);
    let ghost flags = Seq::new(models.len(), |i: int| models[i].alias == alias@);
    let mut i: usize = 0;
    while i < accounts.len()
        invariant
            i <= accounts.len(),
            models == text::views(accounts@),
            flags == Seq::new(models.len(), |i: int| models[i].alias == alias@),
            forall|j: int| 0 <= j < i ==> !#[trigger] flags[j],
        decreases accounts.len() - i,
    {
        if text::same_text(accounts[i].alias.as_str(), alias) {
            proof {
                lists::lemma_first_is(flags, i as int);
            }
            return Some(i);
        }
        i = i + 1;
    }
    proof {
        lists::lemma_first_none(flags);
    }
    None
}

impl PoolSession {
    /// The refusals are kept without repetition.
    pub open spec fn wf(self) -> bool {
        self.denied.wf()
    }

    /// The selection of a thread, as far as one was kept for it.
    pub fn saved_selection(thread_id: &str, saved: Option<RecoveryState>) -> (selection: Result<
        Option<AccountSelection>,
        StoreError,
    >)
        ensures
            (match selection {
                Ok(selection) => Ok(text::opt_view(selection)),
                Err(error) => Err(error),
            }) == (if !storage::valid_name(thread_id@) {
                Err(StoreError::InvalidName)
            } else {
                Ok(
                    match saved {
                        Some(saved) => Some(saved@.selection),
                        None => None,
                    },
                )
            }),
    {
        if let Err(error) = storage::validate_name(thread_id) {
            return Err(error);
        }
        match saved {
            Some(saved) => Ok(Some(saved.selection)),
            None => Ok(None),
        }
    }

    /// Opens a session. An explicit selection comes before what the resumed thread used, and that
    /// before the default; without any there is no managed session.
    pub fn open(
        stored: Option<AccountPoolConfig>,
        explicit: Option<AccountSelection>,
        resume_id: Option<&str>,
        saved: Option<RecoveryState>,
        preferences: &Option<Preferences>,
    ) -> (session: Result<Option<PoolSession>, StoreError>)
        requires
            preferences matches Some(preferences) ==> preferences.wf(),
        ensures
            (match session {
                Ok(session) => Ok(text::opt_view(session)),
                Err(error) => Err(error),
            }) == opened(
                text::opt_view(stored),
                text::opt_view(explicit),
                match resume_id {
                    Some(id) => Some(id@),
                    None => None,
                },
                text::opt_view(saved),
                text::opt_view(*preferences),
            ),
            session matches Ok(Some(session)) ==> session.wf(),
    {
        let saved: Option<RecoveryState> = match resume_id {
            Some(id) => {
                if let Err(error) = storage::validate_name(id) {
                    return Err(error);
                }
                saved
            },
            None => None,
        };
        let config: AccountPoolConfig = match store::load_config(stored) {
            Ok(config) => config,
            Err(error) => {
                return Err(error);
            },
        };
        let selection: AccountSelection = match explicit {
            Some(selection) => selection,
            None => match &saved {
                Some(saved) => saved.selection.clone(),
                None => match &config.default_selection {
                    Some(selection) => selection.clone(),
                    None => {
                        return Ok(None);
                    },
                },
            },
        };
        let membership: PoolMembership = match PoolMembership::from_config(&config, &selection) {
            Ok(membership) => membership,
            Err(error) => {
                return Err(error);
            },
        };
        proof {
            lemma_served_selection_is_offered(config@, selection@);
            membership::law_valid_store_serves_every_selection(config@, selection@);
        }
        let own: Option<usize> = match &saved {
            Some(saved) => {
                if saved.selection.same(&selection) {
                    find_alias(&membership.accounts, saved.account.as_str())
                } else {
                    None
                }
            },
            None => None,
        };
        let start: usize = match own {
            Some(i) => i,
            None => match preferences::preferred_account(
                preferences,
                &selection,
                &membership.accounts,
            ) {
                Some(i) => i,
                None => 0,
            },
        };
        let waiting: bool = match &saved {
            Some(saved) => saved.selection.same(&selection) && saved.waiting,
            None => false,
        };
        let current: ManagedAccount = membership.accounts[start].clone();
        assert(membership@.accounts[start as int] == current@);
        Ok(
            Some(
                PoolSession {
                    selection,
                    membership,
                    waiting,
                    needs_preflight: true,
                    current,
                    denied: Denials::new(),
                    thread: None,
                },
            ),
        )
    }

    /// The account in use, with the email and plan of its login where that is at hand.
    pub fn selected_account(&self, cached: &Option<Login>) -> (account: ManagedAccount)
        ensures
            account@ == described(self@.current, text::opt_view(*cached)),
    {
        let mut account: ManagedAccount = self.current.clone();
        if let Some(login) = cached {
            if login.is_of(&account) {
                account.email = text::clone_opt(&login.email);
                account.plan = match &login.plan {
                    Some(plan) => text::clone_opt(plan),
                    None => None,
                };
            }
        }
        account
    }

    /// Whether the session waits for quota.
    pub fn is_waiting(&self) -> (waiting: bool)
        ensures
            waiting == self@.waiting,
    {
        self.waiting
    }

    /// What the session runs on.
    pub fn selection(&self) -> (selection: &AccountSelection)
        ensures
            selection@ == self@.selection,
    {
        &self.selection
    }

    /// The last valid pool membership and policy observed by this session.
    pub fn pool(&self) -> (pool: Option<AccountPool>)
        ensures
            text::opt_view(pool) == (match self@.selection {
                SelectionModel::Pool(name) => Some(
                    PoolModel {
                        name,
                        accounts: Seq::new(
                            self@.membership.accounts.len(),
                            |i: int| self@.membership.accounts[i].alias,
                        ),
                        redeem_weekly_resets: self@.membership.redeem_weekly,
                    },
                ),
                SelectionModel::Account(_) => None,
            }),
    {
        match &self.selection {
            AccountSelection::Pool(name) => {
                let members: &Vec<ManagedAccount> = &self.membership.accounts;
                let mut accounts: Vec<String> = Vec::new();
                let mut i: usize = 0;
                while i < members.len()
                    invariant
                        i <= members.len(),
                        accounts.len() == i,
                        forall|j: int|
                            0 <= j < i ==> #[trigger] accounts@[j]@ == members@[j]@.alias,
                    decreases members.len() - i,
                {
                    accounts.push(members[i].alias.clone());
                    i = i + 1;
                }
                assert(text::views(accounts@) =~= Seq::new(
                    self@.membership.accounts.len(),
                    |i: int| self@.membership.accounts[i].alias,
                ));
                Some(
                    AccountPool {
                        name: name.clone(),
                        accounts,
                        redeem_weekly_resets: self.membership.redeem_weekly,
                    },
                )
            },
            AccountSelection::Account(_) => None,
        }
    }

    /// Binds the session to a thread, and gives what is to be kept for it.
    pub fn bind_thread(&mut self, thread_id: &str) -> (bound: Result<RecoveryState, StoreError>)
        requires
            old(self).wf(),
        ensures
            final(self).wf(),
            match bound {
                Ok(state) => {
                    &&& storage::valid_name(thread_id@)
                    &&& final(self)@ == SessionModel { thread: Some(thread_id@), ..old(self)@ }
                    &&& state@ == old(self)@.state(old(self)@.current, old(self)@.waiting)
                },
                Err(error) => {
                    &&& !storage::valid_name(thread_id@)
                    &&& error == StoreError::InvalidName
                    &&& final(self)@ == old(self)@
                },
            },
    {
        if let Err(error) = storage::validate_name(thread_id) {
            return Err(error);
        }
        self.thread = Some(thread_id.to_owned());
        Ok(
            RecoveryState {
                selection: self.selection.clone(),
                account: self.current.alias.clone(),
                waiting: self.waiting,
            },
        )
    }

    /// What is to be kept for the session's thread, if it has one.
    pub fn persist(&self, current: &ManagedAccount, waiting: bool) -> (state: Option<
        RecoveryState,
    >)
        ensures
            text::opt_view(state) == self@.kept(current@, waiting),
    {
        match &self.thread {
            Some(_) => Some(
                RecoveryState {
                    selection: self.selection.clone(),
                    account: current.alias.clone(),
                    waiting,
                },
            ),
            None => None,
        }
    }

    /// Whether other credentials are needed to use an account.
    pub fn needs_credentials(&self, account: &ManagedAccount) -> (needed: bool)
        ensures
            needed == (account@.identity() != self@.current.identity()),
    {
        !account.same_identity(&self.current)
    }

    /// Makes an account the current one, once its credentials are at hand.
    pub fn activate(&mut self, account: &ManagedAccount)
        requires
            old(self).wf(),
        ensures
            final(self).wf(),
            final(self)@ == (SessionModel { current: account@, ..old(self)@ }),
    {
        self.current = account.clone();
    }

    /// Remembers the account that served a pool, without changing any running session or the
    /// configured default. Gives the preferences to write, if anything changes.
    pub fn record_success(
        &self,
        current: &ManagedAccount,
        stored: Option<AccountPoolConfig>,
        preferences: Option<Preferences>,
    ) -> (recorded: Result<Option<Preferences>, StoreError>)
        requires
            preferences matches Some(preferences) ==> preferences.wf(),
        ensures
            (match recorded {
                Ok(preferences) => Ok(text::opt_view(preferences)),
                Err(error) => Err(error),
            }) == success(
                self@.selection,
                current@,
                text::opt_view(stored),
                text::opt_view(preferences),
            ),
            recorded matches Ok(Some(preferences)) ==> preferences.wf(),
    {
        let ghost want = success(
            self@.selection,
            current@,
            text::opt_view(stored),
            text::opt_view(preferences),
        );
        let pool: &String = match &self.selection {
            AccountSelection::Pool(pool) => pool,
            AccountSelection::Account(_) => {
                return Ok(None);
            },
        };
        let config: AccountPoolConfig = match store::load_config(stored) {
            Ok(config) => config,
            Err(error) => {
                return Err(error);
            },
        };
        let membership: PoolMembership = match PoolMembership::from_config(
            &config,
            &self.selection,
        ) {
            Ok(membership) => membership,
            Err(error) => {
                return Err(error);
            },
        };
        if !store::holds_account(&membership.accounts, current) {
            return Ok(None);
        }
        let mut preferences: Preferences = match preferences {
            Some(preferences) => preferences,
            None => Preferences::new(),
        };
        if let Some(known) = preferences.get(pool.as_str()) {
            if known.same(current) {
                return Ok(None);
            }
        }
        preferences.retain(&config.pools);
        preferences.insert(pool.as_str(), current);
        assert(preferences@ =~= want->Ok_0->0);
        Ok(Some(preferences))
    }

    /// The part of a preflight check that needs no network: quota is checked once, before the
    /// session's first inference, and a waiting session recovers first.
    pub fn preflight(&mut self) -> (preflight: Preflight)
        requires
            old(self).wf(),
        ensures
            final(self).wf(),
            preflight == (if old(self)@.waiting {
                Preflight::Recover
            } else if !old(self)@.needs_preflight {
                Preflight::Ready
            } else {
                Preflight::Check
            }),
            final(self)@ == (SessionModel {
                needs_preflight: old(self)@.needs_preflight && !old(self)@.waiting,
                ..old(self)@
            }),
    {
        if self.waiting {
            self.needs_preflight = false;
            Preflight::Recover
        } else if !self.needs_preflight {
            Preflight::Ready
        } else {
            Preflight::Check
        }
    }

    /// Whether the usage of the current account calls for recovery. Unknown usage is not rejection.
    pub fn needs_recovery(&mut self, usage: &ManagedAccountUsage, now: i64) -> (blocked: bool)
        requires
            old(self).wf(),
        ensures
            final(self).wf(),
            blocked == (usage@.known_at(now) && !usage@.usable_at(now)),
            final(self)@ == (SessionModel { needs_preflight: blocked, ..old(self)@ }),
    {
        let blocked: bool = policy::known(usage, now) && !policy::usable(usage, now);
        self.needs_preflight = blocked;
        blocked
    }
}

/// Whether credentials that were rejected are renewed: only where they are still in use. Where those
/// of another account have taken their place, these are used as they are.
pub fn renews_credentials(in_use: &Option<String>, rejected: &Option<String>) -> (renewed: bool)
    ensures
        renewed == (text::opt_view(*in_use) == text::opt_view(*rejected)),
{
    text::same_opt(in_use, rejected)
}

/// An account with the email and plan of its own login.
pub open spec fn described(account: AccountModel, login: Option<LoginModel>) -> AccountModel {
    match login {
        Some(login) => if login.belongs_to(account) {
            AccountModel {
                email: login.email,
                plan: match login.plan {
                    Some(plan) => plan,
                    None => None,
                },
                ..account
            }
        } else {
            account
        },
        None => account,
    }
}

impl SessionModel {
    /// What would be kept for the session's thread.
    pub open spec fn state(self, current: AccountModel, waiting: bool) -> StateModel {
        StateModel { selection: self.selection, account: current.alias, waiting }
    }

    /// What is kept for the session's thread, if it has one.
    pub open spec fn kept(self, current: AccountModel, waiting: bool) -> Option<StateModel> {
        if self.thread is Some {
            Some(self.state(current, waiting))
        } else {
            None
        }
    }
}

/// The preferences to write after a successful inference, if anything changes.
pub open spec fn success(
    selection: SelectionModel,
    current: AccountModel,
    stored: Option<ConfigModel>,
    preferences: Option<Map<Seq<char>, AccountModel>>,
) -> Result<Option<Map<Seq<char>, AccountModel>>, StoreError> {
    let known = match preferences {
        Some(map) => map,
        None => Map::empty(),
    };
    match (selection, store::loaded(stored)) {
        (SelectionModel::Account(_), _) => Ok(None),
        (SelectionModel::Pool(_), Err(error)) => Err(error),
        (SelectionModel::Pool(pool), Ok(config)) => match config.membership(selection) {
            Err(error) => Err(error),
            Ok(membership) => if !store::held(membership.accounts, current) || (known.contains_key(
                pool,
            ) && known[pool] == current) {
                Ok(None)
            } else {
                Ok(
                    Some(
                        known.restrict(
                            Set::new(|name: Seq<char>| preferences::listed(config.pools, name)),
                        ).insert(pool, current),
                    ),
                )
            },
        },
    }
}

/// A selection that a store serves is one that it offers.
proof fn lemma_served_selection_is_offered(config: ConfigModel, selection: SelectionModel)
    requires
        config.membership(selection) is Ok,
    ensures
        config.offers(selection),
{
    match selection {
        SelectionModel::Account(alias) => {
            assert(seq![alias][0] == alias);
            assert(config.has_account(seq![alias][0]));
        },
        SelectionModel::Pool(name) => {
            let flags = Seq::new(config.pools.len(), |i: int| config.pools[i].name == name);
            lists::lemma_first(flags);
            let i = config.pool_at(name)->0;
            assert(config.pools[i].name == name);
        },
    }
}

/// An explicit selection comes before what a resumed thread used, and that before the default.
pub proof fn law_explicit_then_saved_then_default(
    explicit: Option<SelectionModel>,
    saved: Option<StateModel>,
    config: ConfigModel,
)
    ensures
        explicit is Some ==> chosen(explicit, saved, config) == explicit,
        explicit is None && saved is Some ==> chosen(explicit, saved, config) == Some(
            saved->0.selection,
        ),
        explicit is None && saved is None ==> chosen(explicit, saved, config)
            == config.default_selection,
{
}

/// A session starts on a member of its selection: on the account that its thread used, where that
/// is still a member of the same selection.
pub proof fn law_session_starts_on_a_member(
    selection: SelectionModel,
    saved: Option<StateModel>,
    preferences: Option<Map<Seq<char>, AccountModel>>,
    accounts: Seq<AccountModel>,
)
    requires
        accounts.len() > 0,
    ensures
        0 <= starting(selection, saved, preferences, accounts) < accounts.len(),
        saved is Some && saved->0.selection == selection && (exists|i: int|
            0 <= i < accounts.len() && #[trigger] accounts[i].alias == saved->0.account)
            ==> accounts[starting(selection, saved, preferences, accounts)].alias
            == saved->0.account,
{
    if let Some(state) = saved {
        let flags = Seq::new(accounts.len(), |i: int| accounts[i].alias == state.account);
        lists::lemma_first(flags);
        if exists|i: int| 0 <= i < accounts.len() && #[trigger] accounts[i].alias == state.account {
            let i = choose|i: int|
                0 <= i < accounts.len() && #[trigger] accounts[i].alias == state.account;
            assert(flags[i]);
        }
    }
    if let (Some(map), SelectionModel::Pool(pool)) = (preferences, selection) {
        lists::lemma_first(Seq::new(accounts.len(), |i: int| accounts[i].names(map[pool])));
    }
}

/// A resumed thread goes on where it stopped: what was kept for it opens a session with the same
/// selection on the same account, waiting if it waited, for as long as the store still lists that
/// account for the selection. Preferences do not change that.
pub proof fn law_resumed_thread_goes_on(
    config: ConfigModel,
    session: SessionModel,
    current: AccountModel,
    waiting: bool,
    thread: Seq<char>,
    preferences: Option<Map<Seq<char>, AccountModel>>,
)
    requires
        config.valid(),
        storage::valid_name(thread),
        config.membership(session.selection) is Ok,
        config.membership(session.selection)->Ok_0.accounts.contains(current),
    ensures
        opened(
            Some(config),
            None,
            Some(thread),
            Some(session.state(current, waiting)),
            preferences,
        ) matches Ok(Some(resumed)) && {
            &&& resumed.selection == session.selection
            &&& resumed.current == current
            &&& resumed.waiting == waiting
        },
{
    let state = session.state(current, waiting);
    let accounts = config.membership(session.selection)->Ok_0.accounts;
    storage::law_faultless_is_valid(config);
    lemma_served_selection_is_offered(config, session.selection);
    membership::law_valid_store_serves_every_selection(config, session.selection);
    law_session_starts_on_a_member(session.selection, Some(state), preferences, accounts);
    let k = choose|k: int| 0 <= k < accounts.len() && accounts[k] == current;
    assert(accounts[k].alias == state.account);
    let start = starting(session.selection, Some(state), preferences, accounts);
    assert(accounts[start].alias == accounts[k].alias);
}

/// Recording a success for a pool sets that pool's preference, leaves those of other pools that
/// still exist, and drops those of pools that do not.
pub proof fn law_success_prefers_the_account(
    pool: Seq<char>,
    current: AccountModel,
    stored: Option<ConfigModel>,
    preferences: Map<Seq<char>, AccountModel>,
    other: Seq<char>,
)
    requires
        success(SelectionModel::Pool(pool), current, stored, Some(preferences)) matches Ok(Some(_)),
        other != pool,
    ensures
        ({
            let after = success(
                SelectionModel::Pool(pool),
                current,
                stored,
                Some(preferences),
            )->Ok_0->0;
            &&& after[pool] == current
            &&& after.contains_key(pool)
            &&& after.contains_key(other) <==> preferences.contains_key(other)
                && preferences::listed(store::loaded(stored)->Ok_0.pools, other)
            &&& after.contains_key(other) ==> after[other] == preferences[other]
        }),
{
}

/// A session starts on the account that its thread used with the same selection, where that is still
/// a member; else on the member that the pool prefers; else on the first.
pub proof fn law_starting_account(
    selection: SelectionModel,
    saved: Option<StateModel>,
    preferences: Option<Map<Seq<char>, AccountModel>>,
    accounts: Seq<AccountModel>,
    i: int,
)
    ensures
        saved is Some && saved->0.selection == selection && 0 <= i < accounts.len()
            && accounts[i].alias == saved->0.account && (forall|j: int|
            0 <= j < i ==> (#[trigger] accounts[j]).alias != saved->0.account) ==> starting(
            selection,
            saved,
            preferences,
            accounts,
        ) == i,
        saved is None || saved->0.selection != selection || (forall|j: int|
            0 <= j < accounts.len() ==> (#[trigger] accounts[j]).alias != saved->0.account)
            ==> starting(selection, saved, preferences, accounts) == (match preferences::preferred(
            preferences,
            selection,
            accounts,
        ) {
            Some(hint) => hint,
            None => 0,
        }),
{
    if let Some(state) = saved {
        let flags = Seq::new(accounts.len(), |k: int| accounts[k].alias == state.account);
        if 0 <= i < accounts.len() && accounts[i].alias == state.account && (forall|j: int|
            0 <= j < i ==> (#[trigger] accounts[j]).alias != state.account) {
            lists::lemma_first_is(flags, i);
        }
        if forall|j: int|
            0 <= j < accounts.len() ==> (#[trigger] accounts[j]).alias != state.account {
            lists::lemma_first_none(flags);
        }
    }
}

/// A session opens with the members of its selection in a store that can be loaded; without a
/// selection there is none. A resumed thread waits if it waited with the same selection. Every
/// session checks its account before the first request, has refused no account, and is not bound to
/// a thread yet. What was kept counts only for a thread that is resumed.
pub proof fn law_session_opens(
    stored: Option<ConfigModel>,
    explicit: Option<SelectionModel>,
    resumed: Option<Seq<char>>,
    saved: Option<StateModel>,
    preferences: Option<Map<Seq<char>, AccountModel>>,
)
    ensures
        ({
            let made = opened(stored, explicit, resumed, saved, preferences);
            let kept = if resumed is Some {
                saved
            } else {
                None
            };
            let config = store::loaded(stored);
            let selection = if explicit is Some {
                explicit
            } else if kept is Some {
                Some(kept->0.selection)
            } else {
                config->Ok_0.default_selection
            };
            let named = resumed is None || storage::valid_name(resumed->0);
            let members = config->Ok_0.membership(selection->0);
            &&& !named ==> made == Err::<Option<SessionModel>, StoreError>(StoreError::InvalidName)
            &&& named && config is Err ==> made == Err::<Option<SessionModel>, StoreError>(
                config->Err_0,
            )
            &&& named && config is Ok && selection is None ==> made == Ok::<
                Option<SessionModel>,
                StoreError,
            >(None)
            &&& named && config is Ok && selection is Some && members is Err ==> made == Err::<
                Option<SessionModel>,
                StoreError,
            >(members->Err_0)
            &&& named && config is Ok && selection is Some && members is Ok ==> {
                &&& made matches Ok(Some(session))
                &&& session.selection == selection->0
                &&& session.membership == members->Ok_0
                &&& session.current == members->Ok_0.accounts[starting(
                    selection->0,
                    kept,
                    preferences,
                    members->Ok_0.accounts,
                )]
                &&& session.waiting <==> kept is Some && kept->0.selection == selection->0
                    && kept->0.waiting
                &&& session.needs_preflight
                &&& session.thread is None
                &&& forall|identity: (Seq<char>, Seq<char>)|
                    !(#[trigger] session.denied.contains_key(identity))
            }
        }),
{
}

/// The account in use is described by the login that is loaded for it: its email and plan are those
/// of the login, where user and workspace agree; its alias and identity never change.
pub proof fn law_account_is_described_by_its_login(
    account: AccountModel,
    login: Option<LoginModel>,
)
    ensures
        described(account, login).alias == account.alias,
        described(account, login).user_id == account.user_id,
        described(account, login).workspace_id == account.workspace_id,
        login is Some && login->0.user_id == Some(account.user_id) && login->0.workspace_id == Some(
            account.workspace_id,
        ) ==> {
            &&& described(account, login).email == login->0.email
            &&& login->0.plan is Some ==> described(account, login).plan == login->0.plan->0
            &&& login->0.plan is None ==> described(account, login).plan is None
        },
        login is None || login->0.user_id != Some(account.user_id) || login->0.workspace_id != Some(
            account.workspace_id,
        ) ==> described(account, login) == account,
{
}

/// A thread that is bound keeps the selection, the alias of the account, and whether it waits; one
/// that is not keeps nothing.
pub proof fn law_kept_state(session: SessionModel, current: AccountModel, waiting: bool)
    ensures
        session.thread is None ==> session.kept(current, waiting) is None,
        session.thread is Some ==> session.kept(current, waiting) is Some,
        session.state(current, waiting).selection == session.selection,
        session.state(current, waiting).account == current.alias,
        session.state(current, waiting).waiting == waiting,
        session.kept(current, waiting) matches Some(state) ==> state == session.state(
            current,
            waiting,
        ),
{
}

/// A success is remembered for a pool whose members still hold the account, unless it is what the
/// pool prefers already; for a single account nothing is remembered.
pub proof fn law_success_is_remembered(
    selection: SelectionModel,
    current: AccountModel,
    stored: Option<ConfigModel>,
    preferences: Option<Map<Seq<char>, AccountModel>>,
)
    ensures
        ({
            let made = success(selection, current, stored, preferences);
            let config = store::loaded(stored);
            let members = config->Ok_0.membership(selection);
            let member = exists|i: int|
                0 <= i < members->Ok_0.accounts.len() && (
                #[trigger] members->Ok_0.accounts[i]).alias == current.alias
                    && members->Ok_0.accounts[i].user_id == current.user_id
                    && members->Ok_0.accounts[i].workspace_id == current.workspace_id;
            let preferred = preferences is Some && preferences->0.contains_key(selection->Pool_0)
                && preferences->0[selection->Pool_0] == current;
            &&& selection is Account ==> made == Ok::<
                Option<Map<Seq<char>, AccountModel>>,
                StoreError,
            >(None)
            &&& selection is Pool && config is Err ==> made is Err && made->Err_0 == config->Err_0
            &&& selection is Pool && config is Ok && members is Err ==> made is Err && made->Err_0
                == members->Err_0
            &&& selection is Pool && config is Ok && members is Ok ==> {
                &&& made is Ok
                &&& made->Ok_0 is Some <==> member && !preferred
                &&& made->Ok_0 is Some ==> made->Ok_0->0.contains_key(selection->Pool_0)
                    && made->Ok_0->0[selection->Pool_0] == current
            }
        }),
{
    let accounts = store::loaded(stored)->Ok_0.membership(selection)->Ok_0.accounts;
    assert(store::held(accounts, current) == exists|i: int|
        0 <= i < accounts.len() && (#[trigger] accounts[i]).alias == current.alias
            && accounts[i].user_id == current.user_id && accounts[i].workspace_id
            == current.workspace_id) by {
        if store::held(accounts, current) {
            let i = choose|i: int| 0 <= i < accounts.len() && (#[trigger] accounts[i]).names(current);
            assert(accounts[i].alias == current.alias);
        }
        if exists|i: int|
            0 <= i < accounts.len() && (#[trigger] accounts[i]).alias == current.alias
                && accounts[i].user_id == current.user_id && accounts[i].workspace_id
                == current.workspace_id {
            let i = choose|i: int|
                0 <= i < accounts.len() && (#[trigger] accounts[i]).alias == current.alias
                    && accounts[i].user_id == current.user_id && accounts[i].workspace_id
                    == current.workspace_id;
            assert(accounts[i].names(current));
        }
    }
}

/// A `RecoveryState` is seen with every field as it is.
pub proof fn law_recovery_state_is_seen_whole(value: RecoveryState)
    ensures
        value@.selection == value.selection@,
        value@.account == value.account@,
        value@.waiting == value.waiting,
{
}

/// A `PoolSession` is seen with every field as it is.
pub proof fn law_pool_session_is_seen_whole(value: PoolSession)
    ensures
        value@.selection == value.selection@,
        value@.membership == value.membership@,
        value@.waiting == value.waiting,
        value@.needs_preflight == value.needs_preflight,
        value@.current == value.current@,
        value@.denied == value.denied@,
        value@.thread == text::opt_view(value.thread),
{
}

} // verus!
