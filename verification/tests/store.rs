use account_pools::account_pool::{
    AccountPool, AccountPoolConfig, AccountPoolEvent, AccountQuotaWindow, AccountSelection,
    BankedReset, ManagedAccount, ManagedAccountUsage, PoolWaitReason,
};
use account_pools::digest::{identity_key, login_digest};
use account_pools::login::AccountLogin;
use account_pools::managed_link::{
    detach_managed_chatgpt_login, link_managed_chatgpt_login, lock_holds, resolve, LinkError,
    LoginHome, ManagedLink,
};
use account_pools::membership::PoolMembership;
use account_pools::models::{managed_models, AppServerSession, ModelPreset, ModelsRequest};
use account_pools::percent::Percent;
use account_pools::server::ManagedAccountAction;
use account_pools::session::{renews_credentials, PoolSession, RecoveryState};
use account_pools::storage::{
    find_account, find_pool, validate_config, validate_name, StoreError,
};
use account_pools::store::{load_config, AccountStore, CredentialStorage, Login};
use account_pools::stream::{
    ContentItem, PartialAssistantMessage, ResponseItem, ResponseMessage,
};
use account_pools::thread::{
    enforce_selection_restrictions, initialize, preflight_result, selected_event,
    selection_source, turn_result, LegacyLogin, Startup, StartupError, TurnError,
};

fn account(alias: &str) -> ManagedAccount {
    ManagedAccount {
        alias: alias.to_owned(),
        user_id: format!("user-{alias}"),
        workspace_id: format!("workspace-{alias}"),
        email: None,
        plan: Some("pro".to_owned()),
    }
}

fn login(alias: &str) -> Login {
    Login {
        chatgpt: true,
        allowed: true,
        user_id: Some(format!("user-{alias}")),
        workspace_id: Some(format!("workspace-{alias}")),
        email: None,
        plan: Some(Some("pro".to_owned())),
    }
}

fn pool(name: &str, accounts: &[&str]) -> AccountPool {
    AccountPool {
        name: name.to_owned(),
        accounts: accounts.iter().map(|alias| alias.to_string()).collect(),
        redeem_weekly_resets: true,
    }
}

fn config() -> AccountPoolConfig {
    AccountPoolConfig {
        accounts: vec![account("a"), account("b")],
        pools: vec![pool("work", &["a", "b"])],
        default_selection: None,
    }
}

fn store() -> AccountStore {
    AccountStore::new(CredentialStorage::File, true)
}

fn import(
    stored: AccountPoolConfig,
    alias: &str,
    login: Login,
) -> Result<(AccountPoolConfig, ManagedAccount), StoreError> {
    Ok(store().import(alias)?.plan(Some(stored), Some(login))?.commit())
}

fn named(name: &str) -> Option<AccountSelection> {
    Some(AccountSelection::Account(name.to_owned()))
}

fn work() -> Option<AccountSelection> {
    Some(AccountSelection::Pool("work".to_owned()))
}

#[test]
fn names_hold_letters_digits_underscores_and_hyphens() {
    for name in ["a", "Z9", "_", "-", &"x".repeat(64)] {
        assert_eq!(validate_name(name), Ok(()), "{name}");
    }
    for name in ["", "a b", "../escape", "a.b", "\u{e9}", "a\n", &"x".repeat(65)] {
        assert_eq!(validate_name(name), Err(StoreError::InvalidName), "{name}");
    }
}

#[test]
fn a_store_must_be_sound_in_every_part() {
    assert_eq!(validate_config(&config()), Ok(()));
    assert_eq!(validate_config(&AccountPoolConfig::default()), Ok(()));
    let broken = |change: fn(&mut AccountPoolConfig)| {
        let mut config = config();
        change(&mut config);
        validate_config(&config).unwrap_err()
    };
    assert_eq!(
        broken(|config| config.accounts[0].alias = "a/b".to_owned()),
        StoreError::InvalidName
    );
    assert_eq!(
        broken(|config| config.accounts[0].user_id.clear()),
        StoreError::InvalidIdentity
    );
    assert_eq!(
        broken(|config| config.accounts[0].workspace_id.clear()),
        StoreError::InvalidIdentity
    );
    assert_eq!(
        broken(|config| config.accounts[1].alias = "a".to_owned()),
        StoreError::InvalidIdentity
    );
    assert_eq!(
        broken(|config| {
            config.accounts[1].user_id = "user-a".to_owned();
            config.accounts[1].workspace_id = "workspace-a".to_owned();
        }),
        StoreError::InvalidIdentity
    );
    assert_eq!(
        broken(|config| config.pools[0].name = String::new()),
        StoreError::InvalidName
    );
    assert_eq!(
        broken(|config| config.pools[0].accounts.clear()),
        StoreError::InvalidPool
    );
    assert_eq!(
        broken(|config| config.pools[0].accounts[1] = "a".to_owned()),
        StoreError::InvalidPool
    );
    assert_eq!(
        broken(|config| config.pools[0].accounts[1] = "c".to_owned()),
        StoreError::InvalidPool
    );
    assert_eq!(
        broken(|config| config.pools.push(config.pools[0].clone())),
        StoreError::InvalidPool
    );
    assert_eq!(
        broken(|config| config.default_selection = named("c")),
        StoreError::UnknownDefaultAccount
    );
    assert_eq!(
        broken(|config| config.default_selection =
            Some(AccountSelection::Pool("other".to_owned()))),
        StoreError::UnknownDefaultPool
    );
}

#[test]
fn a_pool_has_at_most_one_hundred_and_twenty_eight_accounts() {
    let mut config = AccountPoolConfig::default();
    for index in 0..129 {
        config.accounts.push(account(&format!("a{index}")));
    }
    let mut members: Vec<String> = config.accounts.iter().map(|a| a.alias.clone()).collect();
    config.pools.push(AccountPool {
        name: "big".to_owned(),
        accounts: members.clone(),
        redeem_weekly_resets: false,
    });
    assert_eq!(validate_config(&config), Err(StoreError::InvalidPool));
    members.pop();
    config.pools[0].accounts = members;
    assert_eq!(validate_config(&config), Ok(()));
}

#[test]
fn the_first_matching_entry_is_found() {
    let config = config();
    assert_eq!(find_account(&config, "b"), Some(1));
    assert_eq!(find_account(&config, "c"), None);
    assert_eq!(find_pool(&config, "work"), Some(0));
    assert_eq!(find_pool(&config, "other"), None);
}

#[test]
fn an_absent_store_is_empty_and_a_broken_one_is_refused() {
    assert_eq!(load_config(None), Ok(AccountPoolConfig::default()));
    assert_eq!(store().read(Some(config())), Ok(config()));
    let mut broken = config();
    broken.default_selection = named("c");
    assert_eq!(
        store().read(Some(broken)),
        Err(StoreError::UnknownDefaultAccount)
    );
}

#[test]
fn credentials_are_kept_below_the_store_by_identity() {
    assert_eq!(store().root(), vec!["accounts".to_owned()]);
    assert_eq!(
        store().credential_home(&account("a")),
        vec![
            "accounts".to_owned(),
            "credentials".to_owned(),
            identity_key("user-a", "workspace-a")
        ]
    );
}

#[test]
fn duplicate_identity_has_one_alias_and_one_quota_slot() {
    let (stored, imported) = import(config(), "duplicate", login("a")).unwrap();
    assert_eq!(imported, account("a"));
    assert_eq!(stored.accounts, vec![account("a"), account("b")]);
    assert_eq!(
        store().put_pool(Some(stored), pool("bad", &["a", "a"]), true),
        Err(StoreError::InvalidPool)
    );
    assert_eq!(
        store().import("../escape").unwrap_err(),
        StoreError::InvalidName
    );
}

#[test]
fn an_import_updates_the_account_in_place() {
    let mut renewed = login("a");
    renewed.email = Some("a@example.com".to_owned());
    renewed.plan = Some(None);
    let (stored, imported) = import(config(), "a", renewed).unwrap();
    assert_eq!(imported.email.as_deref(), Some("a@example.com"));
    assert_eq!(imported.plan, None);
    assert_eq!(stored.accounts, vec![imported, account("b")]);
    let (stored, imported) = import(config(), "c", login("c")).unwrap();
    assert_eq!(stored.accounts, vec![account("a"), account("b"), imported]);
}

#[test]
fn an_import_is_refused_for_each_of_its_reasons() {
    assert_eq!(
        AccountStore::new(CredentialStorage::Ephemeral, true)
            .import("a")
            .unwrap_err(),
        StoreError::EphemeralStorage
    );
    assert_eq!(
        store().import("a").unwrap().plan(None, None).unwrap_err(),
        StoreError::NoStoredLogin
    );
    let refused = |change: fn(&mut Login)| {
        let mut login = login("c");
        change(&mut login);
        import(config(), "c", login).unwrap_err()
    };
    assert_eq!(refused(|login| login.chatgpt = false), StoreError::LoginNotAllowed);
    assert_eq!(refused(|login| login.allowed = false), StoreError::LoginNotAllowed);
    assert_eq!(refused(|login| login.user_id = None), StoreError::NoUserIdentity);
    assert_eq!(
        refused(|login| login.workspace_id = None),
        StoreError::NoWorkspaceIdentity
    );
    assert_eq!(refused(|login| login.plan = None), StoreError::TokensUnreadable);
    assert_eq!(
        import(config(), "a", login("c")).unwrap_err(),
        StoreError::AliasExists
    );
    assert_eq!(
        StoreError::AliasExists.message("a"),
        "Account alias already exists: a"
    );
}

#[test]
fn a_login_is_checked_again_before_it_is_stored() {
    let plan = store()
        .import("c")
        .unwrap()
        .plan(Some(config()), Some(login("c")))
        .unwrap();
    assert_eq!(plan.account(), &account("c"));
    assert_eq!(plan.confirm(&Some(login("c")), true), Ok(()));
    assert_eq!(plan.confirm(&None, true), Err(StoreError::LoginRemoved));
    assert_eq!(
        plan.confirm(&Some(login("c")), false),
        Err(StoreError::LoginRemoved)
    );
    assert_eq!(
        plan.confirm(&Some(login("d")), true),
        Err(StoreError::IdentityChanged)
    );
    let stored = plan.credentials("tokens".to_owned(), Some("today".to_owned()));
    assert_eq!(stored.tokens, "tokens");
    assert_eq!(stored.last_refresh.as_deref(), Some("today"));
    assert_eq!(
        (
            stored.api_key,
            stored.agent_identity,
            stored.personal_access_token,
            stored.bedrock_api_key,
            stored.bedrock_access_keys
        ),
        (None, None, None, None, None)
    );
    assert_eq!(plan.link(true, CredentialStorage::File, true), Ok(true));
    assert_eq!(plan.link(false, CredentialStorage::File, true), Ok(false));
    assert_eq!(plan.link(true, CredentialStorage::Ephemeral, true), Ok(false));
    assert_eq!(
        plan.link(true, CredentialStorage::File, false),
        Err(StoreError::LoginChanged)
    );
}

#[test]
fn an_account_leaves_only_once_no_pool_lists_it() {
    assert_eq!(
        store().remove_account(Some(config()), "c"),
        Err(StoreError::UnknownAccount)
    );
    assert_eq!(
        store().remove_account(Some(config()), "a"),
        Err(StoreError::AccountInPool)
    );
    let mut stored = config();
    stored.pools[0].accounts.pop();
    stored.default_selection = named("b");
    let (stored, removed) = store().remove_account(Some(stored), "b").unwrap();
    assert_eq!(removed, account("b"));
    assert_eq!(stored.accounts, vec![account("a")]);
    assert_eq!(stored.default_selection, None);
    assert_eq!(validate_config(&stored), Ok(()));
}

#[test]
fn pools_are_created_replaced_and_removed() {
    assert_eq!(
        store().put_pool(Some(config()), pool("work", &["a"]), true),
        Err(StoreError::PoolExists)
    );
    assert_eq!(
        store().put_pool(Some(config()), pool("other", &["a"]), false),
        Err(StoreError::UnknownPool)
    );
    let stored = store()
        .put_pool(Some(config()), pool("work", &["b"]), false)
        .unwrap();
    assert_eq!(stored.pools, vec![pool("work", &["b"])]);
    let stored = store()
        .put_pool(Some(stored), pool("other", &["a"]), true)
        .unwrap();
    assert_eq!(stored.pools, vec![pool("work", &["b"]), pool("other", &["a"])]);
    let stored = store()
        .select_default(Some(stored), work())
        .unwrap();
    assert_eq!(stored.default_selection, work());
    let stored = store().remove_pool(Some(stored), "work").unwrap();
    assert_eq!(stored.default_selection, None);
    assert_eq!(stored.pools, vec![pool("other", &["a"])]);
    assert_eq!(
        store().remove_pool(Some(stored), "work"),
        Err(StoreError::UnknownPoolName)
    );
    assert_eq!(
        StoreError::UnknownPoolName.message("work"),
        "Unknown pool: work"
    );
}

#[test]
fn a_default_must_exist() {
    assert_eq!(
        store().select_default(Some(config()), named("c")),
        Err(StoreError::UnknownDefaultAccount)
    );
    assert_eq!(
        store()
            .select_default(Some(config()), None)
            .unwrap()
            .default_selection,
        None
    );
}

#[test]
fn credentials_are_used_only_for_the_account_they_belong_to() {
    assert_eq!(store().manager(Some(config()), &account("a")), Ok(()));
    let mut moved = account("a");
    moved.workspace_id = "other".to_owned();
    assert_eq!(
        store().manager(Some(config()), &moved),
        Err(StoreError::AccountChanged)
    );
    assert_eq!(
        StoreError::AccountChanged.message("a"),
        "Account was removed or changed: a"
    );
    assert_eq!(store().verify_login(&account("a"), &Some(login("a"))), Ok(()));
    assert_eq!(
        store().verify_login(&account("a"), &None),
        Err(StoreError::LoginRequired)
    );
    assert_eq!(
        store().verify_login(&account("a"), &Some(login("b"))),
        Err(StoreError::CredentialsMismatch)
    );
    let mut key = login("a");
    key.chatgpt = false;
    assert_eq!(
        store().verify_login(&account("a"), &Some(key)),
        Err(StoreError::CredentialsMismatch)
    );
}

#[test]
fn an_explicit_reset_prefers_the_open_attempt() {
    let mut usage = ManagedAccountUsage {
        account: account("a"),
        pools: Vec::new(),
        model: None,
        model_supported: None,
        ordinary_usage_allowed: Some(false),
        windows: vec![AccountQuotaWindow {
            limit_id: "codex".to_owned(),
            model: None,
            remaining_percent: Percent::from_integer(0),
            window_minutes: 10080,
            resets_at: None,
        }],
        available_resets: Some(1),
        resets: Some(vec![BankedReset {
            id: "credit".to_owned(),
            expires_at: None,
        }]),
        checked_at: 1000,
        error: None,
    };
    assert_eq!(
        store().redeem(Some(config()), "c"),
        Err(StoreError::UnknownAccount)
    );
    assert_eq!(store().redeem(Some(config()), "a"), Ok(account("a")));
    assert_eq!(
        store().redeem_credit(Some("open".to_owned()), &usage, 1000),
        Ok("open".to_owned())
    );
    assert_eq!(
        store().redeem_credit(None, &usage, 1000),
        Ok("credit".to_owned())
    );
    usage.resets = None;
    assert_eq!(
        store().redeem_credit(None, &usage, 1000),
        Err(StoreError::NoUsableReset)
    );
}

#[test]
fn logins_are_staged_in_memory_until_they_are_committed() {
    assert_eq!(
        AccountLogin::new(store(), "a b".to_owned()).unwrap_err(),
        StoreError::InvalidName
    );
    assert_eq!(
        AccountLogin::new(
            AccountStore::new(CredentialStorage::Ephemeral, true),
            "a".to_owned()
        )
        .unwrap_err(),
        StoreError::EphemeralStorage
    );
    assert_eq!(
        AccountLogin::new(
            AccountStore::new(CredentialStorage::File, false),
            "a".to_owned()
        )
        .unwrap_err(),
        StoreError::LoginDisabled
    );
    let staged = AccountLogin::new(store(), "c".to_owned()).unwrap();
    assert_eq!(staged.options(), CredentialStorage::Ephemeral);
    let (stored, imported) = staged
        .finish()
        .unwrap()
        .plan(Some(config()), Some(login("c")))
        .unwrap()
        .commit();
    assert_eq!(imported, account("c"));
    assert_eq!(stored.accounts.len(), 3);
}

#[test]
fn imported_login_tracks_canonical_credentials_without_changing_a_later_login() {
    let original = b"login of a".to_vec();
    let later = b"login of b".to_vec();
    let key = identity_key("user-a", "workspace-a");
    let link = link_managed_chatgpt_login(&Some(key.clone()), &original).unwrap();
    assert_eq!(link.original_login_digest, login_digest(&original));
    let again = ManagedLink {
        credential_key: link.credential_key.clone(),
        original_login_digest: link.original_login_digest.clone(),
    };
    assert_eq!(
        resolve(Some(link), &Some(original)),
        Ok(LoginHome::Managed(key))
    );
    assert_eq!(resolve(Some(again), &Some(later)), Ok(LoginHome::Own));
}

#[test]
fn links_are_refused_or_severed() {
    assert_eq!(
        link_managed_chatgpt_login(&None, &Vec::new()).unwrap_err(),
        LinkError::OutsideStore
    );
    assert_eq!(
        link_managed_chatgpt_login(&Some("../x".to_owned()), &Vec::new()).unwrap_err(),
        LinkError::OutsideStore
    );
    let link = |key: &str| ManagedLink {
        credential_key: key.to_owned(),
        original_login_digest: login_digest(&b"login".to_vec()),
    };
    let key = "0a".repeat(32);
    assert_eq!(resolve(None, &Some(b"login".to_vec())), Ok(LoginHome::Own));
    assert_eq!(resolve(Some(link(&key)), &None), Ok(LoginHome::Own));
    assert_eq!(
        resolve(Some(link("..")), &Some(b"login".to_vec())),
        Err(LinkError::InvalidReference)
    );
    assert_eq!(
        LinkError::InvalidReference.message(),
        "Invalid managed credential reference"
    );
    assert_eq!(
        LinkError::OutsideStore.message(),
        "Managed credentials must be inside the user account store"
    );
    assert_eq!(LinkError::LoginMissing.message(), "Managed login is missing");
}

#[test]
fn removing_an_account_gives_its_login_back() {
    let linked = LoginHome::Managed(identity_key("user-a", "workspace-a"));
    assert_eq!(
        detach_managed_chatgpt_login(&linked, &account("a"), true),
        Ok(true)
    );
    assert_eq!(
        detach_managed_chatgpt_login(&linked, &account("a"), false),
        Err(LinkError::LoginMissing)
    );
    assert_eq!(
        detach_managed_chatgpt_login(&linked, &account("b"), false),
        Ok(false)
    );
    assert_eq!(
        detach_managed_chatgpt_login(&LoginHome::Own, &account("a"), true),
        Ok(false)
    );
    assert!(lock_holds(&linked, &linked));
    assert!(!lock_holds(&linked, &LoginHome::Own));
    assert!(lock_holds(&LoginHome::Own, &LoginHome::Own));
}

#[test]
fn members_follow_the_order_of_the_pool() {
    let mut stored = config();
    stored.pools[0].accounts = vec!["b".to_owned(), "a".to_owned()];
    let members = PoolMembership::from_config(&stored, &work().unwrap()).unwrap();
    assert_eq!(members.accounts, vec![account("b"), account("a")]);
    assert!(members.redeem_weekly);
    let single = PoolMembership::from_config(&stored, &named("b").unwrap()).unwrap();
    assert_eq!(single.accounts, vec![account("b")]);
    assert!(!single.redeem_weekly);
    assert_eq!(
        PoolMembership::from_config(&stored, &named("c").unwrap()).unwrap_err(),
        StoreError::UnknownAccount
    );
    assert_eq!(
        PoolMembership::from_config(&stored, &AccountSelection::Pool("other".to_owned()))
            .unwrap_err(),
        StoreError::UnknownPool
    );
}

#[test]
fn a_session_needs_a_selection_and_a_valid_thread() {
    assert!(PoolSession::open(Some(config()), None, None, None, &None)
        .unwrap()
        .is_none());
    assert_eq!(
        PoolSession::open(Some(config()), work(), Some("a/b"), None, &None).unwrap_err(),
        StoreError::InvalidName
    );
    assert_eq!(
        PoolSession::saved_selection("a/b", None),
        Err(StoreError::InvalidName)
    );
    assert_eq!(PoolSession::saved_selection("thread", None), Ok(None));
    let mut session = PoolSession::open(Some(config()), work(), None, None, &None)
        .unwrap()
        .unwrap();
    assert_eq!(
        session.bind_thread("a/b").unwrap_err(),
        StoreError::InvalidName
    );
    assert_eq!(session.persist(&account("a"), true), None);
}

#[test]
fn the_account_in_use_is_described_by_its_own_login() {
    let session = PoolSession::open(Some(config()), work(), None, None, &None)
        .unwrap()
        .unwrap();
    let mut described = login("a");
    described.email = Some("a@example.com".to_owned());
    described.plan = Some(Some("plus".to_owned()));
    let shown = session.selected_account(&Some(described));
    assert_eq!(shown.email.as_deref(), Some("a@example.com"));
    assert_eq!(shown.plan.as_deref(), Some("plus"));
    let mut foreign = login("b");
    foreign.email = Some("b@example.com".to_owned());
    assert_eq!(session.selected_account(&Some(foreign)), account("a"));
}

#[test]
fn rejected_credentials_are_renewed_only_while_in_use() {
    let id = |id: &str| Some(id.to_owned());
    assert!(renews_credentials(&id("workspace-a"), &id("workspace-a")));
    assert!(!renews_credentials(&id("workspace-b"), &id("workspace-a")));
    assert!(!renews_credentials(&None, &id("workspace-a")));
}

#[test]
fn account_pool_defaults_preserve_other_auth_and_explicit_selection_wins() {
    let mut stored = config();
    stored.pools[0].accounts = vec!["b".to_owned(), "a".to_owned()];
    stored.default_selection = work();
    for (legacy, explicit, first_party, expected) in [
        (LegacyLogin::Chatgpt, false, true, Some("workspace-b")),
        (LegacyLogin::Other, false, true, None),
        (LegacyLogin::Other, true, true, Some("workspace-b")),
        (LegacyLogin::Chatgpt, false, false, None),
    ] {
        let explicit = if explicit { named("b") } else { None };
        let startup = initialize(explicit, None, None, true, first_party, legacy).unwrap();
        let session = match startup {
            Startup::Legacy => None,
            Startup::Managed(selection) => {
                PoolSession::open(Some(stored.clone()), selection, None, None, &None).unwrap()
            }
        };
        assert_eq!(
            session
                .as_ref()
                .map(|session| session.selected_account(&None).workspace_id)
                .as_deref(),
            expected
        );
        assert_eq!(enforce_selection_restrictions(&session), expected.is_none());
    }
}

#[test]
fn account_pool_resume_precedence_uses_saved_auth_before_legacy_or_default() {
    let mut stored = config();
    stored.default_selection = named("a");
    let saved = RecoveryState {
        selection: named("b").unwrap(),
        account: "b".to_owned(),
        waiting: false,
    };
    for explicit in [false, true] {
        let startup = initialize(
            if explicit { named("a") } else { None },
            Some("thread"),
            Some(saved.clone()),
            true,
            true,
            LegacyLogin::Other,
        )
        .unwrap();
        let Startup::Managed(selection) = startup else {
            panic!("a saved selection is managed");
        };
        let session = PoolSession::open(
            Some(stored.clone()),
            selection,
            Some("thread"),
            Some(saved.clone()),
            &None,
        )
        .unwrap()
        .unwrap();
        assert_eq!(
            session.selected_account(&None).workspace_id,
            if explicit { "workspace-a" } else { "workspace-b" }
        );
    }
}

#[test]
fn a_named_selection_is_refused_where_it_cannot_be_used() {
    for (openai, first_party) in [(false, true), (true, false)] {
        let error =
            initialize(named("a"), None, None, openai, first_party, LegacyLogin::Absent)
                .unwrap_err();
        assert_eq!(error, StartupError::IncompatibleProvider);
        assert_eq!(
            error.message(""),
            "Named accounts require locally managed ChatGPT authentication with the OpenAI provider"
        );
    }
    assert_eq!(
        initialize(None, Some("a/b"), None, true, true, LegacyLogin::Absent).unwrap_err(),
        StartupError::Store(StoreError::InvalidName)
    );
    assert_eq!(
        initialize(None, None, None, true, true, LegacyLogin::Absent),
        Ok(Startup::Managed(None))
    );
    assert_eq!(
        selection_source(None, Some("source".to_owned())).as_deref(),
        Some("source")
    );
    assert_eq!(
        selection_source(Some("resumed".to_owned()), Some("source".to_owned())).as_deref(),
        Some("resumed")
    );
}

#[test]
fn a_cancelled_turn_is_aborted_and_a_failed_one_is_fatal() {
    assert_eq!(turn_result(false, Ok(())), Ok(()));
    assert_eq!(turn_result(true, Ok(())), Err(TurnError::Aborted));
    assert_eq!(
        turn_result(true, Err("lost".to_owned())),
        Err(TurnError::Aborted)
    );
    assert_eq!(
        turn_result(false, Err("lost".to_owned())),
        Err(TurnError::Fatal("lost".to_owned()))
    );
    assert_eq!(preflight_result(true, Ok(true)), Ok(true));
    assert_eq!(
        preflight_result(true, Err("lost".to_owned())),
        Err(TurnError::Aborted)
    );
    assert_eq!(
        preflight_result(false, Err("lost".to_owned())),
        Err(TurnError::Fatal("lost".to_owned()))
    );
    assert_eq!(
        selected_event(&account("a")),
        AccountPoolEvent::Selected {
            account: account("a")
        }
    );
}

#[test]
fn events_are_told_in_words() {
    assert_eq!(
        selected_event(&account("a")).message(),
        "Using account a"
    );
    assert_eq!(
        AccountPoolEvent::Switched {
            account: "b".to_owned(),
            previous_account: "a".to_owned()
        }
        .message(),
        "Account switched from a to b; continuing with the same model"
    );
    assert_eq!(
        AccountPoolEvent::Redeemed {
            account: "b".to_owned()
        }
        .message(),
        "Used a banked reset for b; quota recovery verified"
    );
    for (reason, words) in [
        (PoolWaitReason::UnknownAvailability, "availability is unknown"),
        (PoolWaitReason::ShortWindow, "short-window quota is exhausted"),
        (PoolWaitReason::WeeklyQuota, "weekly quota is exhausted"),
        (PoolWaitReason::RedemptionPending, "reset recovery is pending"),
    ] {
        assert_eq!(
            AccountPoolEvent::Waiting {
                account: "a".to_owned(),
                reason,
                next_check_at: 0,
            }
            .message(),
            format!(
                "Account a: waiting because {words}. Next check: 1970-01-01T00:00:00+00:00. Cancel to stop monitoring."
            )
        );
    }
}

#[test]
fn usage_is_summed_up_in_lines() {
    let mut usage = ManagedAccountUsage {
        account: account("a"),
        pools: vec!["work".to_owned(), "home".to_owned()],
        model: None,
        model_supported: None,
        ordinary_usage_allowed: Some(true),
        windows: vec![
            AccountQuotaWindow {
                limit_id: "codex".to_owned(),
                model: None,
                remaining_percent: Percent::from_bits(66.5f64.to_bits()),
                window_minutes: 300,
                resets_at: Some(60),
            },
            AccountQuotaWindow {
                limit_id: "special".to_owned(),
                model: None,
                remaining_percent: Percent::from_integer(7),
                window_minutes: 10080,
                resets_at: None,
            },
        ],
        available_resets: Some(2),
        resets: None,
        checked_at: 0,
        error: None,
    };
    assert_eq!(
        usage.display_summary(),
        "a | pro | pools: work, home | checked 1970-01-01T00:00:00+00:00\n  \
         codex: 66% remaining (300 minutes), resets 1970-01-01T00:01:00+00:00\n  \
         special: 7% remaining (10080 minutes), resets unknown\n  \
         Banked resets: 2 | authenticated"
    );
    usage.account.plan = None;
    usage.pools.clear();
    usage.windows.clear();
    usage.available_resets = None;
    usage.error = Some("offline".to_owned());
    assert_eq!(
        usage.display_summary(),
        "a | plan unknown | pools:  | checked 1970-01-01T00:00:00+00:00\n  \
         Banked resets: unknown | offline\n  \
         Quota windows: unknown"
    );
}

fn message(role: &str, content: Vec<ContentItem>) -> ResponseMessage {
    ResponseMessage {
        id: Some("message".to_owned()),
        role: role.to_owned(),
        content,
        phase: None,
    }
}

#[test]
fn an_interrupted_message_keeps_what_was_written() {
    let mut partial = PartialAssistantMessage::new();
    partial.append("nothing has begun");
    assert_eq!(partial.take(), None);
    partial.start(&ResponseItem::Message(message("assistant", Vec::new())));
    partial.append("Hel");
    partial.append("lo");
    let kept = partial.take().unwrap();
    assert_eq!(
        kept,
        message(
            "assistant",
            vec![ContentItem::OutputText {
                text: "Hello".to_owned()
            }]
        )
    );
    assert_eq!(partial.take(), None);
}

#[test]
fn other_items_and_empty_or_complete_messages_are_not_kept() {
    let mut partial = PartialAssistantMessage::new();
    partial.start(&ResponseItem::Message(message("user", Vec::new())));
    partial.append("text");
    assert_eq!(partial.take(), None);
    partial.start(&ResponseItem::Other);
    partial.append("text");
    assert_eq!(partial.take(), None);
    partial.start(&ResponseItem::Message(message("assistant", Vec::new())));
    partial.append("");
    assert_eq!(partial.take(), None);
    partial.start(&ResponseItem::Message(message("assistant", Vec::new())));
    partial.append("text");
    partial.complete();
    assert_eq!(partial.take(), None);
    partial.start(&ResponseItem::Message(message(
        "assistant",
        vec![ContentItem::Other("image".to_owned())],
    )));
    partial.append("text");
    assert_eq!(
        partial.take().unwrap().content,
        vec![
            ContentItem::Other("image".to_owned()),
            ContentItem::OutputText {
                text: "text".to_owned()
            }
        ]
    );
}

#[test]
fn the_default_model_is_the_marked_one_or_the_first() {
    let preset = |model: &str, is_default: bool| ModelPreset {
        model: model.to_owned(),
        is_default,
    };
    let mut session = AppServerSession {
        managed_accounts_active: true,
        account_selection: work(),
        account_thread_id: Some("thread".to_owned()),
        default_model: Some("before".to_owned()),
        available_models: Vec::new(),
    };
    session.set_available_models(Vec::new());
    assert_eq!(session.default_model.as_deref(), Some("before"));
    session.set_available_models(vec![preset("x", false), preset("y", false)]);
    assert_eq!(session.default_model.as_deref(), Some("x"));
    session.set_available_models(vec![preset("x", false), preset("y", true)]);
    assert_eq!(session.default_model.as_deref(), Some("y"));
    match session.request_models() {
        ModelsRequest::Managed(params) => {
            assert_eq!(params.action, ManagedAccountAction::Models);
            assert_eq!(params.account_selection, work());
            assert_eq!(params.thread_id.as_deref(), Some("thread"));
        }
        ModelsRequest::Listed => panic!("a managed account is in use"),
    }
    session.managed_accounts_active = false;
    assert_eq!(session.request_models(), ModelsRequest::Listed);
    assert_eq!(
        managed_models(None),
        Err("Named account model catalog is unavailable")
    );
    assert_eq!(
        managed_models(Some(vec!["x".to_owned()])),
        Ok(vec!["x".to_owned()])
    );
}
