use account_pools::account_pool::{
    AccountPool, AccountPoolConfig, AccountSelection, ManagedAccount, ManagedAccountUsage,
};
use account_pools::backend::{
    CreditReply, LimitReply, LimitsNext, LimitsReply, LimitsStatus, ManagedBackend, UsageError,
    WindowReply,
};
use account_pools::cli::{
    accounts_to_show, pool_to_show, shows_again, AccountCli, AccountCommand, AccountTask,
    CliError, PoolCli, PoolCommand, PoolDefinition, PoolTask,
};
use account_pools::manage::{manage_accounts, manage_pools, LineError};
use account_pools::paging::{page, sort_by_name, validate_page_limit, PageLimitError};
use account_pools::percent::Percent;
use account_pools::preferences::{collect_preferences, Preference};
use account_pools::redemption::{RedemptionError, ResetOutcome};
use account_pools::report::AccountReportView;
use account_pools::server::{
    account_answer, login_completed, managed_account, managed_account_response, managed_pool,
    managed_pool_response, wants_usage, AccountOutcome, AccountPage, AccountRequest,
    GetAccountResponse, LoginAccountResponse, ManagedAccountAction,
    ManagedAccountParams, ManagedAccountResponse, ManagedPoolAction, ManagedPoolParams,
    ManagedPoolResponse, PoolRequest, RequestError,
};
use account_pools::session::{PoolSession, RecoveryState};
use account_pools::storage::StoreError;
use account_pools::store::{AccountStore, CredentialStorage};

const NOW: i64 = 1_800_000_000;

fn account(alias: &str) -> ManagedAccount {
    ManagedAccount {
        alias: alias.to_owned(),
        user_id: format!("user-{alias}"),
        workspace_id: format!("workspace-{alias}"),
        email: None,
        plan: Some("pro".to_owned()),
    }
}

fn pool(name: &str, accounts: &[&str]) -> AccountPool {
    AccountPool {
        name: name.to_owned(),
        accounts: accounts.iter().map(|alias| alias.to_string()).collect(),
        redeem_weekly_resets: true,
    }
}

fn config() -> AccountPoolConfig {
    AccountPoolConfig {
        accounts: vec![account("b"), account("a")],
        pools: vec![pool("work", &["a", "b"])],
        default_selection: None,
    }
}

fn account_params(action: ManagedAccountAction) -> ManagedAccountParams {
    ManagedAccountParams {
        action,
        account_selection: None,
        thread_id: None,
        alias: None,
        device_auth: None,
        model: None,
        cursor: None,
        limit: None,
    }
}

fn pool_params(action: ManagedPoolAction) -> ManagedPoolParams {
    ManagedPoolParams {
        action,
        name: None,
        pool: None,
        cursor: None,
        limit: None,
    }
}

fn aliases(accounts: &[ManagedAccount]) -> Vec<&str> {
    accounts
        .iter()
        .map(|account| account.alias.as_str())
        .collect()
}

#[test]
fn pages_are_one_to_one_hundred_long() {
    assert_eq!(validate_page_limit(None), Ok(()));
    assert_eq!(validate_page_limit(Some(1)), Ok(()));
    assert_eq!(validate_page_limit(Some(100)), Ok(()));
    assert_eq!(validate_page_limit(Some(0)), Err(PageLimitError));
    assert_eq!(validate_page_limit(Some(101)), Err(PageLimitError));
    assert_eq!(PageLimitError.message(), "limit must be between 1 and 100");
}

#[test]
fn a_page_holds_what_follows_its_cursor() {
    let accounts: Vec<ManagedAccount> =
        (0..30).map(|index| account(&format!("a{index:02}"))).collect();
    let (data, next) = page(accounts.clone(), &None, None).unwrap();
    assert_eq!(data.len(), 25);
    assert_eq!(next.as_deref(), Some("a24"));
    let (data, next) = page(accounts.clone(), &next, None).unwrap();
    assert_eq!(aliases(&data), vec!["a25", "a26", "a27", "a28", "a29"]);
    assert_eq!(next, None);
    let (data, next) = page(accounts.clone(), &Some("a0".to_owned()), Some(2)).unwrap();
    assert_eq!(aliases(&data), vec!["a00", "a01"]);
    assert_eq!(next.as_deref(), Some("a01"));
    assert!(page(accounts, &None, Some(0)).is_err());
}

#[test]
fn pages_joined_give_the_whole_list() {
    let accounts: Vec<ManagedAccount> = ["d", "a", "c", "b", "e"]
        .iter()
        .map(|alias| account(alias))
        .collect();
    let sorted = sort_by_name(accounts);
    assert_eq!(aliases(&sorted), vec!["a", "b", "c", "d", "e"]);
    let mut all = Vec::new();
    let mut cursor = None;
    loop {
        let (data, next) = page(sorted.clone(), &cursor, Some(2)).unwrap();
        all.extend(data);
        cursor = next;
        if cursor.is_none() {
            break;
        }
    }
    assert_eq!(all, sorted);
}

#[test]
fn accounts_are_paged_and_a_bad_page_length_is_rejected() {
    let mut list = account_params(ManagedAccountAction::List);
    list.limit = Some(1);
    assert_eq!(managed_account(&list), Ok(AccountRequest::List));
    let first = managed_account_response(&list, &None, Some(config())).unwrap();
    assert_eq!(aliases(&first.data), vec!["a"]);
    assert_eq!(first.next_cursor.as_deref(), Some("a"));
    list.limit = None;
    list.cursor = first.next_cursor;
    let second = managed_account_response(&list, &None, Some(config())).unwrap();
    assert_eq!(aliases(&second.data), vec!["b"]);
    assert_eq!(second.next_cursor, None);

    let session = PoolSession::open(
        Some(config()),
        Some(AccountSelection::Account("b".to_owned())),
        None,
        None,
        &None,
    )
    .unwrap()
    .unwrap();
    assert_eq!(
        Some(session.selected_account(&None)),
        second.data.first().cloned()
    );
    assert_eq!(session.pool(), None);

    let mut create = pool_params(ManagedPoolAction::Create);
    create.limit = Some(0);
    create.pool = Some(pool("invalid-page", &["a"]));
    let error = managed_pool(&create).unwrap_err();
    assert_eq!(
        error.rejection(""),
        (-32602, "limit must be between 1 and 100".to_owned())
    );
    let pools =
        managed_pool_response(&pool_params(ManagedPoolAction::List), Some(config())).unwrap();
    assert_eq!(
        pools
            .data
            .iter()
            .map(|pool| pool.name.as_str())
            .collect::<Vec<_>>(),
        vec!["work"]
    );
}

#[test]
fn account_requests_ask_for_what_they_need() {
    for action in [
        ManagedAccountAction::Add,
        ManagedAccountAction::Import,
        ManagedAccountAction::Remove,
        ManagedAccountAction::Redeem,
    ] {
        assert_eq!(
            managed_account(&account_params(action)),
            Err(RequestError::AliasRequired)
        );
    }
    assert_eq!(
        RequestError::AliasRequired.message(""),
        "An account alias is required"
    );
    let named = |action: ManagedAccountAction| {
        let mut params = account_params(action);
        params.alias = Some("a".to_owned());
        params.device_auth = Some(true);
        managed_account(&params).unwrap()
    };
    assert_eq!(
        named(ManagedAccountAction::Add),
        AccountRequest::Add {
            alias: "a".to_owned(),
            device: true
        }
    );
    assert_eq!(
        named(ManagedAccountAction::Import),
        AccountRequest::Import {
            alias: "a".to_owned()
        }
    );
    assert_eq!(
        named(ManagedAccountAction::Remove),
        AccountRequest::Remove {
            alias: "a".to_owned()
        }
    );
    assert_eq!(
        named(ManagedAccountAction::Redeem),
        AccountRequest::Redeem {
            alias: "a".to_owned()
        }
    );
    assert_eq!(
        named(ManagedAccountAction::Select),
        AccountRequest::Select {
            selection: Some(AccountSelection::Account("a".to_owned()))
        }
    );
    assert_eq!(
        managed_account(&account_params(ManagedAccountAction::Select)),
        Ok(AccountRequest::Select { selection: None })
    );
    assert_eq!(
        named(ManagedAccountAction::Resolve),
        AccountRequest::Resolve { models: false }
    );
    assert_eq!(
        named(ManagedAccountAction::Models),
        AccountRequest::Resolve { models: true }
    );
    assert!(wants_usage(&account_params(ManagedAccountAction::Usage)));
    assert!(!wants_usage(&account_params(ManagedAccountAction::List)));
}

#[test]
fn an_unknown_alias_is_an_error_only_where_it_is_asked_about() {
    for action in [ManagedAccountAction::Usage, ManagedAccountAction::List] {
        let mut params = account_params(action);
        params.alias = Some("c".to_owned());
        let error = managed_account_response(&params, &None, Some(config())).unwrap_err();
        assert_eq!(error, RequestError::UnknownAccount);
        assert_eq!(error.message("c"), "Unknown account: c");
    }
    let mut params = account_params(ManagedAccountAction::Remove);
    params.alias = Some("c".to_owned());
    assert!(managed_account_response(&params, &None, Some(config()))
        .unwrap()
        .data
        .is_empty());
    let mut params = account_params(ManagedAccountAction::Import);
    params.alias = Some("other".to_owned());
    let page = managed_account_response(&params, &Some("a".to_owned()), Some(config())).unwrap();
    assert_eq!(aliases(&page.data), vec!["a"]);
}

#[test]
fn pool_requests_ask_for_what_they_need() {
    for action in [ManagedPoolAction::Create, ManagedPoolAction::Update] {
        let mut params = pool_params(action);
        assert_eq!(managed_pool(&params), Err(RequestError::PoolRequired));
        params.pool = Some(pool("work", &["a"]));
        assert_eq!(
            managed_pool(&params),
            Ok(PoolRequest::Put {
                pool: pool("work", &["a"]),
                create: action == ManagedPoolAction::Create
            })
        );
    }
    assert_eq!(
        RequestError::PoolRequired.message(""),
        "A pool definition is required"
    );
    assert_eq!(
        managed_pool(&pool_params(ManagedPoolAction::Remove)),
        Err(RequestError::NameRequired)
    );
    assert_eq!(
        RequestError::NameRequired.message(""),
        "A pool name is required"
    );
    assert_eq!(
        managed_pool_response(&pool_params(ManagedPoolAction::Read), Some(config())),
        Err(RequestError::NameRequired)
    );
    let mut read = pool_params(ManagedPoolAction::Read);
    read.name = Some("other".to_owned());
    assert_eq!(
        managed_pool_response(&read, Some(config())),
        Err(RequestError::UnknownPool)
    );
    assert_eq!(
        RequestError::UnknownPool.message("other"),
        "Unknown pool: other"
    );
    read.name = Some("work".to_owned());
    assert_eq!(
        managed_pool_response(&read, Some(config())).unwrap().data,
        vec![pool("work", &["a", "b"])]
    );
    let mut broken = config();
    broken.pools[0].accounts.clear();
    assert_eq!(
        managed_pool_response(&pool_params(ManagedPoolAction::List), Some(broken)),
        Err(RequestError::Store(StoreError::InvalidPool))
    );
}

#[test]
fn an_answer_holds_the_page_and_what_came_of_the_request() {
    let page = || AccountPage {
        data: vec![account("a")],
        next_cursor: Some("a".to_owned()),
        default_selection: None,
    };
    let done = account_answer(AccountOutcome::Done, page(), vec![blank()]);
    assert_eq!(done.data, vec![account("a")]);
    assert_eq!(done.next_cursor.as_deref(), Some("a"));
    assert_eq!(done.usage, vec![blank()]);
    assert_eq!((done.resolved, done.login, done.models), (None, None, None));
    let resolved = account_answer(
        AccountOutcome::Resolved {
            resolved: GetAccountResponse {
                account: Some("a@example.com".to_owned()),
                requires_openai_auth: true,
            },
            account: account("b"),
            pool: Some(pool("work", &["a", "b"])),
            models: Some(vec!["model".to_owned()]),
        },
        page(),
        Vec::new(),
    );
    assert_eq!(resolved.selected_account, Some(account("b")));
    assert_eq!(resolved.selected_pool, Some(pool("work", &["a", "b"])));
    assert_eq!(resolved.models, Some(vec!["model".to_owned()]));
    assert!(resolved.resolved.unwrap().requires_openai_auth);
    let login = LoginAccountResponse::Chatgpt {
        login_id: "id".to_owned(),
        auth_url: "https://example.com".to_owned(),
    };
    let begun = account_answer(AccountOutcome::Login(login.clone()), page(), Vec::new());
    assert_eq!(begun.login, Some(login));
    let redeemed = account_answer(AccountOutcome::Redeemed(blank()), page(), Vec::new());
    assert_eq!(redeemed.usage, vec![blank()]);
}

#[test]
fn a_login_is_reported_without_its_error() {
    let failed = login_completed("id".to_owned(), false);
    assert_eq!(failed.login_id.as_deref(), Some("id"));
    assert!(!failed.success);
    assert_eq!(
        failed.error.as_deref(),
        Some("Named account login was cancelled or failed")
    );
    assert_eq!(login_completed("id".to_owned(), true).error, None);
}

fn response(data: Vec<ManagedAccount>, next: Option<&str>) -> ManagedAccountResponse {
    ManagedAccountResponse {
        resolved: None,
        selected_account: None,
        selected_pool: None,
        models: None,
        data,
        next_cursor: next.map(str::to_owned),
        usage: Vec::new(),
        login: None,
        default_selection: None,
    }
}

#[test]
fn account_lines_become_requests() {
    for (line, action, alias) in [
        ("", ManagedAccountAction::Usage, None),
        ("list", ManagedAccountAction::Usage, None),
        ("usage", ManagedAccountAction::Usage, None),
        ("usage a", ManagedAccountAction::Usage, Some("a")),
        ("add a", ManagedAccountAction::Add, Some("a")),
        ("import a", ManagedAccountAction::Import, Some("a")),
        (" select  a ", ManagedAccountAction::Select, Some("a")),
        ("remove a", ManagedAccountAction::Remove, Some("a")),
        ("redeem a", ManagedAccountAction::Redeem, Some("a")),
        ("clear", ManagedAccountAction::Select, None),
    ] {
        let command = manage_accounts(line).unwrap();
        let params = command.params();
        assert_eq!(
            (params.action, params.alias.as_deref()),
            (action, alias),
            "{line}"
        );
        assert_eq!(params.limit, Some(100));
        assert_eq!(params.device_auth, Some(false));
    }
    assert_eq!(
        manage_accounts("add a --device-auth")
            .unwrap()
            .params()
            .device_auth,
        Some(true)
    );
    assert_eq!(
        manage_accounts("import a --device-auth").unwrap_err(),
        LineError::DeviceAuth
    );
    assert_eq!(
        LineError::DeviceAuth.message(),
        "--device-auth is only available with /accounts add ALIAS"
    );
    for line in ["add", "list a", "frob", "select a b"] {
        assert_eq!(manage_accounts(line).unwrap_err(), LineError::AccountsUsage);
    }
    assert_eq!(
        LineError::AccountsUsage.message(),
        "Usage: /accounts [list|usage [alias]|add alias|import alias|select alias|remove alias|redeem alias|clear]"
    );
    assert_eq!(
        manage_accounts("usage a").unwrap().view,
        AccountReportView::Usage
    );
    assert_eq!(
        manage_accounts("list").unwrap().view,
        AccountReportView::Summary
    );
}

#[test]
fn a_selection_is_made_once_and_then_all_usage_is_gathered() {
    let mut command = manage_accounts("select a").unwrap();
    assert_eq!(command.failure("offline"), "offline");
    assert!(command.take(response(vec![account("a")], None)).is_none());
    let params = command.params();
    assert_eq!(params.action, ManagedAccountAction::Usage);
    assert_eq!((params.alias, params.cursor), (None, None));
    assert_eq!(
        command.failure("offline"),
        "Default account updated, but usage could not be refreshed: offline. Run /accounts to retry."
    );
    assert!(command
        .take(response(vec![account("a")], Some("a")))
        .is_none());
    assert_eq!(command.params().cursor.as_deref(), Some("a"));
    let last = command.take(response(vec![account("b")], None)).unwrap();
    assert_eq!(aliases(&last.data), vec!["a", "b"]);
}

#[test]
fn pool_lines_become_requests() {
    let command = manage_pools("create work a b --no-auto-reset").unwrap();
    let params = command.params();
    assert_eq!(params.action, ManagedPoolAction::Create);
    let mut wanted = pool("work", &["a", "b"]);
    wanted.redeem_weekly_resets = false;
    assert_eq!(params.pool, Some(wanted));
    assert_eq!(
        manage_pools("update work a").unwrap().params().pool,
        Some(pool("work", &["a"]))
    );
    for (line, action, name) in [
        ("", ManagedPoolAction::List, None),
        ("list", ManagedPoolAction::List, None),
        ("inspect work", ManagedPoolAction::Read, Some("work")),
        ("select work", ManagedPoolAction::Select, Some("work")),
        ("clear", ManagedPoolAction::Select, None),
        ("remove work", ManagedPoolAction::Remove, Some("work")),
    ] {
        let params = manage_pools(line).unwrap().params();
        assert_eq!((params.action, params.name.as_deref()), (action, name));
        assert_eq!(params.limit, Some(100));
    }
    for line in ["create work", "inspect", "frob"] {
        assert_eq!(manage_pools(line).unwrap_err(), LineError::PoolsUsage);
    }
    assert_eq!(
        LineError::PoolsUsage.message(),
        "Usage: /pools [list|inspect NAME|create NAME ALIAS...|update NAME ALIAS...|select NAME|remove NAME|clear]. Add --no-auto-reset to wait for weekly recovery."
    );
}

#[test]
fn pools_are_gathered_over_pages() {
    let mut command = manage_pools("").unwrap();
    let page = |name: &str, next: Option<&str>| ManagedPoolResponse {
        data: vec![pool(name, &["a"])],
        next_cursor: next.map(str::to_owned),
        default_selection: None,
    };
    assert!(command.take(page("home", Some("home"))).is_none());
    assert_eq!(command.params().cursor.as_deref(), Some("home"));
    let last = command.take(page("work", None)).unwrap();
    assert_eq!(
        last.data
            .iter()
            .map(|pool| pool.name.as_str())
            .collect::<Vec<_>>(),
        vec!["home", "work"]
    );
    assert_eq!(last.next_cursor, None);
}

#[test]
fn account_commands_become_tasks() {
    let run = |action: AccountCommand, watch: bool| {
        AccountCli {
            action,
            json: false,
            watch,
        }
        .run()
    };
    assert_eq!(
        run(
            AccountCommand::Add {
                alias: "a".to_owned(),
                device_auth: true
            },
            false
        ),
        Ok(AccountTask::Add {
            alias: "a".to_owned(),
            device_auth: true
        })
    );
    assert_eq!(
        run(AccountCommand::List, true),
        Ok(AccountTask::List { watch: true })
    );
    assert_eq!(
        run(
            AccountCommand::Import {
                alias: "a".to_owned()
            },
            true
        ),
        Err(CliError::AccountWatch)
    );
    assert_eq!(
        run(
            AccountCommand::Select {
                alias: None,
                clear: false
            },
            false
        ),
        Err(CliError::AliasOrClear)
    );
    assert_eq!(
        run(
            AccountCommand::Select {
                alias: None,
                clear: true
            },
            false
        ),
        Ok(AccountTask::Select { selection: None })
    );
    assert_eq!(
        run(
            AccountCommand::Select {
                alias: Some("a".to_owned()),
                clear: false
            },
            false
        ),
        Ok(AccountTask::Select {
            selection: Some(AccountSelection::Account("a".to_owned()))
        })
    );
}

#[test]
fn pool_commands_become_tasks() {
    let run = |action: PoolCommand, watch: bool| {
        PoolCli {
            action,
            json: true,
            watch,
        }
        .run()
    };
    let definition = || PoolDefinition {
        name: "work".to_owned(),
        accounts: vec!["a".to_owned()],
        no_auto_reset: true,
    };
    let mut wanted = pool("work", &["a"]);
    wanted.redeem_weekly_resets = false;
    assert_eq!(AccountPool::from(definition()), wanted);
    assert_eq!(
        run(PoolCommand::Create(definition()), false),
        Ok(PoolTask::Put {
            pool: wanted.clone(),
            create: true
        })
    );
    assert_eq!(
        run(PoolCommand::Update(definition()), false),
        Ok(PoolTask::Put {
            pool: wanted,
            create: false
        })
    );
    assert_eq!(
        run(PoolCommand::Update(definition()), true),
        Err(CliError::PoolWatch)
    );
    assert_eq!(
        run(
            PoolCommand::Select {
                name: None,
                clear: false
            },
            false
        ),
        Err(CliError::NameOrClear)
    );
    assert_eq!(
        run(
            PoolCommand::Inspect {
                name: "work".to_owned()
            },
            true
        ),
        Ok(PoolTask::Inspect {
            name: "work".to_owned(),
            watch: true
        })
    );
}

#[test]
fn what_is_shown_must_exist() {
    assert_eq!(
        aliases(&accounts_to_show(Some(config()), &None).unwrap()),
        vec!["b", "a"]
    );
    assert_eq!(
        aliases(&accounts_to_show(Some(config()), &Some("a".to_owned())).unwrap()),
        vec!["a"]
    );
    assert_eq!(
        accounts_to_show(Some(config()), &Some("c".to_owned())),
        Err(CliError::UnknownAccount)
    );
    assert_eq!(
        pool_to_show(Some(config()), "work"),
        Ok(pool("work", &["a", "b"]))
    );
    assert_eq!(
        pool_to_show(Some(config()), "other"),
        Err(CliError::UnknownPool)
    );
    assert!(shows_again(true, false));
    assert!(!shows_again(true, true));
    assert!(!shows_again(false, false));
}

fn backend() -> ManagedBackend {
    ManagedBackend::new(AccountStore::new(CredentialStorage::File, true))
}

fn blank() -> ManagedAccountUsage {
    backend().usage(
        &Some(config()),
        &account("a"),
        &Some("model".to_owned()),
        NOW,
    )
}

fn window(used: f64, minutes: Option<i64>) -> Option<WindowReply> {
    Some(WindowReply {
        window_minutes: minutes,
        used_percent: Percent::from_bits(used.to_bits()),
        resets_at: Some(NOW + 60),
    })
}

fn limit(primary: Option<WindowReply>, secondary: Option<WindowReply>) -> LimitReply {
    LimitReply {
        limit_id: None,
        plan: Some(Some("plus".to_owned())),
        spend_control_reached: None,
        normal_model_slug: None,
        primary,
        secondary,
    }
}

fn reply(rate_limits: Vec<LimitReply>) -> LimitsReply {
    LimitsReply {
        account_id: Some("workspace-a".to_owned()),
        user_id: Some("user-a".to_owned()),
        ordinary_usage_allowed: Some(true),
        rate_limits,
        available_resets: Some(2),
    }
}

#[test]
fn a_reading_begins_with_what_the_store_knows() {
    let usage = blank();
    assert_eq!(usage.account, account("a"));
    assert_eq!(usage.pools, vec!["work".to_owned()]);
    assert_eq!(usage.checked_at, NOW);
    assert!(usage.windows.is_empty());
    let mut renamed = config();
    renamed.accounts[1].email = Some("a@example.com".to_owned());
    let usage = backend().usage(&Some(renamed), &account("a"), &None, NOW);
    assert_eq!(usage.account.email.as_deref(), Some("a@example.com"));
    let usage = backend().usage(&None, &account("a"), &None, NOW);
    assert_eq!((usage.account, usage.pools), (account("a"), Vec::new()));
}

#[test]
fn windows_are_taken_with_what_is_left() {
    let mut usage = blank();
    let mut special = limit(window(0.0, Some(60)), None);
    special.limit_id = Some("special".to_owned());
    special.normal_model_slug = Some("model".to_owned());
    let taken = backend().read_usage(
        &account("a"),
        reply(vec![
            limit(window(10.0, Some(300)), window(33.3, Some(10080))),
            special,
        ]),
        &mut usage,
    );
    assert_eq!(taken, Ok(()));
    assert_eq!(usage.account.plan.as_deref(), Some("plus"));
    assert_eq!(usage.ordinary_usage_allowed, Some(true));
    assert_eq!(usage.available_resets, Some(2));
    assert_eq!(
        usage
            .windows
            .iter()
            .map(|window| (
                window.limit_id.as_str(),
                window.model.as_deref(),
                f64::from_bits(window.remaining_percent.bits),
                window.window_minutes
            ))
            .collect::<Vec<_>>(),
        vec![
            ("codex", None, 90.0, 300),
            ("codex", None, 100.0 - 33.3, 10080),
            ("special", Some("model"), 100.0, 60)
        ]
    );
}

#[test]
fn a_reply_about_another_account_is_refused() {
    let mut usage = blank();
    let mut foreign = reply(vec![limit(window(10.0, Some(300)), None)]);
    foreign.account_id = Some("workspace-b".to_owned());
    assert_eq!(
        backend().read_usage(&account("a"), foreign, &mut usage),
        Err(UsageError::IdentityMismatch)
    );
    assert_eq!(usage, blank());
    let mut anonymous = reply(Vec::new());
    anonymous.account_id = None;
    anonymous.user_id = None;
    assert_eq!(
        backend().read_usage(&account("a"), anonymous, &mut usage),
        Ok(())
    );
}

#[test]
fn unsound_windows_are_refused() {
    for (bad, error) in [
        (window(10.0, None), UsageError::UnknownDuration),
        (window(10.0, Some(0)), UsageError::InvalidWindow),
        (window(-1.0, Some(300)), UsageError::InvalidWindow),
        (window(100.5, Some(300)), UsageError::InvalidWindow),
        (window(f64::NAN, Some(300)), UsageError::InvalidWindow),
    ] {
        let mut usage = blank();
        let taken = backend().read_usage(
            &account("a"),
            reply(vec![limit(window(10.0, Some(300)), bad)]),
            &mut usage,
        );
        assert_eq!(taken, Err(error));
        assert_eq!(usage.windows.len(), 1);
    }
    let mut spent = limit(window(10.0, Some(300)), None);
    spent.spend_control_reached = Some(true);
    let mut usage = blank();
    assert_eq!(
        backend().read_usage(&account("a"), reply(vec![spent]), &mut usage),
        Err(UsageError::SpendControl)
    );
    for (error, words) in [
        (
            UsageError::IdentityMismatch,
            "Usage identity does not match account",
        ),
        (
            UsageError::SpendControl,
            "Spend control prevents quota recovery",
        ),
        (
            UsageError::UnknownDuration,
            "Unknown quota window duration",
        ),
        (UsageError::InvalidWindow, "Invalid quota window"),
    ] {
        assert_eq!(error.message(), words);
    }
}

#[test]
fn backend_errors_are_unknown_and_do_not_expose_response_secrets() {
    let mut usage = blank();
    backend()
        .read_usage(
            &account("a"),
            reply(vec![limit(window(10.0, Some(300)), None)]),
            &mut usage,
        )
        .unwrap();
    backend().fail(&mut usage);
    assert_eq!(usage.ordinary_usage_allowed, None);
    assert_eq!(usage.model_supported, None);
    assert_eq!(usage.resets, None);
    assert_eq!(
        usage.error.as_deref(),
        Some("Authentication or usage lookup failed; availability is unknown")
    );
    assert_eq!(usage.windows.len(), 1);
}

#[test]
fn an_unauthorized_reading_is_tried_once_more_with_new_credentials() {
    let backend = backend();
    assert_eq!(
        backend.after_limits(LimitsStatus::Unauthorized, false),
        LimitsNext::RefreshAndRetry
    );
    assert_eq!(
        backend.after_limits(LimitsStatus::Unauthorized, true),
        LimitsNext::Fail
    );
    assert_eq!(
        backend.after_limits(LimitsStatus::Failed, false),
        LimitsNext::Fail
    );
    assert_eq!(
        backend.after_limits(LimitsStatus::Received, true),
        LimitsNext::Apply
    );
    let mut usage = blank();
    backend
        .read_usage(
            &account("a"),
            reply(vec![limit(window(10.0, Some(300)), window(10.0, Some(10080)))]),
            &mut usage,
        )
        .unwrap();
    backend.read_models(&vec!["model".to_owned()], &mut usage);
    assert_eq!(
        (
            usage.error,
            usage.model_supported,
            usage.ordinary_usage_allowed
        ),
        (None, Some(true), Some(true))
    );
}

#[test]
fn only_live_credits_of_the_right_kind_are_listed() {
    let credit = |id: &str, status: &str, kind: &str, expires: Option<&str>| CreditReply {
        id: id.to_owned(),
        status: status.to_owned(),
        reset_type: kind.to_owned(),
        expires_at: expires.map(str::to_owned),
    };
    let mut usage = blank();
    backend().read_resets(
        4,
        &vec![
            credit("never", "available", "codex_rate_limits", None),
            credit(
                "later",
                "available",
                "codex_rate_limits",
                Some("2027-01-15T09:00:01+01:00"),
            ),
            credit(
                "now",
                "available",
                "codex_rate_limits",
                Some("2027-01-15T08:00:00Z"),
            ),
            credit("garbled", "available", "codex_rate_limits", Some("soon")),
            credit("used", "redeemed", "codex_rate_limits", None),
            credit("other", "available", "other_limits", None),
        ],
        NOW,
        &mut usage,
    );
    assert_eq!(usage.available_resets, Some(4));
    assert_eq!(
        usage
            .resets
            .unwrap()
            .iter()
            .map(|reset| (reset.id.as_str(), reset.expires_at))
            .collect::<Vec<_>>(),
        vec![("never", None), ("later", Some(NOW + 1))]
    );
}

#[test]
fn a_model_is_supported_if_the_account_lists_it() {
    let mut usage = blank();
    backend().read_models(&vec!["other".to_owned()], &mut usage);
    assert_eq!(usage.model_supported, Some(false));
    let mut usage = backend().usage(&None, &account("a"), &None, NOW);
    backend().read_models(&vec!["other".to_owned()], &mut usage);
    assert_eq!(usage.model_supported, None);
}

#[test]
fn a_reset_without_an_answer_is_reconciled_later() {
    assert_eq!(
        backend().redeem(None),
        Err(RedemptionError::ResponseUnknown)
    );
    assert_eq!(
        backend().redeem(Some(ResetOutcome::Reset)),
        Ok(ResetOutcome::Reset)
    );
}

#[test]
fn account_pool_fresh_thread_inherits_its_source_despite_other_sessions_success() {
    let mut stored = config();
    stored.default_selection = Some(AccountSelection::Pool("work".to_owned()));
    let saved = RecoveryState {
        selection: AccountSelection::Pool("work".to_owned()),
        account: "b".to_owned(),
        waiting: false,
    };
    let preferences = Some(collect_preferences(&vec![Preference {
        pool: "work".to_owned(),
        account: account("a"),
    }]));
    for (source, selection, expected, pool_name) in [
        (true, None, "b", Some("work")),
        (false, None, "a", Some("work")),
        (
            true,
            Some(AccountSelection::Account("a".into())),
            "a",
            None,
        ),
    ] {
        let session = PoolSession::open(
            Some(stored.clone()),
            selection,
            if source { Some("first") } else { None },
            Some(saved.clone()),
            &preferences,
        )
        .unwrap()
        .unwrap();
        assert_eq!(
            (
                session.selected_account(&None).alias.as_str(),
                session.pool().map(|pool| pool.name).as_deref()
            ),
            (expected, pool_name)
        );
    }
}
