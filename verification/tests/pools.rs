use account_pools::account_pool::{
    AccountPool, AccountPoolConfig, AccountPoolEvent, AccountQuotaWindow, AccountSelection,
    BankedReset, ManagedAccount, ManagedAccountUsage, PoolWaitReason,
};
use account_pools::membership::PoolMembership;
use account_pools::percent::Percent;
use account_pools::preferences::{collect_preferences, Preference, Preferences};
use account_pools::recovery::{recovery_time, Recovery, RecoveryAction, RecoveryEvent};
use account_pools::redemption::{
    answered, observe_usable, observed, outcome_result, pending_credit, redeem, redeem_with_key,
    Intent, Redemption, RedemptionError, RedemptionMode, ResetOutcome, Transaction,
    TransactionAction, TransactionError, TransactionEvent,
};
use account_pools::session::{Preflight, PoolSession, RecoveryState};
use account_pools::store::{load_config, AccountStore, CredentialStorage, Login};
use std::collections::{HashMap, HashSet};

const NOW: i64 = 1_800_000_000;

fn percent(value: f64) -> Percent {
    Percent::from_bits(value.to_bits())
}

fn account(alias: &str) -> ManagedAccount {
    ManagedAccount {
        alias: alias.to_owned(),
        user_id: format!("user-{alias}"),
        workspace_id: format!("workspace-{alias}"),
        email: None,
        plan: Some("pro".to_owned()),
    }
}

fn usage(alias: &str, short: f64, weekly: f64, now: i64) -> ManagedAccountUsage {
    ManagedAccountUsage {
        account: account(alias),
        pools: vec!["work".to_owned()],
        model: Some("model".to_owned()),
        model_supported: Some(true),
        ordinary_usage_allowed: Some(short > 0.0 && weekly > 0.0),
        windows: vec![
            AccountQuotaWindow {
                limit_id: "codex".to_owned(),
                model: None,
                remaining_percent: percent(short),
                window_minutes: 300,
                resets_at: Some(now + 30),
            },
            AccountQuotaWindow {
                limit_id: "codex".to_owned(),
                model: None,
                remaining_percent: percent(weekly),
                window_minutes: 10080,
                resets_at: Some(now + 3600),
            },
        ],
        available_resets: Some(0),
        resets: Some(Vec::new()),
        checked_at: now,
        error: None,
    }
}

fn with_credits(mut usage: ManagedAccountUsage, count: i64) -> ManagedAccountUsage {
    usage.available_resets = Some(count);
    usage.resets = Some(
        (0..count)
            .map(|id| BankedReset {
                id: format!("credit-{id}"),
                expires_at: Some(usage.checked_at + 500 - id),
            })
            .collect(),
    );
    usage
}

fn pool(name: &str, accounts: &[&str], redeem_weekly_resets: bool) -> AccountPool {
    AccountPool {
        name: name.to_owned(),
        accounts: accounts.iter().map(|alias| alias.to_string()).collect(),
        redeem_weekly_resets,
    }
}

fn work() -> Option<AccountSelection> {
    Some(AccountSelection::Pool("work".to_owned()))
}

fn account_store() -> AccountStore {
    AccountStore::new(CredentialStorage::File, true)
}

fn login(alias: &str) -> Login {
    Login {
        chatgpt: true,
        allowed: true,
        user_id: Some(format!("user-{alias}")),
        workspace_id: Some(format!("workspace-{alias}")),
        email: None,
        plan: Some(Some("pro".to_owned())),
    }
}

/// What a user keeps on disk.
struct Home {
    stored: Option<AccountPoolConfig>,
    readable: bool,
    preferences: Option<Preferences>,
    sessions: HashMap<String, RecoveryState>,
    intents: HashMap<String, Intent>,
    damaged: HashSet<String>,
}

impl Home {
    fn import(&mut self, alias: &str) -> ManagedAccount {
        let plan = account_store()
            .import(alias)
            .unwrap()
            .plan(self.stored.clone(), Some(login(alias)))
            .unwrap();
        let (config, account) = plan.commit();
        self.stored = Some(config);
        account
    }

    fn put_pool(&mut self, pool: AccountPool, create: bool) {
        self.stored = Some(
            account_store()
                .put_pool(self.stored.clone(), pool, create)
                .unwrap(),
        );
    }

    fn read(&self) -> Option<AccountPoolConfig> {
        if self.readable {
            load_config(self.stored.clone()).ok()
        } else {
            None
        }
    }

    fn membership(&self, selection: &AccountSelection) -> Option<PoolMembership> {
        PoolMembership::from_config(&self.read()?, selection).ok()
    }

    fn open(&self, explicit: Option<AccountSelection>, resume: Option<&str>) -> PoolSession {
        PoolSession::open(
            self.stored.clone(),
            explicit,
            resume,
            resume.and_then(|id| self.sessions.get(id).cloned()),
            &self.preferences,
        )
        .unwrap()
        .unwrap()
    }

    fn bind(&mut self, session: &mut PoolSession, thread: &str) {
        let state = session.bind_thread(thread).unwrap();
        self.sessions.insert(thread.to_owned(), state);
    }

    fn record_success(&mut self, session: &PoolSession) {
        let current = session.selected_account(&None);
        if let Some(preferences) = session
            .record_success(&current, self.stored.clone(), self.preferences.clone())
            .unwrap()
        {
            self.preferences = Some(preferences);
        }
    }
}

fn populated() -> Home {
    let mut home = Home {
        stored: None,
        readable: true,
        preferences: None,
        sessions: HashMap::new(),
        intents: HashMap::new(),
        damaged: HashSet::new(),
    };
    home.import("a");
    home.import("b");
    home.put_pool(pool("work", &["a", "b"], true), true);
    home
}

#[derive(Default)]
struct Backend {
    usage: HashMap<String, ManagedAccountUsage>,
    calls: Vec<(String, String)>,
    fail_once: bool,
    outcome_once: Option<ResetOutcome>,
}

impl Backend {
    fn new(values: Vec<ManagedAccountUsage>) -> Self {
        Self {
            usage: values
                .into_iter()
                .map(|value| (value.account.alias.clone(), value))
                .collect(),
            ..Default::default()
        }
    }

    /// Readings are taken anew, so they are as old as the clock says.
    fn usage(&self, account: &ManagedAccount, now: i64) -> ManagedAccountUsage {
        let mut usage = self.usage[&account.alias].clone();
        usage.checked_at = now;
        usage
    }

    fn redeem(&mut self, alias: &str, key: &str, credit: &str) -> Option<ResetOutcome> {
        self.calls.push((key.to_owned(), credit.to_owned()));
        if std::mem::take(&mut self.fail_once) {
            return None;
        }
        if let Some(outcome) = self.outcome_once.take() {
            return Some(outcome);
        }
        let value = self.usage.get_mut(alias).unwrap();
        value.ordinary_usage_allowed = Some(true);
        for window in &mut value.windows {
            window.remaining_percent = percent(100.0);
        }
        value.available_resets = value.available_resets.map(|count| count - 1);
        value
            .resets
            .as_mut()
            .unwrap()
            .retain(|item| item.id != credit);
        Some(ResetOutcome::Reset)
    }
}

fn redeem_credit(
    home: &mut Home,
    backend: &mut Backend,
    alias: &str,
    credit: &str,
    mode: RedemptionMode,
    now: i64,
) -> Result<ManagedAccountUsage, RedemptionError> {
    let account = account(alias);
    let mut transaction = Transaction::begin(
        backend.usage(&account, now),
        now,
        home.intents.get(alias).cloned(),
        credit,
        &Some("model".to_owned()),
        mode,
    );
    loop {
        let event = match transaction.action() {
            TransactionAction::Write(intent) => {
                home.intents.insert(alias.to_owned(), intent);
                TransactionEvent::Written(true)
            }
            TransactionAction::Send(key, credit) => {
                let written = &home.intents[alias];
                assert_eq!((&written.key, &written.credit), (&key, &credit));
                assert!(!written.completed && !written.declined);
                TransactionEvent::Answered(backend.redeem(alias, &key, &credit))
            }
            TransactionAction::ReadUsage => {
                TransactionEvent::Read(backend.usage(&account, now), now)
            }
            TransactionAction::Finish(result) => {
                return result.map_err(|error| match error {
                    TransactionError::Refused(error) => error,
                    TransactionError::Unanswered => RedemptionError::ResponseUnknown,
                    TransactionError::Unwritten => panic!("every write succeeds"),
                });
            }
        };
        transaction = transaction.step(event);
    }
}

/// Runs a recovery until it ends, or until `notice` says that it is cancelled. Gives the events,
/// the seconds slept, and whether it ended.
fn recover(
    home: &mut Home,
    backend: &mut Backend,
    session: &mut PoolSession,
    mut notice: impl FnMut(&mut Home, &mut Backend, &PoolSession, &AccountPoolEvent) -> bool,
) -> (Vec<AccountPoolEvent>, u64, bool) {
    let mut now = NOW;
    let mut slept = 0;
    let mut events = Vec::new();
    let (mut recovery, state): (Recovery, Option<RecoveryState>) =
        session.recover(session.selected_account(&None), now);
    if let (Some(thread), Some(state)) = (session.thread.clone(), state) {
        home.sessions.insert(thread, state);
    }
    for _ in 0..1000 {
        let event = match recovery.action(session) {
            RecoveryAction::ReadMembership => {
                RecoveryEvent::Membership(home.membership(session.selection()))
            }
            RecoveryAction::ReadUsages => RecoveryEvent::Usages(
                recovery
                    .members()
                    .iter()
                    .map(|account| backend.usage(account, now))
                    .collect(),
            ),
            RecoveryAction::ReadPendingCredit(index) => {
                let alias = recovery.members()[index].alias.clone();
                RecoveryEvent::PendingCredit(pending_credit(home.intents.get(&alias).cloned()))
            }
            RecoveryAction::TakeLock => RecoveryEvent::LockTaken,
            RecoveryAction::ReadFresh(index) => {
                RecoveryEvent::Fresh(backend.usage(&recovery.members()[index], now), now)
            }
            RecoveryAction::Activate(index) => {
                let account = recovery.members()[index].clone();
                let needed = session.needs_credentials(&account);
                let done = !needed || !home.damaged.contains(&account.alias);
                RecoveryEvent::Activated(done)
            }
            RecoveryAction::ObserveUsable(index) => {
                let alias = recovery.members()[index].alias.clone();
                if let Some(intent) = observe_usable(home.intents.get(&alias).cloned()) {
                    home.intents.insert(alias, intent);
                }
                RecoveryEvent::Observed
            }
            RecoveryAction::Redeem(index, credit) => {
                assert!(recovery.holds_lock());
                let alias = recovery.members()[index].alias.clone();
                let fresh = redeem_credit(
                    home,
                    backend,
                    &alias,
                    &credit,
                    RedemptionMode::Automatic,
                    now,
                );
                RecoveryEvent::Redeemed(fresh.ok(), now)
            }
            RecoveryAction::Save(state) => {
                if let (Some(thread), Some(state)) = (session.thread.clone(), state) {
                    home.sessions.insert(thread, state);
                }
                RecoveryEvent::Saved
            }
            RecoveryAction::Sleep(seconds) => {
                assert!(!recovery.holds_lock());
                now += seconds as i64;
                slept += seconds;
                RecoveryEvent::Slept
            }
            RecoveryAction::Finish => {
                assert!(!recovery.holds_lock());
                return (events, slept, true);
            }
        };
        for event in recovery.step(session, event, now) {
            let cancelled = notice(home, backend, session, &event);
            events.push(event);
            if cancelled {
                return (events, slept, false);
            }
        }
    }
    panic!("the recovery goes round in circles");
}

#[test]
fn sessions_switch_independently_and_resume_their_own_selection() {
    let mut home = populated();
    let mut first = home.open(work(), None);
    let second = home.open(work(), None);
    home.bind(&mut first, "thread-a");
    let mut backend = Backend::new(vec![
        usage("a", 0.0, 40.0, NOW),
        usage("b", 70.0, 70.0, NOW),
    ]);
    let (events, _, done) = recover(&mut home, &mut backend, &mut first, |_, _, _, _| false);
    assert!(done);
    assert_eq!(
        events,
        vec![AccountPoolEvent::Switched {
            account: "b".to_owned(),
            previous_account: "a".to_owned()
        }]
    );
    assert_eq!(first.selected_account(&None).workspace_id, "workspace-b");
    assert_eq!(second.selected_account(&None).workspace_id, "workspace-a");
    let resumed = home.open(None, Some("thread-a"));
    assert_eq!(resumed.selected_account(&None).workspace_id, "workspace-b");
}

#[test]
fn waiting_is_cancellable_and_does_not_run_after_cancellation() {
    let mut home = populated();
    let mut session = home.open(work(), None);
    home.bind(&mut session, "waiting-thread");
    let mut backend = Backend::new(vec![
        usage("a", 0.0, 40.0, NOW),
        usage("b", 0.0, 40.0, NOW),
    ]);
    let (_, _, done) = recover(&mut home, &mut backend, &mut session, |_, _, _, event| {
        assert!(matches!(
            event,
            AccountPoolEvent::Waiting {
                reason: PoolWaitReason::ShortWindow,
                ..
            }
        ));
        true
    });
    assert!(!done);
    assert!(backend.calls.is_empty());
    assert!(home.sessions["waiting-thread"].waiting);
    let mut resumed = home.open(None, Some("waiting-thread"));
    assert!(resumed.is_waiting());
    home.bind(&mut resumed, "waiting-thread");
    assert!(home.sessions["waiting-thread"].waiting);
}

#[test]
fn concurrent_and_crashed_redemptions_reuse_one_key_and_credit() {
    let mut home = populated();
    let mut backend = Backend::new(vec![with_credits(usage("a", 40.0, 0.0, NOW), 2)]);
    backend.fail_once = true;
    assert!(redeem_credit(
        &mut home,
        &mut backend,
        "a",
        "credit-1",
        RedemptionMode::Automatic,
        NOW
    )
    .is_err());
    assert_eq!(home.intents["a"].key, backend.calls[0].0);
    for _ in 0..2 {
        assert!(redeem_credit(
            &mut home,
            &mut backend,
            "a",
            "credit-0",
            RedemptionMode::Automatic,
            NOW
        )
        .is_ok());
    }
    assert_eq!(backend.calls.len(), 2);
    assert_eq!(backend.calls[0], backend.calls[1]);
    assert_eq!(backend.usage["a"].available_resets, Some(1));
}

#[test]
fn definitive_declines_allow_a_new_credit_but_applied_resets_wait_for_quota() {
    for outcome in [
        ResetOutcome::NoCredit,
        ResetOutcome::NothingToReset,
        ResetOutcome::AlreadyRedeemed,
    ] {
        let mut home = populated();
        let mut backend = Backend::new(vec![with_credits(usage("a", 0.0, 0.0, NOW), 2)]);
        backend.outcome_once = Some(outcome);
        let _ = redeem_credit(
            &mut home,
            &mut backend,
            "a",
            "credit-0",
            RedemptionMode::Automatic,
            NOW,
        );
        let next = redeem_credit(
            &mut home,
            &mut backend,
            "a",
            "credit-1",
            RedemptionMode::Automatic,
            NOW,
        );
        if outcome == ResetOutcome::AlreadyRedeemed {
            assert_eq!(next.unwrap_err(), RedemptionError::AwaitingRecovery);
            assert_eq!(backend.calls.len(), 1);
        } else {
            assert_eq!(next.unwrap().ordinary_usage_allowed, Some(true));
            assert_eq!(backend.calls.len(), 2);
        }
    }
}

#[test]
fn pending_automatic_intent_cannot_spend_for_short_quota_after_a_crash() {
    let mut home = populated();
    let mut backend = Backend::new(vec![with_credits(usage("a", 0.0, 0.0, NOW), 2)]);
    backend.fail_once = true;
    let _ = redeem_credit(
        &mut home,
        &mut backend,
        "a",
        "credit-0",
        RedemptionMode::Automatic,
        NOW,
    );
    backend.usage.insert(
        "a".to_owned(),
        with_credits(usage("a", 0.0, 70.0, NOW), 2),
    );
    assert_eq!(
        redeem_credit(
            &mut home,
            &mut backend,
            "a",
            "credit-1",
            RedemptionMode::Automatic,
            NOW
        )
        .unwrap_err(),
        RedemptionError::WeeklyAvailable
    );
    assert_eq!(backend.calls.len(), 1);
}

#[test]
fn reset_recovers_after_process_death_and_concurrent_resumers() {
    let mut home = populated();
    let mut backend = Backend::new(vec![with_credits(usage("a", 0.0, 0.0, NOW), 2)]);
    backend.fail_once = true;
    let _ = redeem_credit(
        &mut home,
        &mut backend,
        "a",
        "credit-0",
        RedemptionMode::Automatic,
        NOW,
    );
    let intent = home.intents["a"].clone();
    assert!(!intent.completed);
    backend.outcome_once = Some(ResetOutcome::AlreadyRedeemed);
    let first = redeem_credit(
        &mut home,
        &mut backend,
        "a",
        "credit-0",
        RedemptionMode::Automatic,
        NOW,
    );
    assert!(first.is_ok());
    backend
        .usage
        .insert("a".to_owned(), with_credits(usage("a", 90.0, 90.0, NOW), 2));
    let second = redeem_credit(
        &mut home,
        &mut backend,
        "a",
        "credit-0",
        RedemptionMode::Automatic,
        NOW,
    );
    assert_eq!(second.unwrap().ordinary_usage_allowed, Some(true));
    assert_eq!(backend.calls.len(), 2);
    assert_eq!(backend.calls[0], backend.calls[1]);
    assert_eq!(backend.calls[0].0, intent.key);
}

#[test]
fn waiting_checks_at_advertised_reset_without_spending_short_window_credits() {
    let mut home = populated();
    let mut session = home.open(work(), None);
    let mut readings = vec![
        with_credits(usage("a", 0.0, 40.0, NOW), 2),
        with_credits(usage("b", 0.0, 40.0, NOW), 2),
    ];
    for usage in &mut readings {
        usage.windows[0].resets_at = Some(NOW + 5);
    }
    let mut backend = Backend::new(readings);
    let (events, slept, done) =
        recover(&mut home, &mut backend, &mut session, |_, backend, _, event| {
            if let AccountPoolEvent::Waiting { next_check_at, .. } = event {
                assert_eq!(*next_check_at, NOW + 5);
                backend
                    .usage
                    .insert("b".to_owned(), usage("b", 90.0, 40.0, NOW));
            }
            false
        });
    assert!(done);
    assert_eq!(slept, 5);
    assert_eq!(events.len(), 2);
    assert!(backend.calls.is_empty());
}

#[test]
fn failed_usage_backoff_still_checks_at_a_reset_after_the_normal_poll_interval() {
    let mut home = populated();
    let mut session = home.open(work(), None);
    let mut readings = vec![usage("a", 0.0, 0.0, NOW), usage("b", 0.0, 0.0, NOW)];
    for reading in &mut readings {
        reading.error = Some("usage unavailable".to_owned());
        for window in &mut reading.windows {
            window.resets_at = Some(NOW + 75);
        }
    }
    let mut backend = Backend::new(readings);
    let (events, _, done) = recover(&mut home, &mut backend, &mut session, |_, _, _, _| true);
    assert!(!done);
    assert_eq!(
        events,
        vec![AccountPoolEvent::Waiting {
            account: "a".to_owned(),
            reason: PoolWaitReason::UnknownAvailability,
            next_check_at: NOW + 75,
        }]
    );
    assert!(backend.calls.is_empty());
}

#[test]
fn pending_reset_cannot_override_disabled_policy_or_unsupported_model() {
    for disabled in [true, false] {
        let mut home = populated();
        let mut backend = Backend::new(vec![
            with_credits(usage("a", 0.0, 0.0, NOW), 2),
            usage("b", 0.0, 0.0, NOW),
        ]);
        backend.fail_once = true;
        let _ = redeem_credit(
            &mut home,
            &mut backend,
            "a",
            "credit-0",
            RedemptionMode::Automatic,
            NOW,
        );
        if disabled {
            home.put_pool(pool("work", &["a", "b"], false), false);
        } else {
            backend.usage.get_mut("a").unwrap().model_supported = Some(false);
        }
        let mut session = home.open(work(), None);
        let (_, _, done) = recover(&mut home, &mut backend, &mut session, |_, _, _, _| true);
        assert!(!done);
        assert_eq!(backend.calls.len(), 1);
    }
}

#[test]
fn an_exhausted_pool_spends_one_reset_and_goes_on() {
    let mut home = populated();
    let mut session = home.open(work(), None);
    home.bind(&mut session, "reset-thread");
    let mut backend = Backend::new(vec![
        with_credits(usage("a", 0.0, 0.0, NOW), 1),
        with_credits(usage("b", 0.0, 0.0, NOW), 3),
    ]);
    let (events, slept, done) =
        recover(&mut home, &mut backend, &mut session, |_, _, _, _| false);
    assert!(done);
    assert_eq!(slept, 0);
    assert_eq!(
        events,
        vec![
            AccountPoolEvent::Redeemed {
                account: "b".to_owned()
            },
            AccountPoolEvent::Switched {
                account: "b".to_owned(),
                previous_account: "a".to_owned()
            }
        ]
    );
    assert_eq!(backend.calls.len(), 1);
    assert_eq!(backend.calls[0].1, "credit-2");
    assert!(home.intents["b"].completed && home.intents["b"].observed_usable);
    assert!(!session.is_waiting());
    assert_eq!(
        home.sessions["reset-thread"],
        RecoveryState {
            selection: AccountSelection::Pool("work".to_owned()),
            account: "b".to_owned(),
            waiting: false,
        }
    );
}

#[test]
fn a_reset_without_verified_recovery_waits_no_longer_than_an_advertised_reset() {
    for (resets_in, expected) in [(30, 30), (59, 59), (61, 60), (-5, 60)] {
        let mut home = populated();
        let mut session = home.open(work(), None);
        let mut readings = vec![
            with_credits(usage("a", 50.0, 0.0, NOW), 1),
            usage("b", 50.0, 0.0, NOW),
        ];
        for reading in &mut readings {
            reading.windows[0].resets_at = Some(NOW + resets_in);
        }
        let mut backend = Backend::new(readings);
        backend.fail_once = true;
        let (events, _, done) = recover(&mut home, &mut backend, &mut session, |_, _, _, _| true);
        assert!(!done);
        assert_eq!(backend.calls.len(), 1);
        assert_eq!(
            events,
            vec![AccountPoolEvent::Waiting {
                account: "a".to_owned(),
                reason: PoolWaitReason::RedemptionPending,
                next_check_at: NOW + expected,
            }]
        );
    }
}

#[test]
fn a_failed_reset_is_checked_again_when_the_short_window_resets() {
    let mut home = populated();
    let mut session = home.open(work(), None);
    let mut backend = Backend::new(vec![
        with_credits(usage("a", 50.0, 0.0, NOW), 1),
        usage("b", 50.0, 0.0, NOW),
    ]);
    backend.fail_once = true;
    let (events, slept, done) =
        recover(&mut home, &mut backend, &mut session, |_, _, _, _| false);
    assert!(done);
    assert_eq!(slept, 30);
    assert_eq!(
        events,
        vec![
            AccountPoolEvent::Waiting {
                account: "a".to_owned(),
                reason: PoolWaitReason::RedemptionPending,
                next_check_at: NOW + 30,
            },
            AccountPoolEvent::Redeemed {
                account: "a".to_owned()
            },
        ]
    );
    assert_eq!(backend.calls.len(), 2);
    assert_eq!(backend.calls[0], backend.calls[1]);
}

#[test]
fn an_unfinished_reset_of_an_unsupported_account_waits_until_an_advertised_reset() {
    let mut home = populated();
    let mut backend = Backend::new(vec![
        with_credits(usage("a", 50.0, 0.0, NOW), 1),
        with_credits(usage("b", 50.0, 0.0, NOW), 1),
    ]);
    backend.fail_once = true;
    let _ = redeem_credit(
        &mut home,
        &mut backend,
        "a",
        "credit-0",
        RedemptionMode::Automatic,
        NOW,
    );
    backend.usage.get_mut("a").unwrap().model_supported = Some(false);
    let mut session = home.open(work(), None);
    let (events, _, done) = recover(&mut home, &mut backend, &mut session, |_, _, _, _| true);
    assert!(!done);
    assert_eq!(
        events,
        vec![AccountPoolEvent::Waiting {
            account: "a".to_owned(),
            reason: PoolWaitReason::RedemptionPending,
            next_check_at: NOW + 30,
        }]
    );
    assert_eq!(backend.calls.len(), 1);
}

#[test]
fn a_rejected_account_is_not_used_for_a_minute_though_its_usage_allows_it() {
    let mut home = populated();
    let mut session = home.open(Some(AccountSelection::Account("a".to_owned())), None);
    let mut backend = Backend::new(vec![usage("a", 50.0, 50.0, NOW)]);
    let (events, slept, done) =
        recover(&mut home, &mut backend, &mut session, |_, _, _, _| false);
    assert!(done);
    assert!(slept >= 60);
    assert!(events
        .iter()
        .all(|event| matches!(event, AccountPoolEvent::Waiting { .. })));
    assert!(!session.is_waiting());
}

#[test]
fn repeated_failures_back_off_to_five_minutes() {
    let mut home = populated();
    let mut session = home.open(work(), None);
    let mut readings = vec![usage("a", 0.0, 0.0, NOW), usage("b", 0.0, 0.0, NOW)];
    for reading in &mut readings {
        reading.error = Some("usage unavailable".to_owned());
        for window in &mut reading.windows {
            window.resets_at = None;
        }
    }
    let mut backend = Backend::new(readings);
    let mut waits = 0;
    let (events, slept, _) = recover(&mut home, &mut backend, &mut session, |_, _, _, _| {
        waits += 1;
        waits == 5
    });
    let times: Vec<i64> = events
        .iter()
        .map(|event| match event {
            AccountPoolEvent::Waiting { next_check_at, .. } => *next_check_at - NOW,
            _ => panic!("only waits are expected"),
        })
        .collect();
    assert_eq!(times, vec![120, 360, 660, 960, 1260]);
    assert_eq!(slept, 960);
}

#[test]
fn successful_account_is_shared_only_with_new_sessions() {
    let mut home = populated();
    home.stored = Some(
        account_store()
            .select_default(home.stored.clone(), work())
            .unwrap(),
    );
    let original = home.read().unwrap();
    let mut first = home.open(work(), None);
    home.bind(&mut first, "first");
    let second = home.open(work(), None);
    let mut backend = Backend::new(vec![
        usage("a", 0.0, 40.0, NOW),
        usage("b", 70.0, 70.0, NOW),
    ]);
    recover(&mut home, &mut backend, &mut first, |_, _, _, _| false);
    assert!(home.preferences.is_none(), "selection alone is not success");
    home.record_success(&first);
    let fresh = home.open(None, None);
    assert_eq!(fresh.selected_account(&None).alias, "b");
    home.record_success(&second);
    let next = home.open(work(), None);
    let resumed = home.open(None, Some("first"));
    let pinned = home.open(Some(AccountSelection::Account("a".into())), Some("first"));
    assert_eq!(
        [
            first.selected_account(&None).alias,
            second.selected_account(&None).alias,
            next.selected_account(&None).alias,
            resumed.selected_account(&None).alias,
            pinned.selected_account(&None).alias
        ],
        ["b", "a", "a", "b", "a"],
    );
    assert_eq!(home.read().unwrap(), original);
}

#[test]
fn preferences_ignore_damaged_files_removed_members_and_reassigned_aliases() {
    let mut home = populated();
    for value in [
        None,
        Some(account("removed")),
        Some(ManagedAccount {
            user_id: "different".into(),
            ..account("b")
        }),
    ] {
        home.preferences = value.map(|account| {
            collect_preferences(&vec![Preference {
                pool: "work".to_owned(),
                account,
            }])
        });
        let session = home.open(work(), None);
        assert_eq!(session.selected_account(&None).alias, "a");
    }
    home.preferences = Some(collect_preferences(&vec![Preference {
        pool: "work".to_owned(),
        account: account("b"),
    }]));
    assert_eq!(home.open(work(), None).selected_account(&None).alias, "b");
}

#[test]
fn concurrent_pool_preferences_keep_all_updates() {
    let mut home = populated();
    let mut sessions = Vec::new();
    for index in 0..8 {
        let name = format!("pool-{index}");
        home.put_pool(pool(&name, &["b"], false), true);
        sessions.push(home.open(Some(AccountSelection::Pool(name)), None));
    }
    for session in &sessions {
        home.record_success(session);
    }
    let preferences = home.preferences.unwrap();
    let mut names: Vec<String> = preferences
        .entries()
        .iter()
        .map(|entry| entry.pool.clone())
        .collect();
    names.sort();
    assert_eq!(
        names,
        (0..8).map(|i| format!("pool-{i}")).collect::<Vec<_>>()
    );
    assert!(preferences
        .entries()
        .iter()
        .all(|entry| entry.account.alias == "b"));
}

#[test]
fn preferences_of_removed_pools_are_dropped_with_the_next_success() {
    let mut home = populated();
    home.put_pool(pool("other", &["b"], false), true);
    let other = home.open(Some(AccountSelection::Pool("other".to_owned())), None);
    home.record_success(&other);
    home.stored = Some(
        account_store()
            .remove_pool(home.stored.clone(), "other")
            .unwrap(),
    );
    let session = home.open(work(), None);
    home.record_success(&session);
    let preferences = home.preferences.unwrap();
    assert!(preferences.get("other").is_none());
    assert_eq!(preferences.get("work"), Some(&account("a")));
}

#[test]
fn waiting_session_picks_up_new_accounts_without_restarting() {
    let mut home = populated();
    let mut session = home.open(work(), None);
    home.bind(&mut session, "reload-thread");
    let replacement = pool("work", &["c", "b"], false);
    let mut backend = Backend::new(vec![
        usage("a", 0.0, 0.0, NOW),
        usage("b", 0.0, 0.0, NOW),
        usage("c", 90.0, 90.0, NOW),
    ]);
    let wanted = replacement.clone();
    let (events, _, done) = recover(&mut home, &mut backend, &mut session, |home, _, _, event| {
        if matches!(event, AccountPoolEvent::Waiting { .. }) {
            home.import("c");
            home.put_pool(wanted.clone(), false);
            home.stored = Some(
                account_store()
                    .select_default(
                        home.stored.clone(),
                        Some(AccountSelection::Account("b".to_owned())),
                    )
                    .unwrap(),
            );
        }
        false
    });
    assert!(done);
    assert_eq!(
        events.last().unwrap(),
        &AccountPoolEvent::Switched {
            account: "c".to_owned(),
            previous_account: "a".to_owned(),
        }
    );
    assert_eq!(session.selected_account(&None), account("c"));
    assert_eq!(session.pool(), Some(replacement));
    assert!(!session.is_waiting());
    assert!(backend.calls.is_empty());
    assert_eq!(
        home.sessions["reload-thread"],
        RecoveryState {
            selection: AccountSelection::Pool("work".to_owned()),
            account: "c".to_owned(),
            waiting: false,
        }
    );
}

#[test]
fn incomplete_configuration_waits_for_a_valid_snapshot() {
    let empty = AccountPoolConfig::default();
    let dangling = AccountPoolConfig {
        accounts: Vec::new(),
        pools: vec![pool("work", &["missing"], false)],
        default_selection: None,
    };
    for (readable, incomplete) in [
        (true, None),
        (false, None),
        (true, Some(empty)),
        (true, Some(dangling)),
    ] {
        let mut home = populated();
        let config = home.read().unwrap();
        let mut session = home.open(work(), None);
        let original_pool = session.pool();
        home.stored = incomplete;
        home.readable = readable;
        let mut backend = Backend::new(vec![
            with_credits(usage("a", 0.0, 0.0, NOW), 2),
            usage("b", 80.0, 90.0, NOW),
        ]);
        let (events, slept, done) =
            recover(&mut home, &mut backend, &mut session, |home, _, session, event| {
                if matches!(event, AccountPoolEvent::Waiting { .. }) {
                    assert_eq!(session.pool(), original_pool);
                    assert_eq!(
                        event,
                        &AccountPoolEvent::Waiting {
                            account: "a".to_owned(),
                            reason: PoolWaitReason::UnknownAvailability,
                            next_check_at: NOW + 60,
                        }
                    );
                    home.stored = Some(config.clone());
                    home.readable = true;
                }
                false
            });
        assert!(done);
        assert_eq!(slept, 60);
        assert_eq!(events.len(), 2);
        assert_eq!(session.selected_account(&None), account("b"));
        assert!(!session.is_waiting());
        assert!(backend.calls.is_empty());
    }
}

#[test]
fn edits_during_usage_reads_invalidate_switches_and_reset_permission() {
    for remaining in [0.0, 90.0] {
        let mut home = populated();
        let mut session = home.open(work(), None);
        let replacement = pool("work", &["a"], false);
        let backend = Backend::new(vec![
            with_credits(usage("a", 0.0, 0.0, NOW), 2),
            with_credits(usage("b", remaining, remaining, NOW), 2),
        ]);
        let current = session.selected_account(&None);
        let (mut recovery, _) = session.recover(current, NOW);
        let mut edited = false;
        let mut events = Vec::new();
        while events.is_empty() {
            let event = match recovery.action(&session) {
                RecoveryAction::ReadMembership => {
                    RecoveryEvent::Membership(home.membership(session.selection()))
                }
                RecoveryAction::ReadUsages => {
                    if !edited {
                        edited = true;
                        home.put_pool(replacement.clone(), false);
                    }
                    RecoveryEvent::Usages(
                        recovery
                            .members()
                            .iter()
                            .map(|account| backend.usage(account, NOW))
                            .collect(),
                    )
                }
                RecoveryAction::ReadPendingCredit(_) => RecoveryEvent::PendingCredit(None),
                action => panic!("unexpected {action:?}"),
            };
            events = recovery.step(&mut session, event, NOW);
        }
        assert_eq!(
            events,
            vec![AccountPoolEvent::Waiting {
                account: "a".to_owned(),
                reason: PoolWaitReason::WeeklyQuota,
                next_check_at: NOW + 30,
            }]
        );
        assert_eq!(session.pool(), Some(replacement));
        assert_eq!(session.selected_account(&None), account("a"));
    }
}

#[test]
fn interrupted_credential_update_does_not_end_recovery() {
    let mut home = populated();
    let mut session = home.open(work(), None);
    home.damaged.insert("b".to_owned());
    let mut backend = Backend::new(vec![
        usage("a", 0.0, 0.0, NOW),
        usage("b", 90.0, 90.0, NOW),
    ]);
    let (events, slept, done) =
        recover(&mut home, &mut backend, &mut session, |home, _, _, event| {
            if let AccountPoolEvent::Waiting { reason, .. } = event {
                assert_eq!(*reason, PoolWaitReason::UnknownAvailability);
                home.damaged.clear();
            }
            false
        });
    assert!(done);
    assert!(slept <= 90);
    assert_eq!(events.len(), 2);
    assert_eq!(session.selected_account(&None), account("b"));
    assert!(!session.is_waiting());
}

#[test]
fn concurrent_pool_writers_publish_complete_snapshots_without_lost_updates() {
    let mut home = populated();
    for index in 0..16 {
        home.put_pool(pool(&format!("pool-{index}"), &["a", "b"], false), true);
        let config = home.read().unwrap();
        assert_eq!(config.accounts, vec![account("a"), account("b")]);
        for pool in config.pools {
            assert_eq!(pool.accounts, vec!["a".to_owned(), "b".to_owned()]);
        }
    }
    let mut names: Vec<_> = home
        .read()
        .unwrap()
        .pools
        .into_iter()
        .map(|pool| pool.name)
        .collect();
    let mut expected: Vec<_> = (0..16).map(|index| format!("pool-{index}")).collect();
    expected.push("work".to_owned());
    names.sort();
    expected.sort();
    assert_eq!(names, expected);
}

fn verify_weekly_recovery(added_later: bool) {
    let mut home = populated();
    for alias in ["oa", "ob", "oc"] {
        home.import(alias);
    }
    let all = pool("nano", &["oa", "ob", "oc"], true);
    if added_later {
        home.put_pool(pool("nano", &["oa", "ob"], true), true);
    } else {
        home.put_pool(all.clone(), true);
    }
    let mut session = home.open(Some(AccountSelection::Pool("nano".to_owned())), None);
    if added_later {
        home.put_pool(all, false);
    }
    let mut readings = vec![
        with_credits(usage("oa", 0.0, 0.0, NOW), 1),
        usage("ob", 0.0, 0.0, NOW),
        usage("oc", 100.0, 100.0, NOW),
    ];
    for reading in &mut readings {
        reading.windows.remove(0);
    }
    let mut backend = Backend::new(readings);
    let (events, _, done) = recover(&mut home, &mut backend, &mut session, |_, _, _, event| {
        matches!(event, AccountPoolEvent::Waiting { .. })
    });
    assert_eq!(
        events,
        vec![AccountPoolEvent::Switched {
            account: "oc".to_owned(),
            previous_account: "oa".to_owned(),
        }]
    );
    assert!(done);
    assert_eq!(session.selected_account(&None).alias, "oc");
    assert!(!session.is_waiting());
    assert!(backend.calls.is_empty());
}

#[test]
fn weekly_only_pool_switches_to_available_account_without_spending_a_reset() {
    verify_weekly_recovery(false);
}

#[test]
fn recovery_reloads_members_added_after_the_session_opened() {
    verify_weekly_recovery(true);
}

#[test]
fn account_pool_preflight_skips_exhausted_account_but_keeps_unknown_or_available() {
    for (availability, expected) in [("exhausted", true), ("unknown", false), ("available", false)]
    {
        let home = populated();
        let mut session = home.open(work(), None);
        assert_eq!(session.preflight(), Preflight::Check);
        let mut reading = match availability {
            "exhausted" => usage("a", 0.0, 50.0, NOW),
            _ => usage("a", 50.0, 50.0, NOW),
        };
        if availability == "unknown" {
            reading.error = Some("offline".to_owned());
        }
        assert_eq!(session.needs_recovery(&reading, NOW), expected);
        if expected {
            assert_eq!(session.preflight(), Preflight::Check);
            session.recovered();
        }
        assert_eq!(session.preflight(), Preflight::Ready);
    }
}

#[test]
fn a_waiting_session_recovers_before_anything_else() {
    let mut home = populated();
    let mut session = home.open(work(), None);
    home.bind(&mut session, "thread");
    home.sessions.get_mut("thread").unwrap().waiting = true;
    let mut resumed = home.open(None, Some("thread"));
    assert_eq!(resumed.preflight(), Preflight::Recover);
    assert_eq!(resumed.preflight(), Preflight::Recover);
}

#[test]
fn a_reset_is_refused_on_unknown_usage_and_for_a_credit_that_is_gone() {
    let model = Some("model".to_owned());
    let mut fresh = usage("a", 0.0, 0.0, NOW);
    fresh.error = Some("offline".to_owned());
    assert_eq!(
        redeem(&fresh, NOW, None, "credit-0", &model, RedemptionMode::Explicit).unwrap_err(),
        RedemptionError::UnknownAvailability
    );
    let fresh = with_credits(usage("a", 0.0, 0.0, NOW), 1);
    assert_eq!(
        redeem(&fresh, NOW, None, "credit-1", &model, RedemptionMode::Explicit).unwrap_err(),
        RedemptionError::CreditUnavailable
    );
    assert_eq!(
        redeem(&fresh, NOW + 80, None, "credit-0", &model, RedemptionMode::Explicit).is_ok(),
        true
    );
    assert_eq!(
        outcome_result(ResetOutcome::NoCredit),
        Err(RedemptionError::Declined)
    );
    assert_eq!(outcome_result(ResetOutcome::Reset), Ok(()));
}

#[test]
fn every_attempt_has_a_key_of_its_own() {
    let model = Some("model".to_owned());
    let fresh = with_credits(usage("a", 0.0, 0.0, NOW), 1);
    let mut keys = HashSet::new();
    for _ in 0..20 {
        match redeem(&fresh, NOW, None, "credit-0", &model, RedemptionMode::Explicit).unwrap() {
            Redemption::Send(intent) => {
                assert_eq!(intent.key.len(), 36);
                assert_eq!(intent.credit, "credit-0");
                assert!(!intent.automatic && !intent.completed);
                assert!(keys.insert(intent.key));
            }
            Redemption::Settled(_) => panic!("a reset is needed"),
        }
    }
}

#[test]
fn an_explicit_reset_is_sent_for_a_short_window_but_an_automatic_one_is_not() {
    let fresh = with_credits(usage("a", 0.0, 70.0, NOW), 1);
    let send = |mode: RedemptionMode| {
        redeem_with_key(&fresh, NOW, None, "credit-0", &None, mode, "key".to_owned())
    };
    assert_eq!(
        send(RedemptionMode::Automatic).unwrap_err(),
        RedemptionError::WeeklyAvailable
    );
    match send(RedemptionMode::Explicit).unwrap() {
        Redemption::Send(intent) => {
            assert_eq!(intent.key, "key");
            assert_eq!(
                intent
                    .windows
                    .iter()
                    .map(|mark| (mark.limit_id.as_str(), mark.window_minutes, mark.resets_at))
                    .collect::<Vec<_>>(),
                vec![
                    ("codex", 300, Some(NOW + 30)),
                    ("codex", 10080, Some(NOW + 3600))
                ]
            );
        }
        Redemption::Settled(_) => panic!("a reset is needed"),
    }
}

#[test]
fn a_usable_account_needs_no_reset() {
    let fresh = with_credits(usage("a", 50.0, 50.0, NOW), 1);
    assert_eq!(
        redeem(&fresh, NOW, None, "credit-0", &None, RedemptionMode::Explicit).unwrap(),
        Redemption::Settled(None)
    );
}

fn begun(previous: Option<Intent>, credit: &str, key: &str) -> Transaction {
    Transaction::begin_with_key(
        with_credits(usage("a", 0.0, 0.0, NOW), 2),
        NOW,
        previous,
        credit,
        &None,
        RedemptionMode::Explicit,
        key.to_owned(),
    )
}

fn write_of(transaction: &Transaction) -> Intent {
    match transaction.action() {
        TransactionAction::Write(intent) => intent,
        action => panic!("a write is expected, not {action:?}"),
    }
}

fn send(key: &str, credit: &str) -> TransactionAction {
    TransactionAction::Send(key.to_owned(), credit.to_owned())
}

#[test]
fn a_transaction_writes_sends_writes_reads_and_writes() {
    for (outcome, result) in [
        (ResetOutcome::Reset, Ok(usage("a", 90.0, 90.0, NOW))),
        (ResetOutcome::AlreadyRedeemed, Ok(usage("a", 90.0, 90.0, NOW))),
        (
            ResetOutcome::NoCredit,
            Err(TransactionError::Refused(RedemptionError::Declined)),
        ),
        (
            ResetOutcome::NothingToReset,
            Err(TransactionError::Refused(RedemptionError::Declined)),
        ),
    ] {
        let transaction = begun(None, "credit-1", "key");
        let attempt = write_of(&transaction);
        assert_eq!(
            (attempt.key.as_str(), attempt.credit.as_str()),
            ("key", "credit-1")
        );
        assert!(!attempt.completed && !attempt.declined && !attempt.observed_usable);
        let transaction = transaction.step(TransactionEvent::Written(true));
        assert_eq!(transaction.action(), send("key", "credit-1"));
        let transaction = transaction.step(TransactionEvent::Answered(Some(outcome)));
        let written = write_of(&transaction);
        assert_eq!(written, answered(attempt, outcome));
        let transaction = transaction.step(TransactionEvent::Written(true));
        assert_eq!(transaction.action(), TransactionAction::ReadUsage);
        let fresh = usage("a", 90.0, 90.0, NOW);
        let transaction = transaction.step(TransactionEvent::Read(fresh.clone(), NOW));
        assert_eq!(
            Some(write_of(&transaction)),
            observed(written, &fresh, NOW)
        );
        let transaction = transaction.step(TransactionEvent::Written(true));
        assert_eq!(transaction.action(), TransactionAction::Finish(result));
    }
}

#[test]
fn an_applied_reset_without_usable_quota_is_not_written_as_observed() {
    let stale = usage("a", 0.0, 0.0, NOW);
    let transaction = begun(None, "credit-0", "key")
        .step(TransactionEvent::Written(true))
        .step(TransactionEvent::Answered(Some(ResetOutcome::Reset)))
        .step(TransactionEvent::Written(true))
        .step(TransactionEvent::Read(stale.clone(), NOW));
    assert_eq!(transaction.action(), TransactionAction::Finish(Ok(stale)));
}

#[test]
fn a_failed_request_ends_the_transaction_and_is_sent_again_unchanged() {
    let transaction = begun(None, "credit-1", "key");
    let attempt = write_of(&transaction);
    let mut transaction = transaction
        .step(TransactionEvent::Written(true))
        .step(TransactionEvent::Answered(None));
    for event in [
        TransactionEvent::Written(true),
        TransactionEvent::Answered(Some(ResetOutcome::Reset)),
        TransactionEvent::Read(usage("a", 90.0, 90.0, NOW), NOW),
    ] {
        assert_eq!(
            transaction.action(),
            TransactionAction::Finish(Err(TransactionError::Unanswered))
        );
        transaction = transaction.step(event);
    }
    let next = begun(Some(attempt.clone()), "credit-0", "other");
    assert_eq!(write_of(&next), attempt);
    let next = next.step(TransactionEvent::Written(true));
    assert_eq!(next.action(), send("key", "credit-1"));
}

#[test]
fn a_failed_write_ends_the_transaction() {
    let unwritten = TransactionAction::Finish(Err(TransactionError::Unwritten));
    // Nothing is sent for an attempt that is not on disk.
    let transaction = begun(None, "credit-0", "key").step(TransactionEvent::Written(false));
    assert_eq!(transaction.action(), unwritten);
    let answered = || {
        begun(None, "credit-0", "key")
            .step(TransactionEvent::Written(true))
            .step(TransactionEvent::Answered(Some(ResetOutcome::Reset)))
    };
    assert_eq!(
        answered().step(TransactionEvent::Written(false)).action(),
        unwritten
    );
    assert_eq!(
        answered()
            .step(TransactionEvent::Written(true))
            .step(TransactionEvent::Read(usage("a", 90.0, 90.0, NOW), NOW))
            .step(TransactionEvent::Written(false))
            .action(),
        unwritten
    );
}

#[test]
fn events_out_of_turn_change_nothing() {
    let recording = begun(None, "credit-0", "key")
        .step(TransactionEvent::Answered(Some(ResetOutcome::Reset)))
        .step(TransactionEvent::Read(usage("a", 90.0, 90.0, NOW), NOW));
    assert!(!write_of(&recording).completed);
    let sending = recording
        .step(TransactionEvent::Written(true))
        .step(TransactionEvent::Written(false))
        .step(TransactionEvent::Read(usage("a", 90.0, 90.0, NOW), NOW));
    assert_eq!(sending.action(), send("key", "credit-0"));
}

#[test]
fn a_usable_account_settles_its_open_attempt() {
    let attempt = write_of(&begun(None, "credit-0", "key"));
    let fresh = usage("a", 90.0, 90.0, NOW);
    let settle = |previous: Option<Intent>| {
        Transaction::begin(
            fresh.clone(),
            NOW,
            previous,
            "credit-0",
            &None,
            RedemptionMode::Automatic,
        )
    };
    assert_eq!(
        settle(None).action(),
        TransactionAction::Finish(Ok(fresh.clone()))
    );
    let transaction = settle(Some(attempt.clone()));
    assert_eq!(
        write_of(&transaction),
        Intent {
            completed: true,
            observed_usable: true,
            ..attempt.clone()
        }
    );
    assert_eq!(
        transaction.step(TransactionEvent::Written(true)).action(),
        TransactionAction::Finish(Ok(fresh.clone()))
    );
    assert_eq!(
        settle(Some(attempt))
            .step(TransactionEvent::Written(false))
            .action(),
        TransactionAction::Finish(Err(TransactionError::Unwritten))
    );
    let mut unknown = usage("a", 0.0, 0.0, NOW);
    unknown.error = Some("offline".to_owned());
    assert_eq!(
        Transaction::begin(unknown, NOW, None, "credit-0", &None, RedemptionMode::Explicit)
            .action(),
        TransactionAction::Finish(Err(TransactionError::Refused(
            RedemptionError::UnknownAvailability
        )))
    );
}

#[test]
fn recovery_time_never_runs_behind_the_clock() {
    assert_eq!(recovery_time(1_000_500, 2_600, 1_000), 1_003);
    assert_eq!(recovery_time(1_000_500, 2_600, 2_000), 2_000);
}

#[test]
fn redemption_errors_have_words() {
    for (error, words) in [
        (
            RedemptionError::UnknownAvailability,
            "Availability is unknown; no reset was sent",
        ),
        (
            RedemptionError::AwaitingRecovery,
            "Previous reset is awaiting verified quota recovery",
        ),
        (
            RedemptionError::CreditUnavailable,
            "Reset credit is no longer available",
        ),
        (
            RedemptionError::WeeklyAvailable,
            "Weekly capacity is available; a pending automatic reset will not be sent for short-window exhaustion",
        ),
        (
            RedemptionError::Declined,
            "Backend declined reset; waiting for verified quota recovery",
        ),
        (
            RedemptionError::ResponseUnknown,
            "Reset response is unknown; the persisted attempt will be reconciled",
        ),
    ] {
        assert_eq!(error.message(), words);
    }
}
