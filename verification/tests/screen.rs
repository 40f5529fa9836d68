use account_pools::account_pool::{
    AccountPool, AccountQuotaWindow, AccountSelection, ManagedAccount, ManagedAccountUsage,
};
use account_pools::chat::{
    item_has_model_progress, CapacityRetryState, ChatWidget, InputState, RetryStep,
    ServerNotification, ThreadItem, LONGEST_DELAY, MAX_CAPACITY_RETRIES, SHORTEST_DELAY,
};
use account_pools::percent::Percent;
use account_pools::quota::{weekly_window, WEEKLY_MINUTES};
use account_pools::report::{percent, reset_in, timestamp, AccountPoolReport, AccountReportView};
use account_pools::server::{
    LoginAccountResponse, ManagedAccountResponse, ManagedPoolResponse,
};
use account_pools::status::{
    AccountStatus, RateLimitSnapshot, SnapshotWindow, WeeklyQuota, REFRESH_MILLIS,
};

const NOW: i64 = 1_800_000_000;

fn value(percent: f64) -> Percent {
    Percent::from_bits(percent.to_bits())
}

fn usage(alias: &str) -> ManagedAccountUsage {
    ManagedAccountUsage {
        account: ManagedAccount {
            alias: alias.to_owned(),
            user_id: format!("user-{alias}"),
            workspace_id: format!("workspace-{alias}"),
            email: Some(format!("{alias}@example.com")),
            plan: Some("pro".to_owned()),
        },
        pools: vec!["work".to_owned()],
        model: None,
        model_supported: None,
        ordinary_usage_allowed: Some(true),
        windows: vec![AccountQuotaWindow {
            limit_id: "codex".to_owned(),
            model: None,
            remaining_percent: value(50.0),
            window_minutes: WEEKLY_MINUTES,
            resets_at: Some(NOW + 6 * 86_400 + 21 * 3600),
        }],
        available_resets: Some(1),
        resets: None,
        checked_at: NOW,
        error: None,
    }
}

fn pool(name: &str, accounts: &[&str]) -> AccountPool {
    AccountPool {
        name: name.to_owned(),
        accounts: accounts.iter().map(|alias| alias.to_string()).collect(),
        redeem_weekly_resets: true,
    }
}

#[test]
fn pool_weekly_sums_members_until_earliest_reset_including_exhausted_accounts() {
    let mut usages: Vec<_> = [
        ("oa", 14.0, 6 * 86_400 + 19 * 3600),
        ("ob", 0.0, 4 * 86_400 + 7 * 3600),
        ("oc", 100.0, 6 * 86_400 + 23 * 3600),
    ]
    .into_iter()
    .map(|(alias, remaining, reset)| {
        let mut reading = usage(alias);
        reading.windows[0].remaining_percent = value(remaining);
        reading.windows[0].resets_at = Some(NOW + reset);
        // Neither banked resets nor short/model-specific limits enter the weekly sum.
        reading.available_resets = Some(10);
        reading.windows.push(AccountQuotaWindow {
            window_minutes: 300,
            remaining_percent: value(0.0),
            resets_at: Some(NOW + 60),
            ..reading.windows[0].clone()
        });
        reading.windows.push(AccountQuotaWindow {
            limit_id: "other-model".to_owned(),
            remaining_percent: value(0.0),
            resets_at: Some(NOW + 120),
            ..reading.windows[0].clone()
        });
        reading
    })
    .collect();
    let mut status = AccountStatus::new(
        Some(usages[0].account.clone()),
        Some(pool("nano", &["oa", "ob", "oc"])),
    );
    usages.push(usage("outside"));
    status.record_usage(&usages, NOW);
    assert_eq!(
        (
            status.account_display("oa", NOW),
            status.pool_display("nano", NOW)
        ),
        (
            Some("oa 14% 6d19h".to_owned()),
            Some("nano 114% 4d7h".to_owned())
        )
    );
    assert_eq!(
        status.pool_display("nano", NOW + 15 * 60),
        Some("nano unknown".to_owned())
    );
    let mut invalid = vec![usages.clone(); 7];
    invalid[0][1].error = Some("offline".to_owned());
    invalid[1][1].windows.clear();
    invalid[2][1].windows[0].remaining_percent = value(f64::NAN);
    invalid[3][1].checked_at = NOW - 15 * 60;
    invalid[4].remove(1);
    invalid[5][1].account.user_id = usages[0].account.user_id.clone();
    invalid[5][1].account.workspace_id = usages[0].account.workspace_id.clone();
    invalid[6][1].checked_at = NOW + 1;
    for (failure, values) in invalid.into_iter().enumerate() {
        status.record_usage(&values, NOW);
        assert_eq!(
            (
                status.account_display("oa", NOW),
                status.pool_display("nano", NOW)
            ),
            (
                Some("oa 14% 6d19h".to_owned()),
                Some("nano unknown".to_owned())
            ),
            "failure {failure}"
        );
    }
    usages[1].windows[0].resets_at = None;
    status.record_usage(&usages, NOW);
    assert_eq!(
        status.pool_display("nano", NOW),
        Some("nano 114%".to_owned())
    );
    usages[1].windows[0].resets_at = Some(NOW - 1);
    status.record_usage(&usages, NOW);
    assert_eq!(
        status.pool_display("nano", NOW),
        Some("nano 114% due".to_owned())
    );
    status.pool = None;
    status.record_usage(&usages, NOW);
    assert_eq!(status.pool_display("nano", NOW), None);
}

#[test]
fn weekly_countdown_handles_boundaries_unknown_times_and_stale_data() {
    let mut status = AccountStatus::new(None, None);
    let values: Vec<_> = [
        None,
        Some(i64::MAX),
        Some(NOW - 1),
        Some(NOW + 30),
        Some(NOW + 60),
        Some(NOW + 5400),
        Some(NOW + 6 * 86_400 + 21 * 3600),
    ]
    .into_iter()
    .map(|resets_at| {
        status.weekly = Some(WeeklyQuota {
            remaining_percent: value(50.0),
            resets_at,
            checked_at: NOW,
        });
        status.weekly_display(NOW)
    })
    .collect();
    assert_eq!(
        values,
        [
            "50%",
            "50%",
            "50% due",
            "50% <1m",
            "50% 1m",
            "50% 1h30m",
            "50% 6d21h"
        ]
        .map(|value| Some(value.to_owned()))
    );
    assert_eq!(status.weekly_display(NOW + 15 * 60), None);
    let mut invalid = Vec::new();
    for remaining in [f64::NAN, f64::INFINITY, -1.0, 101.0] {
        status.weekly = Some(WeeklyQuota {
            remaining_percent: value(remaining),
            resets_at: None,
            checked_at: NOW,
        });
        invalid.push(status.weekly_display(NOW));
    }
    assert_eq!(invalid, [None, None, None, None]);
}

#[test]
fn the_least_weekly_window_of_the_whole_account_counts() {
    let mut reading = usage("a");
    reading.windows.push(AccountQuotaWindow {
        remaining_percent: value(20.0),
        ..reading.windows[0].clone()
    });
    reading.windows.push(AccountQuotaWindow {
        limit_id: "other".to_owned(),
        remaining_percent: value(1.0),
        ..reading.windows[0].clone()
    });
    assert_eq!(
        weekly_window(&reading).unwrap().remaining_percent,
        value(20.0)
    );
    reading.windows.clear();
    assert!(weekly_window(&reading).is_none());
}

#[test]
fn a_snapshot_gives_the_weekly_quota_until_another_account_is_selected() {
    let mut status = AccountStatus::new(None, None);
    let snapshot = RateLimitSnapshot {
        primary: Some(SnapshotWindow {
            window_duration_mins: Some(WEEKLY_MINUTES),
            used_percent: 50,
            resets_at: Some(NOW + 5400),
        }),
        secondary: Some(SnapshotWindow {
            window_duration_mins: Some(300),
            used_percent: 99,
            resets_at: Some(NOW + 600),
        }),
    };
    status.record_snapshot(&snapshot, NOW);
    assert_eq!(status.weekly_display(NOW), Some("50% 1h30m".to_owned()));
    status.select(usage("b").account);
    assert_eq!(status.weekly_display(NOW), None);
}

fn chat() -> ChatWidget {
    ChatWidget {
        account_status: AccountStatus::new(None, None),
        managed_accounts_active: false,
        status_line_items: Vec::new(),
        capacity_retry: CapacityRetryState {
            attempts: 0,
            last_failed_turn: None,
            pending: None,
        },
        thread_id: Some("thread".to_owned()),
        last_turn_id: None,
        agent_turn_running: false,
        current_model: "model".to_owned(),
        input: InputState {
            session_configured: true,
            blocks_direct_input: false,
            user_turn_pending_or_running: false,
            misalignment_policy_violation: false,
            queued_follow_up_messages: false,
            pending_steers: false,
            suppress_queue_autosend: false,
            rate_limit_recovery_pending: false,
            recovered_queue: false,
            composer_empty: true,
            paste_burst: false,
            modal_or_popup_active: false,
            external_editor_closed: true,
        },
        user_turn_pending_start: false,
        notices: Vec::new(),
    }
}

#[test]
fn managed_footer_refresh_is_scoped_throttled_and_rejects_previous_account_reads() {
    let mut chat = chat();
    chat.managed_accounts_active = true;
    chat.status_line_items = vec!["account-weekly".to_owned(), "pool-weekly".to_owned()];
    let a = usage("a");
    let mut b = usage("b");
    b.windows[0].remaining_percent = value(75.0);
    let work = pool("work", &["a", "b"]);
    chat.initialize_managed_account_status(Some(a.account.clone()), Some(work.clone()));
    let (_, first) = chat.refresh_account_status_if_due(0);
    let first = first.unwrap();
    assert_eq!(
        (first.account, first.pool),
        (a.account.clone(), Some(work.clone()))
    );
    assert!(chat.refresh_account_status_if_due(0).1.is_none());

    chat.account_status.select(b.account.clone());
    let second = chat.refresh_account_status_if_due(1).1.unwrap();
    assert_eq!(
        (second.account, second.pool),
        (b.account.clone(), Some(work))
    );
    assert_ne!(first.request_id, second.request_id);
    assert!(!chat.finish_account_status(&first.request_id, &Some(vec![a]), NOW));
    assert_eq!(chat.account_status.weekly_display(NOW), None);
    assert!(chat.finish_account_status(&second.request_id, &Some(vec![b.clone()]), NOW));
    assert_eq!(
        chat.account_status.weekly_display(NOW),
        Some("75% 6d21h".to_owned())
    );
    assert!(chat.refresh_account_status_if_due(2).1.is_none());

    let third = chat
        .refresh_account_status_if_due(1 + REFRESH_MILLIS)
        .1
        .unwrap();
    b.error = Some("usage unavailable".to_owned());
    chat.finish_account_status(&third.request_id, &Some(vec![b]), NOW);
    assert_eq!(chat.account_status.weekly_display(NOW), None);
}

#[test]
fn a_footer_without_quota_asks_for_nothing() {
    let mut chat = chat();
    chat.managed_accounts_active = true;
    chat.initialize_managed_account_status(Some(usage("a").account), None);
    assert!(chat.refresh_account_status_if_due(0).1.is_none());
    chat.status_line_items = vec!["weekly-limit-with-reset".to_owned()];
    let request = chat.refresh_account_status_as(0, "id".to_owned()).1.unwrap();
    assert_eq!(request.request_id, "id");
    assert_eq!(request.pool, None);
    assert!(chat.finish_account_status("id", &None, NOW));
    assert_eq!(chat.account_status.weekly_display(NOW), None);
}

fn start_turn(chat: &mut ChatWidget, turn: &str) {
    chat.last_turn_id = Some(turn.to_owned());
    chat.agent_turn_running = true;
    chat.input.user_turn_pending_or_running = true;
    chat.user_turn_pending_start = false;
}

fn end_turn(chat: &mut ChatWidget) {
    chat.agent_turn_running = false;
    chat.input.user_turn_pending_or_running = false;
}

fn fail_at_capacity(chat: &mut ChatWidget, turn: &str, now: u64) -> Option<u64> {
    start_turn(chat, turn);
    end_turn(chat);
    chat.schedule_capacity_retry(turn.to_owned(), now)
}

/// Looks at the retry as drawing does, and submits it when it is due.
fn draw(chat: &mut ChatWidget, now: u64) -> bool {
    match chat.retry_capacity_if_due(now) {
        RetryStep::Submit => {
            chat.retry_submitted(true);
            chat.input.user_turn_pending_or_running = true;
            true
        }
        RetryStep::LookAgain(_) | RetryStep::Rest => false,
    }
}

#[test]
fn capacity_retry_waits_then_submits_empty_turn_and_stops_on_success() {
    let mut chat = chat();
    let frame = fail_at_capacity(&mut chat, "original", 0).unwrap();
    let deadline = chat.capacity_retry.pending.as_ref().unwrap().deadline;
    assert_eq!(frame, deadline);
    assert!((10_000..=60_000).contains(&deadline));
    assert_eq!(
        chat.notices,
        vec![format!(
            "Auto-retry 1/10: retrying in {}s. Typing or Esc cancels.",
            deadline / 1000
        )]
    );
    assert_eq!(
        chat.retry_capacity_if_due(deadline - 1),
        RetryStep::LookAgain(1)
    );
    // A repeated failure of the same turn neither adds an attempt nor moves the timer.
    assert_eq!(
        chat.schedule_capacity_retry("original".to_owned(), deadline - 1),
        None
    );
    assert_eq!(
        chat.capacity_retry.pending.as_ref().unwrap().deadline,
        deadline
    );
    assert!(draw(&mut chat, deadline));
    assert!(chat.user_turn_pending_start);
    assert_eq!(chat.capacity_retry.attempts, 1);
    assert!(!draw(&mut chat, deadline));
    start_turn(&mut chat, "retry-1");
    end_turn(&mut chat);
    chat.capacity_retry.reset();
    assert!(!draw(&mut chat, deadline + 600_000));
    assert_eq!(chat.capacity_retry.attempts, 0);
}

fn delta(turn: &str, text: &str) -> ServerNotification {
    ServerNotification::Delta {
        thread_id: "thread".to_owned(),
        turn_id: turn.to_owned(),
        delta: text.to_owned(),
    }
}

fn item(turn: &str, item: ThreadItem) -> ServerNotification {
    ServerNotification::Item {
        thread_id: "thread".to_owned(),
        turn_id: turn.to_owned(),
        item,
    }
}

#[test]
fn capacity_retry_restarts_after_progress_before_turn_completion() {
    for progress in [
        item("working", ThreadItem::FileChange),
        item("working", ThreadItem::CommandExecution { user_shell: false }),
        delta("working", "I found the issue."),
        delta("working", "Checking the fix."),
        item(
            "working",
            ThreadItem::AgentMessage {
                text: "I found the issue.".to_owned(),
                delivery: false,
            },
        ),
    ] {
        let mut chat = chat();
        let mut now = 0;
        for attempt in 0..6 {
            fail_at_capacity(&mut chat, &format!("failed-{attempt}"), now);
            now += 60_000;
            assert!(draw(&mut chat, now));
        }
        start_turn(&mut chat, "working");
        assert_eq!(chat.capacity_retry.attempts, 6);
        chat.reset_capacity_retry_on_progress(&progress);
        assert_eq!(chat.capacity_retry.attempts, 0);
        // The same turn can fail again after it did useful work.
        end_turn(&mut chat);
        chat.schedule_capacity_retry("working".to_owned(), now);
        assert!(draw(&mut chat, now + 60_000));
        assert_eq!(chat.capacity_retry.attempts, 1);
    }
}

#[test]
fn capacity_retry_ignores_non_progress_and_unrelated_turns() {
    let mut chat = chat();
    fail_at_capacity(&mut chat, "original", 0);
    assert!(draw(&mut chat, 60_000));
    start_turn(&mut chat, "retry");
    let mut elsewhere = delta("retry", "Making progress.");
    if let ServerNotification::Delta { thread_id, .. } = &mut elsewhere {
        *thread_id = "another".to_owned();
    }
    for notification in [
        item("retry", ThreadItem::UserMessage),
        item(
            "retry",
            ThreadItem::Reasoning {
                summary: Vec::new(),
                content: Vec::new(),
            },
        ),
        item("retry", ThreadItem::ContextCompaction),
        delta("retry", " \n"),
        delta("old-turn", "Making progress."),
        elsewhere,
        ServerNotification::Other,
    ] {
        chat.reset_capacity_retry_on_progress(&notification);
        assert_eq!(chat.capacity_retry.attempts, 1);
    }
    end_turn(&mut chat);
    chat.schedule_capacity_retry("retry".to_owned(), 60_000);
    let deadline = chat.capacity_retry.pending.as_ref().unwrap().deadline;
    // Output that arrives after the failure clears neither the count nor the timer.
    chat.reset_capacity_retry_on_progress(&delta("retry", "Making progress."));
    assert_eq!(
        (
            chat.capacity_retry.attempts,
            chat.capacity_retry.pending.as_ref().unwrap().deadline,
        ),
        (1, deadline)
    );
    assert!(draw(&mut chat, 120_000));
    assert_eq!(chat.capacity_retry.attempts, 2);
}

#[test]
fn capacity_retry_stops_after_ten_native_attempts() {
    let mut chat = chat();
    let mut now = 0;
    for attempt in 0..10 {
        fail_at_capacity(&mut chat, &format!("turn-{attempt}"), now);
        now += 60_000;
        assert!(draw(&mut chat, now));
    }
    assert_eq!(chat.capacity_retry.attempts, MAX_CAPACITY_RETRIES);
    chat.notices.clear();
    assert_eq!(fail_at_capacity(&mut chat, "turn-10", now), None);
    assert!(!draw(&mut chat, now + 600_000));
    assert!(chat.capacity_retry.pending.is_none());
    assert_eq!(
        chat.notices,
        vec!["Automatic capacity retries stopped after 10 attempts.".to_owned()]
    );
    // A turn of the user's own starts the count anew.
    chat.capacity_retry.reset();
    fail_at_capacity(&mut chat, "manual-turn", now);
    assert!(draw(&mut chat, now + 60_000));
    assert_eq!(chat.capacity_retry.attempts, 1);
}

#[test]
fn a_retry_that_is_not_accepted_is_forgotten() {
    let mut chat = chat();
    fail_at_capacity(&mut chat, "original", 0);
    assert_eq!(chat.retry_capacity_if_due(60_000), RetryStep::Submit);
    chat.retry_submitted(false);
    assert!(!chat.user_turn_pending_start);
    assert_eq!(chat.capacity_retry.attempts, 0);
    assert!(chat.capacity_retry.pending.is_none());
}

#[test]
fn capacity_retry_cancels_on_typing_paste_escape_or_ctrl_c() {
    for (released, interrupts) in [(false, false), (false, true)] {
        let mut chat = chat();
        fail_at_capacity(&mut chat, "turn", 0);
        chat.notices.clear();
        assert!(!chat.cancel_capacity_retry_on_key(true, true));
        assert!(chat.capacity_retry.pending.is_some());
        assert_eq!(
            chat.cancel_capacity_retry_on_key(released, interrupts),
            interrupts
        );
        assert!(chat.capacity_retry.pending.is_none());
        assert_eq!(
            chat.notices,
            vec!["Automatic capacity retry canceled.".to_owned()]
        );
        // A repeated failure does not arm the retry again.
        assert_eq!(chat.schedule_capacity_retry("turn".to_owned(), 0), None);
        assert!(!draw(&mut chat, 60_000));
        assert!(!chat.cancel_capacity_retry_on_key(false, true));
    }
}

#[test]
fn capacity_retry_preserves_existing_drafts_and_queued_input() {
    for change in [
        |input: &mut InputState| input.composer_empty = false,
        |input: &mut InputState| input.queued_follow_up_messages = true,
        |input: &mut InputState| input.session_configured = false,
        |input: &mut InputState| input.blocks_direct_input = true,
        |input: &mut InputState| input.user_turn_pending_or_running = true,
        |input: &mut InputState| input.misalignment_policy_violation = true,
        |input: &mut InputState| input.pending_steers = true,
        |input: &mut InputState| input.suppress_queue_autosend = true,
        |input: &mut InputState| input.rate_limit_recovery_pending = true,
        |input: &mut InputState| input.recovered_queue = true,
        |input: &mut InputState| input.paste_burst = true,
        |input: &mut InputState| input.modal_or_popup_active = true,
        |input: &mut InputState| input.external_editor_closed = false,
    ] {
        let mut chat = chat();
        chat.last_turn_id = Some("draft".to_owned());
        change(&mut chat.input);
        assert!(!chat.capacity_retry_input_is_idle());
        assert_eq!(chat.schedule_capacity_retry("draft".to_owned(), 0), None);
        assert!(chat.capacity_retry.pending.is_none());
        assert!(!draw(&mut chat, 60_000));
    }
}

#[test]
fn capacity_retry_rechecks_draft_thread_model_and_active_turn_before_sending() {
    for (index, change) in [
        |chat: &mut ChatWidget| chat.input.composer_empty = false,
        |chat: &mut ChatWidget| chat.thread_id = Some("another".to_owned()),
        |chat: &mut ChatWidget| chat.current_model = "other-model".to_owned(),
        |chat: &mut ChatWidget| start_turn(chat, "other-client-turn"),
        |chat: &mut ChatWidget| chat.thread_id = None,
    ]
    .into_iter()
    .enumerate()
    {
        let mut chat = chat();
        fail_at_capacity(&mut chat, &format!("turn-{index}"), 0);
        assert!(chat.capacity_retry.pending.is_some());
        change(&mut chat);
        assert!(!draw(&mut chat, 60_000));
        assert!(chat.capacity_retry.pending.is_none());
    }
}

#[test]
fn delays_are_drawn_from_ten_to_sixty_seconds() {
    let mut seen = std::collections::HashSet::new();
    for index in 0..200 {
        let mut chat = chat();
        let frame = fail_at_capacity(&mut chat, &format!("turn-{index}"), 5).unwrap();
        assert!((SHORTEST_DELAY * 1000..=LONGEST_DELAY * 1000).contains(&frame));
        assert_eq!(
            chat.capacity_retry.pending.unwrap().deadline,
            5 + frame
        );
        seen.insert(frame);
    }
    assert!(seen.len() > 1);
}

#[test]
fn a_noted_failure_changes_nothing_at_any_time() {
    for cancelled in [false, true] {
        let mut chat = chat();
        chat.last_turn_id = Some("turn".to_owned());
        assert_eq!(
            chat.schedule_capacity_retry_after("turn".to_owned(), 10, 0),
            Some(10_000)
        );
        if cancelled {
            chat.cancel_capacity_retry();
        }
        let deadline = chat.capacity_retry.pending.as_ref().map(|retry| retry.deadline);
        let attempts = chat.capacity_retry.attempts;
        let notices = chat.notices.clone();
        for now in [0, 5_000, u64::MAX] {
            assert_eq!(chat.schedule_capacity_retry("turn".to_owned(), now), None);
            assert_eq!(
                chat.schedule_capacity_retry_after("turn".to_owned(), u64::MAX, now),
                None
            );
        }
        assert_eq!(
            chat.capacity_retry.pending.as_ref().map(|retry| retry.deadline),
            deadline
        );
        assert_eq!(deadline, if cancelled { None } else { Some(10_000) });
        assert_eq!(chat.capacity_retry.attempts, attempts);
        assert_eq!(chat.capacity_retry.last_failed_turn.as_deref(), Some("turn"));
        assert_eq!(chat.notices, notices);
    }
}

#[test]
fn a_given_delay_is_kept() {
    let mut chat = chat();
    chat.last_turn_id = Some("turn".to_owned());
    assert_eq!(
        chat.schedule_capacity_retry_after("turn".to_owned(), 17, 1000),
        Some(17_000)
    );
    let pending = chat.capacity_retry.pending.unwrap();
    assert_eq!(
        (
            pending.deadline,
            pending.thread_id.as_str(),
            pending.turn_id.as_str(),
            pending.model.as_str()
        ),
        (18_000, "thread", "turn", "model")
    );
}

#[test]
fn items_of_the_user_or_another_agent_are_no_progress() {
    for item in [
        ThreadItem::AgentMessage {
            text: "hello".to_owned(),
            delivery: true,
        },
        ThreadItem::AgentMessage {
            text: " \n".to_owned(),
            delivery: false,
        },
        ThreadItem::Plan { text: "".to_owned() },
        ThreadItem::CommandExecution { user_shell: true },
        ThreadItem::HookPrompt,
        ThreadItem::SubAgentActivity,
        ThreadItem::EnteredReviewMode,
        ThreadItem::ExitedReviewMode,
    ] {
        assert!(!item_has_model_progress(&item), "{item:?}");
    }
    for item in [
        ThreadItem::Reasoning {
            summary: vec![" ".to_owned()],
            content: vec!["thought".to_owned()],
        },
        ThreadItem::McpToolCall,
        ThreadItem::WebSearch,
        ThreadItem::Sleep,
    ] {
        assert!(item_has_model_progress(&item), "{item:?}");
    }
}

fn accounts() -> ManagedAccountResponse {
    let account = ManagedAccount {
        alias: "acct1".to_owned(),
        user_id: "user-1".to_owned(),
        workspace_id: "00000000-0000-0000-0000-000000000001".to_owned(),
        email: Some("a@example.com".to_owned()),
        plan: Some("pro".to_owned()),
    };
    let window = |limit: &str, model: Option<&str>, left: f64, minutes: i64, reset: i64| {
        AccountQuotaWindow {
            limit_id: limit.to_owned(),
            model: model.map(str::to_owned),
            remaining_percent: value(left),
            window_minutes: minutes,
            resets_at: Some(NOW + reset),
        }
    };
    ManagedAccountResponse {
        resolved: None,
        selected_account: None,
        selected_pool: None,
        models: None,
        data: vec![account.clone()],
        next_cursor: None,
        usage: vec![ManagedAccountUsage {
            account,
            pools: vec!["work".to_owned()],
            model: None,
            model_supported: None,
            ordinary_usage_allowed: Some(true),
            windows: vec![
                window("codex_other", Some("another-model"), 12.0, 10_080, 3600),
                window("codex", None, 80.0, 300, 7200),
                window("codex", None, 66.0, 10_080, 76 * 3600),
            ],
            available_resets: Some(0),
            resets: Some(vec![]),
            checked_at: NOW,
            error: None,
        }],
        login: None,
        default_selection: Some(AccountSelection::Account("acct1".to_owned())),
    }
}

#[test]
fn weekly_account_table_reflows_and_preserves_detailed_windows() {
    let mut response = accounts();
    response.data[0].plan = Some("plus".to_owned());
    let summary = AccountPoolReport::accounts(&response, AccountReportView::Summary, NOW);
    assert_eq!(
        summary.markdown,
        "**Accounts (1)**\n\n\
         Default for new sessions: account acct1\n\n\
         | Alias | Email | Plan | Weekly left | Reset in | Available resets |\n\
         | --- | --- | --- | --- | --- | --- |\n\
         | acct1 | a\\@example\\.com | pro | 66% | 3d 4h | 0 |\n\n\
         Refresh with /accounts for current usage and banked resets.\n\n\
         **acct1** \u{b7} Workspace ID: 00000000\\-0000\\-0000\\-0000\\-000000000001\n\n\
         Pools: work \u{b7} Checked: 2027-01-15 08:00 UTC"
    );
    let detailed = AccountPoolReport::accounts(&response, AccountReportView::Usage, NOW);
    assert_eq!(
        detailed.markdown,
        format!(
            "{}\n\n\
             | Limit | Window | Left | Reset in | Resets at |\n\
             | --- | --- | --- | --- | --- |\n\
             | codex\\_other | 10080 min | 12% | 1h | 2027-01-15 09:00 UTC |\n\
             | codex | 300 min | 80% | 2h | 2027-01-15 10:00 UTC |\n\
             | codex | 10080 min | 66% | 3d 4h | 2027-01-18 12:00 UTC |",
            summary.markdown
        )
    );
}

#[test]
fn failed_reads_hide_partial_quota_and_unknown_values_remain_unknown() {
    let mut response = accounts();
    response.usage[0].error =
        Some("Authentication or usage lookup failed; availability is unknown".to_owned());
    response.usage[0].available_resets = Some(7);
    let mut unknown = response.usage[0].clone();
    unknown.account.alias = "acct2".to_owned();
    unknown.account.user_id = "user-2".to_owned();
    unknown.account.workspace_id = "workspace-2".to_owned();
    unknown.account.email = None;
    unknown.account.plan = None;
    unknown.error = None;
    unknown
        .windows
        .retain(|window| window.limit_id != "codex" || window.window_minutes == 300);
    unknown.available_resets = None;
    response.data.push(unknown.account.clone());
    response.usage.push(unknown);
    let report = AccountPoolReport::accounts(&response, AccountReportView::Usage, NOW);
    assert!(report
        .markdown
        .contains("| acct1 | a\\@example\\.com | pro | Unknown | Unknown | Unknown |"));
    assert!(report
        .markdown
        .contains("| acct2 | Unknown | Unknown | Unknown | Unknown | Unknown |"));
    assert!(report.markdown.contains(
        "Usage unavailable: Authentication or usage lookup failed\\; availability is unknown"
    ));
    assert!(report.markdown.contains("| codex | 300 min | 80% |"));
    assert!(!report.markdown.contains("66%"));
}

#[test]
fn reports_tell_how_to_sign_in() {
    let mut response = accounts();
    response.data.clear();
    response.usage.clear();
    response.default_selection = None;
    let report = AccountPoolReport::accounts(&response, AccountReportView::Summary, NOW);
    assert_eq!(
        report.markdown,
        "**Accounts (0)**\n\n\
         Default for new sessions: current login\n\n\
         No managed accounts. Use /accounts add ALIAS or /accounts import ALIAS to add one."
    );
    response.login = Some(LoginAccountResponse::ChatgptDeviceCode {
        login_id: "id".to_owned(),
        verification_url: "https://example.com".to_owned(),
        user_code: "AB-12".to_owned(),
    });
    let report = AccountPoolReport::accounts(&response, AccountReportView::Summary, NOW);
    assert!(report
        .markdown
        .contains("Open https\\:\\/\\/example\\.com and enter code **AB\\-12**."));
    assert!(report
        .markdown
        .ends_with("Run /accounts after sign-in to refresh."));
}

#[test]
fn accounts_without_usage_say_so() {
    let mut response = accounts();
    response.usage.clear();
    let report = AccountPoolReport::accounts(&response, AccountReportView::Usage, NOW);
    assert!(report
        .markdown
        .ends_with("Usage not loaded. Run /accounts to refresh."));
}

#[test]
fn pools_show_empty_state_and_ordered_members() {
    let mut response = ManagedPoolResponse {
        data: vec![],
        next_cursor: None,
        default_selection: None,
    };
    assert_eq!(
        AccountPoolReport::pools(&response).markdown,
        "**Pools (0)**\n\n\
         Default for new sessions: current login\n\n\
         No pools configured. Create one with /pools create NAME ALIAS..."
    );
    response.data = vec![
        pool("work", &["acct2", "acct1"]),
        AccountPool {
            name: "personal".to_owned(),
            accounts: vec!["acct1".to_owned()],
            redeem_weekly_resets: false,
        },
    ];
    response.default_selection = Some(AccountSelection::Pool("work".to_owned()));
    assert_eq!(
        AccountPoolReport::pools(&response).markdown,
        "**Pools (2)**\n\n\
         Default for new sessions: pool work\n\n\
         | Name | Accounts (in order) | Automatic weekly resets |\n\
         | --- | --- | --- |\n\
         | work | acct2\\, acct1 | Enabled |\n\
         | personal | acct1 | Disabled |\n\n\
         Use /accounts for quota by account and /pools select NAME to set the default for new sessions."
    );
}

#[test]
fn reports_show_the_quota_of_each_account_and_the_members_of_each_pool() {
    let mut response = accounts();
    let mut a = usage("a");
    a.windows[0].remaining_percent = value(0.0);
    let mut b = usage("b");
    b.windows[0].remaining_percent = value(90.0);
    response.data = vec![a.account.clone(), b.account.clone()];
    response.usage = vec![a, b];
    let report = AccountPoolReport::accounts(&response, AccountReportView::Summary, NOW);
    let percentages: Vec<_> = report
        .markdown
        .lines()
        .filter(|line| line.starts_with("| a |") || line.starts_with("| b |"))
        .map(|row| row.split('|').nth(4).unwrap().trim())
        .collect();
    assert_eq!(percentages, ["0%", "90%"]);
    let pools = AccountPoolReport::pools(&ManagedPoolResponse {
        data: vec![pool("work", &["a", "b"])],
        next_cursor: None,
        default_selection: None,
    });
    assert!(pools.markdown.contains("| work | a\\, b | Enabled |"));
}

#[test]
fn quota_formatting_handles_deadlines_and_invalid_values() {
    let countdowns: Vec<_> = [
        None,
        Some(i64::MAX),
        Some(NOW - 1),
        Some(NOW),
        Some(NOW + 30),
        Some(NOW + 120),
        Some(NOW + 3600),
        Some(NOW + 76 * 3600),
    ]
    .into_iter()
    .map(|deadline| reset_in(deadline, NOW))
    .collect();
    assert_eq!(
        countdowns,
        [
            "Unknown", "Unknown", "Due", "Due", "<1m", "2m", "1h", "3d 4h"
        ]
    );
    assert_eq!(
        [f64::NAN, f64::INFINITY, -1.0, 101.0, 0.0, 66.0, 100.0].map(|left| percent(value(left))),
        [
            "Unknown", "Unknown", "Unknown", "Unknown", "0%", "66%", "100%"
        ]
    );
    assert_eq!(timestamp(i64::MAX), "Unknown");
    assert_eq!(timestamp(NOW), "2027-01-15 08:00 UTC");
}

#[test]
fn labels_cannot_add_markdown_rows_or_styles() {
    let mut response = accounts();
    response.data[0].email = Some("a|*literal*\n@example.com".to_owned());
    response.usage[0].account = response.data[0].clone();
    let report = AccountPoolReport::accounts(&response, AccountReportView::Summary, NOW);
    assert!(report
        .markdown
        .contains("a\\|\\*literal\\* \\@example\\.com"));
    assert_eq!(
        report
            .markdown
            .lines()
            .filter(|line| line.starts_with("| acct1 |"))
            .count(),
        1
    );
}
