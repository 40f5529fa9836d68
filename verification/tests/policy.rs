use account_pools::account_pool::{
    AccountQuotaWindow, BankedReset, ManagedAccount, ManagedAccountUsage, PoolWaitReason,
};
use account_pools::percent::Percent;
use account_pools::policy::{
    blocked, decide, earliest_credit, known, next_check_within, usable, Decision, WindowKind,
};

fn percent(value: f64) -> Percent {
    Percent::from_bits(value.to_bits())
}

fn account(alias: &str) -> ManagedAccount {
    ManagedAccount {
        alias: alias.to_owned(),
        user_id: format!("user-{alias}"),
        workspace_id: format!("workspace-{alias}"),
        email: None,
        plan: Some("pro".to_owned()),
    }
}

fn usage(alias: &str, short: f64, weekly: f64, now: i64) -> ManagedAccountUsage {
    ManagedAccountUsage {
        account: account(alias),
        pools: vec!["work".to_owned()],
        model: Some("model".to_owned()),
        model_supported: Some(true),
        ordinary_usage_allowed: Some(short > 0.0 && weekly > 0.0),
        windows: vec![
            AccountQuotaWindow {
                limit_id: "codex".to_owned(),
                model: None,
                remaining_percent: percent(short),
                window_minutes: 300,
                resets_at: Some(now + 30),
            },
            AccountQuotaWindow {
                limit_id: "codex".to_owned(),
                model: None,
                remaining_percent: percent(weekly),
                window_minutes: 10080,
                resets_at: Some(now + 3600),
            },
        ],
        available_resets: Some(0),
        resets: Some(Vec::new()),
        checked_at: now,
        error: None,
    }
}

fn with_credits(mut usage: ManagedAccountUsage, count: i64) -> ManagedAccountUsage {
    usage.available_resets = Some(count);
    usage.resets = Some(
        (0..count)
            .map(|id| BankedReset {
                id: format!("credit-{id}"),
                expires_at: Some(usage.checked_at + 500 - id),
            })
            .collect(),
    );
    usage
}

#[test]
fn combined_windows_rank_only_usable_accounts_and_keep_current_until_blocked() {
    let now = 1000;
    let mut readings = vec![usage("a", 20.0, 10.0, now), usage("b", 90.0, 90.0, now)];
    assert_eq!(
        decide(&readings, 0, WindowKind::Short, true, now),
        Decision::Use(0)
    );
    readings[0] = usage("a", 0.0, 10.0, now);
    readings.push(usage("c", 95.0, 0.0, now));
    assert_eq!(
        decide(&readings, 0, WindowKind::Short, true, now),
        Decision::Use(1)
    );
}

#[test]
fn triggering_window_ranking_and_pool_order_break_ties() {
    let readings = vec![
        usage("a", 0.0, 0.0, 1000),
        usage("b", 90.0, 40.0, 1000),
        usage("c", 50.0, 80.0, 1000),
        usage("d", 50.0, 80.0, 1000),
    ];
    assert_eq!(
        decide(&readings, 0, WindowKind::Weekly, true, 1000),
        Decision::Use(2)
    );
    assert_eq!(
        decide(&readings, 0, WindowKind::Short, true, 1000),
        Decision::Use(1)
    );
}

#[test]
fn all_weekly_exhausted_chooses_most_resets_then_earliest_expiry() {
    let readings = vec![
        with_credits(usage("a", 0.0, 0.0, 1000), 1),
        with_credits(usage("b", 50.0, 0.0, 1000), 3),
        with_credits(usage("c", 50.0, 0.0, 1000), 3),
    ];
    assert_eq!(
        decide(&readings, 0, WindowKind::Weekly, true, 1000),
        Decision::Redeem(1, "credit-2".to_owned())
    );
    assert_eq!(
        decide(&readings, 0, WindowKind::Weekly, false, 1000),
        Decision::Wait(PoolWaitReason::WeeklyQuota, 1030)
    );
}

#[test]
fn short_exhaustion_with_weekly_capacity_never_spends_a_reset() {
    let readings = vec![
        with_credits(usage("a", 50.0, 0.0, 1000), 3),
        with_credits(usage("b", 0.0, 70.0, 1000), 3),
    ];
    assert_eq!(
        decide(&readings, 0, WindowKind::Weekly, true, 1000),
        Decision::Wait(PoolWaitReason::ShortWindow, 1030)
    );
}

#[test]
fn single_reported_window_controls_switching_waiting_and_redemption() {
    let now = 1000;
    for (trigger, minutes) in [(WindowKind::Short, 300), (WindowKind::Weekly, 10080)] {
        let mut readings = vec![
            with_credits(usage("a", 0.0, 0.0, now), 1),
            with_credits(usage("b", 70.0, 70.0, now), 3),
        ];
        for reading in &mut readings {
            reading
                .windows
                .retain(|window| window.window_minutes == minutes);
        }
        assert_eq!(decide(&readings, 0, trigger, true, now), Decision::Use(1));
        readings[1].windows[0].remaining_percent = percent(0.0);
        readings[1].ordinary_usage_allowed = Some(false);
        assert_eq!(
            decide(&readings, 0, trigger, true, now),
            match trigger {
                WindowKind::Short => Decision::Wait(PoolWaitReason::ShortWindow, now + 30),
                WindowKind::Weekly => Decision::Redeem(1, "credit-2".to_owned()),
            }
        );
    }
}

#[test]
fn unknown_or_stale_readings_and_missing_windows_never_authorize_redemption() {
    for mutate in [
        |value: &mut ManagedAccountUsage| value.error = Some("offline".to_owned()),
        |value: &mut ManagedAccountUsage| value.ordinary_usage_allowed = None,
        |value: &mut ManagedAccountUsage| value.model_supported = None,
        |value: &mut ManagedAccountUsage| value.windows.clear(),
        |value: &mut ManagedAccountUsage| value.checked_at = 800,
        |value: &mut ManagedAccountUsage| {
            value.windows[0].remaining_percent = percent(f64::NAN)
        },
    ] {
        let mut unknown = usage("b", 0.0, 0.0, 1000);
        mutate(&mut unknown);
        let readings = vec![with_credits(usage("a", 50.0, 0.0, 1000), 3), unknown];
        assert!(matches!(
            decide(&readings, 0, WindowKind::Weekly, true, 1000),
            Decision::Wait(PoolWaitReason::UnknownAvailability, _)
        ));
    }
}

#[test]
fn model_specific_windows_and_unsupported_models_are_respected() {
    let mut limited = usage("b", 90.0, 90.0, 1000);
    limited.windows.push(AccountQuotaWindow {
        limit_id: "special".to_owned(),
        model: Some("model".to_owned()),
        remaining_percent: percent(0.0),
        window_minutes: 300,
        resets_at: Some(1040),
    });
    let mut unsupported = usage("c", 99.0, 99.0, 1000);
    unsupported.model_supported = Some(false);
    let readings = vec![
        usage("a", 0.0, 50.0, 1000),
        limited,
        unsupported,
        usage("d", 10.0, 10.0, 1000),
    ];
    assert_eq!(
        decide(&readings, 0, WindowKind::Short, true, 1000),
        Decision::Use(3)
    );
}

#[test]
fn expired_credits_and_unknown_credit_details_wait_until_the_earliest_reset() {
    let mut reading = with_credits(usage("a", 90.0, 0.0, 1000), 1);
    reading.resets.as_mut().unwrap()[0].expires_at = Some(1000);
    assert_eq!(
        decide(&[reading.clone()], 0, WindowKind::Weekly, true, 1000),
        Decision::Wait(PoolWaitReason::WeeklyQuota, 1030)
    );
    reading.resets = None;
    for window in &mut reading.windows {
        window.resets_at = None;
    }
    assert_eq!(
        decide(&[reading], 0, WindowKind::Weekly, true, 1000),
        Decision::Wait(PoolWaitReason::WeeklyQuota, 1060)
    );
}

#[test]
fn a_reading_is_fresh_for_ninety_seconds_and_not_from_the_future() {
    let reading = usage("a", 50.0, 50.0, 1000);
    assert!(known(&reading, 1000));
    assert!(known(&reading, 1090));
    assert!(!known(&reading, 1091));
    assert!(!known(&reading, 999));
}

#[test]
fn readings_at_the_ends_of_time_are_judged_without_overflow() {
    let mut reading = usage("a", 50.0, 50.0, 1000);
    reading.checked_at = i64::MIN;
    assert!(!known(&reading, i64::MAX));
    reading.checked_at = i64::MAX;
    assert!(!known(&reading, i64::MIN));
}

#[test]
fn a_day_or_less_is_a_short_window() {
    let mut reading = usage("a", 0.0, 50.0, 1000);
    reading.windows[0].window_minutes = 1440;
    assert!(blocked(&reading, WindowKind::Short));
    assert!(!blocked(&reading, WindowKind::Weekly));
    reading.windows[0].window_minutes = 1441;
    assert!(!blocked(&reading, WindowKind::Short));
    assert!(blocked(&reading, WindowKind::Weekly));
}

#[test]
fn another_models_window_does_not_count() {
    let mut reading = usage("a", 50.0, 50.0, 1000);
    reading.windows.push(AccountQuotaWindow {
        limit_id: "special".to_owned(),
        model: Some("another".to_owned()),
        remaining_percent: percent(0.0),
        window_minutes: 300,
        resets_at: None,
    });
    assert!(usable(&reading, 1000));
    reading.windows[2].model = Some("model".to_owned());
    assert!(!usable(&reading, 1000));
}

#[test]
fn the_credit_that_expires_first_is_taken_and_one_without_expiry_last() {
    let mut reading = usage("a", 0.0, 0.0, 1000);
    reading.resets = Some(vec![
        BankedReset { id: "never".to_owned(), expires_at: None },
        BankedReset { id: "late".to_owned(), expires_at: Some(3000) },
        BankedReset { id: "soon".to_owned(), expires_at: Some(2000) },
        BankedReset { id: "gone".to_owned(), expires_at: Some(1000) },
    ]);
    assert_eq!(earliest_credit(&reading, 1000).unwrap().id, "soon");
    assert_eq!(earliest_credit(&reading, 2000).unwrap().id, "late");
    assert_eq!(earliest_credit(&reading, 3000).unwrap().id, "never");
    reading.resets = None;
    assert!(earliest_credit(&reading, 1000).is_none());
}

#[test]
fn the_next_check_is_the_earliest_reset_within_the_limit() {
    let readings = vec![usage("a", 0.0, 0.0, 1000), usage("b", 0.0, 0.0, 1010)];
    assert_eq!(next_check_within(&readings, 1000, 1060), 1030);
    assert_eq!(next_check_within(&readings, 1030, 1090), 1040);
    assert_eq!(next_check_within(&readings, 1050, 1110), 1110);
}

#[test]
fn a_current_account_outside_the_pool_is_not_kept() {
    let readings = vec![usage("a", 10.0, 10.0, 1000), usage("b", 20.0, 20.0, 1000)];
    assert_eq!(
        decide(&readings, 2, WindowKind::Short, true, 1000),
        Decision::Use(1)
    );
}

#[test]
fn more_quota_wins_and_the_earlier_member_wins_a_tie() {
    let readings = vec![
        usage("a", 0.0, 50.0, 1000),
        usage("b", 30.5, 50.0, 1000),
        usage("c", 30.75, 50.0, 1000),
        usage("d", 30.75, 50.0, 1000),
    ];
    assert_eq!(
        decide(&readings, 0, WindowKind::Short, false, 1000),
        Decision::Use(2)
    );
}

#[test]
fn a_pool_without_members_waits_a_minute() {
    assert_eq!(
        decide(&[], 0, WindowKind::Short, true, 1000),
        Decision::Wait(PoolWaitReason::UnknownAvailability, 1060)
    );
}
