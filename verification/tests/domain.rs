use chrono::{DateTime, Datelike, Days, FixedOffset, LocalResult, TimeZone};
use codex_keep_warm::account::Account;
use codex_keep_warm::history::UsagePoint;
use codex_keep_warm::plan::{WarmPlan, WarmReason};
use codex_keep_warm::schedule::{
    due_slot, next_slot, plan_warmup, schedule_gap_warning, slot_on, LocalClock, LocalInstant,
};
use codex_keep_warm::time::DailyTime;
use codex_keep_warm::window::{
    format_reset, LimitWindow, RateLimitResponse, RateLimitSnapshot, UsageWindows,
    SESSION_MINUTES, WEEK_MINUTES,
};

fn local_time(hour: u32, minute: u32) -> DateTime<FixedOffset> {
    FixedOffset::east_opt(0)
        .unwrap()
        .with_ymd_and_hms(2026, 8, 30, hour, minute, 0)
        .unwrap()
}

fn clock<Tz: TimeZone>(now: &DateTime<Tz>, times: &[DailyTime]) -> LocalClock {
    let today = now.date_naive();
    let instants = (0..=2)
        .map_while(|offset| today.checked_add_days(Days::new(offset)))
        .map(|date| {
            times
                .iter()
                .map(|time| match date.and_hms_opt(time.hour(), time.minute(), 0) {
                    None => LocalInstant::Missing,
                    Some(local) => match now.timezone().from_local_datetime(&local) {
                        LocalResult::Single(at) => LocalInstant::Single(at.timestamp()),
                        LocalResult::Ambiguous(first, second) => {
                            LocalInstant::Ambiguous(first.timestamp(), second.timestamp())
                        }
                        LocalResult::None => LocalInstant::Missing,
                    },
                })
                .collect()
        })
        .collect();
    LocalClock {
        timestamp: now.timestamp(),
        day: today.num_days_from_ce(),
        instants,
    }
}

fn plan(now: DateTime<FixedOffset>, account: &Account, windows: &UsageWindows) -> WarmPlan {
    plan_warmup(&clock(&now, &account.warmup_times), account, windows)
}

fn account_with_schedule() -> Account {
    let mut account = Account::new("one".into(), "One".into());
    for value in ["08:00", "13:00", "18:00"] {
        account.add_time(value.parse().unwrap());
    }
    account
}

fn reset_window(now: i64, reset_in_minutes: i64) -> UsageWindows {
    UsageWindows {
        session: Some(LimitWindow {
            used_percent: 0,
            window_duration_mins: Some(SESSION_MINUTES),
            resets_at: Some(now + reset_in_minutes * 60),
        }),
        weekly: None,
    }
}

#[test]
fn parses_and_sorts_daily_times() {
    let mut account = Account::new("one".into(), "One".into());
    account.add_time("18:00".parse().unwrap());
    account.add_time("08:00".parse().unwrap());
    account.add_time("08:00".parse().unwrap());
    assert_eq!(
        account
            .warmup_times
            .iter()
            .map(|time| time.to_string())
            .collect::<Vec<_>>(),
        ["08:00", "18:00"]
    );
    assert!("24:00".parse::<DailyTime>().is_err());
}

#[test]
fn usage_history_tolerates_reset_jitter_but_clears_for_a_new_window() {
    let mut account = Account::new("one".into(), "One".into());
    let mut window = LimitWindow {
        used_percent: 10,
        window_duration_mins: Some(SESSION_MINUTES),
        resets_at: Some(20_000),
    };
    account.record_usage(
        &UsageWindows {
            session: Some(window.clone()),
            weekly: None,
        },
        10_000,
    );

    window.used_percent = 20;
    window.resets_at = Some(20_030);
    account.record_usage(
        &UsageWindows {
            session: Some(window.clone()),
            weekly: None,
        },
        10_030,
    );
    assert_eq!(account.usage_history.session.points.len(), 2);

    window.used_percent = 0;
    window.resets_at = Some(38_000);
    account.record_usage(
        &UsageWindows {
            session: Some(window),
            weekly: None,
        },
        20_000,
    );
    assert_eq!(account.usage_history.session.points.len(), 1);
}

#[test]
fn scheduled_slot_fires_once_inside_its_minute() {
    let now = local_time(13, 0);
    let account = account_with_schedule();
    let plan = plan(now, &account, &UsageWindows::default());
    assert_eq!(plan.schedule_key.as_deref(), Some("2026-08-30@13:00"));
}

#[test]
fn scheduled_slot_waits_for_a_slightly_late_reset() {
    let scheduled = local_time(13, 0);
    let account = account_with_schedule();
    let mut windows = reset_window(scheduled.timestamp(), 0);
    windows.session.as_mut().unwrap().resets_at = Some(scheduled.timestamp() + 5);
    assert!(plan(scheduled, &account, &windows).is_empty());

    let after_reset = local_time(13, 0) + chrono::Duration::seconds(30);
    windows.session.as_mut().unwrap().resets_at =
        Some(after_reset.timestamp() + SESSION_MINUTES * 60);
    assert!(plan(after_reset, &account, &windows).schedule_key.is_some());
}

#[test]
fn safe_gap_allows_early_reset_and_protects_next_slot() {
    let early = local_time(1, 0);
    let account = account_with_schedule();
    let safe = reset_window(early.timestamp(), SESSION_MINUTES);
    assert!(plan(early, &account, &safe).session_key.is_some());

    let late = local_time(3, 0);
    let unsafe_window = reset_window(late.timestamp(), SESSION_MINUTES);
    assert!(plan(late, &account, &unsafe_window).is_empty());
}

#[test]
fn weekly_reset_overrides_schedule_protection() {
    let now = local_time(12, 0);
    let mut account = account_with_schedule();
    let windows = UsageWindows {
        session: reset_window(now.timestamp(), SESSION_MINUTES).session,
        weekly: Some(LimitWindow {
            used_percent: 0,
            window_duration_mins: Some(WEEK_MINUTES),
            resets_at: Some(now.timestamp() + WEEK_MINUTES * 60),
        }),
    };
    let first = plan(now, &account, &windows);
    assert!(first.weekly_key.is_some());
    assert!(first.session_key.is_some());
    account.record_success(&first, now.timestamp());
    assert!(plan(now, &account, &windows).is_empty());
}

#[test]
fn expired_full_weekly_window_starts_once() {
    let now = local_time(12, 0);
    let mut account = account_with_schedule();
    let window = LimitWindow {
        used_percent: 100,
        window_duration_mins: Some(WEEK_MINUTES),
        resets_at: Some(now.timestamp() - 1),
    };
    account.ledger.confirmed_weekly_key = window.key("weekly");
    let windows = UsageWindows {
        session: None,
        weekly: Some(window),
    };
    let first = plan(now, &account, &windows);
    assert!(first.weekly_key.as_deref().unwrap().ends_with(":expired"));
    account.record_success(&first, now.timestamp());
    account.confirm_warmed_windows(&windows, now.timestamp());
    assert!(plan(now, &account, &windows).is_empty());

    let fresh = UsageWindows {
        session: None,
        weekly: Some(LimitWindow {
            used_percent: 0,
            window_duration_mins: Some(WEEK_MINUTES),
            resets_at: Some(now.timestamp() + WEEK_MINUTES * 60),
        }),
    };
    account.observe_active_windows(&fresh, now.timestamp());
    assert!(plan(now, &account, &fresh).is_empty());
}

#[test]
fn normalizes_reversed_windows_by_duration() {
    let response = RateLimitResponse {
        rate_limits: RateLimitSnapshot {
            primary: Some(LimitWindow {
                used_percent: 20,
                window_duration_mins: Some(WEEK_MINUTES - 1),
                resets_at: Some(2),
            }),
            secondary: Some(LimitWindow {
                used_percent: 10,
                window_duration_mins: Some(SESSION_MINUTES + 1),
                resets_at: Some(1),
            }),
            ..RateLimitSnapshot::default()
        },
        rate_limits_by_limit_id: None,
    };
    let normalized = UsageWindows::from_response(response);
    assert_eq!(normalized.session.unwrap().resets_at, Some(1));
    assert_eq!(normalized.weekly.unwrap().resets_at, Some(2));
}

#[test]
fn ignores_unrelated_limit_windows() {
    let response = RateLimitResponse {
        rate_limits: RateLimitSnapshot {
            primary: Some(LimitWindow {
                used_percent: 10,
                window_duration_mins: Some(15),
                resets_at: Some(1),
            }),
            ..RateLimitSnapshot::default()
        },
        rate_limits_by_limit_id: None,
    };
    assert_eq!(
        UsageWindows::from_response(response),
        UsageWindows::default()
    );
}

#[test]
fn warns_when_daily_slots_cannot_open_distinct_windows() {
    let close = vec!["08:00".parse().unwrap(), "12:00".parse().unwrap()];
    let spaced = vec!["08:00".parse().unwrap(), "13:00".parse().unwrap()];
    assert!(schedule_gap_warning(&close));
    assert!(!schedule_gap_warning(&spaced));
}

fn window(used_percent: i32, minutes: i64, resets_at: i64) -> LimitWindow {
    LimitWindow {
        used_percent,
        window_duration_mins: Some(minutes),
        resets_at: Some(resets_at),
    }
}

fn at(hour: u32, minute: u32, second: u32) -> DateTime<FixedOffset> {
    FixedOffset::east_opt(0)
        .unwrap()
        .with_ymd_and_hms(2026, 8, 30, hour, minute, second)
        .unwrap()
}

#[test]
fn times_are_read_back_as_written() {
    for minutes in [0, 9, 60, 725, 1_439] {
        let time = DailyTime(minutes);
        assert_eq!(time.to_string().parse::<DailyTime>(), Ok(time));
    }
    assert_eq!(DailyTime(485).to_string(), "08:05");
    assert_eq!((DailyTime(485).hour(), DailyTime(485).minute()), (8, 5));
    for text in ["", "8", "08:60", "-1:00", "08:00:00", "ab:cd", ":", "08 00"] {
        assert!(text.parse::<DailyTime>().is_err(), "{text}");
    }
}

#[test]
fn accounts_start_enabled_and_signed_out() {
    let account = Account::new("one".into(), "  One \n".into());
    assert_eq!(account.label, "One");
    assert!(account.enabled);
    assert!(!account.connected);
    assert!(account.warmup_times.is_empty());
}

#[test]
fn times_can_be_taken_out_again() {
    let mut account = account_with_schedule();
    account.remove_time(DailyTime(13 * 60));
    assert_eq!(account.warmup_times, [DailyTime(480), DailyTime(1_080)]);
    account.remove_time(DailyTime(13 * 60));
    assert_eq!(account.warmup_times.len(), 2);
}

#[test]
fn slots_are_due_for_three_minutes() {
    let times = account_with_schedule().warmup_times;
    let due = |now: DateTime<FixedOffset>| due_slot(&clock(&now, &times), &times);
    assert_eq!(due(at(12, 59, 59)), None);
    let slot = due(at(13, 3, 0)).unwrap();
    assert_eq!(slot.at, at(13, 0, 0).timestamp());
    assert_eq!(slot.key, "2026-08-30@13:00");
    assert_eq!(due(at(13, 3, 1)), None);
}

#[test]
fn next_slots_may_be_tomorrow() {
    let times = account_with_schedule().warmup_times;
    let next = |now: DateTime<FixedOffset>| next_slot(&clock(&now, &times), &times).unwrap();
    assert_eq!(next(at(8, 0, 0)).key, "2026-08-30@13:00");
    let tomorrow = next(at(18, 0, 0));
    assert_eq!(tomorrow.key, "2026-08-31@08:00");
    assert_eq!(tomorrow.at, at(8, 0, 0).timestamp() + 86_400);
    let none = vec![];
    assert_eq!(next_slot(&clock(&at(8, 0, 0), &none), &none), None);
}

#[test]
fn slots_served_yesterday_do_not_hold_back_todays() {
    let mut account = account_with_schedule();
    let today = at(13, 0, 0);
    let first = plan(today, &account, &UsageWindows::default());
    assert_eq!(first.schedule_key.as_deref(), Some("2026-08-30@13:00"));
    account.record_success(&first, today.timestamp());
    assert!(plan(today, &account, &UsageWindows::default()).is_empty());
    let tomorrow = today + chrono::Duration::days(1);
    assert_eq!(
        plan(tomorrow, &account, &UsageWindows::default())
            .schedule_key
            .as_deref(),
        Some("2026-08-31@13:00")
    );
}

#[test]
fn days_have_keys_of_their_own() {
    let times = vec![DailyTime(780)];
    let key = |day: i32| {
        let clock = LocalClock {
            timestamp: 5,
            day,
            instants: vec![vec![LocalInstant::Single(5)]],
        };
        due_slot(&clock, &times).unwrap().key
    };
    let mut keys = Vec::new();
    for middle in [-3_652_060, -366, 0, 365, 739_858, 3_652_059, 36_524_250] {
        for day in middle - 400..middle + 400 {
            keys.push((day, key(day)));
        }
    }
    keys.sort();
    keys.dedup();
    let count = keys.len();
    let mut texts: Vec<String> = keys.into_iter().map(|(_, key)| key).collect();
    texts.sort();
    texts.dedup();
    assert_eq!(texts.len(), count);
    assert_eq!(key(1), "0001-01-01@13:00");
    assert_eq!(key(-366), "-0001-12-31@13:00");
    assert_eq!(key(3_652_059), "9999-12-31@13:00");
    assert_eq!(key(3_652_060), "+10000-01-01@13:00");
}

#[test]
fn slots_are_named_after_their_date_and_time() {
    let slot = slot_on("2026-08-30", DailyTime(125), LocalInstant::Single(77)).unwrap();
    assert_eq!(slot.at, 77);
    assert_eq!(slot.key, "2026-08-30@02:05");
    let slot = slot_on("", DailyTime(0), LocalInstant::Ambiguous(9, 4)).unwrap();
    assert_eq!(slot.at, 4);
    assert_eq!(slot.key, "@00:00");
    assert_eq!(slot_on("2026-08-30", DailyTime(125), LocalInstant::Missing), None);
}

#[test]
fn slots_take_the_earlier_of_two_moments() {
    let times = vec![DailyTime(120)];
    let now = LocalClock {
        timestamp: 1_000,
        day: 739_858,
        instants: vec![vec![LocalInstant::Ambiguous(2_000, 1_500)]],
    };
    let slot = next_slot(&now, &times).unwrap();
    assert_eq!(slot.at, 1_500);
    assert_eq!(slot.key, "2026-08-30@02:00");
    let missing = LocalClock {
        timestamp: 1_000,
        day: 739_858,
        instants: vec![vec![LocalInstant::Missing]],
    };
    assert_eq!(next_slot(&missing, &times), None);
    let unknown = LocalClock {
        timestamp: 1_000,
        day: i32::MAX,
        instants: vec![vec![LocalInstant::Single(1_500)]],
    };
    assert_eq!(next_slot(&unknown, &times), None);
    assert_eq!(due_slot(&unknown, &times), None);
}

#[test]
fn nothing_is_planned_for_accounts_that_are_held_back() {
    let now = local_time(13, 0);
    let mut account = account_with_schedule();
    let windows = UsageWindows::default();
    assert!(!plan(now, &account, &windows).is_empty());

    account.enabled = false;
    assert!(plan(now, &account, &windows).is_empty());
    account.enabled = true;

    let used_up = UsageWindows {
        session: None,
        weekly: Some(window(100, WEEK_MINUTES, now.timestamp() + 60)),
    };
    assert!(plan(now, &account, &used_up).is_empty());

    account.record_failure(WarmReason::Scheduled, now.timestamp() - 30);
    assert!(plan(now, &account, &windows).is_empty());
    account.record_failure(WarmReason::Scheduled, now.timestamp() - 60);
    assert!(!plan(now, &account, &windows).is_empty());
}

#[test]
fn success_settles_a_plan_and_is_recorded() {
    let now = local_time(13, 0);
    let mut account = account_with_schedule();
    let windows = reset_window(now.timestamp(), SESSION_MINUTES);
    let first = plan(now, &account, &windows);
    assert_eq!(first.reason(), WarmReason::Scheduled);
    assert!(first.session_key.is_some());
    account.record_failure(first.reason(), now.timestamp() - 100);
    account.record_success(&first, now.timestamp());
    assert_eq!(account.ledger.retry_after, None);
    let record = account.ledger.last_warmup.unwrap();
    assert!(record.success);
    assert_eq!(record.at, now.timestamp());
    assert!(plan(now, &account, &windows).is_empty());
}

#[test]
fn reasons_are_named_by_weight() {
    let now = local_time(13, 0);
    let account = account_with_schedule();
    let both = UsageWindows {
        session: reset_window(now.timestamp(), SESSION_MINUTES).session,
        weekly: Some(window(0, WEEK_MINUTES, now.timestamp() + WEEK_MINUTES * 60)),
    };
    let everything = plan(now, &account, &both);
    assert!(everything.schedule_key.is_some());
    assert_eq!(everything.reason(), WarmReason::WeeklyReset);
    assert_eq!(WarmReason::WeeklyReset.to_string(), "weekly reset");
    assert_eq!(WarmReason::Scheduled.to_string(), "scheduled warmup");
    assert_eq!(WarmReason::SafeGap.to_string(), "safe gap");
    assert_eq!(WarmReason::Manual.to_string(), "manual warmup");
}

#[test]
fn windows_are_left_alone_once_warmed() {
    let now = local_time(1, 0);
    let mut account = account_with_schedule();
    let windows = reset_window(now.timestamp(), SESSION_MINUTES);
    account.confirm_warmed_windows(&windows, now.timestamp());
    assert!(plan(now, &account, &windows).is_empty());
}

#[test]
fn windows_in_use_are_left_alone() {
    let now = local_time(1, 0);
    let mut account = account_with_schedule();
    let mut windows = reset_window(now.timestamp(), SESSION_MINUTES);
    windows.session.as_mut().unwrap().used_percent = 3;
    account.observe_active_windows(&windows, now.timestamp());
    assert_eq!(
        account.ledger.confirmed_session_key,
        windows.session.unwrap().key("session")
    );
    windows.session.as_mut().unwrap().used_percent = 0;
    assert!(plan(now, &account, &windows).is_empty());
}

#[test]
fn a_running_window_clears_the_mark_of_an_expired_one() {
    let now = local_time(12, 0).timestamp();
    let mut account = account_with_schedule();
    account.ledger.confirmed_weekly_key = Some("weekly:10080:5:expired".into());
    let fresh = UsageWindows {
        session: None,
        weekly: Some(window(0, WEEK_MINUTES, now + 600)),
    };
    account.observe_active_windows(&fresh, now);
    assert_eq!(
        account.ledger.confirmed_weekly_key,
        fresh.weekly.unwrap().key("weekly")
    );
}

#[test]
fn windows_have_keys_of_their_own() {
    let base = window(0, SESSION_MINUTES, 1_000);
    assert_eq!(base.key("session").as_deref(), Some("session:300:1000"));
    assert_ne!(base.key("session"), base.key("weekly"));
    assert_ne!(
        base.key("session"),
        window(0, SESSION_MINUTES, 1_001).key("session")
    );
    assert_eq!(
        LimitWindow {
            resets_at: None,
            ..base
        }
        .key("session"),
        None
    );
    assert_eq!(window(130, 1, 1).remaining_percent(), 0);
    assert_eq!(window(-5, 1, 1).remaining_percent(), 100);
}

#[test]
fn usage_is_recorded_once_per_moment() {
    let mut account = Account::new("one".into(), "One".into());
    let windows = UsageWindows {
        session: Some(window(10, SESSION_MINUTES, 20_000)),
        weekly: Some(window(130, WEEK_MINUTES, 20_000)),
    };
    account.record_usage(&windows, 10_000);
    account.record_usage(&windows, 10_000);
    assert_eq!(
        account.usage_history.session.points,
        [UsagePoint {
            at: 10_000,
            used_percent: 10
        }]
    );
    assert_eq!(account.usage_history.weekly.points[0].used_percent, 100);
}

#[test]
fn resets_are_counted_down() {
    assert_eq!(format_reset(None, 0), "Reset unavailable");
    assert_eq!(format_reset(Some(10), 10), "Resetting now");
    assert_eq!(format_reset(Some(61), 0), "Resets in 2m");
    assert_eq!(format_reset(Some(3_600), 0), "Resets in 1h 0m");
    assert_eq!(format_reset(Some(90_000), 0), "Resets in 1d 1h");
    assert_eq!(format_reset(Some(i64::MAX), i64::MIN).split(' ').count(), 4);
}

#[test]
fn codex_limits_are_preferred() {
    let limit = |id: Option<&str>, used: i32| RateLimitSnapshot {
        limit_id: id.map(str::to_owned),
        primary: Some(window(used, SESSION_MINUTES, 1)),
        secondary: None,
    };
    let used = |by_id: Vec<(String, RateLimitSnapshot)>| {
        UsageWindows::from_response(RateLimitResponse {
            rate_limits: limit(None, 1),
            rate_limits_by_limit_id: Some(by_id),
        })
        .session
        .unwrap()
        .used_percent
    };
    assert_eq!(used(vec![("other".into(), limit(None, 2))]), 1);
    assert_eq!(used(vec![("other".into(), limit(Some("codex"), 3))]), 3);
    assert_eq!(
        used(vec![
            ("other".into(), limit(Some("codex"), 3)),
            ("codex".into(), limit(None, 4))
        ]),
        4
    );
    assert_eq!(
        used(vec![
            ("codex".into(), limit(None, 4)),
            ("other".into(), limit(Some("codex"), 3))
        ]),
        4
    );
    assert_eq!(
        used(vec![
            ("plain".into(), limit(None, 5)),
            ("other".into(), limit(Some("codex"), 3))
        ]),
        used(vec![
            ("other".into(), limit(Some("codex"), 3)),
            ("plain".into(), limit(None, 5))
        ])
    );
}

#[test]
fn schedules_wrap_around_midnight() {
    let late = vec!["01:00".parse().unwrap(), "22:00".parse().unwrap()];
    assert!(schedule_gap_warning(&late));
    assert!(!schedule_gap_warning(&vec!["01:00".parse().unwrap()]));
}
