use codex_keep_warm::account::{Account, AppConfig, DEFAULT_REFRESH_INTERVAL_SECS};
use codex_keep_warm::schedule::{LocalClock, LocalInstant};
use codex_keep_warm::snapshot::{AccountSnapshot, WarmupOutcome};
use codex_keep_warm::state::{
    new_account_form, weekly_reset_needs_probe, AccountView, AppState,
};
use codex_keep_warm::time::DailyTime;
use codex_keep_warm::window::{LimitWindow, UsageWindows, SESSION_MINUTES, WEEK_MINUTES};

fn state(ids: &[&str]) -> AppState {
    AppState::load(Ok(AppConfig {
        accounts: ids
            .iter()
            .map(|id| Account::new((*id).into(), "Label".into()))
            .collect(),
        ..AppConfig::default()
    }))
}

fn view<'a>(state: &'a AppState, id: &str) -> &'a AccountView {
    state
        .accounts
        .iter()
        .find(|view| view.account.id == id)
        .unwrap()
}

fn clock(timestamp: i64) -> LocalClock {
    LocalClock {
        timestamp,
        day: 739_858,
        instants: Vec::new(),
    }
}

fn snapshot(limits: UsageWindows) -> AccountSnapshot {
    AccountSnapshot {
        email: Some("a@b.c".into()),
        plan: Some("plus".into()),
        limits,
    }
}

fn fresh_session(now: i64) -> UsageWindows {
    UsageWindows {
        session: Some(LimitWindow {
            used_percent: 0,
            window_duration_mins: Some(SESSION_MINUTES),
            resets_at: Some(now + SESSION_MINUTES * 60),
        }),
        weekly: None,
    }
}

fn expired_week(now: i64) -> UsageWindows {
    UsageWindows {
        session: None,
        weekly: Some(LimitWindow {
            used_percent: 100,
            window_duration_mins: Some(WEEK_MINUTES),
            resets_at: Some(now - 1),
        }),
    }
}

#[test]
fn the_default_interval_is_a_minute() {
    assert_eq!(DEFAULT_REFRESH_INTERVAL_SECS, 60);
    assert_eq!(AppConfig::default().refresh_interval_secs, 60);
}

#[test]
fn a_failed_start_is_fatal() {
    let state = AppState::load(Err("broken".into()));
    assert_eq!(state.fatal.as_deref(), Some("broken"));
    assert!(state.accounts.is_empty());
    assert_eq!(state.refresh_interval_secs, DEFAULT_REFRESH_INTERVAL_SECS);
    let good = self::state(&["a", "b"]);
    assert_eq!(good.fatal, None);
    assert_eq!(good.accounts.len(), 2);
    assert_eq!(good.accounts[1].draft_time, "08:00");
}

#[test]
fn one_operation_runs_at_a_time() {
    let mut state = state(&["a", "b"]);
    let account = state.begin_operation("a", "Refreshing limits").unwrap();
    assert_eq!(account.id, "a");
    assert_eq!(view(&state, "a").busy.as_deref(), Some("Refreshing limits"));
    assert!(state.begin_operation("a", "Another").is_none());
    assert_eq!(view(&state, "a").busy.as_deref(), Some("Refreshing limits"));
    assert!(state.begin_operation("c", "Another").is_none());
    assert!(view(&state, "b").busy.is_none());

    state.set_busy("a", "Still at it".into());
    assert_eq!(view(&state, "a").busy.as_deref(), Some("Still at it"));
    state.finish_operation("a", account, None, Some("oops".into()));
    assert!(view(&state, "a").busy.is_none());
    assert_eq!(view(&state, "a").error.as_deref(), Some("oops"));
    assert!(state.begin_operation("a", "Again").is_some());
    assert_eq!(view(&state, "a").error, None);
}

#[test]
fn limits_stay_on_display_without_new_ones() {
    let mut state = state(&["a"]);
    let account = state.begin_operation("a", "x").unwrap();
    state.finish_operation("a", account, Some(fresh_session(0)), None);
    let account = state.begin_operation("a", "x").unwrap();
    state.finish_operation("a", account, None, None);
    assert_eq!(view(&state, "a").limits, Some(fresh_session(0)));
}

#[test]
fn signing_in_connects_an_account() {
    let mut state = state(&["a"]);
    let account = state.begin_operation("a", "x").unwrap();
    state.after_login("a", account, Ok(snapshot(fresh_session(0))), 0);
    assert!(view(&state, "a").account.connected);
    assert_eq!(view(&state, "a").account.email.as_deref(), Some("a@b.c"));
    assert_eq!(view(&state, "a").account.usage_history.session.points.len(), 1);
    let notice = state.notice.clone().unwrap();
    assert!(!notice.error);
    assert!(notice.message.starts_with("Account connected."));

    state.notice = None;
    let account = state.begin_operation("a", "x").unwrap();
    state.after_login("a", account, Err("no".into()), 0);
    assert_eq!(view(&state, "a").error.as_deref(), Some("no"));
    assert!(state.notice.is_none());
}

#[test]
fn automatic_refreshes_lead_to_warmups() {
    let mut state = state(&["a"]);
    let mut account = state.begin_operation("a", "x").unwrap();
    let read = Ok(snapshot(fresh_session(0)));
    let plan = state
        .after_fetch("a", &mut account, read, true, &clock(0))
        .unwrap();
    assert!(plan.session_key.is_some());
    assert!(account.connected);
    assert_eq!(view(&state, "a").busy.as_deref(), Some("Starting safe gap"));

    let warmed = snapshot(UsageWindows {
        session: Some(LimitWindow {
            used_percent: 1,
            ..fresh_session(0).session.unwrap()
        }),
        weekly: None,
    });
    state.after_warmup(
        "a",
        account,
        &plan,
        fresh_session(0),
        Ok(WarmupOutcome::from_refresh(Ok(warmed))),
        9,
    );
    let view = view(&state, "a");
    assert!(view.busy.is_none());
    assert_eq!(view.limits.unwrap().session.unwrap().used_percent, 1);
    assert!(view.account.ledger.last_warmup.unwrap().success);
    assert_eq!(view.account.ledger.confirmed_session_key, plan.session_key);
}

#[test]
fn manual_refreshes_never_warm() {
    let mut state = state(&["a"]);
    let mut account = state.begin_operation("a", "x").unwrap();
    let read = Ok(snapshot(fresh_session(0)));
    assert!(state
        .after_fetch("a", &mut account, read, false, &clock(0))
        .is_none());
    assert!(view(&state, "a").busy.is_none());
    assert_eq!(view(&state, "a").limits, Some(fresh_session(0)));
}

#[test]
fn refused_refreshes_may_sign_an_account_out() {
    let mut state = state(&["a"]);
    let mut account = state.begin_operation("a", "x").unwrap();
    account.connected = true;
    let refused = |text: &str| Err(text.to_string());
    state.after_fetch("a", &mut account, refused("timed out"), true, &clock(0));
    assert!(view(&state, "a").account.connected);
    let mut account = state.begin_operation("a", "x").unwrap();
    state.after_fetch(
        "a",
        &mut account,
        refused("This account is not signed in"),
        true,
        &clock(0),
    );
    assert!(!view(&state, "a").account.connected);
    assert_eq!(
        view(&state, "a").error.as_deref(),
        Some("This account is not signed in")
    );
}

#[test]
fn failed_warmups_put_the_next_one_off() {
    let mut state = state(&["a"]);
    let mut account = state.begin_operation("a", "x").unwrap();
    let plan = state
        .after_fetch(
            "a",
            &mut account,
            Ok(snapshot(fresh_session(0))),
            true,
            &clock(0),
        )
        .unwrap();
    state.after_warmup(
        "a",
        account,
        &plan,
        fresh_session(0),
        Err("no".into()),
        100,
    );
    assert_eq!(view(&state, "a").account.ledger.retry_after, Some(160));
    assert_eq!(view(&state, "a").limits, Some(fresh_session(0)));
    let mut account = state.begin_operation("a", "x").unwrap();
    assert!(state
        .after_fetch(
            "a",
            &mut account,
            Ok(snapshot(fresh_session(100))),
            true,
            &clock(100),
        )
        .is_none());
}

#[test]
fn warmups_on_request_are_recorded() {
    let mut state = state(&["a"]);
    let account = state.begin_operation("a", "x").unwrap();
    state.after_manual_warmup(
        "a",
        account,
        Ok(WarmupOutcome::from_refresh(Err("unread".into()))),
        7,
    );
    assert_eq!(view(&state, "a").error.as_deref(), Some("unread"));
    assert_eq!(state.notice.as_ref().unwrap().message, "Warmup completed.");
    let account = state.begin_operation("a", "x").unwrap();
    state.after_manual_warmup("a", account, Err("no".into()), 7);
    assert_eq!(view(&state, "a").account.ledger.retry_after, Some(67));
}

#[test]
fn removed_accounts_are_gone() {
    let mut state = state(&["a", "b", "c"]);
    state.after_removal("b");
    let left: Vec<&str> = state
        .accounts
        .iter()
        .map(|view| view.account.id.as_str())
        .collect();
    assert_eq!(left, ["a", "c"]);
    assert_eq!(
        state.notice.unwrap().message,
        "Account and its isolated credentials were removed."
    );
}

#[test]
fn settings_are_changed_in_place() {
    let mut state = state(&["a", "b"]);
    state.set_refresh_interval(1);
    assert_eq!(state.refresh_interval_secs, 5);
    state.set_refresh_interval(600);
    assert_eq!(state.refresh_interval_secs, 60);
    state.set_refresh_interval(45);
    assert_eq!(state.config().refresh_interval_secs, 45);

    state.toggle_automatic("a");
    assert!(!view(&state, "a").account.enabled);
    assert!(view(&state, "b").account.enabled);
    state.toggle_automatic("a");
    assert!(view(&state, "a").account.enabled);

    state.toggle_workweek_lines("b", true);
    assert!(view(&state, "b").account.usage_history.weekly.show_workweek_lines);
    assert!(!view(&state, "b").account.usage_history.session.show_workweek_lines);
    state.toggle_workweek_lines("b", false);
    assert!(view(&state, "b").account.usage_history.session.show_workweek_lines);
    let kept = state.config();
    assert_eq!(kept.version, 1);
    assert!(kept.accounts[1].usage_history.weekly.show_workweek_lines);
}

#[test]
fn times_are_added_from_the_draft() {
    let mut state = state(&["a"]);
    assert!(state.add_time("a"));
    state.update_draft_time("a", "07:15".into());
    assert!(state.add_time("a"));
    assert_eq!(
        view(&state, "a").account.warmup_times,
        [DailyTime(435), DailyTime(480)]
    );
    state.update_draft_time("a", "25:00".into());
    assert!(!state.add_time("a"));
    assert!(view(&state, "a").error.is_some());
    assert!(!state.add_time("missing"));
    state.remove_time("a", DailyTime(435));
    assert_eq!(view(&state, "a").account.warmup_times, [DailyTime(480)]);
}

#[test]
fn new_accounts_need_a_label_and_times() {
    let times = |texts: &[&str]| texts.iter().map(|text| text.to_string()).collect();
    assert_eq!(
        new_account_form(" \t", &times(&["08:00"])).unwrap_err(),
        "Enter an account label."
    );
    assert_eq!(
        new_account_form("Home", &times(&["08:00", "late"])).unwrap_err(),
        "Check the warmup times."
    );
    let (label, parsed) =
        new_account_form(" Home ", &times(&["18:00", " ", "08:00", "18:00"])).unwrap();
    assert_eq!(label, "Home");
    assert_eq!(parsed, [DailyTime(1_080), DailyTime(480), DailyTime(1_080)]);

    let mut state = state(&["a"]);
    state.add_account("b".into(), label, &parsed);
    assert_eq!(
        view(&state, "b").account.warmup_times,
        [DailyTime(480), DailyTime(1_080)]
    );
    assert_eq!(state.schedule_count(), 2);
}

#[test]
fn accounts_are_looked_at_when_it_is_time() {
    let mut state = state(&["a", "b", "c"]);
    state.accounts[0].account.connected = true;
    state.accounts[1].account.connected = true;
    assert_eq!(state.due_accounts(0, 0), ["a", "b"]);
    assert_eq!(state.due_accounts(120, 0), ["a", "b"]);
    assert!(state.due_accounts(61, 0).is_empty());
    state.accounts[0].busy = Some("x".into());
    assert_eq!(state.due_accounts(60, 0), ["b"]);

    state.accounts[1].limits = Some(expired_week(1_000));
    assert_eq!(state.due_accounts(61, 1_000), ["b"]);
    assert!(weekly_reset_needs_probe(&state.accounts[1], 1_000));
    assert!(!weekly_reset_needs_probe(&state.accounts[1], 998));
    state.accounts[1].account.ledger.retry_after = Some(1_001);
    assert!(!weekly_reset_needs_probe(&state.accounts[1], 1_000));
    state.accounts[1].account.ledger.retry_after = None;
    state.accounts[1].account.ledger.confirmed_weekly_key = Some("weekly:10080:999:expired".into());
    assert!(!weekly_reset_needs_probe(&state.accounts[1], 1_000));
    assert!(!weekly_reset_needs_probe(&state.accounts[2], 1_000));
}

#[test]
fn the_earliest_slot_comes_next() {
    let mut state = state(&["a", "b", "c"]);
    for view in &mut state.accounts {
        view.account.add_time(DailyTime(480));
    }
    state.accounts[1].account.enabled = false;
    let at = |moment: i64| LocalClock {
        instants: vec![vec![LocalInstant::Single(moment)]],
        ..clock(100)
    };
    assert_eq!(
        state.next_warmup(&vec![at(500), at(200), at(300)]),
        Some(300)
    );
    assert_eq!(state.next_warmup(&vec![at(50), at(200), at(60)]), None);
}
