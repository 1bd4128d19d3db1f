use chrono::{DateTime, Datelike, Days, Local, LocalResult, NaiveDate, TimeZone};
use codex_keep_warm::account::Account;
use codex_keep_warm::chart::{
    burndown, daily_pace, daily_quota_lines, five_hours_ago_line, local_day_bounds, pace,
    rolling_usage, today_usage, usage_since, workday_lines, workweek_lines, ChartPoint, DayBounds,
    Share, UsageChart, WorkDays, WorkEdge, WorkLine,
};
use codex_keep_warm::history::{UsagePoint, WindowHistory};
use codex_keep_warm::panel::{pace_class, pace_text, usage_panel, window_panel};
use codex_keep_warm::schedule::LocalInstant;
use codex_keep_warm::window::{LimitWindow, UsageWindows, WEEK_MINUTES};

fn shares(points: &[ChartPoint], span: i128) -> Vec<(f64, i32)> {
    points
        .iter()
        .map(|point| {
            (
                point.position as f64 * 100.0 / span as f64,
                point.used_percent,
            )
        })
        .collect()
}

fn share(share: Share) -> f64 {
    share.part as f64 * 100.0 / share.whole as f64
}

fn instant(date: NaiveDate, hour: u32) -> LocalInstant {
    let time = date.and_hms_opt(hour, 0, 0).unwrap();
    match Local.from_local_datetime(&time) {
        LocalResult::Single(at) => LocalInstant::Single(at.timestamp()),
        LocalResult::Ambiguous(first, second) => {
            LocalInstant::Ambiguous(first.timestamp(), second.timestamp())
        }
        LocalResult::None => LocalInstant::Missing,
    }
}

fn day_of(now: i64) -> Option<DayBounds> {
    let date = Local.timestamp_opt(now, 0).single()?.date_naive();
    let tomorrow = date.checked_add_days(Days::new(1))?;
    local_day_bounds(instant(date, 0), instant(tomorrow, 0))
}

fn days_from(start: i64) -> WorkDays {
    let first = Local
        .timestamp_opt(start, 0)
        .single()
        .unwrap()
        .date_naive();
    WorkDays {
        day: first.num_days_from_ce(),
        instants: (0..=7)
            .map(|offset| first.checked_add_days(Days::new(offset)).unwrap())
            .map(|date| {
                (
                    instant(date, WorkEdge::Start.hour()),
                    instant(date, WorkEdge::End.hour()),
                )
            })
            .collect(),
    }
}

fn week_lines(start: &DateTime<Local>, end: &DateTime<Local>) -> Vec<(f64, &'static str)> {
    marks(workweek_lines(
        start.timestamp(),
        end.timestamp(),
        Some(&days_from(start.timestamp())),
    ))
}

fn day_lines(start: i64, end: i64) -> Vec<(f64, &'static str)> {
    marks(workday_lines(start, end, Some(&days_from(start))))
}

fn marks(lines: Vec<WorkLine>) -> Vec<(f64, &'static str)> {
    lines
        .into_iter()
        .map(|line| (share(line.at), line.edge.class()))
        .collect()
}

fn history(points: &[(i64, i32)]) -> WindowHistory {
    WindowHistory {
        window_key: None,
        points: points
            .iter()
            .map(|&(at, used_percent)| UsagePoint { at, used_percent })
            .collect(),
        ..WindowHistory::default()
    }
}

fn weekly_window(used_percent: i32, resets_at: i64) -> LimitWindow {
    LimitWindow {
        used_percent,
        window_duration_mins: Some(WEEK_MINUTES),
        resets_at: Some(resets_at),
    }
}

#[test]
fn projects_burndown_from_elapsed_window_time() {
    let mut account = Account::new("one".into(), "One".into());
    let mut window = LimitWindow {
        used_percent: 10,
        window_duration_mins: Some(100),
        resets_at: Some(6_000),
    };
    account.record_usage(
        &UsageWindows {
            session: Some(window.clone()),
            weekly: None,
        },
        500,
    );
    account.record_usage(
        &UsageWindows {
            session: Some(window.clone()),
            weekly: None,
        },
        1_000,
    );
    window.used_percent = 30;
    account.record_usage(
        &UsageWindows {
            session: Some(window.clone()),
            weekly: None,
        },
        3_000,
    );
    let chart = burndown(&window, &account.usage_history.session).unwrap();
    assert_eq!(
        shares(&chart.points, chart.span),
        [(16.666666666666668, 10), (50.0, 30)]
    );
    assert_eq!(chart.projected_used, 60);
    assert_eq!(chart.projection as f64 * 100.0 / chart.span as f64, 100.0);
    assert_eq!(pace(&window, 3_000), Some(("SURPLUS", 20)));

    window.used_percent = 70;
    assert_eq!(pace(&window, 3_000), Some(("DEFICIT", -20)));

    window.used_percent = 80;
    account.record_usage(
        &UsageWindows {
            session: Some(window.clone()),
            weekly: None,
        },
        4_000,
    );
    let chart = burndown(&window, &account.usage_history.session).unwrap();
    assert!(chart.projected_used > 100);
    assert!(chart.projection as f64 * 100.0 / (chart.span as f64) < 100.0);
    assert_eq!(pace(&window, 4_000), Some(("DEFICIT", -13)));

    window.used_percent = 100;
    account.record_usage(
        &UsageWindows {
            session: Some(window.clone()),
            weekly: None,
        },
        4_500,
    );
    let empty_pace = pace(&window, 4_500);
    account.record_usage(
        &UsageWindows {
            session: Some(window.clone()),
            weekly: None,
        },
        5_000,
    );
    assert_eq!(pace(&window, 4_500), empty_pace);
    assert_eq!(empty_pace, Some(("EMPTY", -25)));

    window.resets_at = Some(12_000);
    account.record_usage(
        &UsageWindows {
            session: Some(window),
            weekly: None,
        },
        6_000,
    );
    assert_eq!(account.usage_history.session.points.len(), 1);
}

#[test]
fn charts_weekly_usage_over_the_last_five_hours() {
    let history = history(&[(1_000, 10), (10_000, 12), (19_000, 15)]);

    let chart = rolling_usage(&history, 20_000).unwrap();
    assert_eq!(chart.used_percent, 5);
    assert_eq!(
        shares(&chart.points, chart.span),
        [(0.0, 10), (44.44444444444444, 12), (94.44444444444444, 15)]
    );
}

#[test]
fn charts_weekly_usage_since_local_midnight() {
    let midnight = Local.with_ymd_and_hms(2026, 9, 8, 0, 0, 0).unwrap();
    let start = midnight.timestamp();
    let history = history(&[
        (start - 3_600, 10),
        (start + 6 * 3_600, 14),
        (start + 12 * 3_600, 18),
    ]);
    let now = start + 12 * 3_600;

    let chart = today_usage(&history, now, day_of(now)).unwrap();
    assert_eq!(chart.used_percent, 8);
    assert_eq!(chart.projected_used, Some(26));
    assert_eq!(
        shares(&chart.points, chart.span),
        [(0.0, 10), (25.0, 14), (50.0, 18)]
    );

    let window = weekly_window(18, start + WEEK_MINUTES * 60);
    let lines = daily_quota_lines(&window, day_of(now)).unwrap();
    assert_eq!(share(lines.0), 0.0);
    assert!((share(lines.1) - 100.0 / 7.0).abs() < 0.001);
    assert_eq!(
        daily_pace(chart.used_percent, now, day_of(now)),
        Some(("DEFICIT", -1))
    );
    assert_eq!(
        five_hours_ago_line(now, day_of(now)).map(share),
        Some(100.0 * 7.0 / 24.0)
    );
    let early = start + 4 * 3_600;
    assert_eq!(five_hours_ago_line(early, day_of(early)).map(share), None);
}

#[test]
fn quota_lines_stay_within_the_window() {
    let week = WEEK_MINUTES * 60;
    let whole = i128::from(week);
    let window = weekly_window(18, 1_000_000 + week);
    let day = |start: i64, end: i64| Some(DayBounds { start, end });
    assert_eq!(
        daily_quota_lines(&window, day(999_000, 1_000_600)),
        Some((Share { part: 0, whole }, Share { part: 600, whole }))
    );
    assert_eq!(
        daily_quota_lines(&window, day(1_000_000 + week - 5, 1_000_000 + week + 5)),
        Some((Share { part: whole - 5, whole }, Share { part: whole, whole }))
    );

    let mut empty = weekly_window(18, 1_000);
    empty.window_duration_mins = Some(0);
    assert_eq!(
        daily_quota_lines(&empty, day(900, 1_100)),
        Some((Share { part: 0, whole: 1 }, Share { part: 1, whole: 1 }))
    );
    let (on_it, _) = daily_quota_lines(&empty, day(1_000, 1_100)).unwrap();
    assert!(share(on_it).is_nan());
    let mut turned = weekly_window(18, 1_000);
    turned.window_duration_mins = Some(-1);
    assert_eq!(
        daily_quota_lines(&turned, day(1_030, 1_100)),
        Some((Share { part: 30, whole: 60 }, Share { part: 0, whole: 60 }))
    );
    turned.window_duration_mins = None;
    assert_eq!(daily_quota_lines(&turned, day(1, 2)), None);
}

#[test]
fn marks_local_workweek_boundaries() {
    let start = Local.with_ymd_and_hms(2026, 9, 6, 0, 0, 0).unwrap();
    let end = Local.with_ymd_and_hms(2026, 9, 13, 0, 0, 0).unwrap();
    let lines = week_lines(&start, &end);
    assert_eq!(lines.len(), 2);
    assert_eq!((lines[0].1, lines[1].1), ("start", "end"));
    assert!(lines[0].0 < lines[1].0);
}

#[test]
fn marks_daily_boundaries_in_five_hour_windows() {
    let morning = Local.with_ymd_and_hms(2026, 9, 8, 7, 0, 0).unwrap();
    let afternoon = Local.with_ymd_and_hms(2026, 9, 8, 14, 0, 0).unwrap();
    let midday = Local.with_ymd_and_hms(2026, 9, 8, 10, 0, 0).unwrap();
    let five_hours = 5 * 60 * 60;

    assert_eq!(
        day_lines(morning.timestamp(), morning.timestamp() + five_hours),
        [(40.0, "start")]
    );
    assert_eq!(
        day_lines(afternoon.timestamp(), afternoon.timestamp() + five_hours),
        [(60.0, "end")]
    );
    assert!(day_lines(midday.timestamp(), midday.timestamp() + five_hours).is_empty());
}

#[test]
fn charts_nothing_without_recent_observations() {
    let empty: Option<UsageChart> = usage_since(&history(&[]), 0, 100, 200);
    assert!(empty.is_none());
    assert!(usage_since(&history(&[(10, 5)]), 50, 100, 200).is_none());
    assert!(usage_since(&history(&[(60, 5)]), 50, 100, 50).is_none());
    assert!(usage_since(&history(&[(150, 5)]), 50, 100, 200).is_none());
    assert!(rolling_usage(&history(&[(1_000, 10)]), 40_000).is_none());
}

#[test]
fn charts_a_single_observation_without_a_projection() {
    let chart = usage_since(&history(&[(50, 5)]), 50, 100, 150).unwrap();
    assert_eq!(chart.points.len(), 1);
    assert_eq!(chart.used_percent, 0);
    assert_eq!(chart.projected_used, None);
}

#[test]
fn charts_keep_observations_on_the_chart() {
    let chart = usage_since(&history(&[(0, 5), (60, 9), (100, 4), (900, 50)]), 50, 100, 150)
        .unwrap();
    assert_eq!(
        shares(&chart.points, chart.span),
        [(0.0, 5), (10.0, 9), (50.0, 4)]
    );
    assert_eq!(chart.used_percent, 0);
    assert_eq!(chart.projected_used, Some(5));
}

#[test]
fn burndown_needs_a_window_and_observations() {
    let points = history(&[(100, 5), (200, 10)]);
    let window = LimitWindow {
        used_percent: 10,
        window_duration_mins: Some(10),
        resets_at: Some(600),
    };
    assert!(burndown(&window, &points).is_some());
    assert!(burndown(&window, &history(&[])).is_none());
    let without_length = LimitWindow {
        window_duration_mins: Some(0),
        ..window
    };
    assert!(burndown(&without_length, &points).is_none());
    assert_eq!(pace(&without_length, 100), None);
    let without_reset = LimitWindow {
        resets_at: None,
        ..window
    };
    assert!(burndown(&without_reset, &points).is_none());
    assert_eq!(pace(&without_reset, 100), None);
}

#[test]
fn burndown_without_a_rise_shows_the_last_observation() {
    let window = LimitWindow {
        used_percent: 10,
        window_duration_mins: Some(10),
        resets_at: Some(600),
    };
    let chart = burndown(&window, &history(&[(100, 10), (200, 10), (300, 10)])).unwrap();
    assert_eq!(shares(&chart.points, chart.span), [(50.0, 10)]);
    assert_eq!(chart.projected_used, 10);
    assert_eq!(chart.projection, chart.span);
    assert_eq!((chart.start, chart.end), (0, 600));
}

#[test]
fn burndown_marks_an_early_runout() {
    let window = LimitWindow {
        used_percent: 60,
        window_duration_mins: Some(10),
        resets_at: Some(600),
    };
    let chart = burndown(&window, &history(&[(100, 20), (200, 60)])).unwrap();
    assert_eq!(chart.projected_used, 220);
    assert_eq!(chart.projection, 300);

    let used_up = burndown(&window, &history(&[(100, 20), (200, 100), (300, 100)])).unwrap();
    assert_eq!(used_up.projection, 200);
    assert!(used_up.projected_used >= 100);
}

#[test]
fn paces_round_halves_away_from_zero() {
    let window = LimitWindow {
        used_percent: 50,
        window_duration_mins: Some(1_000),
        resets_at: Some(60_000),
    };
    assert_eq!(pace(&window, 29_700), Some(("DEFICIT", -1)));
    assert_eq!(pace(&window, 29_701), Some(("SURPLUS", 0)));
    assert_eq!(pace(&window, 70_000), Some(("SURPLUS", 50)));
    assert_eq!(pace(&window, -70_000), Some(("DEFICIT", -50)));
    assert_eq!(daily_pace(1, 43_200, None), None);
    let day = Some(DayBounds {
        start: 0,
        end: 86_400,
    });
    assert_eq!(daily_pace(0, 3_024, day), Some(("SURPLUS", 1)));
    assert_eq!(daily_pace(1, 3_024, day), Some(("DEFICIT", -1)));
    assert_eq!(daily_pace(3, 0, day), Some(("DEFICIT", -3)));
}

#[test]
fn days_begin_at_the_first_of_two_midnights() {
    assert_eq!(
        local_day_bounds(LocalInstant::Ambiguous(7, 3), LocalInstant::Single(90)),
        Some(DayBounds { start: 7, end: 90 })
    );
    assert_eq!(
        local_day_bounds(LocalInstant::Missing, LocalInstant::Single(90)),
        None
    );
    assert_eq!(
        local_day_bounds(LocalInstant::Single(1), LocalInstant::Missing),
        None
    );
}

#[test]
fn work_lines_need_local_days() {
    assert!(workweek_lines(0, 1_000, None).is_empty());
    let monday = NaiveDate::from_ymd_opt(2026, 9, 7).unwrap();
    let days = WorkDays {
        day: monday.num_days_from_ce(),
        instants: vec![
            (LocalInstant::Single(10), LocalInstant::Single(20)),
            (LocalInstant::Missing, LocalInstant::Single(40)),
            (LocalInstant::Single(50), LocalInstant::Single(60)),
            (LocalInstant::Single(70), LocalInstant::Single(80)),
            (LocalInstant::Single(90), LocalInstant::Single(100)),
        ],
    };
    let daily = workday_lines(15, 80, Some(&days));
    let parts: Vec<(i128, &str)> = daily
        .iter()
        .map(|line| (line.at.part, line.edge.class()))
        .collect();
    assert_eq!(
        parts,
        [
            (5, "end"),
            (25, "end"),
            (35, "start"),
            (45, "end"),
            (55, "start"),
            (65, "end")
        ]
    );
    let weekly = workweek_lines(0, 100, Some(&days));
    assert_eq!(
        weekly,
        [
            WorkLine {
                at: Share {
                    part: 10,
                    whole: 100
                },
                edge: WorkEdge::Start
            },
            WorkLine {
                at: Share {
                    part: 100,
                    whole: 100
                },
                edge: WorkEdge::End
            },
        ]
    );
}

#[test]
fn panels_show_a_known_window() {
    let window = LimitWindow {
        used_percent: 75,
        window_duration_mins: Some(300),
        resets_at: Some(18_000),
    };
    let panel = window_panel(&window, &history(&[(0, 10), (9_000, 75)]), 9_000);
    assert_eq!(panel.remaining, 25);
    assert_eq!(panel.progress_class, "progress-fill warning");
    assert_eq!(panel.reset, "Resets in 2h 30m");
    assert_eq!(panel.reset_time.as_deref(), Some("2h 30m"));
    assert_eq!(panel.pace, Some(("DEFICIT", -25)));
    assert!(panel.burndown.is_some());
    assert_eq!(pace_text("DEFICIT", -25), "DEFICIT -25%");
    assert_eq!(pace_text("SURPLUS", 0), "SURPLUS +0%");
    assert_eq!(pace_class(-1), "pace-chip ahead");
    assert_eq!(pace_class(0), "pace-chip");

    let over = window_panel(&window, &history(&[]), 18_000);
    assert_eq!(over.reset, "Resetting now");
    assert_eq!(over.reset_time, None);
    assert!(over.burndown.is_none());
}

#[test]
fn panels_show_recent_usage() {
    let points = history(&[(0, 10), (43_200, 18)]);
    let day = Some(DayBounds {
        start: 0,
        end: 86_400,
    });
    let weekly = Some(weekly_window(18, WEEK_MINUTES * 60));
    let today = usage_panel(&points, &weekly, true, 43_200, day);
    assert_eq!(today.label, "Today's usage");
    assert_eq!(today.chart.unwrap().used_percent, 8);
    assert_eq!(
        today.projection,
        Some((
            ChartPoint {
                position: 43_200,
                used_percent: 18
            },
            26
        ))
    );
    assert_eq!(today.pace, Some(("DEFICIT", -1)));
    assert_eq!(today.quota_lines.map(|lines| share(lines.0)), Some(0.0));
    assert_eq!(
        today.five_hours_ago,
        Some(Share {
            part: 25_200,
            whole: 86_400
        })
    );

    let rolling = usage_panel(&points, &weekly, false, 43_200, day);
    assert_eq!(rolling.label, "5h usage");
    assert_eq!(rolling.chart.unwrap().used_percent, 8);
    assert_eq!(rolling.projection, None);
    assert_eq!(rolling.pace, None);
    assert_eq!(rolling.quota_lines, None);
    assert_eq!(rolling.five_hours_ago, None);
}
