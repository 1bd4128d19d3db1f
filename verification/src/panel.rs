//! What a panel shows of a limit.

use vstd::prelude::*;

use crate::chart::{
    burndown, burndown_chart, comparison, daily_comparison, daily_pace, daily_quota_lines,
    five_hours_ago_line, five_hours_share, opt_burndown, opt_chart, opt_pace, pace, quota_shares,
    rolling_usage, today_usage, usage_chart, Burndown, ChartPoint, DayBounds, Share, UsageChart,
    UsageChartModel, FIVE_HOURS_SECS,
};
use crate::history::{UsagePoint, WindowHistory};
use crate::labels::{bar_class, progress_class};
use crate::text::{
    decimal, decimal_text, join3, join4, law_prefixes_and_suffixes, lemma_prefix_of_concat,
    opt_text, starts_with_seq, strip_prefix_text,
};
use crate::window::{format_reset, percent, reset_countdown, LimitWindow};

verus! {

/// A number with its sign, plus for 0.
pub open spec fn signed(n: int) -> Seq<char> {
    if n < 0 {
        decimal(n)
    } else {
        "+"@ + decimal(n)
    }
}

/// How usage compares with an even pace, in words and percents.
pub fn pace_text(label: &str, delta: i64) -> (text: String)
    ensures
        text@ == label@ + " "@ + signed(delta as int) + "%"@,
{
    let number = decimal_text(delta);
    let text = if delta < 0 {
        join4(label, " ", number.as_str(), "%")
    } else {
        let plus = join3("+", number.as_str(), "%");
        join3(label, " ", plus.as_str())
    };
    assert(text@ =~= label@ + " "@ + signed(delta as int) + "%"@);
    text
}

/// How a comparison with an even pace is drawn.
pub fn pace_class(delta: i64) -> (class: &'static str)
    ensures
        class@ == if delta < 0 {
            "pace-chip ahead"@
        } else {
            "pace-chip"@
        },
{
    if delta < 0 {
        "pace-chip ahead"
    } else {
        "pace-chip"
    }
}

/// A panel for a window that is known.
#[derive(Debug)]
pub struct WindowPanel {
    pub remaining: i32,
    pub progress_class: &'static str,
    pub reset: String,
    pub reset_time: Option<String>,
    pub burndown: Option<Burndown>,
    pub pace: Option<(&'static str, i32)>,
}

/// The countdown to a reset without its introduction, where it has one.
pub open spec fn countdown_only(reset: Seq<char>) -> Option<Seq<char>> {
    if starts_with_seq(reset, "Resets in "@) {
        Some(reset.skip("Resets in "@.len() as int))
    } else {
        None
    }
}

/// What is shown of a window that is known.
pub fn window_panel(window: &LimitWindow, history: &WindowHistory, now: i64) -> (panel: WindowPanel)
    ensures
        panel.remaining == percent(100 - window.used_percent),
        panel.progress_class@ == bar_class(panel.remaining as int),
        panel.reset@ == reset_countdown(window.resets_at, now as int),
        opt_text(panel.reset_time) == countdown_only(panel.reset@),
        opt_burndown(panel.burndown) == burndown_chart(*window, history.points@),
        opt_pace(panel.pace) == comparison(*window, now as int),
{
    let remaining: i32 = window.remaining_percent();
    let reset = format_reset(window.resets_at, now);
    let reset_time = strip_prefix_text(reset.as_str(), "Resets in ");
    WindowPanel {
        remaining,
        progress_class: progress_class(remaining),
        reset,
        reset_time,
        burndown: burndown(window, history),
        pace: pace(window, now),
    }
}

/// A panel for recent usage, where no burst window is known.
#[derive(Debug)]
pub struct UsagePanel {
    pub chart: Option<UsageChart>,
    pub projection: Option<(ChartPoint, i128)>,
    pub pace: Option<(&'static str, i32)>,
    pub quota_lines: Option<(Share, Share)>,
    pub five_hours_ago: Option<Share>,
    pub label: &'static str,
    pub title: &'static str,
    pub toggle_label: &'static str,
    pub footer: &'static str,
}

/// The chart of a panel for recent usage.
pub open spec fn panel_chart(
    points: Seq<UsagePoint>,
    showing_today: bool,
    now: int,
    day: Option<DayBounds>,
) -> Option<UsageChartModel> {
    if showing_today {
        match day {
            Some(day) => usage_chart(points, day.start as int, now, day.end as int),
            None => None,
        }
    } else {
        usage_chart(points, now - FIVE_HOURS_SECS, now, now)
    }
}

/// From where to where the projection of a chart is drawn.
pub open spec fn panel_projection(chart: Option<UsageChartModel>) -> Option<(ChartPoint, int)> {
    match chart {
        Some(chart) => match chart.projected_used {
            Some(used) => if chart.points.len() > 0 {
                Some((chart.points.last(), used))
            } else {
                None
            },
            None => None,
        },
        None => None,
    }
}

pub open spec fn opt_projection(projection: Option<(ChartPoint, i128)>) -> Option<
    (ChartPoint, int),
> {
    match projection {
        Some((point, used)) => Some((point, used as int)),
        None => None,
    }
}

/// What is shown of recent usage: of today with its share of the weekly limit, or
/// of the last five hours. `weekly` is the weekly window, where it is known.
pub fn usage_panel(
    history: &WindowHistory,
    weekly: &Option<LimitWindow>,
    showing_today: bool,
    now: i64,
    day: Option<DayBounds>,
) -> (panel: UsagePanel)
    requires
        day matches Some(day) ==> day.start < day.end,
    ensures
        ({
            let chart = panel_chart(history.points@, showing_today, now as int, day);
            &&& opt_chart(panel.chart) == chart
            &&& showing_today ==> {
                &&& opt_projection(panel.projection) == panel_projection(chart)
                &&& opt_pace(panel.pace) == match chart {
                    Some(chart) => daily_comparison(chart.used_percent, now as int, day),
                    None => None,
                }
                &&& panel.quota_lines == match *weekly {
                    Some(window) => quota_shares(window, day),
                    None => None,
                }
                &&& panel.five_hours_ago == five_hours_share(now as int, day)
                &&& panel.label@ == "Today's usage"@
                &&& panel.title@ == "Weekly quota usage today"@
                &&& panel.toggle_label@ == "Show 5-hour rolling usage"@
                &&& panel.footer@ == "Since local midnight"@
            }
            &&& !showing_today ==> {
                &&& panel.projection is None
                &&& panel.pace is None
                &&& panel.quota_lines is None
                &&& panel.five_hours_ago is None
                &&& panel.label@ == "5h usage"@
                &&& panel.title@ == "Weekly quota usage over the last 5 hours"@
                &&& panel.toggle_label@ == "Show today's usage"@
                &&& panel.footer@ == "Weekly quota change"@
            }
        }),
{
    if !showing_today {
        return UsagePanel {
            chart: rolling_usage(history, now),
            projection: None,
            pace: None,
            quota_lines: None,
            five_hours_ago: None,
            label: "5h usage",
            title: "Weekly quota usage over the last 5 hours",
            toggle_label: "Show today's usage",
            footer: "Weekly quota change",
        };
    }
    let chart = today_usage(history, now, day);
    let projection: Option<(ChartPoint, i128)> = match &chart {
        Some(chart) => match chart.projected_used {
            Some(used) => if chart.points.len() > 0 {
                Some((chart.points[chart.points.len() - 1], used))
            } else {
                None
            },
            None => None,
        },
        None => None,
    };
    let pace = match &chart {
        Some(chart) => daily_pace(chart.used_percent, now, day),
        None => None,
    };
    let quota_lines = match weekly {
        Some(window) => daily_quota_lines(window, day),
        None => None,
    };
    UsagePanel {
        chart,
        projection,
        pace,
        quota_lines,
        five_hours_ago: five_hours_ago_line(now, day),
        label: "Today's usage",
        title: "Weekly quota usage today",
        toggle_label: "Show 5-hour rolling usage",
        footer: "Since local midnight",
    }
}

/// The panel for recent usage charts the local day from its beginning to its end, or
/// the five hours up to now.
pub proof fn law_panels_chart_a_day_or_five_hours(
    points: Seq<UsagePoint>,
    now: int,
    day: DayBounds,
)
    ensures
        panel_chart(points, true, now, None) is None,
        panel_chart(points, true, now, Some(day)) == usage_chart(
            points,
            day.start as int,
            now,
            day.end as int,
        ),
        panel_chart(points, false, now, Some(day)) == usage_chart(
            points,
            now - 18_000,
            now,
            now,
        ),
        panel_chart(points, false, now, None) == panel_chart(points, false, now, Some(day)),
        panel_chart(points, true, now, Some(day)) matches Some(chart) ==> chart.span == day.end
            - day.start,
        panel_chart(points, false, now, None) matches Some(chart) ==> chart.span == 18_000,
{
}

/// A projection is drawn from the last point of the chart to what is projected, where
/// anything is.
pub proof fn law_projections_start_at_the_last_point(chart: UsageChartModel)
    requires
        chart.points.len() > 0,
    ensures
        panel_projection(None) is None,
        panel_projection(Some(chart)) is Some <==> chart.projected_used is Some,
        panel_projection(Some(chart)) matches Some((point, used)) ==> point
            == chart.points[chart.points.len() - 1] && chart.projected_used == Some(used),
{
}

/// A number is shown with its sign.
pub proof fn law_signs_are_shown(n: int)
    ensures
        n >= 0 ==> signed(n) == "+"@ + decimal(n),
        n < 0 ==> signed(n) == decimal(n) && signed(n) == "-"@ + decimal(-n),
{
    reveal_strlit("-");
    if n < 0 {
        assert(decimal(n) =~= "-"@ + decimal(-n));
    }
}

/// A countdown is shown without its introduction; what is said without one is not
/// shown again.
pub proof fn law_countdowns_are_shown(rest: Seq<char>, other: Seq<char>)
    ensures
        countdown_only("Resets in "@ + rest) == Some(rest),
        countdown_only(other) matches Some(left) ==> other == "Resets in "@ + left,
        countdown_only("Resetting now"@) is None,
        countdown_only("Reset unavailable"@) is None,
{
    lemma_prefix_of_concat("Resets in "@, rest);
    law_prefixes_and_suffixes(other, "Resets in "@, rest);
    assert(Seq::<char>::empty() + "Resets in "@ =~= "Resets in "@);
    reveal_strlit("Resets in ");
    reveal_strlit("Resetting now");
    reveal_strlit("Reset unavailable");
    assert("Resetting now"@.subrange(0, 10)[5] != "Resets in "@[5]);
    assert("Reset unavailable"@.subrange(0, 10)[5] != "Resets in "@[5]);
}

} // verus!
