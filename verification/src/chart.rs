//! Charts of usage over time. Horizontal positions are exact: a number of
//! seconds out of a span of seconds.

use vstd::prelude::*;

use crate::history::{UsagePoint, WindowHistory};
use crate::schedule::LocalInstant;
use crate::search::{
    count_leading, find_first, find_last, lemma_count_leading, lemma_filter_is_a_run,
    lemma_filter_last, lemma_filter_nothing, lemma_filter_start, lemma_filter_step,
    lemma_find_first_at, lemma_find_first_found, lemma_find_first_none, lemma_find_last_at,
    lemma_find_last_none, lemma_leading_have_property,
};
use crate::window::{percent, LimitWindow};

verus! {

/// The length of a burst window, in seconds.
pub const FIVE_HOURS_SECS: i64 = 18_000;

/// An observation on a chart: its position within the chart's span and the
/// share of the limit that was used.
#[derive(Clone, Copy, Debug, PartialEq, Eq, Structural)]
pub struct ChartPoint {
    pub position: i128,
    pub used_percent: i32,
}

/// Usage within a span of time.
#[derive(Debug)]
pub struct UsageChart {
    pub points: Vec<ChartPoint>,
    pub span: i128,
    pub used_percent: i64,
    pub projected_used: Option<i128>,
}

/// The contents of a [`UsageChart`].
pub struct UsageChartModel {
    pub points: Seq<ChartPoint>,
    pub span: int,
    pub used_percent: int,
    pub projected_used: Option<int>,
}

impl View for UsageChart {
    type V = UsageChartModel;

    open spec fn view(&self) -> UsageChartModel {
        UsageChartModel {
            points: self.points@,
            span: self.span as int,
            used_percent: self.used_percent as int,
            projected_used: match self.projected_used {
                Some(used) => Some(used as int),
                None => None,
            },
        }
    }
}

pub open spec fn opt_chart(chart: Option<UsageChart>) -> Option<UsageChartModel> {
    match chart {
        Some(chart) => Some(chart@),
        None => None,
    }
}

/// `value`, moved into the range from 0 to `span`.
pub open spec fn within(value: int, span: int) -> int {
    if value < 0 {
        0
    } else if value > span {
        span
    } else {
        value
    }
}

/// Where an observation stands on a chart that begins at `start`.
pub open spec fn placed(point: UsagePoint, start: int, span: int) -> ChartPoint {
    ChartPoint {
        position: within(point.at - start, span) as i128,
        used_percent: point.used_percent,
    }
}

pub open spec fn placed_all(points: Seq<UsagePoint>, start: int, span: int) -> Seq<ChartPoint> {
    points.map_values(|point: UsagePoint| placed(point, start, span))
}

/// The last of the leading observations up to `start`; failing that, the first
/// one up to `now`.
pub open spec fn baseline(points: Seq<UsagePoint>, start: int, now: int) -> Option<UsagePoint> {
    let leading = count_leading(points, |point: UsagePoint| point.at <= start);
    if leading > 0 {
        Some(points[leading - 1])
    } else {
        find_first(points, |point: UsagePoint| point.at <= now)
    }
}

/// The baseline and every observation after it, up to `now`.
pub open spec fn since_baseline(
    points: Seq<UsagePoint>,
    base: UsagePoint,
    now: int,
) -> Seq<UsagePoint> {
    seq![base] + points.filter(|point: UsagePoint| base.at < point.at && point.at <= now)
}

/// The larger of two numbers.
pub open spec fn larger(a: int, b: int) -> int {
    if a >= b {
        a
    } else {
        b
    }
}

/// Usage from `start` to `end`, as far as it was observed up to `now`. There is
/// no chart of an empty span, nor where the latest observation is older than it.
pub open spec fn usage_chart(
    points: Seq<UsagePoint>,
    start: int,
    now: int,
    end: int,
) -> Option<UsageChartModel> {
    let span = end - start;
    let newest = find_last(points, |point: UsagePoint| point.at <= now);
    match (newest, baseline(points, start, now)) {
        (Some(newest), Some(base)) => if span <= 0 || newest.at < start {
            None
        } else {
            let seen = since_baseline(points, base, now);
            let latest = seen.last();
            let elapsed = latest.at - start;
            let used = larger(latest.used_percent - base.used_percent, 0);
            Some(
                UsageChartModel {
                    points: placed_all(seen, start, span),
                    span,
                    used_percent: used,
                    projected_used: if elapsed > 0 {
                        Some(base.used_percent + used * span / elapsed)
                    } else {
                        None
                    },
                },
            )
        },
        _ => None,
    }
}

fn place(point: UsagePoint, start: i128, span: i128) -> (placed_point: ChartPoint)
    requires
        0 <= span,
        -0x1_0000_0000_0000_0000_0000 <= start <= 0x1_0000_0000_0000_0000_0000,
    ensures
        placed_point == placed(point, start as int, span as int),
{
    let offset: i128 = point.at as i128 - start;
    let position: i128 = if offset < 0 {
        0
    } else if offset > span {
        span
    } else {
        offset
    };
    ChartPoint { position, used_percent: point.used_percent }
}

fn find_baseline(points: &Vec<UsagePoint>, start: i128, now: i64) -> (base: Option<UsagePoint>)
    ensures
        base == baseline(points@, start as int, now as int),
{
    let ghost early = |point: UsagePoint| point.at <= start;
    let ghost seen = |point: UsagePoint| point.at <= now;
    let mut leading: usize = 0;
    while leading < points.len() && points[leading].at as i128 <= start
        invariant
            leading <= points.len(),
            early == (|point: UsagePoint| point.at <= start),
            forall|j: int| 0 <= j < leading ==> early(#[trigger] points@[j]),
        decreases points.len() - leading,
    {
        leading = leading + 1;
    }
    proof {
        lemma_count_leading(points@, early, leading as int);
    }
    if leading > 0 {
        return Some(points[leading - 1]);
    }
    let mut i: usize = 0;
    while i < points.len()
        invariant
            i <= points.len(),
            seen == (|point: UsagePoint| point.at <= now),
            early == (|point: UsagePoint| point.at <= start),
            count_leading(points@, early) == 0,
            forall|j: int| 0 <= j < i ==> !seen(#[trigger] points@[j]),
        decreases points.len() - i,
    {
        if points[i].at <= now {
            proof {
                lemma_find_first_at(points@, seen, i as int);
            }
            return Some(points[i]);
        }
        i = i + 1;
    }
    proof {
        lemma_find_first_none(points@, seen);
    }
    None
}

fn find_newest(points: &Vec<UsagePoint>, now: i64) -> (newest: Option<UsagePoint>)
    ensures
        newest == find_last(points@, |point: UsagePoint| point.at <= now),
{
    let ghost seen = |point: UsagePoint| point.at <= now;
    let mut i: usize = points.len();
    assert(points@.take(points@.len() as int) =~= points@);
    while i > 0
        invariant
            i <= points.len(),
            seen == (|point: UsagePoint| point.at <= now),
            find_last(points@, seen) == find_last(points@.take(i as int), seen),
        decreases i,
    {
        let ghost head = points@.take(i as int);
        assert(head.last() == points@[i - 1]);
        assert(head.drop_last() =~= points@.take(i - 1));
        if points[i - 1].at <= now {
            return Some(points[i - 1]);
        }
        i = i - 1;
    }
    None
}

fn collect_since(points: &Vec<UsagePoint>, base: UsagePoint, now: i64) -> (seen: Vec<UsagePoint>)
    ensures
        seen@ == since_baseline(points@, base, now as int),
{
    let ghost wanted = |point: UsagePoint| base.at < point.at && point.at <= now;
    let mut seen: Vec<UsagePoint> = Vec::new();
    seen.push(base);
    let mut i: usize = 0;
    proof {
        lemma_filter_start(points@, wanted);
    }
    assert(seen@ =~= seq![base] + points@.take(0).filter(wanted));
    while i < points.len()
        invariant
            i <= points.len(),
            wanted == (|point: UsagePoint| base.at < point.at && point.at <= now),
            seen@ == seq![base] + points@.take(i as int).filter(wanted),
        decreases points.len() - i,
    {
        let point: UsagePoint = points[i];
        proof {
            lemma_filter_step(points@, wanted, i as int);
        }
        if base.at < point.at && point.at <= now {
            seen.push(point);
        }
        assert(seen@ =~= seq![base] + points@.take(i + 1).filter(wanted));
        i = i + 1;
    }
    assert(points@.take(points@.len() as int) =~= points@);
    seen
}

fn place_from(points: &Vec<UsagePoint>, from: usize, start: i128, span: i128) -> (placed_points: Vec<
    ChartPoint,
>)
    requires
        from <= points.len(),
        0 <= span,
        -0x1_0000_0000_0000_0000_0000 <= start <= 0x1_0000_0000_0000_0000_0000,
    ensures
        placed_points@ == placed_all(points@.skip(from as int), start as int, span as int),
{
    let mut placed_points: Vec<ChartPoint> = Vec::new();
    let mut i: usize = from;
    while i < points.len()
        invariant
            from <= i <= points.len(),
            0 <= span,
            -0x1_0000_0000_0000_0000_0000 <= start <= 0x1_0000_0000_0000_0000_0000,
            placed_points@.len() == i - from,
            forall|j: int|
                0 <= j < i - from ==> #[trigger] placed_points@[j] == placed(
                    points@[from + j],
                    start as int,
                    span as int,
                ),
        decreases points.len() - i,
    {
        placed_points.push(place(points[i], start, span));
        i = i + 1;
    }
    assert(placed_points@ =~= placed_all(points@.skip(from as int), start as int, span as int));
    placed_points
}

/// Charts the usage between `start` and `end`, as observed up to `now`.
pub fn usage_since(history: &WindowHistory, start: i64, now: i64, end: i64) -> (chart: Option<
    UsageChart,
>)
    ensures
        opt_chart(chart) == usage_chart(
            history.points@,
            start as int,
            now as int,
            end as int,
        ),
{
    usage_between(&history.points, start as i128, now, end as i128)
}

fn usage_between(points: &Vec<UsagePoint>, start: i128, now: i64, end: i128) -> (chart: Option<
    UsageChart,
>)
    requires
        i64::MIN - FIVE_HOURS_SECS <= start <= i64::MAX,
        i64::MIN <= end <= i64::MAX,
    ensures
        opt_chart(chart) == usage_chart(points@, start as int, now as int, end as int),
{
    let span: i128 = end - start;
    let newest = match find_newest(points, now) {
        Some(newest) => newest,
        None => {
            return None;
        },
    };
    let base = match find_baseline(points, start, now) {
        Some(base) => base,
        None => {
            return None;
        },
    };
    if span <= 0 || (newest.at as i128) < start {
        return None;
    }
    let seen = collect_since(points, base, now);
    let latest: UsagePoint = seen[seen.len() - 1];
    let elapsed: i128 = latest.at as i128 - start;
    let difference: i64 = latest.used_percent as i64 - base.used_percent as i64;
    let used: i64 = if difference > 0 {
        difference
    } else {
        0
    };
    assert(0 <= used * span <= 0x1_0000_0000 * 0x2_0000_0000_0000_0000) by (nonlinear_arith)
        requires
            0 <= used <= 0x1_0000_0000,
            0 <= span <= 0x2_0000_0000_0000_0000,
    ;
    let projected_used: Option<i128> = if elapsed > 0 {
        let product: i128 = used as i128 * span;
        assert(0 <= product / elapsed <= product) by (nonlinear_arith)
            requires
                0 <= product,
                0 < elapsed,
        ;
        Some(base.used_percent as i128 + product / elapsed)
    } else {
        None
    };
    assert(seen@.skip(0) =~= seen@);
    Some(
        UsageChart {
            points: place_from(&seen, 0, start, span),
            span,
            used_percent: used,
            projected_used,
        },
    )
}

/// Charts the usage of the last five hours.
pub fn rolling_usage(history: &WindowHistory, now: i64) -> (chart: Option<UsageChart>)
    ensures
        opt_chart(chart) == usage_chart(
            history.points@,
            now - FIVE_HOURS_SECS,
            now as int,
            now as int,
        ),
{
    usage_between(&history.points, now as i128 - FIVE_HOURS_SECS as i128, now, now as i128)
}

/// The moments at which a local day begins and ends.
#[derive(Clone, Copy, Debug, PartialEq, Eq, Structural)]
pub struct DayBounds {
    pub start: i64,
    pub end: i64,
}

/// The bounds of a day, given what midnight means on it and on the day after.
pub fn local_day_bounds(midnight: LocalInstant, next_midnight: LocalInstant) -> (bounds: Option<
    DayBounds,
>)
    ensures
        bounds == match (midnight.leading(), next_midnight.leading()) {
            (Some(start), Some(end)) => Some(DayBounds { start, end }),
            _ => None,
        },
{
    match (midnight.first(), next_midnight.first()) {
        (Some(start), Some(end)) => Some(DayBounds { start, end }),
        _ => None,
    }
}

/// Charts the usage of the local day.
pub fn today_usage(history: &WindowHistory, now: i64, day: Option<DayBounds>) -> (chart: Option<
    UsageChart,
>)
    ensures
        opt_chart(chart) == match day {
            Some(day) => usage_chart(
                history.points@,
                day.start as int,
                now as int,
                day.end as int,
            ),
            None => None,
        },
{
    match day {
        Some(day) => usage_since(history, day.start, now, day.end),
        None => None,
    }
}

/// A share of a whole.
#[derive(Clone, Copy, Debug, PartialEq, Eq, Structural)]
pub struct Share {
    pub part: i128,
    pub whole: i128,
}

/// A share that lies between nothing and the whole. Both signs turned are the
/// same share. Of an empty whole, anything less than nothing is nothing, anything
/// more is everything, and nothing is no share at all.
pub open spec fn bounded_share(part: int, whole: int) -> Share {
    if whole > 0 {
        Share { part: within(part, whole) as i128, whole: whole as i128 }
    } else if whole < 0 {
        Share { part: within(-part, -whole) as i128, whole: (-whole) as i128 }
    } else if part > 0 {
        Share { part: 1, whole: 1 }
    } else if part < 0 {
        Share { part: 0, whole: 1 }
    } else {
        Share { part: 0, whole: 0 }
    }
}

fn bound_share(part: i128, whole: i128) -> (share: Share)
    requires
        -0x1_0000_0000_0000_0000_0000 <= part <= 0x1_0000_0000_0000_0000_0000,
        -0x1_0000_0000_0000_0000_0000 <= whole <= 0x1_0000_0000_0000_0000_0000,
    ensures
        share == bounded_share(part as int, whole as int),
{
    if whole == 0 {
        return if part > 0 {
            Share { part: 1, whole: 1 }
        } else if part < 0 {
            Share { part: 0, whole: 1 }
        } else {
            Share { part: 0, whole: 0 }
        };
    }
    let (part, whole): (i128, i128) = if whole > 0 {
        (part, whole)
    } else {
        (-part, -whole)
    };
    if part < 0 {
        Share { part: 0, whole }
    } else if part > whole {
        Share { part: whole, whole }
    } else {
        Share { part, whole }
    }
}

/// How far into a window the local day begins and ends, out of the window's
/// length: not before it begins and not after it ends.
pub open spec fn quota_shares(window: LimitWindow, day: Option<DayBounds>) -> Option<
    (Share, Share),
> {
    match (window.window_duration_mins, window.resets_at, day) {
        (Some(duration), Some(reset), Some(day)) => {
            let whole = duration * 60;
            let start = reset - whole;
            Some((bounded_share(day.start - start, whole), bounded_share(day.end - start, whole)))
        },
        _ => None,
    }
}

/// Measures how far into a window the local day begins and ends.
pub fn daily_quota_lines(window: &LimitWindow, day: Option<DayBounds>) -> (lines: Option<
    (Share, Share),
>)
    ensures
        lines == quota_shares(*window, day),
{
    match (window.window_duration_mins, window.resets_at, day) {
        (Some(duration), Some(reset), Some(day)) => {
            let whole: i128 = duration as i128 * 60;
            let start: i128 = reset as i128 - whole;
            Some(
                (
                    bound_share(day.start as i128 - start, whole),
                    bound_share(day.end as i128 - start, whole),
                ),
            )
        },
        _ => None,
    }
}

/// Where the moment five hours ago stands in the local day, if it is in it.
pub open spec fn five_hours_share(now: int, day: Option<DayBounds>) -> Option<Share> {
    match day {
        Some(day) => if now - FIVE_HOURS_SECS >= day.start {
            Some(
                Share {
                    part: (now - FIVE_HOURS_SECS - day.start) as i128,
                    whole: (day.end - day.start) as i128,
                },
            )
        } else {
            None
        },
        None => None,
    }
}

/// Finds the moment five hours ago in the local day.
pub fn five_hours_ago_line(now: i64, day: Option<DayBounds>) -> (line: Option<Share>)
    ensures
        line == five_hours_share(now as int, day),
{
    match day {
        Some(day) => {
            let at: i128 = now as i128 - FIVE_HOURS_SECS as i128;
            if at >= day.start as i128 {
                Some(
                    Share {
                        part: at - day.start as i128,
                        whole: day.end as i128 - day.start as i128,
                    },
                )
            } else {
                None
            }
        },
        None => None,
    }
}

/// The whole number nearest to `n / d`, halves away from zero; `d > 0`.
pub open spec fn nearest(n: int, d: int) -> int {
    if n >= 0 {
        (2 * n + d) / (2 * d)
    } else {
        -((2 * (-n) + d) / (2 * d))
    }
}

proof fn lemma_quotient_bound(top: int, bottom: int)
    requires
        0 <= top,
        0 < bottom,
    ensures
        0 <= top / bottom <= top,
{
    assert(0 <= top / bottom <= top) by (nonlinear_arith)
        requires
            0 <= top,
            0 < bottom,
    ;
}

fn round_ratio(n: i128, d: i128) -> (r: i128)
    requires
        0 < d <= 0x10_0000_0000_0000_0000_0000_0000,
        -0x10_0000_0000_0000_0000_0000_0000 <= n <= 0x10_0000_0000_0000_0000_0000_0000,
    ensures
        r == nearest(n as int, d as int),
{
    let bottom: i128 = 2 * d;
    if n >= 0 {
        let top: i128 = 2 * n + d;
        proof {
            lemma_quotient_bound(top as int, bottom as int);
        }
        top / bottom
    } else {
        let top: i128 = 2 * (-n) + d;
        proof {
            lemma_quotient_bound(top as int, bottom as int);
        }
        -(top / bottom)
    }
}

/// How usage compares with an even pace, in words.
pub open spec fn pace_word(delta: int) -> Seq<char> {
    if delta < 0 {
        "DEFICIT"@
    } else {
        "SURPLUS"@
    }
}

/// A comparison with an even pace: a word and a number of percents.
pub open spec fn opt_pace(pace: Option<(&'static str, i32)>) -> Option<(Seq<char>, int)> {
    match pace {
        Some((label, delta)) => Some((label@, delta as int)),
        None => None,
    }
}

/// `n`, moved into the range of 32-bit integers.
pub open spec fn saturated(n: int) -> int {
    if n < i32::MIN {
        i32::MIN as int
    } else if n > i32::MAX {
        i32::MAX as int
    } else {
        n
    }
}

/// The usage of a day compared with a seventh of the weekly limit, spread
/// evenly over the day.
pub open spec fn daily_comparison(used_percent: int, now: int, day: Option<DayBounds>) -> Option<
    (Seq<char>, int),
> {
    match day {
        Some(day) => {
            let whole = 7 * (day.end - day.start);
            let delta = saturated(nearest((now - day.start) * 100 - used_percent * whole, whole));
            Some((pace_word(delta), delta))
        },
        None => None,
    }
}

/// Compares the usage of a day with a seventh of the weekly limit.
pub fn daily_pace(used_percent: i64, now: i64, day: Option<DayBounds>) -> (pace: Option<
    (&'static str, i32),
>)
    requires
        day matches Some(day) ==> day.start < day.end,
        -0x1_0000_0000 <= used_percent <= 0x1_0000_0000,
    ensures
        opt_pace(pace) == daily_comparison(used_percent as int, now as int, day),
{
    match day {
        Some(day) => {
            let whole: i128 = 7 * (day.end as i128 - day.start as i128);
            assert(-0x8_0000_0000_0000_0000 * 0x1_0000_0000 <= used_percent * whole
                <= 0x8_0000_0000_0000_0000 * 0x1_0000_0000) by (nonlinear_arith)
                requires
                    -0x1_0000_0000 <= used_percent <= 0x1_0000_0000,
                    0 < whole <= 0x8_0000_0000_0000_0000,
            ;
            let part: i128 = (now as i128 - day.start as i128) * 100 - used_percent as i128 * whole;
            let rounded: i128 = round_ratio(part, whole);
            let delta: i32 = if rounded < i32::MIN as i128 {
                i32::MIN
            } else if rounded > i32::MAX as i128 {
                i32::MAX
            } else {
                rounded as i32
            };
            if delta < 0 {
                Some(("DEFICIT", delta))
            } else {
                Some(("SURPLUS", delta))
            }
        },
        None => None,
    }
}

/// What is left of a limit compared with what would be left at an even pace.
pub open spec fn comparison(window: LimitWindow, now: int) -> Option<(Seq<char>, int)> {
    match (window.window_duration_mins, window.resets_at) {
        (Some(duration), Some(reset)) => if duration <= 0 {
            None
        } else {
            let expected = percent(nearest((reset - now) * 100, duration * 60));
            let left = percent(100 - window.used_percent);
            Some(
                (
                    if left == 0 {
                        "EMPTY"@
                    } else {
                        pace_word(left - expected)
                    },
                    left - expected,
                ),
            )
        },
        _ => None,
    }
}

/// Compares what is left of a limit with what would be left at an even pace.
pub fn pace(window: &LimitWindow, now: i64) -> (pace: Option<(&'static str, i32)>)
    ensures
        opt_pace(pace) == comparison(*window, now as int),
{
    match (window.window_duration_mins, window.resets_at) {
        (Some(duration), Some(reset)) => {
            if duration <= 0 {
                return None;
            }
            let rounded: i128 = round_ratio(
                (reset as i128 - now as i128) * 100,
                duration as i128 * 60,
            );
            let expected: i32 = if rounded < 0 {
                0
            } else if rounded > 100 {
                100
            } else {
                rounded as i32
            };
            let left: i32 = window.remaining_percent();
            let delta: i32 = left - expected;
            if left == 0 {
                Some(("EMPTY", delta))
            } else if delta < 0 {
                Some(("DEFICIT", delta))
            } else {
                Some(("SURPLUS", delta))
            }
        },
        _ => None,
    }
}

/// Where usage begins to rise; without a rise, the last observation.
pub open spec fn active_from(points: Seq<UsagePoint>) -> int
    decreases points.len(),
{
    if points.len() < 2 || points[1].used_percent > points[0].used_percent {
        0
    } else {
        1 + active_from(points.skip(1))
    }
}

proof fn lemma_active_from(points: Seq<UsagePoint>, n: int)
    requires
        0 <= n,
        n < points.len() || n == 0,
        forall|j: int|
            0 <= j < n ==> #[trigger] points[j].used_percent >= points[j + 1].used_percent,
        n + 1 < points.len() ==> points[n + 1].used_percent > points[n].used_percent,
    ensures
        active_from(points) == n,
    decreases points.len(),
{
    if n > 0 {
        assert(points[0].used_percent >= points[1].used_percent);
        let rest = points.skip(1);
        assert forall|j: int| 0 <= j < n - 1 implies #[trigger] rest[j].used_percent >= rest[j
            + 1].used_percent by {
            assert(rest[j] == points[j + 1]);
            assert(points[j + 1].used_percent >= points[j + 2].used_percent);
        }
        lemma_active_from(rest, n - 1);
    }
}

fn find_active_from(points: &Vec<UsagePoint>) -> (from: usize)
    ensures
        from == active_from(points@),
        from < points.len() || from == 0,
{
    let mut from: usize = 0;
    while from + 1 < points.len() && points[from + 1].used_percent <= points[from].used_percent
        invariant
            from < points.len() || from == 0,
            forall|j: int|
                0 <= j < from ==> #[trigger] points@[j].used_percent >= points@[j
                    + 1].used_percent,
        decreases points.len() - from,
    {
        from = from + 1;
    }
    proof {
        lemma_active_from(points@, from as int);
    }
    from
}

/// How a window is being used up: the observations since usage began to rise,
/// what will be used by the reset, and where within the window that is reached.
#[derive(Debug)]
pub struct Burndown {
    pub points: Vec<ChartPoint>,
    pub span: i128,
    pub projected_used: i128,
    pub projection: i128,
    pub start: i128,
    pub end: i64,
}

/// The contents of a [`Burndown`].
pub struct BurndownModel {
    pub points: Seq<ChartPoint>,
    pub span: int,
    pub projected_used: int,
    pub projection: int,
    pub start: int,
    pub end: int,
}

impl View for Burndown {
    type V = BurndownModel;

    open spec fn view(&self) -> BurndownModel {
        BurndownModel {
            points: self.points@,
            span: self.span as int,
            projected_used: self.projected_used as int,
            projection: self.projection as int,
            start: self.start as int,
            end: self.end as int,
        }
    }
}

pub open spec fn opt_burndown(chart: Option<Burndown>) -> Option<BurndownModel> {
    match chart {
        Some(chart) => Some(chart@),
        None => None,
    }
}

/// Usage grew by `usage` in `seconds`.
pub open spec fn is_moving(seconds: int, usage: int) -> bool {
    seconds > 0 && usage > 0
}

/// The observations between which usage is measured: where it began to rise and the last one.
pub open spec fn measured(points: Seq<UsagePoint>) -> (UsagePoint, UsagePoint) {
    (points[active_from(points)], points.last())
}

/// What will be used at `reset` if usage goes on as measured.
pub open spec fn projected_usage(points: Seq<UsagePoint>, reset: int) -> int {
    let (first, last) = measured(points);
    let seconds = last.at - first.at;
    let usage = last.used_percent - first.used_percent;
    if is_moving(seconds, usage) {
        last.used_percent + usage * larger(reset - last.at, 0) / seconds
    } else {
        last.used_percent as int
    }
}

/// The moment at which everything is used: the first one observed, or the one
/// at which usage gets there if it goes on as measured.
pub open spec fn runout(points: Seq<UsagePoint>) -> Option<int> {
    let (first, last) = measured(points);
    let seconds = last.at - first.at;
    let usage = last.used_percent - first.used_percent;
    match find_first(points, |point: UsagePoint| point.used_percent >= 100) {
        Some(point) => Some(point.at as int),
        None => if is_moving(seconds, usage) {
            Some(last.at + larger(100 - last.used_percent, 0) * seconds / usage)
        } else {
            None
        },
    }
}

/// The burndown of a window of known length and reset with any observations.
pub open spec fn burndown_chart(window: LimitWindow, points: Seq<UsagePoint>) -> Option<
    BurndownModel,
> {
    match (window.window_duration_mins, window.resets_at) {
        (Some(duration), Some(reset)) => if duration <= 0 || points.len() == 0 {
            None
        } else {
            let span = duration * 60;
            let start = reset - span;
            Some(
                BurndownModel {
                    points: placed_all(points.skip(active_from(points)), start, span),
                    span,
                    projected_used: projected_usage(points, reset as int),
                    projection: match runout(points) {
                        Some(at) => within(at - start, span),
                        None => span,
                    },
                    start,
                    end: reset as int,
                },
            )
        },
        _ => None,
    }
}

fn find_runout(points: &Vec<UsagePoint>, from: usize) -> (at: Option<i128>)
    requires
        points.len() > 0,
        from == active_from(points@),
        from < points.len(),
    ensures
        match (at, runout(points@)) {
            (Some(at), Some(expected)) => at == expected,
            (None, None) => true,
            _ => false,
        },
        at matches Some(at) ==> -0x1_0000_0000_0000_0000_0000_0000_0000 <= at
            <= 0x1_0000_0000_0000_0000_0000_0000_0000,
{
    let ghost empty = |point: UsagePoint| point.used_percent >= 100;
    let mut i: usize = 0;
    while i < points.len()
        invariant
            i <= points.len(),
            empty == (|point: UsagePoint| point.used_percent >= 100),
            forall|j: int| 0 <= j < i ==> !empty(#[trigger] points@[j]),
        decreases points.len() - i,
    {
        if points[i].used_percent >= 100 {
            proof {
                lemma_find_first_at(points@, empty, i as int);
            }
            return Some(points[i].at as i128);
        }
        i = i + 1;
    }
    proof {
        lemma_find_first_none(points@, empty);
    }
    let first: UsagePoint = points[from];
    let last: UsagePoint = points[points.len() - 1];
    let seconds: i128 = last.at as i128 - first.at as i128;
    let usage: i128 = last.used_percent as i128 - first.used_percent as i128;
    if seconds > 0 && usage > 0 {
        let left: i128 = 100 - last.used_percent as i128;
        let needed: i128 = if left > 0 {
            left
        } else {
            0
        };
        assert(0 <= needed * seconds <= 0x1_0000_0000 * 0x1_0000_0000_0000_0000)
            by (nonlinear_arith)
            requires
                0 <= needed <= 0x1_0000_0000,
                0 <= seconds <= 0x1_0000_0000_0000_0000,
        ;
        let product: i128 = needed * seconds;
        proof {
            lemma_quotient_bound(product as int, usage as int);
        }
        Some(last.at as i128 + product / usage)
    } else {
        None
    }
}

/// Charts how a window is being used up.
pub fn burndown(window: &LimitWindow, history: &WindowHistory) -> (chart: Option<Burndown>)
    ensures
        opt_burndown(chart) == burndown_chart(*window, history.points@),
{
    let points = &history.points;
    match (window.window_duration_mins, window.resets_at) {
        (Some(duration), Some(reset)) => {
            if duration <= 0 || points.len() == 0 {
                return None;
            }
            let span: i128 = duration as i128 * 60;
            let start: i128 = reset as i128 - span;
            let from = find_active_from(points);
            let first: UsagePoint = points[from];
            let last: UsagePoint = points[points.len() - 1];
            let seconds: i128 = last.at as i128 - first.at as i128;
            let usage: i128 = last.used_percent as i128 - first.used_percent as i128;
            let projected_used: i128 = if seconds > 0 && usage > 0 {
                let ahead: i128 = reset as i128 - last.at as i128;
                let left: i128 = if ahead > 0 {
                    ahead
                } else {
                    0
                };
                assert(0 <= usage * left <= 0x1_0000_0000 * 0x1_0000_0000_0000_0000)
                    by (nonlinear_arith)
                    requires
                        0 <= usage <= 0x1_0000_0000,
                        0 <= left <= 0x1_0000_0000_0000_0000,
                ;
                let product: i128 = usage * left;
                proof {
                    lemma_quotient_bound(product as int, seconds as int);
                }
                last.used_percent as i128 + product / seconds
            } else {
                last.used_percent as i128
            };
            let projection: i128 = match find_runout(points, from) {
                Some(at) => {
                    let offset: i128 = at - start;
                    if offset < 0 {
                        0
                    } else if offset > span {
                        span
                    } else {
                        offset
                    }
                },
                None => span,
            };
            Some(
                Burndown {
                    points: place_from(points, from, start, span),
                    span,
                    projected_used,
                    projection,
                    start,
                    end: reset,
                },
            )
        },
        _ => None,
    }
}

/// The beginning or the end of a working day.
#[derive(Clone, Copy, Debug, PartialEq, Eq, Structural)]
pub enum WorkEdge {
    Start,
    End,
}

impl WorkEdge {
    /// The hour at which working days begin and end.
    pub open spec fn at_hour(self) -> u32 {
        match self {
            WorkEdge::Start => 9,
            WorkEdge::End => 17,
        }
    }

    /// The hour at which working days begin and end.
    pub fn hour(self) -> (hour: u32)
        ensures
            hour == self.at_hour(),
    {
        match self {
            WorkEdge::Start => 9,
            WorkEdge::End => 17,
        }
    }

    /// How the edge is marked on a chart.
    pub fn class(self) -> (class: &'static str)
        ensures
            class@ == match self {
                WorkEdge::Start => "start"@,
                WorkEdge::End => "end"@,
            },
    {
        match self {
            WorkEdge::Start => "start",
            WorkEdge::End => "end",
        }
    }
}

/// A mark at the beginning or the end of a working day.
#[derive(Clone, Copy, Debug, PartialEq, Eq, Structural)]
pub struct WorkLine {
    pub at: Share,
    pub edge: WorkEdge,
}

/// The day of the week of a day that is counted from January 1 of the year 1
/// as day 1, with 0 for Monday.
pub open spec fn weekday(day: int) -> int {
    (day - 1) % 7
}

/// Working weeks begin on Monday morning and end on Friday evening.
pub open spec fn bounds_workweek(day: int, edge: WorkEdge) -> bool {
    match edge {
        WorkEdge::Start => weekday(day) == 0,
        WorkEdge::End => weekday(day) == 4,
    }
}

/// What the hours at which work begins and ends mean on the days from `day` on:
/// `instants[d]` is for the d-th day; what is not there is missing.
#[derive(Debug)]
pub struct WorkDays {
    pub day: i32,
    pub instants: Vec<(LocalInstant, LocalInstant)>,
}

impl WorkDays {
    /// When work begins or ends on the d-th day.
    pub open spec fn moment(self, d: int, edge: WorkEdge) -> Option<i64> {
        if 0 <= d < self.instants@.len() {
            match edge {
                WorkEdge::Start => self.instants@[d].0.leading(),
                WorkEdge::End => self.instants@[d].1.leading(),
            }
        } else {
            None
        }
    }

    /// The mark for an edge of the d-th day, if it falls between `start` and `end`.
    pub open spec fn mark(
        self,
        d: int,
        edge: WorkEdge,
        start: int,
        end: int,
        weekly: bool,
    ) -> Seq<WorkLine> {
        match self.moment(d, edge) {
            Some(at) => if (weekly ==> bounds_workweek(self.day + d, edge)) && start <= at <= end {
                seq![
                    WorkLine {
                        at: Share { part: (at - start) as i128, whole: (end - start) as i128 },
                        edge,
                    },
                ]
            } else {
                Seq::empty()
            },
            None => Seq::empty(),
        }
    }

    /// The marks of the first `n` days.
    pub open spec fn marks(self, n: nat, start: int, end: int, weekly: bool) -> Seq<WorkLine>
        decreases n,
    {
        if n == 0 {
            Seq::empty()
        } else {
            let d = n - 1;
            self.marks((n - 1) as nat, start, end, weekly) + self.mark(
                d,
                WorkEdge::Start,
                start,
                end,
                weekly,
            ) + self.mark(d, WorkEdge::End, start, end, weekly)
        }
    }

    fn push_mark(
        &self,
        lines: &mut Vec<WorkLine>,
        d: usize,
        edge: WorkEdge,
        start: i64,
        end: i64,
        weekly: bool,
    )
        requires
            d < 8,
        ensures
            final(lines)@ == old(lines)@ + self.mark(
                d as int,
                edge,
                start as int,
                end as int,
                weekly,
            ),
    {
        if d >= self.instants.len() {
            return;
        }
        let wanted: i64 = match edge {
            WorkEdge::Start => 0,
            WorkEdge::End => 4,
        };
        let days: i64 = self.day as i64 + d as i64 - 1;
        let instant: LocalInstant = match edge {
            WorkEdge::Start => self.instants[d].0,
            WorkEdge::End => self.instants[d].1,
        };
        if weekly && days.checked_rem_euclid(7) != Some(wanted) {
            return;
        }
        if let Some(at) = instant.first() {
            if at >= start && at <= end {
                lines.push(
                    WorkLine {
                        at: Share {
                            part: at as i128 - start as i128,
                            whole: end as i128 - start as i128,
                        },
                        edge,
                    },
                );
            }
        }
    }
}

/// Marks where work begins and ends between `start` and `end`, within the week
/// that begins on the day of `start`: every day, or once a week.
pub fn work_lines(start: i64, end: i64, weekly: bool, days: Option<&WorkDays>) -> (lines: Vec<
    WorkLine,
>)
    ensures
        lines@ == match days {
            Some(days) => days.marks(8, start as int, end as int, weekly),
            None => Seq::empty(),
        },
{
    let mut lines: Vec<WorkLine> = Vec::new();
    if let Some(days) = days {
        let mut d: usize = 0;
        while d < 8
            invariant
                d <= 8,
                lines@ == days.marks(d as nat, start as int, end as int, weekly),
            decreases 8 - d,
        {
            days.push_mark(&mut lines, d, WorkEdge::Start, start, end, weekly);
            days.push_mark(&mut lines, d, WorkEdge::End, start, end, weekly);
            d = d + 1;
        }
    }
    lines
}

/// Marks where working weeks begin and end.
pub fn workweek_lines(start: i64, end: i64, days: Option<&WorkDays>) -> (lines: Vec<WorkLine>)
    ensures
        lines@ == match days {
            Some(days) => days.marks(8, start as int, end as int, true),
            None => Seq::empty(),
        },
{
    work_lines(start, end, true, days)
}

/// Marks where working days begin and end.
pub fn workday_lines(start: i64, end: i64, days: Option<&WorkDays>) -> (lines: Vec<WorkLine>)
    ensures
        lines@ == match days {
            Some(days) => days.marks(8, start as int, end as int, false),
            None => Seq::empty(),
        },
{
    work_lines(start, end, false, days)
}

/// The lines of the day's quota stand within a window that has a length.
pub proof fn law_quota_lines_are_on_the_chart(window: LimitWindow, day: Option<DayBounds>)
    requires
        window.window_duration_mins matches Some(duration) ==> duration > 0,
        quota_shares(window, day) is Some,
    ensures
        ({
            let (first, second) = quota_shares(window, day)->0;
            &&& 0 <= first.part <= first.whole
            &&& 0 <= second.part <= second.whole
            &&& first.whole == window.window_duration_mins->0 * 60
            &&& second.whole == first.whole
        }),
{
}

/// Every point of a usage chart stands between its edges.
pub proof fn law_usage_points_are_on_the_chart(
    points: Seq<UsagePoint>,
    start: int,
    now: int,
    end: int,
    i: int,
)
    requires
        usage_chart(points, start, now, end) is Some,
        i64::MIN - FIVE_HOURS_SECS <= start <= i64::MAX,
        i64::MIN <= end <= i64::MAX,
        0 <= i < usage_chart(points, start, now, end)->0.points.len(),
    ensures
        0 <= usage_chart(points, start, now, end)->0.points[i].position <= end - start,
{
}

/// Where the end is still ahead, a usage chart projects no less than what was
/// used already.
pub proof fn law_projection_counts_what_was_used(
    points: Seq<UsagePoint>,
    start: int,
    now: int,
    end: int,
)
    requires
        now <= end,
        usage_chart(points, start, now, end) is Some,
        usage_chart(points, start, now, end)->0.projected_used is Some,
    ensures
        usage_chart(points, start, now, end)->0.projected_used->0 >= baseline(
            points,
            start,
            now,
        )->0.used_percent + usage_chart(points, start, now, end)->0.used_percent,
{
    let base = baseline(points, start, now)->0;
    let seen = since_baseline(points, base, now);
    let later = points.filter(|point: UsagePoint| base.at < point.at && point.at <= now);
    let latest = seen.last();
    let span = end - start;
    let elapsed = latest.at - start;
    let used = larger(latest.used_percent - base.used_percent, 0);
    assert(latest.at <= now) by {
        if later.len() > 0 {
            assert(latest == later.last());
            points.lemma_filter_pred(
                |point: UsagePoint| base.at < point.at && point.at <= now,
                later.len() - 1,
            );
        } else {
            let early = |point: UsagePoint| point.at <= start;
            let recent = |point: UsagePoint| point.at <= now;
            if count_leading(points, early) > 0 {
                lemma_leading_have_property(points, early, count_leading(points, early) - 1);
            } else {
                let at = lemma_find_first_found(points, recent);
            }
        }
    }
    assert(used * span / elapsed >= used) by (nonlinear_arith)
        requires
            0 <= used,
            0 < elapsed <= span,
    ;
}

/// A burndown projects no less than what was used last, and the moment it marks
/// lies within the window.
pub proof fn law_burndown_counts_what_was_used(window: LimitWindow, points: Seq<UsagePoint>)
    requires
        burndown_chart(window, points) is Some,
    ensures
        burndown_chart(window, points)->0.projected_used >= points.last().used_percent,
        0 <= burndown_chart(window, points)->0.projection <= burndown_chart(window, points)->0.span,
{
    let (first, last) = measured(points);
    let seconds = last.at - first.at;
    let usage = last.used_percent - first.used_percent;
    let ahead = larger(window.resets_at->0 - last.at, 0);
    if is_moving(seconds, usage) {
        assert(usage * ahead / seconds >= 0) by (nonlinear_arith)
            requires
                0 <= usage,
                0 <= ahead,
                0 < seconds,
        ;
    }
}

/// Where a burndown marks a moment before the reset, everything is used by the
/// reset: it was observed to be, or it is projected to be.
pub proof fn law_early_runout_uses_everything(window: LimitWindow, points: Seq<UsagePoint>)
    requires
        burndown_chart(window, points) is Some,
        burndown_chart(window, points)->0.projection < burndown_chart(window, points)->0.span,
    ensures
        burndown_chart(window, points)->0.projected_used >= 100 || exists|i: int|
            0 <= i < points.len() && (#[trigger] points[i]).used_percent >= 100,
{
    let used_up = |point: UsagePoint| point.used_percent >= 100;
    if find_first(points, used_up) is Some {
        let i = lemma_find_first_found(points, used_up);
        assert(points[i].used_percent >= 100);
    } else {
        let (first, last) = measured(points);
        let seconds = last.at - first.at;
        let usage = last.used_percent - first.used_percent;
        let needed = larger(100 - last.used_percent, 0);
        let ahead = larger(window.resets_at->0 - last.at, 0);
        assert(is_moving(seconds, usage));
        assert(needed * seconds / usage >= 0) by (nonlinear_arith)
            requires
                0 <= needed,
                0 < seconds,
                0 < usage,
        ;
        assert(needed * seconds / usage < ahead);
        assert(usage * ahead / seconds >= needed) by (nonlinear_arith)
            requires
                0 <= needed,
                0 < seconds,
                0 < usage,
                needed * seconds / usage < ahead,
        ;
    }
}

/// Marks of working hours fall between the edges of the chart.
pub proof fn law_work_lines_are_on_the_chart(
    days: WorkDays,
    n: nat,
    start: i64,
    end: i64,
    weekly: bool,
    i: int,
)
    requires
        0 <= i < days.marks(n, start as int, end as int, weekly).len(),
    ensures
        0 <= days.marks(n, start as int, end as int, weekly)[i].at.part <= end - start,
        days.marks(n, start as int, end as int, weekly)[i].at.whole == end - start,
    decreases n,
{
    let before = days.marks((n - 1) as nat, start as int, end as int, weekly);
    if i < before.len() {
        law_work_lines_are_on_the_chart(days, (n - 1) as nat, start, end, weekly, i);
    }
}

/// In any seven days in a row the working week begins once and ends once.
pub proof fn law_weeks_have_one_monday_and_one_friday(day: int, edge: WorkEdge)
    ensures
        exists|d: int| 0 <= d < 7 && #[trigger] bounds_workweek(day + d, edge),
        forall|d: int, e: int|
            0 <= d < 7 && 0 <= e < 7 && #[trigger] bounds_workweek(day + d, edge)
                && #[trigger] bounds_workweek(day + e, edge) ==> d == e,
{
    let wanted: int = match edge {
        WorkEdge::Start => 0,
        WorkEdge::End => 4,
    };
    let d = (wanted - weekday(day)) % 7;
    assert(bounds_workweek(day + d, edge));
}

/// A point of a chart shows an observation: its share, at its distance from
/// `start`, or at the edge that it lies beyond.
pub open spec fn shows(point: ChartPoint, seen: UsagePoint, start: int, end: int) -> bool {
    &&& point.used_percent == seen.used_percent
    &&& start <= seen.at <= end ==> point.position == seen.at - start
    &&& seen.at < start ==> point.position == 0
    &&& seen.at > end ==> point.position == end - start
}

/// The observations stand in the order of their times.
pub open spec fn in_time_order(points: Seq<UsagePoint>) -> bool {
    forall|i: int, j: int| 0 <= i <= j < points.len() ==> #[trigger] points[i].at
        <= #[trigger] points[j].at
}

/// The b-th observation is where a chart from `start` begins: the last one up to
/// there, or the very first one where all are later.
pub open spec fn is_base(points: Seq<UsagePoint>, start: int, b: int) -> bool {
    &&& 0 <= b < points.len()
    &&& if points[0].at <= start {
        points[b].at <= start && (b + 1 < points.len() ==> points[b + 1].at > start)
    } else {
        b == 0 && (points.len() > 1 ==> points[1].at > points[0].at)
    }
}

/// The n-th observation is the last one up to `now`.
pub open spec fn is_newest(points: Seq<UsagePoint>, now: int, n: int) -> bool {
    &&& 0 <= n < points.len()
    &&& points[n].at <= now
    &&& n + 1 < points.len() ==> points[n + 1].at > now
}

proof fn lemma_seen_since(points: Seq<UsagePoint>, start: int, now: int, b: int, n: int)
    requires
        in_time_order(points),
        start <= now,
        is_base(points, start, b),
        is_newest(points, now, n),
    ensures
        b <= n,
        baseline(points, start, now) == Some(points[b]),
        find_last(points, |point: UsagePoint| point.at <= now) == Some(points[n]),
        since_baseline(points, points[b], now) == points.subrange(b, n + 1),
{
    let early = |point: UsagePoint| point.at <= start;
    let seen = |point: UsagePoint| point.at <= now;
    let wanted = |point: UsagePoint| points[b].at < point.at && point.at <= now;
    if n < b {
        assert(points[n + 1].at <= points[b].at);
        assert(points[0].at <= points[n].at);
    }
    assert forall|j: int| n < j < points.len() implies !seen(#[trigger] points[j]) by {
        assert(points[n + 1].at <= points[j].at);
    }
    lemma_find_last_at(points, seen, n);
    if points[0].at <= start {
        assert forall|j: int| 0 <= j < b + 1 implies early(#[trigger] points[j]) by {
            assert(points[j].at <= points[b].at);
        }
        lemma_count_leading(points, early, b + 1);
    } else {
        lemma_count_leading(points, early, 0);
        assert(points[0].at <= points[n].at);
        lemma_find_first_at(points, seen, 0);
    }
    assert forall|i: int| 0 <= i < points.len() implies (wanted(#[trigger] points[i]) <==> b + 1
        <= i < n + 1) by {
        if i <= b {
            assert(points[i].at <= points[b].at);
        } else {
            assert(points[b + 1].at <= points[i].at);
            assert(points[b].at < points[b + 1].at);
        }
        if i > n {
            assert(points[n + 1].at <= points[i].at);
        } else {
            assert(points[i].at <= points[n].at);
        }
    }
    lemma_filter_is_a_run(points, wanted, b + 1, n + 1);
    assert(seq![points[b]] + points.subrange(b + 1, n + 1) =~= points.subrange(b, n + 1));
}

/// Usage between `start` and `end` is what was added since the last observation up
/// to `start`, or since the first one where all are later. The chart shows that
/// observation and every one after it up to `now`, and goes on at the pace since
/// `start`.
pub proof fn law_usage_counts_from_the_baseline(
    points: Seq<UsagePoint>,
    start: int,
    now: int,
    end: int,
    b: int,
    n: int,
)
    requires
        in_time_order(points),
        start <= now,
        start < end,
        i64::MIN - 18_000 <= start,
        end <= i64::MAX,
        is_base(points, start, b),
        is_newest(points, now, n),
    ensures
        points[n].at < start <==> usage_chart(points, start, now, end) is None,
        usage_chart(points, start, now, end) matches Some(chart) ==> {
            let base = points[b].used_percent as int;
            let latest = points[n].used_percent as int;
            let used = chart.used_percent;
            &&& chart.span == end - start
            &&& latest >= base ==> used == latest - base
            &&& latest < base ==> used == 0
            &&& chart.points.len() == n - b + 1
            &&& forall|k: int|
                0 <= k <= n - b ==> shows(#[trigger] chart.points[k], points[b + k], start, end)
            &&& points[n].at == start ==> chart.projected_used is None
            &&& points[n].at > start ==> chart.projected_used == Some(
                base + used * (end - start) / (points[n].at - start),
            )
        },
{
    lemma_seen_since(points, start, now, b, n);
    let seen = points.subrange(b, n + 1);
    assert(seen.last() == points[n]);
    assert forall|k: int| 0 <= k <= n - b implies shows(
        #[trigger] placed_all(seen, start, end - start)[k],
        points[b + k],
        start,
        end,
    ) by {
        assert(seen[k] == points[b + k]);
    }
}

/// There is no chart of a span that is empty, nor of one without an observation.
pub proof fn law_nothing_seen_is_not_charted(
    points: Seq<UsagePoint>,
    start: int,
    now: int,
    end: int,
)
    requires
        end <= start || forall|i: int| 0 <= i < points.len() ==> (#[trigger] points[i]).at > now,
    ensures
        usage_chart(points, start, now, end) is None,
{
    if end > start {
        lemma_find_last_none(points, |point: UsagePoint| point.at <= now);
    }
}

/// A moment on a chart of a window: its distance from the beginning of the window,
/// or the edge that it lies beyond.
pub open spec fn is_marked_at(mark: int, at: int, start: int, end: int) -> bool {
    &&& start <= at <= end ==> mark == at - start
    &&& at < start ==> mark == 0
    &&& at > end ==> mark == end - start
}

/// The i-th observation is the first one behind which usage rises, or the last one
/// where it never does.
pub open spec fn is_first_rise(points: Seq<UsagePoint>, i: int) -> bool {
    &&& 0 <= i < points.len()
    &&& forall|j: int|
        0 <= j < i ==> (#[trigger] points[j]).used_percent >= points[j + 1].used_percent
    &&& i + 1 < points.len() ==> points[i + 1].used_percent > points[i].used_percent
}

/// A burndown goes on as usage went from the first rise to the last observation:
/// what will be used at the reset, and the moment at which everything is. Where
/// everything was used already, the first such observation marks that moment.
pub proof fn law_burndown_goes_on_since_the_first_rise(
    window: LimitWindow,
    points: Seq<UsagePoint>,
    length: i64,
    reset: i64,
    i: int,
)
    requires
        window.window_duration_mins == Some(length),
        window.resets_at == Some(reset),
        length > 0,
        is_first_rise(points, i),
    ensures
        burndown_chart(window, points) is Some,
        ({
            let chart = burndown_chart(window, points)->0;
            let start = reset - length * 60;
            let last = points[points.len() - 1];
            let seconds = last.at - points[i].at;
            let usage = last.used_percent - points[i].used_percent;
            let ahead = if reset > last.at { reset - last.at } else { 0 };
            &&& chart.start == start
            &&& chart.end == reset
            &&& chart.span == length * 60
            &&& chart.points.len() == points.len() - i
            &&& forall|k: int|
                0 <= k < points.len() - i ==> shows(
                    #[trigger] chart.points[k],
                    points[i + k],
                    start,
                    reset as int,
                )
            &&& seconds > 0 && usage > 0 ==> chart.projected_used == last.used_percent + usage
                * ahead / seconds
            &&& seconds <= 0 || usage <= 0 ==> chart.projected_used == last.used_percent
            &&& (forall|j: int|
                0 <= j < points.len() ==> (#[trigger] points[j]).used_percent < 100) ==> {
                &&& seconds > 0 && usage > 0 ==> is_marked_at(
                    chart.projection,
                    last.at + (100 - last.used_percent) * seconds / usage,
                    start,
                    reset as int,
                )
                &&& seconds <= 0 || usage <= 0 ==> chart.projection == length * 60
            }
            &&& forall|j: int|
                0 <= j < points.len() && (#[trigger] points[j]).used_percent >= 100 && (forall|
                    k: int,
                |
                    0 <= k < j ==> (#[trigger] points[k]).used_percent < 100) ==> is_marked_at(
                    chart.projection,
                    points[j].at as int,
                    start,
                    reset as int,
                )
        }),
{
    lemma_active_from(points, i);
    let start = reset - length * 60;
    let chart = burndown_chart(window, points)->0;
    let empty = |point: UsagePoint| point.used_percent >= 100;
    assert forall|k: int| 0 <= k < points.len() - i implies shows(
        #[trigger] chart.points[k],
        points[i + k],
        start,
        reset as int,
    ) by {
        assert(points.skip(i)[k] == points[i + k]);
    }
    if forall|j: int| 0 <= j < points.len() ==> (#[trigger] points[j]).used_percent < 100 {
        lemma_find_first_none(points, empty);
        assert(points[points.len() - 1].used_percent < 100);
    }
    assert forall|j: int|
        0 <= j < points.len() && (#[trigger] points[j]).used_percent >= 100 && (forall|k: int|
            0 <= k < j ==> (#[trigger] points[k]).used_percent < 100) implies is_marked_at(
        chart.projection,
        points[j].at as int,
        start,
        reset as int,
    ) by {
        lemma_find_first_at(points, empty, j);
    }
}

/// Only a window of known length and reset with any observations has a burndown.
pub proof fn law_burndowns_need_a_window(window: LimitWindow, points: Seq<UsagePoint>)
    ensures
        burndown_chart(window, points) is Some <==> points.len() > 0 && window.resets_at is Some
            && window.window_duration_mins is Some && window.window_duration_mins->0 > 0,
{
}

/// A quotient that is rounded is the nearest whole number, and a half goes away
/// from zero.
pub proof fn law_rounding_is_to_the_nearest(n: int, d: int)
    requires
        d > 0,
    ensures
        -d <= 2 * (nearest(n, d) * d - n) <= d,
        n >= 0 ==> 2 * (nearest(n, d) * d - n) > -d && nearest(n, d) >= 0,
        n < 0 ==> 2 * (nearest(n, d) * d - n) < d && nearest(n, d) <= 0,
{
    let top = if n >= 0 {
        2 * n + d
    } else {
        2 * (-n) + d
    };
    let q = top / (2 * d);
    assert(top == (2 * d) * q + top % (2 * d)) by {
        vstd::arithmetic::div_mod::lemma_fundamental_div_mod(top, 2 * d);
    }
    assert(0 <= top % (2 * d) < 2 * d) by {
        vstd::arithmetic::div_mod::lemma_mod_bound(top, 2 * d);
    }
    assert((2 * d) * q == 2 * (q * d)) by (nonlinear_arith);
    assert((-q) * d == -(q * d)) by (nonlinear_arith);
    assert(q >= 0) by (nonlinear_arith)
        requires
            q == top / (2 * d),
            top >= 0,
            d > 0,
    ;
}

/// What is left is compared with the share of the window that lies ahead, to the
/// nearest percent and within its bounds; a limit of which nothing is left is empty.
pub proof fn law_pace_compares_what_is_left(
    window: LimitWindow,
    length: i64,
    reset: i64,
    now: int,
    left: int,
)
    requires
        window.window_duration_mins == Some(length),
        window.resets_at == Some(reset),
        length > 0,
        0 <= left <= 100,
        window.used_percent <= 0 ==> left == 100,
        0 <= window.used_percent <= 100 ==> left == 100 - window.used_percent,
        window.used_percent >= 100 ==> left == 0,
    ensures
        comparison(window, now) matches Some((word, delta)) && {
            let expected = left - delta;
            &&& 0 <= expected <= 100
            &&& reset <= now ==> expected == 0
            &&& reset - now >= length * 60 ==> expected == 100
            &&& 0 <= reset - now <= length * 60 ==> -(length * 60) < 2 * (expected * (length * 60)
                - (reset - now) * 100) <= length * 60
            &&& left == 0 <==> word == "EMPTY"@
            &&& left > 0 && delta < 0 <==> word == "DEFICIT"@
            &&& left > 0 && delta >= 0 <==> word == "SURPLUS"@
        },
{
    reveal_strlit("EMPTY");
    reveal_strlit("DEFICIT");
    reveal_strlit("SURPLUS");
    assert("EMPTY"@.len() != "DEFICIT"@.len());
    assert("EMPTY"@.len() != "SURPLUS"@.len());
    assert("DEFICIT"@[0] != "SURPLUS"@[0]);
    let n = (reset - now) * 100;
    let d = length * 60;
    law_rounding_is_to_the_nearest(n, d);
    let r = nearest(n, d);
    if reset <= now {
        assert(r <= 0) by (nonlinear_arith)
            requires
                n <= 0,
                d > 0,
                2 * (r * d - n) <= d,
        ;
    }
    if reset - now >= d {
        assert(r >= 100) by (nonlinear_arith)
            requires
                n >= d * 100,
                d > 0,
                2 * (r * d - n) > -d,
        ;
    }
    if 0 <= reset - now <= d {
        assert(r <= 100) by (nonlinear_arith)
            requires
                n <= d * 100,
                d > 0,
                2 * (r * d - n) <= d,
        ;
    }
}

/// A window without a length or a reset, or of no length, is not compared.
pub proof fn law_pace_needs_a_window(window: LimitWindow, now: int)
    ensures
        comparison(window, now) is Some <==> window.resets_at is Some
            && window.window_duration_mins is Some && window.window_duration_mins->0 > 0,
{
}

/// The usage of a day is compared with a seventh of the weekly limit for each day,
/// spread evenly, to the nearest percent; using more is a deficit.
pub proof fn law_daily_pace_is_a_seventh(used: int, now: int, day: DayBounds)
    requires
        day.start < day.end,
    ensures
        daily_comparison(used, now, None) is None,
        daily_comparison(used, now, Some(day)) matches Some((word, delta)) && {
            let whole = 7 * (day.end - day.start);
            let part = (now - day.start) * 100 - used * whole;
            &&& i32::MIN < delta < i32::MAX ==> -whole <= 2 * (delta * whole - part) <= whole
            &&& part >= 0 ==> delta >= 0
            &&& delta < 0 <==> word == "DEFICIT"@
            &&& delta >= 0 <==> word == "SURPLUS"@
        },
{
    reveal_strlit("DEFICIT");
    reveal_strlit("SURPLUS");
    assert("DEFICIT"@[0] != "SURPLUS"@[0]);
    let whole = 7 * (day.end - day.start);
    law_rounding_is_to_the_nearest((now - day.start) * 100 - used * whole, whole);
}

/// The day's quota lines stand where the day begins and ends within the window.
pub proof fn law_quota_lines_mark_the_day(
    window: LimitWindow,
    length: i64,
    reset: i64,
    day: DayBounds,
)
    requires
        window.window_duration_mins == Some(length),
        window.resets_at == Some(reset),
        length > 0,
    ensures
        quota_shares(window, None) is None,
        quota_shares(window, Some(day)) matches Some((first, second)) && {
            let start = reset - length * 60;
            &&& first.whole == length * 60
            &&& second.whole == length * 60
            &&& is_marked_at(first.part as int, day.start as int, start, reset as int)
            &&& is_marked_at(second.part as int, day.end as int, start, reset as int)
        },
{
}

/// The moment five hours ago is marked where it falls into the day.
pub proof fn law_five_hours_ago_is_marked(now: int, day: DayBounds)
    requires
        i64::MIN <= now <= i64::MAX,
    ensures
        five_hours_share(now, None) is None,
        five_hours_share(now, Some(day)) is Some <==> now >= day.start + 18_000,
        five_hours_share(now, Some(day)) matches Some(share) ==> day.start + share.part + 18_000
            == now && share.whole == day.end - day.start,
{
}

/// Work begins or ends at a moment on the d-th day; the first one where the clock
/// shows that hour twice.
pub open spec fn is_work_at(days: WorkDays, d: int, edge: WorkEdge, at: int) -> bool {
    let instant = match edge {
        WorkEdge::Start => days.instants@[d].0,
        WorkEdge::End => days.instants@[d].1,
    };
    &&& 0 <= d < days.instants@.len()
    &&& match instant {
        LocalInstant::Single(only) => at == only,
        LocalInstant::Ambiguous(first, _) => at == first,
        LocalInstant::Missing => false,
    }
}

/// An edge of the d-th day is marked on a chart: every one, or on a chart of a week
/// Monday morning and Friday evening.
pub open spec fn is_work_marked(days: WorkDays, d: int, edge: WorkEdge, weekly: bool) -> bool {
    &&& weekly && edge is Start ==> (days.day + d - 1) % 7 == 0
    &&& weekly && edge is End ==> (days.day + d - 1) % 7 == 4
}

/// A mark stands for an edge of one of the first `n` days, within the chart.
pub open spec fn is_work_mark(
    line: WorkLine,
    days: WorkDays,
    n: int,
    start: int,
    end: int,
    weekly: bool,
) -> bool {
    &&& line.at.whole == end - start
    &&& 0 <= line.at.part <= end - start
    &&& exists|d: int|
        0 <= d < n && #[trigger] is_work_at(days, d, line.edge, start + line.at.part)
            && is_work_marked(days, d, line.edge, weekly)
}

proof fn lemma_marks(days: WorkDays, n: nat, start: int, end: int, weekly: bool)
    requires
        i64::MIN <= start <= i64::MAX,
        i64::MIN <= end <= i64::MAX,
    ensures
        forall|i: int|
            0 <= i < days.marks(n, start, end, weekly).len() ==> is_work_mark(
                #[trigger] days.marks(n, start, end, weekly)[i],
                days,
                n as int,
                start,
                end,
                weekly,
            ),
        forall|d: int, edge: WorkEdge, at: int|
            0 <= d < n && #[trigger] is_work_at(days, d, edge, at) && is_work_marked(
                days,
                d,
                edge,
                weekly,
            ) && start <= at <= end ==> days.marks(n, start, end, weekly).contains(
                WorkLine {
                    at: Share { part: (at - start) as i128, whole: (end - start) as i128 },
                    edge,
                },
            ),
    decreases n,
{
    if n > 0 {
        let d = n - 1;
        let before = days.marks((n - 1) as nat, start, end, weekly);
        let first = days.mark(d, WorkEdge::Start, start, end, weekly);
        let second = days.mark(d, WorkEdge::End, start, end, weekly);
        let all = days.marks(n, start, end, weekly);
        lemma_marks(days, (n - 1) as nat, start, end, weekly);
        assert(all == before + first + second);
        assert forall|i: int| 0 <= i < all.len() implies is_work_mark(
            #[trigger] all[i],
            days,
            n as int,
            start,
            end,
            weekly,
        ) by {
            if i < before.len() {
                assert(all[i] == before[i]);
                let e = choose|e: int|
                    0 <= e < n - 1 && #[trigger] is_work_at(
                        days,
                        e,
                        all[i].edge,
                        start + all[i].at.part,
                    ) && is_work_marked(days, e, all[i].edge, weekly);
                assert(0 <= e < n && is_work_at(days, e, all[i].edge, start + all[i].at.part));
            } else if i < before.len() + first.len() {
                assert(all[i] == first[0]);
                assert(is_work_at(days, d, WorkEdge::Start, start + all[i].at.part));
            } else {
                assert(all[i] == second[0]);
                assert(is_work_at(days, d, WorkEdge::End, start + all[i].at.part));
            }
        }
        assert forall|e: int, edge: WorkEdge, at: int|
            0 <= e < n && #[trigger] is_work_at(days, e, edge, at) && is_work_marked(
                days,
                e,
                edge,
                weekly,
            ) && start <= at <= end implies all.contains(
            WorkLine {
                at: Share { part: (at - start) as i128, whole: (end - start) as i128 },
                edge,
            },
        ) by {
            let line = WorkLine {
                at: Share { part: (at - start) as i128, whole: (end - start) as i128 },
                edge,
            };
            if e < n - 1 {
                let k = choose|k: int| 0 <= k < before.len() && before[k] == line;
                assert(all[k] == line);
            } else if edge is Start {
                assert(first =~= seq![line]);
                assert(all[before.len() as int] == line);
            } else {
                assert(second =~= seq![line]);
                assert(all[(before.len() + first.len()) as int] == line);
            }
        }
    }
}

/// Exactly the hours at which work begins and ends within the chart are marked, on
/// the eight days from its first one; on a chart of a week only the two at which
/// the working week begins and ends.
pub proof fn law_work_is_marked(
    days: WorkDays,
    start: int,
    end: int,
    weekly: bool,
    d: int,
    edge: WorkEdge,
    at: int,
    i: int,
)
    requires
        i64::MIN <= start <= i64::MAX,
        i64::MIN <= end <= i64::MAX,
    ensures
        0 <= i < days.marks(8, start, end, weekly).len() ==> is_work_mark(
            days.marks(8, start, end, weekly)[i],
            days,
            8,
            start,
            end,
            weekly,
        ),
        0 <= d < 8 && is_work_at(days, d, edge, at) && is_work_marked(days, d, edge, weekly)
            && start <= at <= end ==> days.marks(8, start, end, weekly).contains(
            WorkLine {
                at: Share { part: (at - start) as i128, whole: (end - start) as i128 },
                edge,
            },
        ),
{
    lemma_marks(days, 8, start, end, weekly);
}

/// The b-th observation is where a chart from `start` begins, in whatever order the
/// observations stand: the last of the leading ones up to there, or the first one up
/// to `now` where the very first is later.
pub open spec fn begins_with(points: Seq<UsagePoint>, start: int, now: int, b: int) -> bool {
    &&& 0 <= b < points.len()
    &&& if points[0].at <= start {
        &&& forall|j: int| 0 <= j <= b ==> (#[trigger] points[j]).at <= start
        &&& b + 1 < points.len() ==> points[b + 1].at > start
    } else {
        &&& forall|j: int| 0 <= j < b ==> (#[trigger] points[j]).at > now
        &&& points[b].at <= now
    }
}

/// The w-th observation is the last to be counted on a chart that begins with the
/// b-th: the last one that is later than it and not later than `now`, or itself.
pub open spec fn ends_with(points: Seq<UsagePoint>, now: int, b: int, w: int) -> bool {
    &&& 0 <= w < points.len()
    &&& w == b || points[b].at < points[w].at <= now
    &&& forall|j: int|
        0 <= j < points.len() && points[b].at < (#[trigger] points[j]).at <= now ==> w != b && j
            <= w
}

/// In whatever order observations stand, usage is what was added between the one that
/// a chart begins with and the last one that is counted, the chart shows those two at
/// its ends and between them nothing else than observations of that time, and it
/// goes on at the pace since `start`.
pub proof fn law_usage_is_counted_in_any_order(
    points: Seq<UsagePoint>,
    start: int,
    now: int,
    end: int,
    b: int,
    n: int,
    w: int,
)
    requires
        start < end,
        i64::MIN - 18_000 <= start,
        end <= i64::MAX,
        begins_with(points, start, now, b),
        0 <= n < points.len(),
        points[n].at <= now,
        forall|j: int| n < j < points.len() ==> (#[trigger] points[j]).at > now,
        ends_with(points, now, b, w),
    ensures
        points[n].at < start <==> usage_chart(points, start, now, end) is None,
        usage_chart(points, start, now, end) matches Some(chart) ==> {
            let base = points[b].used_percent as int;
            let latest = points[w].used_percent as int;
            let used = chart.used_percent;
            let last = chart.points.len() - 1;
            &&& chart.span == end - start
            &&& latest >= base ==> used == latest - base
            &&& latest < base ==> used == 0
            &&& last >= 0
            &&& shows(chart.points[0], points[b], start, end)
            &&& shows(chart.points[last], points[w], start, end)
            &&& w == b ==> last == 0
            &&& points[w].at <= start ==> chart.projected_used is None
            &&& points[w].at > start ==> chart.projected_used == Some(
                base + used * (end - start) / (points[w].at - start),
            )
        },
{
    let early = |point: UsagePoint| point.at <= start;
    let seen = |point: UsagePoint| point.at <= now;
    let wanted = |point: UsagePoint| points[b].at < point.at && point.at <= now;
    lemma_find_last_at(points, seen, n);
    if points[0].at <= start {
        lemma_count_leading(points, early, b + 1);
    } else {
        lemma_count_leading(points, early, 0);
        lemma_find_first_at(points, seen, b);
    }
    assert(baseline(points, start, now) == Some(points[b]));
    let all = since_baseline(points, points[b], now);
    if w == b {
        lemma_filter_nothing(points, wanted);
        assert(all =~= seq![points[b]]);
    } else {
        lemma_filter_last(points, wanted, w);
        assert(all.last() == points.filter(wanted).last());
    }
    assert(all[0] == points[b]);
    assert(all.last() == points[w]);
}

/// A share keeps its ratio where it lies between nothing and the whole, whichever
/// sign both have, and is moved to the nearer end where it does not.
pub proof fn law_shares_are_bounded(part: int, whole: int)
    requires
        -0x1_0000_0000_0000_0000_0000 <= part <= 0x1_0000_0000_0000_0000_0000,
        -0x1_0000_0000_0000_0000_0000 <= whole <= 0x1_0000_0000_0000_0000_0000,
    ensures
        bounded_share(-part, -whole) == bounded_share(part, whole) || whole == 0,
        whole > 0 ==> {
            let share = bounded_share(part, whole);
            &&& share.whole == whole
            &&& 0 <= part <= whole ==> share.part == part
            &&& part < 0 ==> share.part == 0
            &&& part > whole ==> share.part == whole
        },
        whole == 0 ==> {
            let share = bounded_share(part, whole);
            &&& part > 0 ==> share.part == share.whole && share.whole > 0
            &&& part < 0 ==> share.part == 0 && share.whole > 0
            &&& part == 0 ==> share.part == 0 && share.whole == 0
        },
{
}

} // verus!
