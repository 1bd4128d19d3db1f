//! What was used of a window, over time.

use vstd::prelude::*;

use crate::text::{
    decimal, decimal_text, join4, law_decimal_is_injective, law_decimal_round_trip,
    lemma_prefix_of_concat, opt_text, copy_text, parse_integer, parsed_integer, starts_with_seq,
    strip_prefix_text,
};
use crate::window::{
    lemma_decimal_shape, percent, window_key, LimitWindow, UsageWindows, RESET_FRESH_TOLERANCE_SECS,
};

verus! {

/// How much of a limit was used at some moment.
#[derive(Clone, Copy, Debug, PartialEq, Eq, Structural)]
pub struct UsagePoint {
    pub at: i64,
    pub used_percent: i32,
}

/// The observations of one window.
#[derive(Debug, PartialEq)]
pub struct WindowHistory {
    pub window_key: Option<String>,
    pub points: Vec<UsagePoint>,
    pub show_workweek_lines: bool,
}

/// The contents of a [`WindowHistory`].
#[verifier::ext_equal]
pub struct HistoryModel {
    pub window_key: Option<Seq<char>>,
    pub points: Seq<UsagePoint>,
    pub show_workweek_lines: bool,
}

impl View for WindowHistory {
    type V = HistoryModel;

    open spec fn view(&self) -> HistoryModel {
        HistoryModel {
            window_key: opt_text(self.window_key),
            points: self.points@,
            show_workweek_lines: self.show_workweek_lines,
        }
    }
}

/// What the keys of all windows of one kind and length begin with.
pub open spec fn key_prefix(kind: Seq<char>, duration: int) -> Seq<char> {
    kind + ":"@ + decimal(duration) + ":"@
}

/// The window with that key has the same kind and length, and nearly the same reset.
pub open spec fn same_window(
    previous: Option<Seq<char>>,
    kind: Seq<char>,
    duration: int,
    reset: int,
) -> bool {
    let prefix = key_prefix(kind, duration);
    &&& previous matches Some(key)
    &&& starts_with_seq(key, prefix)
    &&& parsed_integer(key.skip(prefix.len() as int)) matches Some(previous_reset)
    &&& -RESET_FRESH_TOLERANCE_SECS <= previous_reset - reset <= RESET_FRESH_TOLERANCE_SECS
}

/// `points` with `point` at the end, unless it is there already.
pub open spec fn with_point(points: Seq<UsagePoint>, point: UsagePoint) -> Seq<UsagePoint> {
    if points.len() > 0 && points.last() == point {
        points
    } else {
        points.push(point)
    }
}

impl HistoryModel {
    pub open spec fn empty() -> HistoryModel {
        HistoryModel { window_key: None, points: Seq::empty(), show_workweek_lines: false }
    }

    /// The history after an observation of `window` at `now`. An observation
    /// of another window drops what was seen of the one before.
    pub open spec fn recorded(
        self,
        window: Option<LimitWindow>,
        kind: Seq<char>,
        now: i64,
    ) -> HistoryModel {
        match window {
            Some(window) => match (window.window_duration_mins, window.resets_at) {
                (Some(duration), Some(reset)) => {
                    let same = same_window(self.window_key, kind, duration as int, reset as int);
                    let point = UsagePoint {
                        at: now,
                        used_percent: percent(window.used_percent as int) as i32,
                    };
                    HistoryModel {
                        window_key: if same {
                            self.window_key
                        } else {
                            Some(window_key(kind, duration as int, reset as int))
                        },
                        points: with_point(
                            if same {
                                self.points
                            } else {
                                Seq::empty()
                            },
                            point,
                        ),
                        ..self
                    }
                },
                _ => self,
            },
            None => self,
        }
    }

    /// Every observation is a percentage.
    pub open spec fn in_percent(self) -> bool {
        forall|i: int|
            0 <= i < self.points.len() ==> 0 <= #[trigger] self.points[i].used_percent <= 100
    }

    /// The observations stand in the order of their times.
    pub open spec fn in_order(self) -> bool {
        forall|i: int, j: int|
            0 <= i <= j < self.points.len() ==> #[trigger] self.points[i].at
                <= #[trigger] self.points[j].at
    }

    /// No observation was made after `now`.
    pub open spec fn until(self, now: int) -> bool {
        forall|i: int| 0 <= i < self.points.len() ==> #[trigger] self.points[i].at <= now
    }
}

/// A copy of a list of observations.
pub fn copy_points(points: &Vec<UsagePoint>) -> (copy: Vec<UsagePoint>)
    ensures
        copy@ == points@,
{
    let mut copy: Vec<UsagePoint> = Vec::new();
    let mut i: usize = 0;
    while i < points.len()
        invariant
            i <= points.len(),
            copy@ == points@.take(i as int),
        decreases points.len() - i,
    {
        copy.push(points[i]);
        i = i + 1;
    }
    assert(points@.take(points@.len() as int) =~= points@);
    copy
}

impl Clone for WindowHistory {
    fn clone(&self) -> (copy: Self)
        ensures
            copy@ == self@,
    {
        WindowHistory {
            window_key: copy_text(&self.window_key),
            points: copy_points(&self.points),
            show_workweek_lines: self.show_workweek_lines,
        }
    }
}

impl Default for WindowHistory {
    fn default() -> (history: Self)
        ensures
            history@ == HistoryModel::empty(),
    {
        WindowHistory { window_key: None, points: Vec::new(), show_workweek_lines: false }
    }
}

fn is_same_window(previous: &Option<String>, kind: &str, duration: i64, reset: i64) -> (same: bool)
    ensures
        same == same_window(opt_text(*previous), kind@, duration as int, reset as int),
{
    match previous {
        Some(key) => {
            let duration_text = decimal_text(duration);
            let prefix = join4(kind, ":", duration_text.as_str(), ":");
            match strip_prefix_text(key.as_str(), prefix.as_str()) {
                Some(rest) => match parse_integer(rest.as_str()) {
                    Some(previous_reset) => {
                        let difference: i128 = previous_reset as i128 - reset as i128;
                        let tolerance: i128 = RESET_FRESH_TOLERANCE_SECS as i128;
                        -tolerance <= difference && difference <= tolerance
                    },
                    None => false,
                },
                None => false,
            }
        },
        None => false,
    }
}

impl WindowHistory {
    /// Notes how much of `window` is used at `now`.
    pub fn record(&mut self, window: Option<LimitWindow>, kind: &str, now: i64)
        ensures
            final(self)@ == old(self)@.recorded(window, kind@, now),
    {
        let window: LimitWindow = match window {
            Some(window) => window,
            None => {
                return ;
            },
        };
        let (duration, reset) = match (window.window_duration_mins, window.resets_at) {
            (Some(duration), Some(reset)) => (duration, reset),
            _ => {
                return ;
            },
        };
        if !is_same_window(&self.window_key, kind, duration, reset) {
            self.window_key = window.key(kind);
            self.points = Vec::new();
        }
        let used: i32 = if window.used_percent < 0 {
            0
        } else if window.used_percent > 100 {
            100
        } else {
            window.used_percent
        };
        let point = UsagePoint { at: now, used_percent: used };
        let count: usize = self.points.len();
        if count == 0 || self.points[count - 1] != point {
            self.points.push(point);
        }
    }
}

/// The histories of an account's two windows.
#[derive(Debug)]
pub struct UsageHistory {
    pub session: WindowHistory,
    pub weekly: WindowHistory,
}

/// The contents of a [`UsageHistory`].
#[verifier::ext_equal]
pub struct UsageModel {
    pub session: HistoryModel,
    pub weekly: HistoryModel,
}

impl View for UsageHistory {
    type V = UsageModel;

    open spec fn view(&self) -> UsageModel {
        UsageModel { session: self.session@, weekly: self.weekly@ }
    }
}

impl Clone for UsageHistory {
    fn clone(&self) -> (copy: Self)
        ensures
            copy@ == self@,
    {
        UsageHistory { session: self.session.clone(), weekly: self.weekly.clone() }
    }
}

impl Default for UsageHistory {
    fn default() -> (history: Self)
        ensures
            history@ == UsageModel::empty(),
    {
        UsageHistory { session: WindowHistory::default(), weekly: WindowHistory::default() }
    }
}

impl UsageModel {
    pub open spec fn empty() -> UsageModel {
        UsageModel { session: HistoryModel::empty(), weekly: HistoryModel::empty() }
    }

    /// Both histories after an observation of both windows.
    pub open spec fn recorded(self, windows: UsageWindows, now: i64) -> UsageModel {
        UsageModel {
            session: self.session.recorded(windows.session, "session"@, now),
            weekly: self.weekly.recorded(windows.weekly, "weekly"@, now),
        }
    }
}

/// A window's own key is that of the same window exactly as long as the reset
/// moves by no more than the tolerance.
pub proof fn law_jitter_keeps_the_window(kind: Seq<char>, duration: i64, reset: i64, later: i64)
    ensures
        same_window(
            Some(window_key(kind, duration as int, reset as int)),
            kind,
            duration as int,
            later as int,
        ) <==> -RESET_FRESH_TOLERANCE_SECS <= reset - later <= RESET_FRESH_TOLERANCE_SECS,
{
    let prefix = key_prefix(kind, duration as int);
    lemma_prefix_of_concat(prefix, decimal(reset as int));
    law_decimal_round_trip(reset);
}

/// A first observation, and one of a window whose reset moved further than the
/// tolerance, leave nothing but themselves.
pub proof fn law_new_window_starts_over(
    history: HistoryModel,
    first: LimitWindow,
    second: LimitWindow,
    kind: Seq<char>,
    now: i64,
    later: i64,
)
    requires
        first.window_duration_mins is Some,
        first.resets_at is Some,
        second.window_duration_mins == first.window_duration_mins,
        second.resets_at is Some,
        !same_window(
            history.window_key,
            kind,
            first.window_duration_mins->0 as int,
            first.resets_at->0 as int,
        ),
    ensures
        history.recorded(Some(first), kind, now).points.len() == 1,
        ({
            let both = history.recorded(Some(first), kind, now).recorded(
                Some(second),
                kind,
                later,
            );
            let jitter = first.resets_at->0 - second.resets_at->0;
            if -RESET_FRESH_TOLERANCE_SECS <= jitter <= RESET_FRESH_TOLERANCE_SECS {
                &&& both.points[0] == history.recorded(Some(first), kind, now).points[0]
                &&& both.window_key == first.spec_key(kind)
            } else {
                &&& both.points.len() == 1
                &&& both.window_key == second.spec_key(kind)
            }
        }),
{
    law_jitter_keeps_the_window(
        kind,
        first.window_duration_mins->0,
        first.resets_at->0,
        second.resets_at->0,
    );
}

/// Observations stay percentages, and stay in order as long as time goes forward.
pub proof fn law_record_keeps_the_history_sound(
    history: HistoryModel,
    window: Option<LimitWindow>,
    kind: Seq<char>,
    now: i64,
)
    ensures
        history.in_percent() ==> history.recorded(window, kind, now).in_percent(),
        history.in_order() && history.until(now as int) ==> history.recorded(
            window,
            kind,
            now,
        ).in_order(),
        history.until(now as int) ==> history.recorded(window, kind, now).until(now as int),
        history.recorded(window, kind, now).show_workweek_lines == history.show_workweek_lines,
{
}

/// Recording the same observation twice is recording it once.
pub proof fn law_record_is_idempotent(
    history: HistoryModel,
    window: LimitWindow,
    kind: Seq<char>,
    now: i64,
)
    ensures
        history.recorded(Some(window), kind, now).recorded(Some(window), kind, now)
            == history.recorded(Some(window), kind, now),
{
    if window.window_duration_mins is Some && window.resets_at is Some {
        law_jitter_keeps_the_window(
            kind,
            window.window_duration_mins->0,
            window.resets_at->0,
            window.resets_at->0,
        );
    }
}

proof fn lemma_other_lengths_differ(
    kind: Seq<char>,
    duration: i64,
    reset: i64,
    other: i64,
    other_reset: int,
)
    requires
        duration != other,
    ensures
        !same_window(
            Some(kind + ":"@ + decimal(duration as int) + ":"@ + decimal(reset as int)),
            kind,
            other as int,
            other_reset,
        ),
{
    reveal_strlit(":");
    let key = kind + ":"@ + decimal(duration as int) + ":"@ + decimal(reset as int);
    let prefix = key_prefix(kind, other as int);
    if starts_with_seq(key, prefix) {
        let d1 = decimal(duration as int);
        let d2 = decimal(other as int);
        let from = kind.len() as int + 1;
        lemma_decimal_shape(duration as int);
        lemma_decimal_shape(other as int);
        let head = key.subrange(0, prefix.len() as int);
        assert(head == prefix);
        assert(prefix[from + d2.len()] == ':');
        assert(head[from + d2.len()] == key[from + d2.len()]);
        assert(key[from + d1.len()] == ':');
        if d1.len() < d2.len() {
            assert(head[from + d1.len()] == key[from + d1.len()]);
            assert(prefix[from + d1.len()] == d2[d1.len() as int]);
        }
        if d2.len() < d1.len() {
            assert(key[from + d2.len()] == d1[d2.len() as int]);
        }
        assert forall|i: int| 0 <= i < d1.len() implies d1[i] == d2[i] by {
            assert(key[from + i] == d1[i]);
            assert(head[from + i] == key[from + i]);
            assert(prefix[from + i] == d2[i]);
        }
        assert(d1 =~= d2);
        law_decimal_is_injective(duration, other);
    }
}

/// An observation is the share that is used, within the bounds of a percentage, at
/// its moment.
pub open spec fn is_observation(point: UsagePoint, window: LimitWindow, now: i64) -> bool {
    &&& point.at == now
    &&& 0 <= window.used_percent <= 100 ==> point.used_percent == window.used_percent
    &&& window.used_percent < 0 ==> point.used_percent == 0
    &&& window.used_percent > 100 ==> point.used_percent == 100
}

/// A history is one window's: an observation of a window of the same length whose
/// reset lies within five minutes of the known one is added behind the others,
/// unless it repeats the last one, and the window keeps its name. Any other
/// observation stands alone under the name of its own window.
pub proof fn law_observations_of_one_window_are_kept(
    history: HistoryModel,
    window: LimitWindow,
    kind: Seq<char>,
    now: i64,
    known_length: i64,
    known_reset: i64,
    length: i64,
    reset: i64,
)
    requires
        window.window_duration_mins == Some(length),
        window.resets_at == Some(reset),
        history.window_key is None || history.window_key == Some(
            kind + ":"@ + decimal(known_length as int) + ":"@ + decimal(known_reset as int),
        ),
    ensures
        ({
            let after = history.recorded(Some(window), kind, now);
            let before = history.points;
            let n = before.len() as int;
            &&& after.points.len() > 0
            &&& is_observation(after.points[after.points.len() - 1], window, now)
            &&& if history.window_key is Some && known_length == length && -300 <= known_reset
                - reset <= 300 {
                &&& after.window_key == history.window_key
                &&& n > 0 && is_observation(before[n - 1], window, now) ==> after.points == before
                &&& n == 0 || !is_observation(before[n - 1], window, now) ==> after.points.len()
                    == n + 1 && after.points.take(n) == before
            } else {
                &&& after.window_key == Some(
                    kind + ":"@ + decimal(length as int) + ":"@ + decimal(reset as int),
                )
                &&& after.points.len() == 1
            }
        }),
{
    let after = history.recorded(Some(window), kind, now);
    if history.window_key is Some {
        if known_length == length {
            law_jitter_keeps_the_window(kind, length, known_reset, reset);
        } else {
            lemma_other_lengths_differ(kind, known_length, known_reset, length, reset as int);
        }
        if after.points.len() == history.points.len() + 1 {
            assert(after.points.take(history.points.len() as int) =~= history.points);
        }
    }
}

/// A window that is not known, or of unknown length or reset, is not observed.
pub proof fn law_unknown_windows_are_not_observed(
    history: HistoryModel,
    window: LimitWindow,
    kind: Seq<char>,
    now: i64,
)
    ensures
        history.recorded(None, kind, now) == history,
        window.window_duration_mins is None || window.resets_at is None ==> history.recorded(
            Some(window),
            kind,
            now,
        ) == history,
{
}

/// Each of the two windows has its own history: what is reported of one changes
/// nothing in that of the other.
pub proof fn law_histories_are_kept_apart(
    history: UsageModel,
    windows: UsageWindows,
    other: UsageWindows,
    now: i64,
)
    ensures
        windows.session == other.session ==> history.recorded(windows, now).session
            == history.recorded(other, now).session,
        windows.weekly == other.weekly ==> history.recorded(windows, now).weekly
            == history.recorded(other, now).weekly,
        windows.session is None ==> history.recorded(windows, now).session == history.session,
        windows.weekly is None ==> history.recorded(windows, now).weekly == history.weekly,
        history.recorded(windows, now).session == history.session.recorded(
            windows.session,
            "session"@,
            now,
        ),
        history.recorded(windows, now).weekly == history.weekly.recorded(
            windows.weekly,
            "weekly"@,
            now,
        ),
{
}

} // verus!
