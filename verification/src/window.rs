//! Quota windows: how much of a limit is used, how long the window is and when
//! it resets.

use vstd::prelude::*;

use crate::search::{
    find_first, lemma_find_first_at, lemma_find_first_in_any_order, lemma_find_first_none,
    lemma_find_only, lemma_nothing_found,
};
use crate::text::{
    all_digits, decimal, decimal_text, ends_with_seq, is_digit, is_text, join3, join5, natural,
    natural_text, opt_text, same_text, law_decimal_is_injective,
};

verus! {

/// Length of the burst window, in minutes.
pub const SESSION_MINUTES: i64 = 300;

/// Length of the weekly window, in minutes.
pub const WEEK_MINUTES: i64 = 10_080;

/// How far two reports of one reset may lie apart, in seconds.
pub const RESET_FRESH_TOLERANCE_SECS: i64 = 300;

/// One limit: the share that is used, the window's length and its reset.
#[derive(Clone, Copy, Debug, Default, PartialEq)]
pub struct LimitWindow {
    pub used_percent: i32,
    pub window_duration_mins: Option<i64>,
    pub resets_at: Option<i64>,
}

/// The key of a window: its kind, its length and its reset.
pub open spec fn window_key(kind: Seq<char>, duration: int, reset: int) -> Seq<char> {
    kind + ":"@ + decimal(duration) + ":"@ + decimal(reset)
}

/// `value`, moved into the range from 0 to 100.
pub open spec fn percent(value: int) -> int {
    if value < 0 {
        0
    } else if value > 100 {
        100
    } else {
        value
    }
}

impl LimitWindow {
    /// The key, when both the length and the reset are known.
    pub open spec fn spec_key(self, kind: Seq<char>) -> Option<Seq<char>> {
        match (self.window_duration_mins, self.resets_at) {
            (Some(duration), Some(reset)) => Some(
                window_key(kind, duration as int, reset as int),
            ),
            _ => None,
        }
    }

    /// The window's reset is known and lies ahead.
    pub open spec fn active(self, now: int) -> bool {
        self.resets_at matches Some(reset) && reset > now
    }

    /// The window's reset is known and has passed.
    pub open spec fn expired(self, now: int) -> bool {
        self.resets_at matches Some(reset) && reset <= now
    }

    /// Nearly the whole length of the window lies ahead.
    pub open spec fn fresh(self, now: int) -> bool {
        match (self.window_duration_mins, self.resets_at) {
            (Some(duration), Some(reset)) => reset - now >= duration * 60
                - RESET_FRESH_TOLERANCE_SECS,
            _ => false,
        }
    }

    /// The share of the limit that is left, in percent.
    pub fn remaining_percent(&self) -> (left: i32)
        ensures
            left == percent(100 - self.used_percent),
    {
        let left: i64 = 100 - self.used_percent as i64;
        if left < 0 {
            0
        } else if left > 100 {
            100
        } else {
            left as i32
        }
    }

    /// The key under which the window is remembered.
    pub fn key(&self, kind: &str) -> (key: Option<String>)
        ensures
            opt_text(key) == self.spec_key(kind@),
    {
        match (self.window_duration_mins, self.resets_at) {
            (Some(duration), Some(reset)) => {
                let duration_text = decimal_text(duration);
                let reset_text = decimal_text(reset);
                Some(join5(kind, ":", duration_text.as_str(), ":", reset_text.as_str()))
            },
            _ => None,
        }
    }

    /// Whether the window's reset lies ahead.
    pub fn is_active(&self, now: i64) -> (active: bool)
        ensures
            active == self.active(now as int),
    {
        match self.resets_at {
            Some(reset) => reset > now,
            None => false,
        }
    }

    /// Whether the window's reset has passed.
    pub fn is_expired(&self, now: i64) -> (expired: bool)
        ensures
            expired == self.expired(now as int),
    {
        match self.resets_at {
            Some(reset) => reset <= now,
            None => false,
        }
    }

    /// Whether the window has only just begun.
    pub fn is_fresh(&self, now: i64) -> (fresh: bool)
        ensures
            fresh == self.fresh(now as int),
    {
        match (self.window_duration_mins, self.resets_at) {
            (Some(duration), Some(reset)) => reset as i128 - now as i128 >= duration as i128 * 60
                - RESET_FRESH_TOLERANCE_SECS as i128,
            _ => false,
        }
    }
}

pub proof fn lemma_decimal_shape(n: int)
    ensures
        decimal(n).len() > 0,
        is_digit(decimal(n).last()),
        forall|i: int| 0 <= i < decimal(n).len() ==> #[trigger] decimal(n)[i] != ':',
{
    let magnitude = if n < 0 { (-n) as nat } else { n as nat };
    lemma_natural_shape(magnitude);
}

proof fn lemma_natural_shape(n: nat)
    ensures
        natural(n).len() > 0,
        all_digits(natural(n)),
    decreases n,
{
    if n >= 10 {
        lemma_natural_shape(n / 10);
    }
}

/// Windows of one kind have the same key only if both the length and the reset agree.
pub proof fn law_window_keys_are_distinct(
    kind: Seq<char>,
    duration1: i64,
    reset1: i64,
    duration2: i64,
    reset2: i64,
)
    requires
        window_key(kind, duration1 as int, reset1 as int) == window_key(
            kind,
            duration2 as int,
            reset2 as int,
        ),
    ensures
        duration1 == duration2,
        reset1 == reset2,
{
    reveal_strlit(":");
    let key = window_key(kind, duration1 as int, reset1 as int);
    let d1 = decimal(duration1 as int);
    let d2 = decimal(duration2 as int);
    let r1 = decimal(reset1 as int);
    let r2 = decimal(reset2 as int);
    let from = kind.len() as int + 1;
    lemma_decimal_shape(duration1 as int);
    lemma_decimal_shape(duration2 as int);
    assert(key[from + d1.len()] == ':');
    assert(key[from + d2.len()] == ':');
    if d1.len() < d2.len() {
        assert(key[from + d1.len()] == d2[d1.len() as int]);
    }
    if d2.len() < d1.len() {
        assert(key[from + d2.len()] == d1[d2.len() as int]);
    }
    assert(d1.len() == d2.len());
    assert forall|i: int| 0 <= i < d1.len() implies d1[i] == d2[i] by {
        assert(key[from + i] == d1[i]);
        assert(key[from + i] == d2[i]);
    }
    assert(d1 =~= d2);
    let at = from + d1.len() + 1;
    assert(key.len() == at + r1.len());
    assert(key.len() == at + r2.len());
    assert forall|i: int| 0 <= i < r1.len() implies r1[i] == r2[i] by {
        assert(key[at + i] == r1[i]);
        assert(key[at + i] == r2[i]);
    }
    assert(r1 =~= r2);
    law_decimal_is_injective(duration1, duration2);
    law_decimal_is_injective(reset1, reset2);
}

/// The key of a window never carries the mark of an expired one.
pub proof fn law_window_key_is_not_expired(kind: Seq<char>, duration: i64, reset: i64)
    ensures
        !ends_with_seq(window_key(kind, duration as int, reset as int), ":expired"@),
{
    reveal_strlit(":expired");
    reveal_strlit(":");
    let key = window_key(kind, duration as int, reset as int);
    lemma_decimal_shape(reset as int);
    assert(key.last() == decimal(reset as int).last());
    if ends_with_seq(key, ":expired"@) {
        let tail = key.subrange(key.len() - 8, key.len() as int);
        assert(tail[7] == key.last());
        assert(":expired"@[7] == 'd');
    }
}

/// The burst and the weekly window of an account.
#[derive(Clone, Copy, Debug, Default, PartialEq)]
pub struct UsageWindows {
    pub session: Option<LimitWindow>,
    pub weekly: Option<LimitWindow>,
}

/// One named limit with its two windows, in no particular order.
#[derive(Clone, Debug, Default)]
pub struct RateLimitSnapshot {
    pub limit_id: Option<String>,
    pub primary: Option<LimitWindow>,
    pub secondary: Option<LimitWindow>,
}

/// The limits of an account: the default one, and all of them by name.
#[derive(Clone, Debug)]
pub struct RateLimitResponse {
    pub rate_limits: RateLimitSnapshot,
    pub rate_limits_by_limit_id: Option<Vec<(String, RateLimitSnapshot)>>,
}

impl RateLimitResponse {
    /// Each name stands for one limit.
    pub open spec fn names_are_distinct(self) -> bool {
        self.rate_limits_by_limit_id matches Some(limits) ==> forall|i: int, j: int|
            0 <= i < j < limits@.len() ==> (#[trigger] limits@[i]).0@ != (#[trigger] limits@[j]).0@
    }

    /// The same limits, in any order.
    pub open spec fn holds_the_same(self, other: RateLimitResponse) -> bool {
        &&& self.rate_limits == other.rate_limits
        &&& match (self.rate_limits_by_limit_id, other.rate_limits_by_limit_id) {
            (Some(limits), Some(others)) => limits@.to_multiset() == others@.to_multiset(),
            (None, None) => true,
            _ => false,
        }
    }

    /// A limit is filed under `codex`.
    pub open spec fn files_codex(self) -> bool {
        self.rate_limits_by_limit_id matches Some(limits) && exists|i: int|
            0 <= i < limits@.len() && (#[trigger] limits@[i]).0@ == "codex"@
    }

    /// The i-th of the limits calls itself `codex`.
    pub open spec fn calls_itself_codex(self, i: int) -> bool {
        &&& self.rate_limits_by_limit_id matches Some(limits)
        &&& 0 <= i < limits@.len()
        &&& opt_text(limits@[i].1.limit_id) == Some("codex"@)
    }

    /// The limit that is filed under `codex`; failing that, the first one that
    /// calls itself so; failing that, the default one.
    pub open spec fn chosen(self) -> RateLimitSnapshot {
        match self.rate_limits_by_limit_id {
            Some(limits) => {
                let filed = find_first(limits@, |entry: (String, RateLimitSnapshot)| entry.0@
                    == "codex"@);
                let named = find_first(limits@, |entry: (String, RateLimitSnapshot)|
                    opt_text(entry.1.limit_id) == Some("codex"@));
                match (filed, named) {
                    (Some(entry), _) => entry.1,
                    (None, Some(entry)) => entry.1,
                    (None, None) => self.rate_limits,
                }
            },
            None => self.rate_limits,
        }
    }
}

/// Where each name stands for one limit, the order of the limits does not matter
/// to the choice, unless none is filed under `codex` and several call themselves so;
/// even then one of those is chosen.
pub proof fn law_choice_does_not_depend_on_order(a: RateLimitResponse, b: RateLimitResponse)
    requires
        a.names_are_distinct(),
        a.holds_the_same(b),
    ensures
        a.files_codex() || (forall|i: int, j: int| #[trigger]
            a.calls_itself_codex(i) && #[trigger] a.calls_itself_codex(j) ==> i == j) ==> a.chosen()
            == b.chosen(),
        !a.files_codex() && (exists|i: int| a.calls_itself_codex(i)) ==> exists|i: int| #[trigger]
            a.calls_itself_codex(i) && b.chosen() == a.rate_limits_by_limit_id->0@[i].1,
{
    if let (Some(limits), Some(others)) = (a.rate_limits_by_limit_id, b.rate_limits_by_limit_id) {
        let filed = |entry: (String, RateLimitSnapshot)| entry.0@ == "codex"@;
        let named = |entry: (String, RateLimitSnapshot)|
            opt_text(entry.1.limit_id) == Some("codex"@);
        assert forall|i: int, j: int| 0 <= i < j < limits@.len() implies !(filed(
            #[trigger] limits@[i],
        ) && filed(#[trigger] limits@[j])) by {
            assert(limits@[i].0@ != limits@[j].0@);
        }
        lemma_find_only(limits@, others@, filed);
        lemma_find_first_in_any_order(limits@, others@, named);
        if !a.files_codex() {
            assert forall|i: int| 0 <= i < limits@.len() implies !filed(#[trigger] limits@[i]) by {}
            lemma_find_first_none(limits@, filed);
            if forall|i: int, j: int| #[trigger]
                a.calls_itself_codex(i) && #[trigger] a.calls_itself_codex(j) ==> i == j {
                assert forall|i: int, j: int| 0 <= i < j < limits@.len() implies !(named(
                    #[trigger] limits@[i],
                ) && named(#[trigger] limits@[j])) by {
                    assert(a.calls_itself_codex(i) && a.calls_itself_codex(j) ==> i == j);
                }
                lemma_find_only(limits@, others@, named);
            }
            if find_first(others@, named) is Some {
                let found = find_first(others@, named)->0;
                let i = limits@.index_of(found);
                assert(a.calls_itself_codex(i));
                assert(b.chosen() == limits@[i].1);
            } else {
                assert forall|i: int| !a.calls_itself_codex(i) by {
                    if a.calls_itself_codex(i) {
                        assert(named(limits@[i]));
                        lemma_nothing_found(limits@, named, i);
                    }
                }
            }
        } else {
            let i = choose|i: int| 0 <= i < limits@.len() && (#[trigger] limits@[i]).0@ == "codex"@;
            assert(filed(limits@[i]));
            if find_first(limits@, filed) is None {
                lemma_nothing_found(limits@, filed, i);
            }
        }
    }
}

/// The window's length is within a twentieth of `minutes`.
pub open spec fn matches_duration(window: LimitWindow, minutes: int) -> bool {
    window.window_duration_mins matches Some(duration) && -(minutes / 20) <= duration - minutes
        <= minutes / 20
}

/// The first of the two windows of a limit whose length is near `minutes`.
pub open spec fn window_by_duration(limit: RateLimitSnapshot, minutes: int) -> Option<LimitWindow> {
    if limit.primary matches Some(window) && matches_duration(window, minutes) {
        limit.primary
    } else if limit.secondary matches Some(window) && matches_duration(window, minutes) {
        limit.secondary
    } else {
        None
    }
}

fn is_near(window: &Option<LimitWindow>, minutes: i64) -> (near: bool)
    requires
        minutes >= 0,
    ensures
        near == (*window matches Some(window) && matches_duration(window, minutes as int)),
{
    match window {
        Some(window) => match window.window_duration_mins {
            Some(duration) => {
                let difference: i128 = duration as i128 - minutes as i128;
                let slack: i128 = (minutes / 20) as i128;
                -slack <= difference && difference <= slack
            },
            None => false,
        },
        None => false,
    }
}

fn pick_window(limit: &RateLimitSnapshot, minutes: i64) -> (window: Option<LimitWindow>)
    requires
        minutes >= 0,
    ensures
        window == window_by_duration(*limit, minutes as int),
{
    if is_near(&limit.primary, minutes) {
        limit.primary
    } else if is_near(&limit.secondary, minutes) {
        limit.secondary
    } else {
        None
    }
}

impl UsageWindows {
    /// Tells the burst from the weekly window by their lengths.
    pub fn from_response(response: RateLimitResponse) -> (windows: Self)
        ensures
            windows.session == window_by_duration(response.chosen(), SESSION_MINUTES as int),
            windows.weekly == window_by_duration(response.chosen(), WEEK_MINUTES as int),
    {
        let snapshot = choose_limit(&response);
        UsageWindows {
            session: pick_window(snapshot, SESSION_MINUTES),
            weekly: pick_window(snapshot, WEEK_MINUTES),
        }
    }
}

fn choose_limit(response: &RateLimitResponse) -> (snapshot: &RateLimitSnapshot)
    ensures
        *snapshot == response.chosen(),
{
    if let Some(limits) = &response.rate_limits_by_limit_id {
        let ghost filed = |entry: (String, RateLimitSnapshot)| entry.0@ == "codex"@;
        let ghost named = |entry: (String, RateLimitSnapshot)|
            opt_text(entry.1.limit_id) == Some("codex"@);
        let mut i: usize = 0;
        while i < limits.len()
            invariant
                i <= limits.len(),
                response.rate_limits_by_limit_id == Some(*limits),
                filed == (|entry: (String, RateLimitSnapshot)| entry.0@ == "codex"@),
                forall|j: int| 0 <= j < i ==> !filed(#[trigger] limits@[j]),
            decreases limits.len() - i,
        {
            if same_text(limits[i].0.as_str(), "codex") {
                proof {
                    lemma_find_first_at(limits@, filed, i as int);
                }
                return &limits[i].1;
            }
            i = i + 1;
        }
        proof {
            lemma_find_first_none(limits@, filed);
        }
        let mut k: usize = 0;
        while k < limits.len()
            invariant
                k <= limits.len(),
                response.rate_limits_by_limit_id == Some(*limits),
                filed == (|entry: (String, RateLimitSnapshot)| entry.0@ == "codex"@),
                find_first(limits@, filed) is None,
                named == (|entry: (String, RateLimitSnapshot)| opt_text(entry.1.limit_id) == Some(
                    "codex"@,
                )),
                forall|j: int| 0 <= j < k ==> !named(#[trigger] limits@[j]),
            decreases limits.len() - k,
        {
            if is_text(&limits[k].1.limit_id, "codex") {
                proof {
                    lemma_find_first_at(limits@, named, k as int);
                }
                return &limits[k].1;
            }
            k = k + 1;
        }
        proof {
            lemma_find_first_none(limits@, named);
        }
    }
    &response.rate_limits
}

/// How long until a reset, in words.
pub open spec fn reset_countdown(reset_at: Option<i64>, now: int) -> Seq<char> {
    match reset_at {
        None => "Reset unavailable"@,
        Some(reset) => {
            let seconds = reset - now;
            if seconds <= 0 {
                "Resetting now"@
            } else if seconds < 3_600 {
                "Resets in "@ + decimal((seconds + 59) / 60) + "m"@
            } else if seconds < 86_400 {
                "Resets in "@ + decimal(seconds / 3_600) + "h "@ + decimal(seconds % 3_600 / 60)
                    + "m"@
            } else {
                "Resets in "@ + decimal(seconds / 86_400) + "d "@ + decimal(
                    seconds % 86_400 / 3_600,
                ) + "h"@
            }
        },
    }
}

/// Says how long it is until a reset.
pub fn format_reset(reset_at: Option<i64>, now: i64) -> (text: String)
    ensures
        text@ == reset_countdown(reset_at, now as int),
{
    let reset: i64 = match reset_at {
        Some(reset) => reset,
        None => {
            return "Reset unavailable".to_owned();
        },
    };
    let seconds: i128 = reset as i128 - now as i128;
    if seconds <= 0 {
        return "Resetting now".to_owned();
    }
    if seconds < 3_600 {
        let minutes = natural_text(((seconds + 59) / 60) as u64);
        return join3("Resets in ", minutes.as_str(), "m");
    }
    if seconds < 86_400 {
        let hours = natural_text((seconds / 3_600) as u64);
        let minutes = natural_text((seconds % 3_600 / 60) as u64);
        return join5("Resets in ", hours.as_str(), "h ", minutes.as_str(), "m");
    }
    let days = natural_text((seconds / 86_400) as u64);
    let hours = natural_text((seconds % 86_400 / 3_600) as u64);
    join5("Resets in ", days.as_str(), "d ", hours.as_str(), "h")
}

/// A window of a limit has a length of about `minutes`, give or take `slack`.
pub open spec fn is_about(window: Option<LimitWindow>, minutes: int, slack: int) -> bool {
    &&& window matches Some(window)
    &&& window.window_duration_mins matches Some(length)
    &&& minutes - slack <= length <= minutes + slack
}

/// The burst window is one of about five hours and the weekly window one of about
/// a week, wherever in the limit they stand. The primary one goes before the
/// secondary one, and there is none only where neither has such a length.
pub proof fn law_windows_are_told_apart_by_length(limit: RateLimitSnapshot)
    ensures
        ({
            let session = window_by_duration(limit, SESSION_MINUTES as int);
            &&& is_about(limit.primary, 300, 15) ==> session == limit.primary
            &&& !is_about(limit.primary, 300, 15) && is_about(limit.secondary, 300, 15) ==> session
                == limit.secondary
            &&& session is Some <==> is_about(limit.primary, 300, 15) || is_about(
                limit.secondary,
                300,
                15,
            )
        }),
        ({
            let weekly = window_by_duration(limit, WEEK_MINUTES as int);
            &&& is_about(limit.primary, 10_080, 504) ==> weekly == limit.primary
            &&& !is_about(limit.primary, 10_080, 504) && is_about(limit.secondary, 10_080, 504)
                ==> weekly == limit.secondary
            &&& weekly is Some <==> is_about(limit.primary, 10_080, 504) || is_about(
                limit.secondary,
                10_080,
                504,
            )
        }),
{
}

/// Two windows of which at most one has a length are the same the other way round.
pub proof fn law_windows_may_stand_either_way_round(a: RateLimitSnapshot, b: RateLimitSnapshot)
    requires
        a.primary == b.secondary,
        a.secondary == b.primary,
    ensures
        !(is_about(a.primary, 300, 15) && is_about(a.secondary, 300, 15)) ==> window_by_duration(
            a,
            SESSION_MINUTES as int,
        ) == window_by_duration(b, SESSION_MINUTES as int),
        !(is_about(a.primary, 10_080, 504) && is_about(a.secondary, 10_080, 504))
            ==> window_by_duration(a, WEEK_MINUTES as int) == window_by_duration(
            b,
            WEEK_MINUTES as int,
        ),
{
}

/// The first limit that is filed under `codex` is chosen; where none is, the
/// first one that calls itself so; where none does, the default one.
pub proof fn law_codex_limits_are_chosen(response: RateLimitResponse, i: int)
    ensures
        response.rate_limits_by_limit_id matches Some(limits) ==> {
            &&& (0 <= i < limits@.len() && limits@[i].0@ == "codex"@ && forall|j: int|
                0 <= j < i ==> (#[trigger] limits@[j]).0@ != "codex"@) ==> response.chosen()
                == limits@[i].1
            &&& (forall|j: int|
                0 <= j < limits@.len() ==> (#[trigger] limits@[j]).0@ != "codex"@) ==> {
                &&& (0 <= i < limits@.len() && opt_text(limits@[i].1.limit_id) == Some("codex"@)
                    && forall|j: int|
                    0 <= j < i ==> opt_text((#[trigger] limits@[j]).1.limit_id) != Some("codex"@))
                    ==> response.chosen() == limits@[i].1
                &&& (forall|j: int|
                    0 <= j < limits@.len() ==> opt_text((#[trigger] limits@[j]).1.limit_id) != Some(
                        "codex"@,
                    )) ==> response.chosen() == response.rate_limits
            }
        },
        response.rate_limits_by_limit_id is None ==> response.chosen() == response.rate_limits,
{
    if let Some(limits) = response.rate_limits_by_limit_id {
        let filed = |entry: (String, RateLimitSnapshot)| entry.0@ == "codex"@;
        let named = |entry: (String, RateLimitSnapshot)|
            opt_text(entry.1.limit_id) == Some("codex"@);
        if 0 <= i < limits@.len() && limits@[i].0@ == "codex"@ && (forall|j: int|
            0 <= j < i ==> (#[trigger] limits@[j]).0@ != "codex"@) {
            lemma_find_first_at(limits@, filed, i);
        }
        if forall|j: int| 0 <= j < limits@.len() ==> (#[trigger] limits@[j]).0@ != "codex"@ {
            lemma_find_first_none(limits@, filed);
            if 0 <= i < limits@.len() && opt_text(limits@[i].1.limit_id) == Some("codex"@) && (
            forall|j: int|
                0 <= j < i ==> opt_text((#[trigger] limits@[j]).1.limit_id) != Some("codex"@)) {
                lemma_find_first_at(limits@, named, i);
            }
            if forall|j: int|
                0 <= j < limits@.len() ==> opt_text((#[trigger] limits@[j]).1.limit_id) != Some(
                    "codex"@,
                ) {
                lemma_find_first_none(limits@, named);
            }
        }
    }
}

/// What a countdown says is the time that is left: up to an hour in minutes, each
/// of them that has begun; up to a day in hours and minutes; after that in days
/// and hours.
pub proof fn law_countdowns_tell_the_time_left(
    reset: i64,
    now: int,
    days: int,
    hours: int,
    minutes: int,
    seconds: int,
)
    requires
        reset - now == days * 86_400 + hours * 3_600 + minutes * 60 + seconds,
        0 <= days,
        0 <= hours < 24,
        0 <= minutes < 60,
        0 <= seconds < 60,
    ensures
        days == 0 && hours == 0 && seconds > 0 ==> reset_countdown(Some(reset), now)
            == "Resets in "@ + decimal(minutes + 1) + "m"@,
        days == 0 && hours == 0 && seconds == 0 && minutes > 0 ==> reset_countdown(
            Some(reset),
            now,
        ) == "Resets in "@ + decimal(minutes) + "m"@,
        days == 0 && hours > 0 ==> reset_countdown(Some(reset), now) == "Resets in "@ + decimal(
            hours,
        ) + "h "@ + decimal(minutes) + "m"@,
        days > 0 ==> reset_countdown(Some(reset), now) == "Resets in "@ + decimal(days) + "d "@
            + decimal(hours) + "h"@,
        reset_countdown(Some(reset), reset as int) == "Resetting now"@,
        reset_countdown(Some(reset), reset + 1 + days) == "Resetting now"@,
        reset_countdown(None, now) == "Reset unavailable"@,
{
    let left = reset - now;
    let rest = hours * 3_600 + minutes * 60 + seconds;
    assert(left / 86_400 == days && left % 86_400 == rest) by {
        vstd::arithmetic::div_mod::lemma_fundamental_div_mod_converse(left, 86_400, days, rest);
    }
    assert(rest / 3_600 == hours && rest % 3_600 == minutes * 60 + seconds) by {
        vstd::arithmetic::div_mod::lemma_fundamental_div_mod_converse(
            rest,
            3_600,
            hours,
            minutes * 60 + seconds,
        );
    }
    assert((minutes * 60 + seconds) / 60 == minutes) by {
        vstd::arithmetic::div_mod::lemma_fundamental_div_mod_converse(
            minutes * 60 + seconds,
            60,
            minutes,
            seconds,
        );
    }
    if seconds > 0 {
        vstd::arithmetic::div_mod::lemma_fundamental_div_mod_converse(
            minutes * 60 + seconds + 59,
            60,
            minutes + 1,
            seconds - 1,
        );
    } else {
        vstd::arithmetic::div_mod::lemma_fundamental_div_mod_converse(
            minutes * 60 + 59,
            60,
            minutes,
            59,
        );
    }
}

} // verus!
