//! The daily schedule: which slot is due, which comes next, and what a warmup
//! should start now.

use vstd::prelude::*;

use crate::account::{Account, AccountModel};
use crate::plan::{PlanModel, WarmPlan};
use crate::search::{find_first, lemma_find_first_at, lemma_find_first_none};
use crate::text::{is_digit, is_text, join2, join3, lemma_two_digits, opt_text, two_digits};
use crate::time::DailyTime;
use crate::window::{LimitWindow, UsageWindows, SESSION_MINUTES};

verus! {

/// Seconds that an opportunistic burst window keeps clear of the next slot.
pub const AUTO_GUARD_SECS: i64 = 120;

/// Seconds for which a slot stays due.
pub const SCHEDULE_GRACE_SECS: i64 = 180;

/// The calendar date of a day, counted from January 1 of the year 1 as day 1,
/// as chrono writes it; nothing for a day that chrono does not know.
pub uninterp spec fn date_text(day: i32) -> Option<Seq<char>>;

/// Calls `chrono::NaiveDate::from_num_days_from_ce_opt` and writes the date out
/// with its `Display`. The text depends on the day's number alone, and since it
/// holds the year, the month and the day of the month, no other day has the same.
#[verifier::external_body]
fn format_date(day: i32) -> (text: Option<String>)
    ensures
        opt_text(text) == date_text(day),
        text is Some ==> forall|other: i32| #[trigger]
            date_text(other) == opt_text(text) ==> other == day,
{
    chrono::NaiveDate::from_num_days_from_ce_opt(day).map(|date| date.to_string())
}

/// The date of the day that comes `offset` days after `day`.
pub open spec fn date_after(day: i32, offset: int) -> Option<Seq<char>> {
    if i32::MIN <= day + offset <= i32::MAX {
        date_text((day + offset) as i32)
    } else {
        None
    }
}

/// What a wall-clock time means in a time zone: one moment, two of them where
/// the clock is turned back, none where it is turned forward.
#[derive(Clone, Copy, Debug, PartialEq, Eq, Structural)]
pub enum LocalInstant {
    Single(i64),
    Ambiguous(i64, i64),
    Missing,
}

impl LocalInstant {
    /// The earliest moment that is meant.
    pub open spec fn earliest(self) -> Option<i64> {
        match self {
            LocalInstant::Single(at) => Some(at),
            LocalInstant::Ambiguous(first, second) => Some(
                if first <= second {
                    first
                } else {
                    second
                },
            ),
            LocalInstant::Missing => None,
        }
    }

    /// The first of the moments that are meant.
    pub open spec fn leading(self) -> Option<i64> {
        match self {
            LocalInstant::Single(at) => Some(at),
            LocalInstant::Ambiguous(first, _) => Some(first),
            LocalInstant::Missing => None,
        }
    }

    /// The first of the moments that are meant.
    pub fn first(&self) -> (at: Option<i64>)
        ensures
            at == self.leading(),
    {
        match self {
            LocalInstant::Single(at) => Some(*at),
            LocalInstant::Ambiguous(first, _) => Some(*first),
            LocalInstant::Missing => None,
        }
    }

    /// The earliest moment that is meant.
    pub fn resolve(&self) -> (at: Option<i64>)
        ensures
            at == self.earliest(),
    {
        match self {
            LocalInstant::Single(at) => Some(*at),
            LocalInstant::Ambiguous(first, second) => if *first <= *second {
                Some(*first)
            } else {
                Some(*second)
            },
            LocalInstant::Missing => None,
        }
    }
}

/// The present in a time zone: the moment, the number of the local day, and
/// what the times of a schedule mean on that day and the days after it.
/// `instants[d][k]` is the k-th time on the d-th day; what is not there is missing.
#[derive(Debug)]
pub struct LocalClock {
    pub timestamp: i64,
    pub day: i32,
    pub instants: Vec<Vec<LocalInstant>>,
}

/// A moment of the schedule and the key under which it is remembered.
#[derive(Clone, Debug, PartialEq, Eq)]
pub struct ScheduleSlot {
    pub at: i64,
    pub key: String,
}

/// The contents of a [`ScheduleSlot`].
pub struct SlotModel {
    pub at: i64,
    pub key: Seq<char>,
}

impl View for ScheduleSlot {
    type V = SlotModel;

    open spec fn view(&self) -> SlotModel {
        SlotModel { at: self.at, key: self.key@ }
    }
}

pub open spec fn opt_slot(slot: Option<ScheduleSlot>) -> Option<SlotModel> {
    match slot {
        Some(slot) => Some(slot@),
        None => None,
    }
}

/// The key of a slot: its date and its time.
pub open spec fn slot_key(date: Seq<char>, time: DailyTime) -> Seq<char> {
    date + "@"@ + time.clock_text()
}

proof fn lemma_clock_text_shape(time: DailyTime)
    ensures
        ({
            let text = time.clock_text();
            let colon = text.len() - 3;
            &&& colon >= 0
            &&& !text.contains('@')
            &&& text.take(colon) == two_digits(time.0 as nat / 60)
            &&& text.skip(colon + 1) == two_digits(time.0 as nat % 60)
        }),
{
    reveal_strlit(":");
    let hour = two_digits(time.0 as nat / 60);
    let minute = two_digits(time.0 as nat % 60);
    lemma_two_digits(time.0 as nat / 60);
    lemma_two_digits(time.0 as nat % 60);
    let text = time.clock_text();
    let colon = text.len() - 3;
    assert(text.take(colon) =~= hour);
    assert(text.skip(colon + 1) =~= minute);
    assert forall|i: int| 0 <= i < text.len() implies text[i] != '@' by {
        if i < colon {
            assert(is_digit(hour[i]));
        } else if i > colon {
            assert(is_digit(minute[i - colon - 1]));
        }
    }
}

/// Slots have the same key only if both their dates and their times agree.
pub proof fn law_slot_keys_are_distinct(
    date1: Seq<char>,
    time1: DailyTime,
    date2: Seq<char>,
    time2: DailyTime,
)
    requires
        slot_key(date1, time1) == slot_key(date2, time2),
    ensures
        date1 == date2,
        time1 == time2,
{
    reveal_strlit("@");
    lemma_clock_text_shape(time1);
    lemma_clock_text_shape(time2);
    let clock1 = time1.clock_text();
    let clock2 = time2.clock_text();
    let key = slot_key(date1, time1);
    let n = date1.len() as int;
    let m = date2.len() as int;
    assert(key.len() == n + 1 + clock1.len());
    assert(slot_key(date2, time2).len() == m + 1 + clock2.len());
    assert(key[n] == '@');
    assert(slot_key(date2, time2)[m] == '@');
    assert(key.skip(n + 1) =~= clock1);
    assert(slot_key(date2, time2).skip(m + 1) =~= clock2);
    if n < m {
        assert(clock1.contains(key.skip(n + 1)[m - n - 1]));
    }
    if m < n {
        assert(clock2.contains(key.skip(m + 1)[n - m - 1]));
    }
    assert(date1 =~= key.take(n));
    assert(date2 =~= key.take(n));
    lemma_two_digits(time1.0 as nat / 60);
    lemma_two_digits(time2.0 as nat / 60);
    lemma_two_digits(time1.0 as nat % 60);
    lemma_two_digits(time2.0 as nat % 60);
}

/// The key is that of a slot on `day`.
pub open spec fn is_slot_of(key: Seq<char>, day: i32) -> bool {
    &&& date_text(day) matches Some(date)
    &&& exists|time: DailyTime| key == #[trigger] slot_key(date, time)
}

/// The key is that of a slot on `day`, and of no other day.
pub open spec fn names_day(key: Seq<char>, day: i32) -> bool {
    forall|other: i32| #[trigger] is_slot_of(key, other) <==> other == day
}

proof fn lemma_key_names_day(day: i32, date: Seq<char>, time: DailyTime)
    requires
        date_text(day) == Some(date),
        forall|other: i32| #[trigger] date_text(other) == Some(date) ==> other == day,
    ensures
        names_day(slot_key(date, time), day),
{
    let key = slot_key(date, time);
    assert forall|other: i32| #[trigger] is_slot_of(key, other) implies other == day by {
        let other_date = date_text(other)->0;
        let other_time = choose|t: DailyTime| key == #[trigger] slot_key(other_date, t);
        law_slot_keys_are_distinct(date, time, other_date, other_time);
    }
    assert(key == slot_key(date_text(day)->0, time));
    assert(is_slot_of(key, day));
}

impl LocalClock {
    /// What the k-th time means on the d-th day.
    pub open spec fn instant(self, d: int, k: int) -> LocalInstant {
        if 0 <= d < self.instants@.len() && 0 <= k < self.instants@[d]@.len() {
            self.instants@[d]@[k]
        } else {
            LocalInstant::Missing
        }
    }

    /// The slots of the d-th day, in the order of `times`.
    pub open spec fn day_slots(self, times: Seq<DailyTime>, d: int) -> Seq<Option<SlotModel>> {
        Seq::new(
            times.len(),
            |k: int|
                match date_after(self.day, d) {
                    Some(date) => slot_at(date, times[k], self.instant(d, k)),
                    None => None,
                },
        )
    }

    /// The first slot of today that has come and is not over.
    pub open spec fn due(self, times: Seq<DailyTime>) -> Option<SlotModel> {
        let found = find_first(
            self.day_slots(times, 0),
            |slot: Option<SlotModel>| is_due(slot, self.timestamp as int),
        );
        match found {
            Some(slot) => slot,
            None => None,
        }
    }

    /// The first slot ahead on the d-th day or one of the days up to the third.
    pub open spec fn next_from(self, times: Seq<DailyTime>, d: int) -> Option<SlotModel>
        decreases 3 - d,
    {
        if d >= 3 || date_after(self.day, d) is None {
            None
        } else {
            let found = find_first(
                self.day_slots(times, d),
                |slot: Option<SlotModel>| is_ahead(slot, self.timestamp as int),
            );
            match found {
                Some(slot) => slot,
                None => self.next_from(times, d + 1),
            }
        }
    }

    /// The first slot ahead, today or on one of the next two days.
    pub open spec fn next(self, times: Seq<DailyTime>) -> Option<SlotModel> {
        self.next_from(times, 0)
    }

    fn instant_at(&self, d: usize, k: usize) -> (instant: LocalInstant)
        ensures
            instant == self.instant(d as int, k as int),
    {
        if d < self.instants.len() && k < self.instants[d].len() {
            self.instants[d][k]
        } else {
            LocalInstant::Missing
        }
    }
}

/// A slot that has come and is not over.
pub open spec fn is_due(slot: Option<SlotModel>, now: int) -> bool {
    slot matches Some(slot) && slot.at <= now <= slot.at + SCHEDULE_GRACE_SECS
}

/// A slot that is to come.
pub open spec fn is_ahead(slot: Option<SlotModel>, now: int) -> bool {
    slot matches Some(slot) && slot.at > now
}

/// The slot of a time on a day, given the date and what the time means on it.
pub open spec fn slot_at(date: Seq<char>, time: DailyTime, instant: LocalInstant) -> Option<
    SlotModel,
> {
    match instant.earliest() {
        Some(at) => Some(SlotModel { at, key: slot_key(date, time) }),
        None => None,
    }
}

/// Makes the slot of a time on a day, given the date and what the time means on
/// it: none where the clock skips that time.
pub fn slot_on(date: &str, time: DailyTime, instant: LocalInstant) -> (slot: Option<ScheduleSlot>)
    ensures
        opt_slot(slot) == slot_at(date@, time, instant),
{
    match instant.resolve() {
        Some(at) => {
            let time_text = time.to_string();
            Some(ScheduleSlot { at, key: join3(date, "@", time_text.as_str()) })
        },
        None => None,
    }
}

/// Finds the slot that is due now. Its key is that of no other day's slot.
pub fn due_slot(now: &LocalClock, times: &Vec<DailyTime>) -> (slot: Option<ScheduleSlot>)
    ensures
        opt_slot(slot) == now.due(times@),
        slot matches Some(slot) ==> names_day(slot.key@, now.day),
{
    let ghost slots = now.day_slots(times@, 0);
    let ghost wanted = |slot: Option<SlotModel>| is_due(slot, now.timestamp as int);
    let date = match format_date(now.day) {
        Some(date) => date,
        None => {
            proof {
                lemma_find_first_none(slots, wanted);
            }
            return None;
        },
    };
    let mut k: usize = 0;
    while k < times.len()
        invariant
            k <= times.len(),
            slots == now.day_slots(times@, 0),
            wanted == (|slot: Option<SlotModel>| is_due(slot, now.timestamp as int)),
            date_after(now.day, 0) == Some(date@),
            forall|other: i32| #[trigger] date_text(other) == Some(date@) ==> other == now.day,
            forall|j: int| 0 <= j < k ==> !wanted(#[trigger] slots[j]),
        decreases times.len() - k,
    {
        let time: DailyTime = times[k];
        if let Some(slot) = slot_on(date.as_str(), time, now.instant_at(0, k)) {
            if slot.at <= now.timestamp && now.timestamp as i128 <= slot.at as i128
                + SCHEDULE_GRACE_SECS as i128 {
                proof {
                    lemma_find_first_at(slots, wanted, k as int);
                    lemma_key_names_day(now.day, date@, time);
                }
                return Some(slot);
            }
        }
        assert(!wanted(slots[k as int]));
        k = k + 1;
    }
    proof {
        lemma_find_first_none(slots, wanted);
    }
    None
}

/// Finds the slot that comes next, today or on one of the next two days. Its key
/// is that of one day's slot alone.
pub fn next_slot(now: &LocalClock, times: &Vec<DailyTime>) -> (slot: Option<ScheduleSlot>)
    ensures
        opt_slot(slot) == now.next(times@),
        slot matches Some(slot) ==> exists|day: i32|
            now.day <= day <= now.day + 2 && #[trigger] names_day(slot.key@, day),
{
    let mut d: usize = 0;
    while d < 3
        invariant
            d <= 3,
            now.next(times@) == now.next_from(times@, d as int),
        decreases 3 - d,
    {
        let day: i32 = match now.day.checked_add(d as i32) {
            Some(day) => day,
            None => {
                return None;
            },
        };
        let date = match format_date(day) {
            Some(date) => date,
            None => {
                return None;
            },
        };
        let ghost slots = now.day_slots(times@, d as int);
        let ghost wanted = |slot: Option<SlotModel>| is_ahead(slot, now.timestamp as int);
        let mut k: usize = 0;
        while k < times.len()
            invariant
                d < 3,
                k <= times.len(),
                now.next(times@) == now.next_from(times@, d as int),
                slots == now.day_slots(times@, d as int),
                wanted == (|slot: Option<SlotModel>| is_ahead(slot, now.timestamp as int)),
                day == now.day + d,
                date_after(now.day, d as int) == Some(date@),
                forall|other: i32| #[trigger] date_text(other) == Some(date@) ==> other == day,
                forall|j: int| 0 <= j < k ==> !wanted(#[trigger] slots[j]),
            decreases times.len() - k,
        {
            let time: DailyTime = times[k];
            if let Some(slot) = slot_on(date.as_str(), time, now.instant_at(d, k)) {
                if slot.at > now.timestamp {
                    proof {
                        lemma_find_first_at(slots, wanted, k as int);
                        lemma_key_names_day(day, date@, time);
                    }
                    return Some(slot);
                }
            }
            assert(!wanted(slots[k as int]));
            k = k + 1;
        }
        proof {
            lemma_find_first_none(slots, wanted);
        }
        d = d + 1;
    }
    None
}

/// The key of a window that should be started: one that has run out, or one
/// that has only just begun and is unused, and was not dealt with before.
pub open spec fn candidate(
    window: Option<LimitWindow>,
    kind: Seq<char>,
    confirmed: Option<Seq<char>>,
    now: int,
) -> Option<Seq<char>> {
    match window {
        Some(window) => match window.spec_key(kind) {
            Some(base) => {
                let expired = window.expired(now);
                let key = if expired {
                    base + ":expired"@
                } else {
                    base
                };
                if confirmed != Some(key) && (expired || (window.used_percent == 0 && window.fresh(
                    now,
                ))) {
                    Some(key)
                } else {
                    None
                }
            },
            None => None,
        },
        None => None,
    }
}

/// Finds the key of a window that should be started.
pub fn candidate_key(
    window: &Option<LimitWindow>,
    kind: &str,
    confirmed: &Option<String>,
    now: i64,
) -> (key: Option<String>)
    ensures
        opt_text(key) == candidate(*window, kind@, opt_text(*confirmed), now as int),
{
    match window {
        Some(window) => match window.key(kind) {
            Some(base) => {
                let expired: bool = window.is_expired(now);
                let key = if expired {
                    join2(base.as_str(), ":expired")
                } else {
                    base
                };
                if !is_text(confirmed, key.as_str()) && (expired || (window.used_percent == 0
                    && window.is_fresh(now))) {
                    Some(key)
                } else {
                    None
                }
            },
            None => None,
        },
        None => None,
    }
}

/// A burst window that starts now ends well before the next slot.
pub open spec fn gap_is_safe(
    now: int,
    next: Option<SlotModel>,
    session: Option<LimitWindow>,
) -> bool {
    &&& session matches Some(window)
    &&& window.window_duration_mins matches Some(duration)
    &&& match next {
        Some(slot) => now + duration * 60 + AUTO_GUARD_SECS <= slot.at,
        None => true,
    }
}

/// Whether a burst window may start without spoiling the next slot.
pub fn filler_is_safe(
    now: &LocalClock,
    times: &Vec<DailyTime>,
    session: &Option<LimitWindow>,
) -> (safe: bool)
    ensures
        safe == gap_is_safe(now.timestamp as int, now.next(times@), *session),
{
    let duration: i64 = match session {
        Some(window) => match window.window_duration_mins {
            Some(duration) => duration,
            None => {
                return false;
            },
        },
        None => {
            return false;
        },
    };
    match next_slot(now, times) {
        Some(slot) => now.timestamp as i128 + duration as i128 * 60 + AUTO_GUARD_SECS as i128
            <= slot.at as i128,
        None => true,
    }
}

/// No running burst window resets before the slot is over.
pub open spec fn slot_is_ready(slot: SlotModel, session: Option<LimitWindow>, now: int) -> bool {
    !(session matches Some(window) && window.active(now) && window.resets_at->0 <= slot.at
        + SCHEDULE_GRACE_SECS)
}

/// Whether a slot need not wait for a reset that is about to come.
pub fn schedule_window_ready(
    slot: &ScheduleSlot,
    session: &Option<LimitWindow>,
    now: i64,
) -> (ready: bool)
    ensures
        ready == slot_is_ready(slot@, *session, now as int),
{
    match session {
        Some(window) => match window.resets_at {
            Some(reset) => !(reset > now && reset as i128 <= slot.at as i128
                + SCHEDULE_GRACE_SECS as i128),
            None => true,
        },
        None => true,
    }
}

/// The account may be warmed: it is enabled, is not waiting after a failure,
/// and its weekly limit is not used up.
pub open spec fn may_warm(now: int, account: AccountModel, windows: UsageWindows) -> bool {
    &&& account.enabled
    &&& match account.ledger.retry_after {
        Some(retry) => retry <= now,
        None => true,
    }
    &&& !(windows.weekly matches Some(window) && window.used_percent >= 100 && window.active(now))
}

/// The slot that a warmup should serve now.
pub open spec fn planned_slot(
    now: LocalClock,
    account: AccountModel,
    windows: UsageWindows,
) -> Option<Seq<char>> {
    match now.due(account.warmup_times) {
        Some(slot) => if account.ledger.last_schedule_key != Some(slot.key) && slot_is_ready(
            slot,
            windows.session,
            now.timestamp as int,
        ) {
            Some(slot.key)
        } else {
            None
        },
        None => None,
    }
}

/// What a warmup should start now.
pub open spec fn planned(
    now: LocalClock,
    account: AccountModel,
    windows: UsageWindows,
) -> PlanModel {
    if !may_warm(now.timestamp as int, account, windows) {
        PlanModel::empty()
    } else {
        let weekly_key = candidate(
            windows.weekly,
            "weekly"@,
            account.ledger.confirmed_weekly_key,
            now.timestamp as int,
        );
        let schedule_key = planned_slot(now, account, windows);
        let session_key = candidate(
            windows.session,
            "session"@,
            account.ledger.confirmed_session_key,
            now.timestamp as int,
        );
        PlanModel {
            weekly_key,
            schedule_key,
            session_key: if weekly_key is Some || schedule_key is Some || gap_is_safe(
                now.timestamp as int,
                now.next(account.warmup_times),
                windows.session,
            ) {
                session_key
            } else {
                None
            },
        }
    }
}

/// Decides what a warmup should start now: a weekly window that was reset, a
/// slot that is due, and a burst window where it does no harm to the schedule.
/// A slot that was served on another day holds nothing back.
pub fn plan_warmup(now: &LocalClock, account: &Account, windows: &UsageWindows) -> (plan: WarmPlan)
    ensures
        plan@ == planned(*now, account@, *windows),
        plan@.schedule_key matches Some(key) ==> names_day(key, now.day),
        forall|served: i32|
            served != now.day && account@.ledger.last_schedule_key is Some && #[trigger] is_slot_of(
                account@.ledger.last_schedule_key->0,
                served,
            ) ==> plan@ == planned(*now, account@.with_nothing_served(), *windows),
{
    let mut plan = WarmPlan { session_key: None, weekly_key: None, schedule_key: None };
    let can_retry: bool = match account.ledger.retry_after {
        Some(retry) => retry <= now.timestamp,
        None => true,
    };
    let weekly_blocked: bool = match windows.weekly {
        Some(window) => window.used_percent >= 100 && window.is_active(now.timestamp),
        None => false,
    };
    if !account.enabled || !can_retry || weekly_blocked {
        return plan;
    }
    plan.weekly_key = candidate_key(
        &windows.weekly,
        "weekly",
        &account.ledger.confirmed_weekly_key,
        now.timestamp,
    );
    if let Some(slot) = due_slot(now, &account.warmup_times) {
        if !is_text(&account.ledger.last_schedule_key, slot.key.as_str()) && schedule_window_ready(
            &slot,
            &windows.session,
            now.timestamp,
        ) {
            plan.schedule_key = Some(slot.key);
        }
    }
    let session_key = candidate_key(
        &windows.session,
        "session",
        &account.ledger.confirmed_session_key,
        now.timestamp,
    );
    if session_key.is_some() && (plan.weekly_key.is_some() || plan.schedule_key.is_some()
        || filler_is_safe(now, &account.warmup_times, &windows.session)) {
        plan.session_key = session_key;
    }
    plan
}

/// Two slots that follow each other, in the day or across midnight, are less
/// than the length of a burst window apart.
pub open spec fn too_close(times: Seq<DailyTime>) -> bool {
    times.len() >= 2 && ((exists|i: int|
        0 <= i && i + 1 < times.len() && (#[trigger] times[i + 1]).0 - times[i].0
            < SESSION_MINUTES) || 1_440 - times.last().0 + times[0].0 < SESSION_MINUTES)
}

/// Whether two slots are too close to open windows of their own.
pub fn schedule_gap_warning(times: &Vec<DailyTime>) -> (warn: bool)
    ensures
        warn == too_close(times@),
{
    if times.len() < 2 {
        return false;
    }
    let mut k: usize = 1;
    while k < times.len()
        invariant
            1 <= k <= times.len(),
            forall|i: int|
                0 <= i && i + 1 < k ==> (#[trigger] times@[i + 1]).0 - times@[i].0
                    >= SESSION_MINUTES,
        decreases times.len() - k,
    {
        if (times[k].0 as i64) - (times[k - 1].0 as i64) < SESSION_MINUTES {
            assert(times@[(k - 1) + 1].0 - times@[k - 1].0 < SESSION_MINUTES);
            return true;
        }
        k = k + 1;
    }
    1_440 - (times[times.len() - 1].0 as i64) + (times[0].0 as i64) < SESSION_MINUTES
}

} // verus!
