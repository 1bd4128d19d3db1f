//! What holds of plans, ledgers and schedules taken together.

use vstd::prelude::*;

use crate::account::{times_sorted, AccountModel, LedgerModel, RETRY_DELAY_SECS};
use crate::plan::{PlanModel, WarmReason};
use crate::schedule::{
    candidate, date_text, is_ahead, is_due, may_warm, planned, too_close, LocalClock, LocalInstant,
    SlotModel, AUTO_GUARD_SECS, SCHEDULE_GRACE_SECS,
};
use crate::search::{find_first, lemma_find_first_at, lemma_find_first_found, lemma_find_first_none};
use crate::text::{decimal, ends_with_seq, lemma_suffix_of_concat};
use crate::time::DailyTime;
use crate::window::{law_window_key_is_not_expired, LimitWindow, UsageWindows, SESSION_MINUTES};

verus! {

/// Nothing is planned for an account that is switched off, that waits after a
/// failure, or whose weekly limit is used up until a reset still ahead.
pub proof fn law_held_back_accounts_get_no_plan(
    now: LocalClock,
    account: AccountModel,
    windows: UsageWindows,
)
    ensures
        !account.enabled ==> planned(now, account, windows) == PlanModel::empty(),
        (account.ledger.retry_after matches Some(retry) && now.timestamp < retry) ==> planned(
            now,
            account,
            windows,
        ) == PlanModel::empty(),
        (windows.weekly matches Some(window) && window.used_percent >= 100 && window.active(
            now.timestamp as int,
        )) ==> planned(now, account, windows) == PlanModel::empty(),
{
}

/// A failure puts off every warmup until the delay is over.
pub proof fn law_failure_puts_warmups_off(
    now: LocalClock,
    account: AccountModel,
    windows: UsageWindows,
    reason: WarmReason,
    failed_at: i64,
)
    requires
        failed_at + RETRY_DELAY_SECS <= i64::MAX,
        now.timestamp < failed_at + RETRY_DELAY_SECS,
    ensures
        planned(now, account.with_ledger(account.ledger.failed(reason, failed_at)), windows)
            == PlanModel::empty(),
{
}

/// Once a plan was carried out, nothing is left to do in the same situation.
pub proof fn law_success_settles_the_plan(
    now: LocalClock,
    account: AccountModel,
    windows: UsageWindows,
    done_at: i64,
)
    requires
        planned(now, account, windows) != PlanModel::empty(),
    ensures
        planned(
            now,
            account.with_ledger(
                account.ledger.succeeded(planned(now, account, windows), done_at),
            ),
            windows,
        ) == PlanModel::empty(),
{
    let plan = planned(now, account, windows);
    assert(!(plan =~= PlanModel::empty()));
    let after = account.with_ledger(account.ledger.succeeded(plan, done_at));
    let next = planned(now, after, windows);
    assert(next.weekly_key is None);
    assert(next.schedule_key is None);
    if plan.weekly_key is Some || plan.schedule_key is Some {
        assert(next.session_key is None);
    }
    assert(next =~= PlanModel::empty());
}

/// A plan never names a window or a slot that is on record as dealt with.
pub proof fn law_nothing_is_started_twice(
    now: LocalClock,
    account: AccountModel,
    windows: UsageWindows,
)
    ensures
        planned(now, account, windows).session_key is Some ==> planned(
            now,
            account,
            windows,
        ).session_key != account.ledger.confirmed_session_key,
        planned(now, account, windows).weekly_key is Some ==> planned(
            now,
            account,
            windows,
        ).weekly_key != account.ledger.confirmed_weekly_key,
        planned(now, account, windows).schedule_key is Some ==> planned(
            now,
            account,
            windows,
        ).schedule_key != account.ledger.last_schedule_key,
{
}

/// A weekly window that should be started is started, whatever the schedule
/// says, gives the reason, and takes a burst window that should be started along.
pub proof fn law_weekly_resets_come_first(
    now: LocalClock,
    account: AccountModel,
    windows: UsageWindows,
)
    requires
        may_warm(now.timestamp as int, account, windows),
        candidate(
            windows.weekly,
            "weekly"@,
            account.ledger.confirmed_weekly_key,
            now.timestamp as int,
        ) is Some,
    ensures
        planned(now, account, windows).weekly_key == candidate(
            windows.weekly,
            "weekly"@,
            account.ledger.confirmed_weekly_key,
            now.timestamp as int,
        ),
        planned(now, account, windows).reason() == WarmReason::WeeklyReset,
        planned(now, account, windows).session_key == candidate(
            windows.session,
            "session"@,
            account.ledger.confirmed_session_key,
            now.timestamp as int,
        ),
{
}

/// A burst window that is started for no other reason ends, with the guard to
/// spare, before the next slot.
pub proof fn law_gaps_keep_clear_of_the_next_slot(
    now: LocalClock,
    account: AccountModel,
    windows: UsageWindows,
)
    requires
        planned(now, account, windows).session_key is Some,
        planned(now, account, windows).reason() == WarmReason::SafeGap,
    ensures
        windows.session is Some,
        windows.session->0.window_duration_mins is Some,
        now.next(account.warmup_times) matches Some(slot) ==> now.timestamp
            + windows.session->0.window_duration_mins->0 * 60 + AUTO_GUARD_SECS <= slot.at,
{
}

/// A slot is not served while a burst window runs that resets before the slot is over.
pub proof fn law_slots_wait_for_a_late_reset(
    now: LocalClock,
    account: AccountModel,
    windows: UsageWindows,
)
    requires
        windows.session is Some,
        windows.session->0.active(now.timestamp as int),
        now.due(account.warmup_times) matches Some(slot) ==> windows.session->0.resets_at->0
            <= slot.at + SCHEDULE_GRACE_SECS,
    ensures
        planned(now, account, windows).schedule_key is None,
{
}

/// A running window that was seen behind a warmup is not started again.
pub proof fn law_warmed_windows_are_left_alone(
    now: LocalClock,
    account: AccountModel,
    windows: UsageWindows,
)
    ensures
        ({
            let after = account.with_ledger(
                account.ledger.warmed(windows, now.timestamp as int),
            );
            let plan = planned(now, after, windows);
            &&& (windows.session matches Some(window) && window.active(now.timestamp as int))
                ==> plan.session_key is None
            &&& (windows.weekly matches Some(window) && window.active(now.timestamp as int))
                ==> plan.weekly_key is None
        }),
{
}

/// A window is taken for started: it runs, and is in use or follows one whose
/// expiry was dealt with.
pub open spec fn seen_running(
    window: Option<LimitWindow>,
    confirmed: Option<Seq<char>>,
    now: int,
) -> bool {
    &&& window matches Some(window)
    &&& window.active(now)
    &&& window.used_percent > 0 || (confirmed matches Some(key) && ends_with_seq(
        key,
        ":expired"@,
    ))
}

/// A window that was seen running is not started again.
pub proof fn law_observed_windows_are_left_alone(
    now: LocalClock,
    account: AccountModel,
    windows: UsageWindows,
)
    ensures
        ({
            let at = now.timestamp as int;
            let plan = planned(
                now,
                account.with_ledger(account.ledger.observed(windows, at)),
                windows,
            );
            &&& seen_running(windows.session, account.ledger.confirmed_session_key, at)
                ==> plan.session_key is None
            &&& seen_running(windows.weekly, account.ledger.confirmed_weekly_key, at)
                ==> plan.weekly_key is None
        }),
{
}

/// A weekly window that has run out is started once: not again while it is
/// still reported, at whatever time, and not again when its successor is seen.
pub proof fn law_expired_weekly_window_starts_once(
    now: LocalClock,
    account: AccountModel,
    windows: UsageWindows,
    done_at: i64,
    later: LocalClock,
    successor: LimitWindow,
)
    requires
        windows.weekly matches Some(window) && window.expired(now.timestamp as int),
        planned(now, account, windows).weekly_key is Some,
        later.timestamp >= now.timestamp,
        successor.active(later.timestamp as int),
    ensures
        ({
            let plan = planned(now, account, windows);
            let done = account.with_ledger(account.ledger.succeeded(plan, done_at));
            let next = UsageWindows { weekly: Some(successor), ..windows };
            let seen = done.with_ledger(done.ledger.observed(next, later.timestamp as int));
            &&& planned(later, done, windows).weekly_key is None
            &&& planned(later, seen, next).weekly_key is None
        }),
{
    let plan = planned(now, account, windows);
    let window = windows.weekly->0;
    let base = window.spec_key("weekly"@)->0;
    lemma_suffix_of_concat(base, ":expired"@);
    assert(plan.weekly_key == Some(base + ":expired"@));
}

/// What runs keeps its own key on record: a key that is confirmed for a running
/// window is never that of an expired one.
pub proof fn law_running_windows_clear_the_expiry_mark(
    ledger: LedgerModel,
    windows: UsageWindows,
    now: int,
)
    requires
        windows.weekly matches Some(window) && window.active(now)
            && window.window_duration_mins is Some,
    ensures
        ledger.observed(windows, now).confirmed_weekly_key matches Some(key)
            ==> !ends_with_seq(key, ":expired"@),
        ledger.warmed(windows, now).confirmed_weekly_key matches Some(key)
            && !ends_with_seq(key, ":expired"@),
{
    let window = windows.weekly->0;
    law_window_key_is_not_expired(
        "weekly"@,
        window.window_duration_mins->0,
        window.resets_at->0,
    );
}

/// A due slot has come and is not over; it is one of today's.
pub proof fn law_due_slots_have_come(now: LocalClock, times: Seq<DailyTime>)
    ensures
        now.due(times) matches Some(slot) ==> {
            &&& slot.at <= now.timestamp <= slot.at + SCHEDULE_GRACE_SECS
            &&& now.day_slots(times, 0).contains(Some(slot))
        },
{
    let slots = now.day_slots(times, 0);
    let wanted = |slot: Option<SlotModel>| is_due(slot, now.timestamp as int);
    if find_first(slots, wanted) is Some {
        let i = lemma_find_first_found(slots, wanted);
        assert(slots[i] == now.due(times));
    }
}

/// The next slot lies ahead and is one of the coming three days'.
pub proof fn law_next_slots_are_ahead(now: LocalClock, times: Seq<DailyTime>)
    ensures
        now.next(times) matches Some(slot) ==> {
            &&& slot.at > now.timestamp
            &&& exists|d: int| 0 <= d < 3 && #[trigger] now.day_slots(times, d).contains(Some(slot))
        },
{
    lemma_next_from_is_ahead(now, times, 0);
}

proof fn lemma_next_from_is_ahead(now: LocalClock, times: Seq<DailyTime>, d: int)
    requires
        0 <= d,
    ensures
        now.next_from(times, d) matches Some(slot) ==> {
            &&& slot.at > now.timestamp
            &&& exists|e: int| d <= e < 3 && #[trigger] now.day_slots(times, e).contains(Some(slot))
        },
    decreases 3 - d,
{
    if d < 3 {
        let slots = now.day_slots(times, d);
        let wanted = |slot: Option<SlotModel>| is_ahead(slot, now.timestamp as int);
        if find_first(slots, wanted) is Some {
            let i = lemma_find_first_found(slots, wanted);
            if now.next_from(times, d) is Some {
                assert(slots[i] == now.next_from(times, d));
                assert(slots.contains(now.next_from(times, d)));
            }
        } else {
            lemma_next_from_is_ahead(now, times, d + 1);
        }
    }
}

/// Where there is no warning, all slots of a sorted schedule are at least a
/// burst window apart, within the day and across midnight.
pub proof fn law_no_warning_means_distinct_windows(times: Seq<DailyTime>, i: int, j: int)
    requires
        times_sorted(times),
        !too_close(times),
        0 <= i < j < times.len(),
    ensures
        times[j].0 - times[i].0 >= SESSION_MINUTES,
        1_440 - times[j].0 + times[i].0 >= SESSION_MINUTES,
{
    assert(times[i + 1].0 - times[i].0 >= SESSION_MINUTES);
    assert(times[i + 1].0 <= times[j].0);
    assert(times[0].0 <= times[i].0);
    assert(times[j].0 <= times.last().0);
}

/// The key under which a window is to be started, if it is to be: it has run out,
/// however much of it was used, or it is unused and all but five minutes of it lie
/// ahead; and it is not on record as dealt with.
pub open spec fn is_to_start(
    window: Option<LimitWindow>,
    kind: Seq<char>,
    confirmed: Option<Seq<char>>,
    now: int,
    key: Seq<char>,
) -> bool {
    &&& window matches Some(window)
    &&& window.window_duration_mins matches Some(length)
    &&& window.resets_at matches Some(reset)
    &&& confirmed != Some(key)
    &&& {
        let name = kind + ":"@ + decimal(length as int) + ":"@ + decimal(reset as int);
        ||| reset <= now && key == name + ":expired"@
        ||| reset > now && key == name && window.used_percent == 0 && reset - now >= length * 60
            - 300
    }
}

/// An account may be warmed: automatic warmups are on, no delay after a failure is
/// running, and the weekly limit is not used up until a reset still ahead.
pub open spec fn is_free_to_warm(
    now: LocalClock,
    account: AccountModel,
    windows: UsageWindows,
) -> bool {
    &&& account.enabled
    &&& account.ledger.retry_after matches Some(retry) ==> retry <= now.timestamp
    &&& windows.weekly matches Some(window) ==> window.used_percent < 100 || (
    window.resets_at matches Some(reset) ==> reset <= now.timestamp)
}

/// A weekly window that is to be started is started, whatever else there is to do;
/// and no other one is.
pub proof fn law_weekly_windows_are_started(
    now: LocalClock,
    account: AccountModel,
    windows: UsageWindows,
    key: Seq<char>,
)
    ensures
        planned(now, account, windows).weekly_key == Some(key) <==> is_free_to_warm(
            now,
            account,
            windows,
        ) && is_to_start(
            windows.weekly,
            "weekly"@,
            account.ledger.confirmed_weekly_key,
            now.timestamp as int,
            key,
        ),
{
}

/// A burst window that is to be started is started along with a weekly window or a
/// slot, or where it ends two minutes before the next slot; and no other one is.
pub proof fn law_burst_windows_are_started(
    now: LocalClock,
    account: AccountModel,
    windows: UsageWindows,
    key: Seq<char>,
)
    ensures
        planned(now, account, windows).session_key == Some(key) <==> {
            &&& is_free_to_warm(now, account, windows)
            &&& is_to_start(
                windows.session,
                "session"@,
                account.ledger.confirmed_session_key,
                now.timestamp as int,
                key,
            )
            &&& {
                ||| planned(now, account, windows).weekly_key is Some
                ||| planned(now, account, windows).schedule_key is Some
                ||| now.next(account.warmup_times) is None
                ||| now.timestamp + windows.session->0.window_duration_mins->0 * 60 + 120
                    <= now.next(account.warmup_times)->0.at
            }
        },
{
}

/// A slot that is due is served, unless it was served before or a running burst
/// window resets within three minutes of it; and no other one is.
pub proof fn law_due_slots_are_served(
    now: LocalClock,
    account: AccountModel,
    windows: UsageWindows,
    key: Seq<char>,
)
    ensures
        planned(now, account, windows).schedule_key == Some(key) <==> {
            &&& is_free_to_warm(now, account, windows)
            &&& now.due(account.warmup_times) matches Some(slot)
            &&& slot.key == key
            &&& account.ledger.last_schedule_key != Some(key)
            &&& !(windows.session is Some && windows.session->0.resets_at is Some
                && now.timestamp < windows.session->0.resets_at->0 <= slot.at + 180)
        },
{
}

/// The reason of a plan is the first thing that it starts: a weekly window, a slot,
/// a burst window.
pub proof fn law_reasons_follow_the_plan(plan: PlanModel)
    ensures
        plan.reason() == WarmReason::WeeklyReset <==> plan.weekly_key is Some,
        plan.reason() == WarmReason::Scheduled <==> plan.weekly_key is None && plan.schedule_key
            is Some,
        plan.reason() == WarmReason::SafeGap <==> plan.weekly_key is None && plan.schedule_key
            is None,
{
}

/// The k-th time of the d-th day is at a moment: the earlier one where the clock
/// shows that time twice.
pub open spec fn is_at(now: LocalClock, d: int, k: int, at: i64) -> bool {
    &&& 0 <= d < now.instants@.len()
    &&& 0 <= k < now.instants@[d]@.len()
    &&& match now.instants@[d]@[k] {
        LocalInstant::Single(only) => at == only,
        LocalInstant::Ambiguous(one, other) => (at == one || at == other) && at <= one && at
            <= other,
        LocalInstant::Missing => false,
    }
}

/// No time of the d-th day, up to the n-th, is at a moment from `from` to `to`.
pub open spec fn none_between(now: LocalClock, d: int, n: int, from: int, to: int) -> bool {
    forall|k: int, at: i64| 0 <= k < n && #[trigger] is_at(now, d, k, at) ==> !(from <= at <= to)
}

proof fn lemma_slot_moments(now: LocalClock, times: Seq<DailyTime>, d: int, k: int)
    requires
        0 <= k < times.len(),
    ensures
        now.day_slots(times, d)[k] matches Some(slot) ==> is_at(now, d, k, slot.at),
        forall|at: i64| #[trigger]
            is_at(now, d, k, at) && i32::MIN <= now.day + d <= i32::MAX && date_text(
                (now.day + d) as i32,
            ) is Some ==> now.day_slots(times, d)[k] == Some(
                SlotModel {
                    at,
                    key: date_text((now.day + d) as i32)->0 + "@"@ + times[k].clock_text(),
                },
            ),
{
}

/// The first time of today that has come, no more than three minutes ago, is due,
/// under its date and its time; without one there is no due slot.
pub proof fn law_slots_are_due_for_three_minutes(
    now: LocalClock,
    times: Seq<DailyTime>,
    k: int,
    at: i64,
)
    ensures
        (date_text(now.day) is Some && 0 <= k < times.len() && is_at(now, 0, k, at) && at
            <= now.timestamp <= at + 180 && none_between(
            now,
            0,
            k,
            now.timestamp - 180,
            now.timestamp as int,
        )) ==> now.due(times) == Some(
            SlotModel { at, key: date_text(now.day)->0 + "@"@ + times[k].clock_text() },
        ),
        none_between(now, 0, times.len() as int, now.timestamp - 180, now.timestamp as int)
            ==> now.due(times) is None,
        date_text(now.day) is None ==> now.due(times) is None,
{
    let slots = now.day_slots(times, 0);
    let wanted = |slot: Option<SlotModel>| is_due(slot, now.timestamp as int);
    assert forall|j: int| 0 <= j < times.len() && wanted(#[trigger] slots[j]) implies slots[j]
        is Some && is_at(now, 0, j, slots[j]->0.at) by {
        lemma_slot_moments(now, times, 0, j);
    }
    if date_text(now.day) is Some && 0 <= k < times.len() && is_at(now, 0, k, at) && at
        <= now.timestamp <= at + 180 && none_between(
        now,
        0,
        k,
        now.timestamp - 180,
        now.timestamp as int,
    ) {
        lemma_slot_moments(now, times, 0, k);
        assert(slots[k] is Some && slots[k]->0.at == at);
        lemma_find_first_at(slots, wanted, k);
    }
    if none_between(now, 0, times.len() as int, now.timestamp - 180, now.timestamp as int) {
        lemma_find_first_none(slots, wanted);
    }
    if date_text(now.day) is None {
        assert forall|j: int| 0 <= j < slots.len() implies !wanted(#[trigger] slots[j]) by {}
        lemma_find_first_none(slots, wanted);
    }
}

/// The first time that lies ahead, day by day over three days, comes next, under
/// its date and its time; without one there is no next slot.
pub proof fn law_next_slots_come_first(
    now: LocalClock,
    times: Seq<DailyTime>,
    d: int,
    k: int,
    at: i64,
)
    requires
        0 <= d < 3,
        now.day + 2 <= i32::MAX,
        forall|e: int| 0 <= e < 3 ==> date_text(#[trigger] ((now.day + e) as i32)) is Some,
    ensures
        (0 <= k < times.len() && is_at(now, d, k, at) && at > now.timestamp && none_between(
            now,
            d,
            k,
            now.timestamp + 1,
            i64::MAX as int,
        ) && (forall|e: int|
            0 <= e < d ==> #[trigger] none_between(
                now,
                e,
                times.len() as int,
                now.timestamp + 1,
                i64::MAX as int,
            ))) ==> now.next(times) == Some(
            SlotModel {
                at,
                key: date_text((now.day + d) as i32)->0 + "@"@ + times[k].clock_text(),
            },
        ),
        (forall|e: int|
            0 <= e < 3 ==> #[trigger] none_between(
                now,
                e,
                times.len() as int,
                now.timestamp + 1,
                i64::MAX as int,
            )) ==> now.next(times) is None,
{
    reveal_with_fuel(LocalClock::next_from, 4);
    let wanted = |slot: Option<SlotModel>| is_ahead(slot, now.timestamp as int);
    assert forall|e: int| 0 <= e < 3 && #[trigger] none_between(
        now,
        e,
        times.len() as int,
        now.timestamp + 1,
        i64::MAX as int,
    ) implies find_first(now.day_slots(times, e), wanted) is None by {
        let slots = now.day_slots(times, e);
        assert forall|j: int| 0 <= j < slots.len() implies !wanted(#[trigger] slots[j]) by {
            lemma_slot_moments(now, times, e, j);
        }
        lemma_find_first_none(slots, wanted);
    }
    if 0 <= k < times.len() && is_at(now, d, k, at) && at > now.timestamp && none_between(
        now,
        d,
        k,
        now.timestamp + 1,
        i64::MAX as int,
    ) {
        let slots = now.day_slots(times, d);
        assert(date_text((now.day + d) as i32) is Some);
        lemma_slot_moments(now, times, d, k);
        assert forall|j: int| 0 <= j < k implies !wanted(#[trigger] slots[j]) by {
            lemma_slot_moments(now, times, d, j);
        }
        lemma_find_first_at(slots, wanted, k);
    }
    assert(date_text((now.day + 0) as i32) is Some);
    assert(date_text((now.day + 1) as i32) is Some);
    assert(date_text((now.day + 2) as i32) is Some);
    if forall|e: int|
        0 <= e < d ==> #[trigger] none_between(
            now,
            e,
            times.len() as int,
            now.timestamp + 1,
            i64::MAX as int,
        ) {
        if d > 0 {
            assert(none_between(now, 0, times.len() as int, now.timestamp + 1, i64::MAX as int));
        }
        if d > 1 {
            assert(none_between(now, 1, times.len() as int, now.timestamp + 1, i64::MAX as int));
        }
    }
    if forall|e: int|
        0 <= e < 3 ==> #[trigger] none_between(
            now,
            e,
            times.len() as int,
            now.timestamp + 1,
            i64::MAX as int,
        ) {
        assert(none_between(now, 0, times.len() as int, now.timestamp + 1, i64::MAX as int));
        assert(none_between(now, 1, times.len() as int, now.timestamp + 1, i64::MAX as int));
        assert(none_between(now, 2, times.len() as int, now.timestamp + 1, i64::MAX as int));
    }
}

/// A schedule is warned of exactly where two of its slots that follow each other,
/// in the day or across midnight, are less than five hours apart.
pub proof fn law_close_slots_are_warned_of(times: Seq<DailyTime>, i: int)
    ensures
        (0 <= i && i + 1 < times.len() && times[i + 1].0 - times[i].0 < 300) ==> too_close(times),
        (times.len() >= 2 && times[0].0 + 1_440 - times[times.len() - 1].0 < 300) ==> too_close(
            times,
        ),
        too_close(times) ==> times.len() >= 2 && ((exists|j: int|
            0 <= j && j + 1 < times.len() && (#[trigger] times[j + 1]).0 - times[j].0 < 300)
            || times[0].0 + 1_440 - times[times.len() - 1].0 < 300),
{
    if 0 <= i && i + 1 < times.len() && times[i + 1].0 - times[i].0 < 300 {
        assert(times[i + 1].0 - times[i].0 < SESSION_MINUTES);
    }
}

} // verus!
