//! Accounts: their schedule, the record of their warmups and their usage.

use vstd::prelude::*;

use crate::history::{UsageHistory, UsageModel};
use crate::plan::{PlanModel, WarmPlan, WarmReason};
use crate::snapshot::{AccountSnapshot, SnapshotModel};
use crate::search::{lemma_filter_start, lemma_filter_step};
use crate::text::{
    copy_text, decimal, ends_with_seq, ends_with_text, opt_text, trim_text, trimmed,
};
use crate::time::DailyTime;
use crate::window::{LimitWindow, UsageWindows};

verus! {

/// Seconds between two looks at the limits, unless set otherwise.
pub const DEFAULT_REFRESH_INTERVAL_SECS: u64 = 60;

/// Seconds to wait after a warmup that failed.
pub const RETRY_DELAY_SECS: i64 = 60;

/// The outcome of a warmup.
#[derive(Clone, Copy, Debug)]
pub struct WarmRecord {
    pub at: i64,
    pub reason: WarmReason,
    pub success: bool,
}

/// Which windows and slots are dealt with.
#[derive(Debug)]
pub struct WarmLedger {
    pub confirmed_session_key: Option<String>,
    pub confirmed_weekly_key: Option<String>,
    pub last_schedule_key: Option<String>,
    pub retry_after: Option<i64>,
    pub last_warmup: Option<WarmRecord>,
}

/// The contents of a [`WarmLedger`].
#[verifier::ext_equal]
pub struct LedgerModel {
    pub confirmed_session_key: Option<Seq<char>>,
    pub confirmed_weekly_key: Option<Seq<char>>,
    pub last_schedule_key: Option<Seq<char>>,
    pub retry_after: Option<i64>,
    pub last_warmup: Option<WarmRecord>,
}

impl View for WarmLedger {
    type V = LedgerModel;

    open spec fn view(&self) -> LedgerModel {
        LedgerModel {
            confirmed_session_key: opt_text(self.confirmed_session_key),
            confirmed_weekly_key: opt_text(self.confirmed_weekly_key),
            last_schedule_key: opt_text(self.last_schedule_key),
            retry_after: self.retry_after,
            last_warmup: self.last_warmup,
        }
    }
}

impl Clone for WarmLedger {
    fn clone(&self) -> (copy: Self)
        ensures
            copy@ == self@,
    {
        WarmLedger {
            confirmed_session_key: copy_text(&self.confirmed_session_key),
            confirmed_weekly_key: copy_text(&self.confirmed_weekly_key),
            last_schedule_key: copy_text(&self.last_schedule_key),
            retry_after: self.retry_after,
            last_warmup: self.last_warmup,
        }
    }
}

impl Default for WarmLedger {
    fn default() -> (ledger: Self)
        ensures
            ledger@ == LedgerModel::empty(),
    {
        WarmLedger {
            confirmed_session_key: None,
            confirmed_weekly_key: None,
            last_schedule_key: None,
            retry_after: None,
            last_warmup: None,
        }
    }
}

/// The key that is confirmed once a window was seen. A window in use is
/// confirmed; so is an unused one that follows a warmup of its expired predecessor.
pub open spec fn observed_key(
    confirmed: Option<Seq<char>>,
    window: Option<LimitWindow>,
    kind: Seq<char>,
    now: int,
) -> Option<Seq<char>> {
    match window {
        Some(window) => if window.active(now) && (window.used_percent > 0 || (
        confirmed matches Some(key) && ends_with_seq(key, ":expired"@))) {
            window.spec_key(kind)
        } else {
            confirmed
        },
        None => confirmed,
    }
}

/// The key that is confirmed once a window was seen after a warmup.
pub open spec fn warmed_key(
    confirmed: Option<Seq<char>>,
    window: Option<LimitWindow>,
    kind: Seq<char>,
    now: int,
) -> Option<Seq<char>> {
    match window {
        Some(window) => if window.active(now) && window.spec_key(kind) is Some {
            window.spec_key(kind)
        } else {
            confirmed
        },
        None => confirmed,
    }
}

/// `key`, or `other` when there is none.
pub open spec fn or_key(key: Option<Seq<char>>, other: Option<Seq<char>>) -> Option<Seq<char>> {
    if key is Some {
        key
    } else {
        other
    }
}

impl LedgerModel {
    pub open spec fn empty() -> LedgerModel {
        LedgerModel {
            confirmed_session_key: None,
            confirmed_weekly_key: None,
            last_schedule_key: None,
            retry_after: None,
            last_warmup: None,
        }
    }

    /// The ledger after the windows were seen.
    pub open spec fn observed(self, windows: UsageWindows, now: int) -> LedgerModel {
        LedgerModel {
            confirmed_session_key: observed_key(
                self.confirmed_session_key,
                windows.session,
                "session"@,
                now,
            ),
            confirmed_weekly_key: observed_key(
                self.confirmed_weekly_key,
                windows.weekly,
                "weekly"@,
                now,
            ),
            ..self
        }
    }

    /// The ledger after the windows were seen behind a warmup.
    pub open spec fn warmed(self, windows: UsageWindows, now: int) -> LedgerModel {
        LedgerModel {
            confirmed_session_key: warmed_key(
                self.confirmed_session_key,
                windows.session,
                "session"@,
                now,
            ),
            confirmed_weekly_key: warmed_key(
                self.confirmed_weekly_key,
                windows.weekly,
                "weekly"@,
                now,
            ),
            ..self
        }
    }

    /// The ledger after a planned warmup went well.
    pub open spec fn succeeded(self, plan: PlanModel, now: i64) -> LedgerModel {
        LedgerModel {
            confirmed_session_key: or_key(plan.session_key, self.confirmed_session_key),
            confirmed_weekly_key: or_key(plan.weekly_key, self.confirmed_weekly_key),
            last_schedule_key: or_key(plan.schedule_key, self.last_schedule_key),
            retry_after: None,
            last_warmup: Some(WarmRecord { at: now, reason: plan.reason(), success: true }),
        }
    }

    /// The ledger after a warmup failed.
    pub open spec fn failed(self, reason: WarmReason, now: i64) -> LedgerModel {
        LedgerModel {
            retry_after: Some((now + RETRY_DELAY_SECS) as i64),
            last_warmup: Some(WarmRecord { at: now, reason, success: false }),
            ..self
        }
    }

    /// The ledger after a warmup that somebody asked for went well.
    pub open spec fn manually_warmed(self, now: i64) -> LedgerModel {
        LedgerModel {
            retry_after: None,
            last_warmup: Some(WarmRecord { at: now, reason: WarmReason::Manual, success: true }),
            ..self
        }
    }
}

/// An account with its schedule and its records.
#[derive(Debug)]
pub struct Account {
    pub id: String,
    pub label: String,
    pub email: Option<String>,
    pub plan: Option<String>,
    pub connected: bool,
    pub enabled: bool,
    pub warmup_times: Vec<DailyTime>,
    pub ledger: WarmLedger,
    pub usage_history: UsageHistory,
}

/// The contents of an [`Account`].
#[verifier::ext_equal]
pub struct AccountModel {
    pub id: Seq<char>,
    pub label: Seq<char>,
    pub email: Option<Seq<char>>,
    pub plan: Option<Seq<char>>,
    pub connected: bool,
    pub enabled: bool,
    pub warmup_times: Seq<DailyTime>,
    pub ledger: LedgerModel,
    pub usage_history: UsageModel,
}

impl View for Account {
    type V = AccountModel;

    open spec fn view(&self) -> AccountModel {
        AccountModel {
            id: self.id@,
            label: self.label@,
            email: opt_text(self.email),
            plan: opt_text(self.plan),
            connected: self.connected,
            enabled: self.enabled,
            warmup_times: self.warmup_times@,
            ledger: self.ledger@,
            usage_history: self.usage_history@,
        }
    }
}

impl AccountModel {
    /// A new account: enabled, not connected, with nothing on record.
    pub open spec fn fresh(id: Seq<char>, label: Seq<char>) -> AccountModel {
        AccountModel {
            id,
            label,
            email: None,
            plan: None,
            connected: false,
            enabled: true,
            warmup_times: Seq::empty(),
            ledger: LedgerModel::empty(),
            usage_history: UsageModel::empty(),
        }
    }

    pub open spec fn with_ledger(self, ledger: LedgerModel) -> AccountModel {
        AccountModel { ledger, ..self }
    }

    /// The account as if no slot had been served yet.
    pub open spec fn with_nothing_served(self) -> AccountModel {
        self.with_ledger(LedgerModel { last_schedule_key: None, ..self.ledger })
    }

    /// The account with what its provider tells of it on record.
    pub open spec fn applied(self, snapshot: SnapshotModel, now: i64) -> AccountModel {
        AccountModel {
            email: snapshot.email,
            plan: snapshot.plan,
            usage_history: self.usage_history.recorded(snapshot.limits, now),
            ..self
        }
    }

    /// The account once its provider has answered: it is connected, and its
    /// running windows are noted.
    pub open spec fn seen(self, snapshot: SnapshotModel, now: i64) -> AccountModel {
        let account = AccountModel { connected: true, ..self.applied(snapshot, now) };
        account.with_ledger(account.ledger.observed(snapshot.limits, now as int))
    }

    /// The account once a warmup was followed by a look at its limits.
    pub open spec fn warmed(self, snapshot: SnapshotModel, now: i64) -> AccountModel {
        let account = self.applied(snapshot, now);
        account.with_ledger(
            account.ledger.observed(snapshot.limits, now as int).warmed(
                snapshot.limits,
                now as int,
            ),
        )
    }
}

/// The times stand in the order of the day.
pub open spec fn times_sorted(times: Seq<DailyTime>) -> bool {
    forall|i: int, j: int|
        0 <= i <= j < times.len() ==> #[trigger] times[i].0 <= #[trigger] times[j].0
}

/// The times in the order of the day.
pub open spec fn in_day_order(times: Seq<DailyTime>) -> Seq<DailyTime> {
    times.sort_by(|a: DailyTime, b: DailyTime| a.0 <= b.0)
}

/// A schedule with one more time, unless it is there.
pub open spec fn with_time(times: Seq<DailyTime>, time: DailyTime) -> Seq<DailyTime> {
    if times.contains(time) {
        times
    } else {
        in_day_order(times.push(time))
    }
}

/// A schedule with more times, each added unless it is there.
pub open spec fn with_times(times: Seq<DailyTime>, more: Seq<DailyTime>) -> Seq<DailyTime>
    decreases more.len(),
{
    if more.len() == 0 {
        times
    } else {
        with_time(with_times(times, more.drop_last()), more.last())
    }
}

/// Times that stand in the order of the day are what sorting makes of them.
pub proof fn lemma_day_order(times: Seq<DailyTime>, sorted: Seq<DailyTime>)
    requires
        times_sorted(sorted),
        sorted.to_multiset() == times.to_multiset(),
    ensures
        sorted == in_day_order(times),
{
    let order = |a: DailyTime, b: DailyTime| a.0 <= b.0;
    times.lemma_sort_by_ensures(order);
    vstd::seq_lib::lemma_sorted_unique(sorted, in_day_order(times), order);
}

/// A copy of a list of times.
pub fn copy_times(times: &Vec<DailyTime>) -> (copy: Vec<DailyTime>)
    ensures
        copy@ == times@,
{
    let mut copy: Vec<DailyTime> = Vec::new();
    let mut i: usize = 0;
    while i < times.len()
        invariant
            i <= times.len(),
            copy@ == times@.take(i as int),
        decreases times.len() - i,
    {
        copy.push(times[i]);
        i = i + 1;
    }
    assert(times@.take(times@.len() as int) =~= times@);
    copy
}

/// Puts one time in its place.
fn insert_time(times: &mut Vec<DailyTime>, time: DailyTime)
    requires
        times_sorted(old(times)@),
    ensures
        times_sorted(final(times)@),
        final(times)@.to_multiset() == old(times)@.to_multiset().insert(time),
{
    let mut at: usize = 0;
    while at < times.len() && times[at].0 <= time.0
        invariant
            at <= times.len(),
            times@ == old(times)@,
            forall|j: int| 0 <= j < at ==> #[trigger] times[j].0 <= time.0,
        decreases times.len() - at,
    {
        at = at + 1;
    }
    let ghost before = times@;
    times.insert(at, time);
    proof {
        broadcast use vstd::seq_lib::group_to_multiset_ensures;

        let after = times@;
        assert(after == before.insert(at as int, time));
        assert(after.remove(at as int) =~= before);
        assert(after[at as int] == time);
        after.to_multiset_ensures();
        assert(before.to_multiset() =~= after.to_multiset().remove(time));
        assert(after.contains(time));
        assert(after.to_multiset() =~= before.to_multiset().insert(time));
        assert forall|i: int, j: int| 0 <= i <= j < after.len() implies #[trigger] after[i].0
            <= #[trigger] after[j].0 by {
            let oi = if i < at { i } else { i - 1 };
            let oj = if j < at { j } else { j - 1 };
            if i != at {
                assert(after[i] == before[oi]);
            }
            if j != at {
                assert(after[j] == before[oj]);
            }
            if j == at && i < at {
                assert(before[i].0 <= time.0);
            }
            if i == at && j > at {
                assert(before[at as int].0 <= before[oj].0);
            }
        }
    }
}

/// Puts times in the order of the day.
pub fn sort_times(times: &mut Vec<DailyTime>)
    ensures
        final(times)@ == in_day_order(old(times)@),
        times_sorted(final(times)@),
        final(times)@.to_multiset() == old(times)@.to_multiset(),
{
    let mut sorted: Vec<DailyTime> = Vec::new();
    let mut i: usize = 0;
    assert(times@.take(0) =~= Seq::<DailyTime>::empty());
    while i < times.len()
        invariant
            i <= times.len(),
            times@ == old(times)@,
            times_sorted(sorted@),
            sorted@.to_multiset() == times@.take(i as int).to_multiset(),
        decreases times.len() - i,
    {
        let time: DailyTime = times[i];
        insert_time(&mut sorted, time);
        proof {
            assert(times@.take(i + 1) =~= times@.take(i as int).push(time));
            times@.take(i as int).to_multiset_ensures();
        }
        i = i + 1;
    }
    assert(times@.take(times@.len() as int) =~= times@);
    proof {
        lemma_day_order(times@, sorted@);
    }
    *times = sorted;
}

fn has_time(times: &Vec<DailyTime>, time: DailyTime) -> (found: bool)
    ensures
        found == times@.contains(time),
{
    let mut i: usize = 0;
    while i < times.len()
        invariant
            i <= times.len(),
            forall|j: int| 0 <= j < i ==> times[j] != time,
        decreases times.len() - i,
    {
        if times[i].0 == time.0 {
            assert(times@[i as int] == time);
            return true;
        }
        i = i + 1;
    }
    false
}

/// The key that is confirmed once a window was seen.
fn observe_key(
    confirmed: &Option<String>,
    window: &Option<LimitWindow>,
    kind: &str,
    now: i64,
) -> (key: Option<String>)
    ensures
        opt_text(key) == observed_key(opt_text(*confirmed), *window, kind@, now as int),
{
    match window {
        Some(window) => {
            let follows_expired: bool = match confirmed {
                Some(key) => ends_with_text(key.as_str(), ":expired"),
                None => false,
            };
            if window.is_active(now) && (window.used_percent > 0 || follows_expired) {
                window.key(kind)
            } else {
                copy_text(confirmed)
            }
        },
        None => copy_text(confirmed),
    }
}

/// The key that is confirmed once a window was seen after a warmup.
fn warm_key(
    confirmed: &Option<String>,
    window: &Option<LimitWindow>,
    kind: &str,
    now: i64,
) -> (key: Option<String>)
    ensures
        opt_text(key) == warmed_key(opt_text(*confirmed), *window, kind@, now as int),
{
    match window {
        Some(window) => if window.is_active(now) {
            match window.key(kind) {
                Some(key) => Some(key),
                None => copy_text(confirmed),
            }
        } else {
            copy_text(confirmed)
        },
        None => copy_text(confirmed),
    }
}

impl Default for Account {
    fn default() -> (account: Self)
        ensures
            account@ == AccountModel::fresh(Seq::empty(), Seq::empty()),
    {
        Account {
            id: String::new(),
            label: String::new(),
            email: None,
            plan: None,
            connected: false,
            enabled: true,
            warmup_times: Vec::new(),
            ledger: WarmLedger::default(),
            usage_history: UsageHistory::default(),
        }
    }
}

impl Clone for Account {
    fn clone(&self) -> (copy: Self)
        ensures
            copy@ == self@,
    {
        Account {
            id: self.id.clone(),
            label: self.label.clone(),
            email: copy_text(&self.email),
            plan: copy_text(&self.plan),
            connected: self.connected,
            enabled: self.enabled,
            warmup_times: copy_times(&self.warmup_times),
            ledger: self.ledger.clone(),
            usage_history: self.usage_history.clone(),
        }
    }
}

impl Account {
    /// A new account under a label, without white space around it.
    pub fn new(id: String, label: String) -> (account: Self)
        ensures
            account@ == AccountModel::fresh(id@, trimmed(label@)),
    {
        let label = trim_text(label.as_str());
        Account {
            id,
            label,
            email: None,
            plan: None,
            connected: false,
            enabled: true,
            warmup_times: Vec::new(),
            ledger: WarmLedger::default(),
            usage_history: UsageHistory::default(),
        }
    }

    /// Adds a time to the schedule, unless it is there, and sorts the schedule.
    pub fn add_time(&mut self, time: DailyTime)
        ensures
            final(self)@.warmup_times == with_time(old(self)@.warmup_times, time),
            ({
                let before = old(self)@.warmup_times;
                let after = final(self)@.warmup_times;
                if before.contains(time) {
                    after == before
                } else {
                    &&& times_sorted(after)
                    &&& after.to_multiset() == before.to_multiset().insert(time)
                }
            }),
            times_sorted(old(self)@.warmup_times) ==> times_sorted(final(self)@.warmup_times),
            old(self)@.warmup_times.no_duplicates() ==> final(self)@.warmup_times.no_duplicates(),
            final(self)@ == (AccountModel {
                warmup_times: final(self)@.warmup_times,
                ..old(self)@
            }),
    {
        if !has_time(&self.warmup_times, time) {
            let ghost before = self.warmup_times@;
            self.warmup_times.push(time);
            proof {
                before.to_multiset_ensures();
            }
            sort_times(&mut self.warmup_times);
            proof {
                if before.no_duplicates() {
                    let after = self.warmup_times@;
                    before.lemma_multiset_has_no_duplicates();
                    assert(before.to_multiset().count(time) == 0);
                    assert forall|x: DailyTime| after.to_multiset().contains(
                        x,
                    ) implies after.to_multiset().count(x) == 1 by {
                        if x != time {
                            assert(before.to_multiset().contains(x));
                        }
                    }
                    after.lemma_multiset_has_no_duplicates_conv();
                }
            }
        }
    }

    /// Takes a time out of the schedule.
    pub fn remove_time(&mut self, time: DailyTime)
        ensures
            final(self)@ == (AccountModel {
                warmup_times: old(self)@.warmup_times.filter(|other: DailyTime| other != time),
                ..old(self)@
            }),
    {
        let ghost keep = |other: DailyTime| other != time;
        let mut kept: Vec<DailyTime> = Vec::new();
        let mut i: usize = 0;
        proof {
            lemma_filter_start(self.warmup_times@, keep);
        }
        while i < self.warmup_times.len()
            invariant
                i <= self.warmup_times.len(),
                *self == *old(self),
                keep == (|other: DailyTime| other != time),
                kept@ == self.warmup_times@.take(i as int).filter(keep),
            decreases self.warmup_times.len() - i,
        {
            let other: DailyTime = self.warmup_times[i];
            proof {
                lemma_filter_step(self.warmup_times@, keep, i as int);
            }
            if other.0 != time.0 {
                kept.push(other);
            }
            i = i + 1;
        }
        assert(self.warmup_times@.take(self.warmup_times@.len() as int) =~= self.warmup_times@);
        self.warmup_times = kept;
    }

    /// Notes the windows that are running.
    pub fn observe_active_windows(&mut self, windows: &UsageWindows, now: i64)
        ensures
            final(self)@
                == old(self)@.with_ledger(old(self)@.ledger.observed(*windows, now as int)),
    {
        self.ledger.confirmed_session_key = observe_key(
            &self.ledger.confirmed_session_key,
            &windows.session,
            "session",
            now,
        );
        self.ledger.confirmed_weekly_key = observe_key(
            &self.ledger.confirmed_weekly_key,
            &windows.weekly,
            "weekly",
            now,
        );
    }

    /// Notes the windows that a warmup has started.
    pub fn confirm_warmed_windows(&mut self, windows: &UsageWindows, now: i64)
        ensures
            final(self)@ == old(self)@.with_ledger(old(self)@.ledger.warmed(*windows, now as int)),
    {
        self.ledger.confirmed_session_key = warm_key(
            &self.ledger.confirmed_session_key,
            &windows.session,
            "session",
            now,
        );
        self.ledger.confirmed_weekly_key = warm_key(
            &self.ledger.confirmed_weekly_key,
            &windows.weekly,
            "weekly",
            now,
        );
    }

    /// Notes that a planned warmup went well.
    pub fn record_success(&mut self, plan: &WarmPlan, now: i64)
        ensures
            final(self)@ == old(self)@.with_ledger(old(self)@.ledger.succeeded(plan@, now)),
    {
        if plan.session_key.is_some() {
            self.ledger.confirmed_session_key = copy_text(&plan.session_key);
        }
        if plan.weekly_key.is_some() {
            self.ledger.confirmed_weekly_key = copy_text(&plan.weekly_key);
        }
        if plan.schedule_key.is_some() {
            self.ledger.last_schedule_key = copy_text(&plan.schedule_key);
        }
        self.ledger.retry_after = None;
        self.ledger.last_warmup = Some(
            WarmRecord { at: now, reason: plan.reason(), success: true },
        );
    }

    /// Notes that a warmup failed, and puts the next one off.
    pub fn record_failure(&mut self, reason: WarmReason, now: i64)
        requires
            now + RETRY_DELAY_SECS <= i64::MAX,
        ensures
            final(self)@ == old(self)@.with_ledger(old(self)@.ledger.failed(reason, now)),
    {
        self.ledger.retry_after = Some(now + RETRY_DELAY_SECS);
        self.ledger.last_warmup = Some(WarmRecord { at: now, reason, success: false });
    }

    /// Notes that a warmup that somebody asked for went well.
    pub fn record_manual_success(&mut self, now: i64)
        ensures
            final(self)@ == old(self)@.with_ledger(old(self)@.ledger.manually_warmed(now)),
    {
        self.ledger.retry_after = None;
        self.ledger.last_warmup = Some(
            WarmRecord { at: now, reason: WarmReason::Manual, success: true },
        );
    }

    /// Notes how much of both windows is used.
    pub fn record_usage(&mut self, windows: &UsageWindows, now: i64)
        ensures
            final(self)@ == (AccountModel {
                usage_history: old(self)@.usage_history.recorded(*windows, now),
                ..old(self)@
            }),
    {
        self.usage_history.session.record(windows.session, "session", now);
        self.usage_history.weekly.record(windows.weekly, "weekly", now);
    }
}

/// Puts on record what a provider tells of an account.
pub fn apply_snapshot(account: &mut Account, snapshot: &AccountSnapshot, now: i64)
    ensures
        final(account)@ == old(account)@.applied(snapshot@, now),
{
    account.email = copy_text(&snapshot.email);
    account.plan = copy_text(&snapshot.plan);
    account.record_usage(&snapshot.limits, now);
}

/// Everything that is kept between two runs.
#[derive(Debug)]
pub struct AppConfig {
    pub version: u8,
    pub refresh_interval_secs: u64,
    pub accounts: Vec<Account>,
}

impl Default for AppConfig {
    fn default() -> (config: Self)
        ensures
            config.version == 1,
            config.refresh_interval_secs == DEFAULT_REFRESH_INTERVAL_SECS,
            config.accounts@.len() == 0,
    {
        AppConfig {
            version: 1,
            refresh_interval_secs: DEFAULT_REFRESH_INTERVAL_SECS,
            accounts: Vec::new(),
        }
    }
}

/// A schedule in the order of the day, with each time once, stays so when a time
/// is added and when one is taken out.
pub proof fn law_schedules_stay_in_order(times: Seq<DailyTime>, time: DailyTime)
    requires
        times_sorted(times),
        times.no_duplicates(),
    ensures
        times_sorted(with_time(times, time)),
        with_time(times, time).no_duplicates(),
        with_time(times, time).contains(time),
        times_sorted(times.filter(|other: DailyTime| other != time)),
        times.filter(|other: DailyTime| other != time).no_duplicates(),
        !times.filter(|other: DailyTime| other != time).contains(time),
{
    let order = |a: DailyTime, b: DailyTime| a.0 <= b.0;
    let keep = |other: DailyTime| other != time;
    if !times.contains(time) {
        let more = times.push(time);
        let after = in_day_order(more);
        more.lemma_sort_by_ensures(order);
        assert forall|i: int, j: int| 0 <= i <= j < after.len() implies #[trigger] after[i].0
            <= #[trigger] after[j].0 by {
            if i < j {
                assert(order(after[i], after[j]));
            }
        }
        more.to_multiset_ensures();
        after.to_multiset_ensures();
        assert(more[more.len() - 1] == time);
        assert(after.to_multiset().count(time) > 0);
        assert(more.no_duplicates());
        more.lemma_multiset_has_no_duplicates();
        after.lemma_multiset_has_no_duplicates_conv();
    }
    lemma_filter_keeps_order(times, keep);
    if times.filter(keep).contains(time) {
        let at = choose|i: int| 0 <= i < times.filter(keep).len() && times.filter(keep)[i] == time;
        times.lemma_filter_pred(keep, at);
    }
}

proof fn lemma_filter_keeps_order(times: Seq<DailyTime>, keep: spec_fn(DailyTime) -> bool)
    requires
        times_sorted(times),
        times.no_duplicates(),
    ensures
        times_sorted(times.filter(keep)),
        times.filter(keep).no_duplicates(),
        forall|time: DailyTime| #[trigger]
            times.filter(keep).contains(time) ==> times.contains(time),
    decreases times.len(),
{
    reveal(Seq::filter);
    if times.len() > 0 {
        let head = times.drop_last();
        let kept = head.filter(keep);
        let after = times.filter(keep);
        assert forall|i: int, j: int| 0 <= i <= j < head.len() implies #[trigger] head[i].0
            <= #[trigger] head[j].0 by {
            assert(times[i].0 <= times[j].0);
        }
        assert forall|i: int, j: int|
            0 <= i < head.len() && 0 <= j < head.len() && i != j implies head[i] != head[j] by {
            assert(times[i] != times[j]);
        }
        lemma_filter_keeps_order(head, keep);
        let last = times[times.len() - 1];
        assert forall|k: int| 0 <= k < kept.len() implies (#[trigger] kept[k]).0 <= last.0
            && kept[k] != last by {
            assert(kept.contains(kept[k]));
            let at = choose|i: int| 0 <= i < head.len() && head[i] == kept[k];
            assert(times[at].0 <= times[times.len() - 1].0);
            assert(times[at] != times[times.len() - 1]);
        }
        assert forall|time: DailyTime| #[trigger] after.contains(time) implies times.contains(
            time,
        ) by {
            let k = choose|i: int| 0 <= i < after.len() && after[i] == time;
            if k < kept.len() {
                assert(kept.contains(time));
                let at = choose|i: int| 0 <= i < head.len() && head[i] == time;
                assert(times[at] == time);
            } else {
                assert(times[times.len() - 1] == time);
            }
        }
    }
}

/// The name of a window of known reset: its kind, its length and its reset; without
/// a length it has none.
pub open spec fn name_of(window: LimitWindow, kind: Seq<char>) -> Option<Seq<char>> {
    match (window.window_duration_mins, window.resets_at) {
        (Some(length), Some(reset)) => Some(
            kind + ":"@ + decimal(length as int) + ":"@ + decimal(reset as int),
        ),
        _ => None,
    }
}

/// The record of one window after it was seen: its name, where its reset lies ahead
/// and it is in use or follows one whose expiry is on record; else what it was.
pub open spec fn is_noted(
    before: Option<Seq<char>>,
    after: Option<Seq<char>>,
    window: Option<LimitWindow>,
    kind: Seq<char>,
    now: int,
) -> bool {
    if window is Some && window->0.resets_at is Some && window->0.resets_at->0 > now && (
    window->0.used_percent > 0 || (before matches Some(key) && ends_with_seq(key, ":expired"@))) {
        after == name_of(window->0, kind)
    } else {
        after == before
    }
}

/// The record of one window after a warmup: its name, where its reset lies ahead,
/// used or not; else what it was.
pub open spec fn is_confirmed(
    before: Option<Seq<char>>,
    after: Option<Seq<char>>,
    window: Option<LimitWindow>,
    kind: Seq<char>,
    now: int,
) -> bool {
    if window is Some && window->0.resets_at is Some && window->0.resets_at->0 > now
        && window->0.window_duration_mins is Some {
        after == name_of(window->0, kind)
    } else {
        after == before
    }
}

/// Seeing the windows, with or without a warmup before, puts each of them on
/// record under its own name and touches nothing else in the ledger.
pub proof fn law_running_windows_are_noted(
    ledger: LedgerModel,
    windows: UsageWindows,
    now: int,
)
    ensures
        ({
            let seen = ledger.observed(windows, now);
            &&& is_noted(
                ledger.confirmed_session_key,
                seen.confirmed_session_key,
                windows.session,
                "session"@,
                now,
            )
            &&& is_noted(
                ledger.confirmed_weekly_key,
                seen.confirmed_weekly_key,
                windows.weekly,
                "weekly"@,
                now,
            )
            &&& seen.last_schedule_key == ledger.last_schedule_key
            &&& seen.retry_after == ledger.retry_after
            &&& seen.last_warmup == ledger.last_warmup
        }),
        ({
            let warm = ledger.warmed(windows, now);
            &&& is_confirmed(
                ledger.confirmed_session_key,
                warm.confirmed_session_key,
                windows.session,
                "session"@,
                now,
            )
            &&& is_confirmed(
                ledger.confirmed_weekly_key,
                warm.confirmed_weekly_key,
                windows.weekly,
                "weekly"@,
                now,
            )
            &&& warm.last_schedule_key == ledger.last_schedule_key
            &&& warm.retry_after == ledger.retry_after
            &&& warm.last_warmup == ledger.last_warmup
        }),
{
}

/// A warmup that went well puts on record everything that its plan started and
/// nothing else, ends any delay, and is remembered with its moment and its reason.
pub proof fn law_successes_are_recorded(ledger: LedgerModel, plan: PlanModel, now: i64)
    ensures
        ({
            let done = ledger.succeeded(plan, now);
            &&& plan.session_key is Some ==> done.confirmed_session_key == plan.session_key
            &&& plan.session_key is None ==> done.confirmed_session_key
                == ledger.confirmed_session_key
            &&& plan.weekly_key is Some ==> done.confirmed_weekly_key == plan.weekly_key
            &&& plan.weekly_key is None ==> done.confirmed_weekly_key
                == ledger.confirmed_weekly_key
            &&& plan.schedule_key is Some ==> done.last_schedule_key == plan.schedule_key
            &&& plan.schedule_key is None ==> done.last_schedule_key == ledger.last_schedule_key
            &&& done.retry_after is None
            &&& done.last_warmup matches Some(record) && record.success && record.at == now && (
            if plan.weekly_key is Some {
                record.reason == WarmReason::WeeklyReset
            } else if plan.schedule_key is Some {
                record.reason == WarmReason::Scheduled
            } else {
                record.reason == WarmReason::SafeGap
            })
        }),
        ({
            let done = ledger.manually_warmed(now);
            &&& done.confirmed_session_key == ledger.confirmed_session_key
            &&& done.confirmed_weekly_key == ledger.confirmed_weekly_key
            &&& done.last_schedule_key == ledger.last_schedule_key
            &&& done.retry_after is None
            &&& done.last_warmup matches Some(record) && record.success && record.at == now
                && record.reason == WarmReason::Manual
        }),
{
}

/// A warmup that failed is remembered with its moment and its reason, puts the next
/// one off for a minute, and puts nothing on record as started.
pub proof fn law_failures_are_recorded(ledger: LedgerModel, reason: WarmReason, now: i64)
    requires
        now + 60 <= i64::MAX,
    ensures
        ({
            let after = ledger.failed(reason, now);
            &&& after.confirmed_session_key == ledger.confirmed_session_key
            &&& after.confirmed_weekly_key == ledger.confirmed_weekly_key
            &&& after.last_schedule_key == ledger.last_schedule_key
            &&& after.retry_after matches Some(retry) && retry == now + 60
            &&& after.last_warmup matches Some(record) && !record.success && record.at == now
                && record.reason == reason
        }),
{
}

/// Settings of an account that no answer of its provider changes.
pub open spec fn same_settings(a: AccountModel, b: AccountModel) -> bool {
    &&& a.id == b.id
    &&& a.label == b.label
    &&& a.enabled == b.enabled
    &&& a.warmup_times == b.warmup_times
}

/// An answer of the provider says who an account belongs to and what its plan is,
/// and both windows are observed; the account is connected, and what somebody has
/// set stays.
pub proof fn law_answers_are_taken_over(account: AccountModel, snapshot: SnapshotModel, now: i64)
    ensures
        ({
            let seen = account.seen(snapshot, now);
            &&& same_settings(account, seen)
            &&& seen.connected
            &&& seen.email == snapshot.email
            &&& seen.plan == snapshot.plan
            &&& seen.usage_history == account.usage_history.recorded(snapshot.limits, now)
            &&& seen.ledger == account.ledger.observed(snapshot.limits, now as int)
        }),
        ({
            let warm = account.warmed(snapshot, now);
            &&& same_settings(account, warm)
            &&& warm.connected == account.connected
            &&& warm.email == snapshot.email
            &&& warm.plan == snapshot.plan
            &&& warm.usage_history == account.usage_history.recorded(snapshot.limits, now)
            &&& warm.ledger == account.ledger.observed(snapshot.limits, now as int).warmed(
                snapshot.limits,
                now as int,
            )
        }),
{
}

/// A new account is called what it was called, has automatic warmups but no times,
/// is not connected, and nothing is known of it.
pub proof fn law_new_accounts_know_nothing(id: Seq<char>, label: Seq<char>)
    ensures
        ({
            let account = AccountModel::fresh(id, label);
            let ledger = account.ledger;
            let history = account.usage_history;
            &&& account.id == id
            &&& account.label == label
            &&& account.enabled
            &&& !account.connected
            &&& account.email is None
            &&& account.plan is None
            &&& account.warmup_times.len() == 0
            &&& ledger.confirmed_session_key is None
            &&& ledger.confirmed_weekly_key is None
            &&& ledger.last_schedule_key is None
            &&& ledger.retry_after is None
            &&& ledger.last_warmup is None
            &&& history.session.points.len() == 0
            &&& history.session.window_key is None
            &&& history.weekly.points.len() == 0
            &&& history.weekly.window_key is None
        }),
{
}

/// Adding a time to a schedule adds that time and takes none out; a time that is
/// there already changes nothing.
pub proof fn law_times_are_added(times: Seq<DailyTime>, time: DailyTime, other: DailyTime)
    ensures
        with_time(times, time).contains(other) <==> times.contains(other) || other == time,
        times.contains(time) ==> with_time(times, time) == times,
        !times.contains(time) ==> with_time(times, time).len() == times.len() + 1,
{
    if !times.contains(time) {
        let order = |a: DailyTime, b: DailyTime| a.0 <= b.0;
        let more = times.push(time);
        let after = in_day_order(more);
        more.lemma_sort_by_ensures(order);
        more.to_multiset_ensures();
        after.to_multiset_ensures();
        assert(after.contains(other) <==> after.to_multiset().count(other) > 0);
        assert(more.contains(other) <==> more.to_multiset().count(other) > 0);
        assert(more[more.len() - 1] == time);
        if times.contains(other) {
            let i = choose|i: int| 0 <= i < times.len() && times[i] == other;
            assert(more[i] == other);
        }
        assert(after.len() == after.to_multiset().len());
        assert(more.len() == more.to_multiset().len());
    }
}

/// The times that were typed in for a new account are its schedule, each once and
/// in the order of the day.
pub proof fn law_first_times_are_added(more: Seq<DailyTime>, time: DailyTime)
    ensures
        with_times(Seq::empty(), more).contains(time) <==> more.contains(time),
        times_sorted(with_times(Seq::empty(), more)),
        with_times(Seq::empty(), more).no_duplicates(),
    decreases more.len(),
{
    if more.len() > 0 {
        let head = more.drop_last();
        law_first_times_are_added(head, time);
        law_schedules_stay_in_order(with_times(Seq::empty(), head), more.last());
        law_times_are_added(with_times(Seq::empty(), head), more.last(), time);
        if more.contains(time) {
            let i = choose|i: int| 0 <= i < more.len() && more[i] == time;
            if i < head.len() {
                assert(head[i] == time);
            }
        }
        if head.contains(time) {
            let i = choose|i: int| 0 <= i < head.len() && head[i] == time;
            assert(more[i] == time);
        }
        if time == more.last() {
            assert(more[more.len() - 1] == time);
        }
    }
}

} // verus!
