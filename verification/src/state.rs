//! The accounts on display and the operations that run on them.

use vstd::prelude::*;

use crate::account::{
    apply_snapshot, with_time, with_times, Account, AccountModel, AppConfig,
    DEFAULT_REFRESH_INTERVAL_SECS, RETRY_DELAY_SECS,
};
use crate::history::{HistoryModel, UsageModel};
use crate::plan::{PlanModel, WarmPlan, WarmReason};
use crate::schedule::{next_slot, plan_warmup, planned, LocalClock};
use crate::search::{lemma_filter_start, lemma_filter_step};
use crate::snapshot::{AccountSnapshot, SnapshotModel, WarmupOutcome};
use crate::text::{
    contains_seq, contains_text, copy_text, decimal, is_text, join2, opt_text, same_text, texts,
    trim_text, trimmed,
};
use crate::time::{parsed_time, DailyTime};
use crate::window::UsageWindows;

verus! {

/// The shortest time between two looks at the limits, in seconds.
pub const MIN_REFRESH_INTERVAL_SECS: u64 = 5;

/// An account on display: what is known of its limits, what is being done with
/// it, what went wrong last, and the time that is being typed in.
#[derive(Debug)]
pub struct AccountView {
    pub account: Account,
    pub limits: Option<UsageWindows>,
    pub busy: Option<String>,
    pub error: Option<String>,
    pub draft_time: String,
}

/// The contents of an [`AccountView`].
#[verifier::ext_equal]
pub struct ViewModel {
    pub account: AccountModel,
    pub limits: Option<UsageWindows>,
    pub busy: Option<Seq<char>>,
    pub error: Option<Seq<char>>,
    pub draft_time: Seq<char>,
}

impl View for AccountView {
    type V = ViewModel;

    open spec fn view(&self) -> ViewModel {
        ViewModel {
            account: self.account@,
            limits: self.limits,
            busy: opt_text(self.busy),
            error: opt_text(self.error),
            draft_time: self.draft_time@,
        }
    }
}

impl ViewModel {
    /// An account as it is first shown.
    pub open spec fn idle(account: AccountModel) -> ViewModel {
        ViewModel { account, limits: None, busy: None, error: None, draft_time: "08:00"@ }
    }

    /// The account while `action` runs.
    pub open spec fn begun(self, action: Seq<char>) -> ViewModel {
        ViewModel { busy: Some(action), error: None, ..self }
    }

    /// The account after an operation. Limits stay on display until there are new ones.
    pub open spec fn finished(
        self,
        account: AccountModel,
        limits: Option<UsageWindows>,
        error: Option<Seq<char>>,
    ) -> ViewModel {
        ViewModel {
            account,
            limits: if limits is Some {
                limits
            } else {
                self.limits
            },
            busy: None,
            error,
            ..self
        }
    }
}

impl AccountView {
    /// Puts an account on display.
    pub fn new(account: Account) -> (view: Self)
        ensures
            view@ == ViewModel::idle(account@),
    {
        AccountView {
            account,
            limits: None,
            busy: None,
            error: None,
            draft_time: "08:00".to_owned(),
        }
    }
}

impl Clone for AccountView {
    fn clone(&self) -> (copy: Self)
        ensures
            copy@ == self@,
    {
        AccountView {
            account: self.account.clone(),
            limits: self.limits,
            busy: copy_text(&self.busy),
            error: copy_text(&self.error),
            draft_time: self.draft_time.clone(),
        }
    }
}

/// A message for the reader of the screen.
#[derive(Debug)]
pub struct Notice {
    pub message: String,
    pub error: bool,
}

/// The contents of a [`Notice`].
pub struct NoticeModel {
    pub message: Seq<char>,
    pub error: bool,
}

impl View for Notice {
    type V = NoticeModel;

    open spec fn view(&self) -> NoticeModel {
        NoticeModel { message: self.message@, error: self.error }
    }
}

impl Clone for Notice {
    fn clone(&self) -> (copy: Self)
        ensures
            copy@ == self@,
    {
        Notice { message: self.message.clone(), error: self.error }
    }
}

pub open spec fn opt_notice(notice: Option<Notice>) -> Option<NoticeModel> {
    match notice {
        Some(notice) => Some(notice@),
        None => None,
    }
}

/// Everything on display.
#[derive(Debug)]
pub struct AppState {
    pub accounts: Vec<AccountView>,
    pub refresh_interval_secs: u64,
    pub fatal: Option<String>,
    pub notice: Option<Notice>,
}

/// The contents of an [`AppState`].
#[verifier::ext_equal]
pub struct StateModel {
    pub accounts: Seq<ViewModel>,
    pub refresh_interval_secs: u64,
    pub fatal: Option<Seq<char>>,
    pub notice: Option<NoticeModel>,
}

/// The contents of a list of accounts on display.
pub open spec fn views(accounts: Seq<AccountView>) -> Seq<ViewModel> {
    accounts.map_values(|view: AccountView| view@)
}

impl View for AppState {
    type V = StateModel;

    open spec fn view(&self) -> StateModel {
        StateModel {
            accounts: views(self.accounts@),
            refresh_interval_secs: self.refresh_interval_secs,
            fatal: opt_text(self.fatal),
            notice: opt_notice(self.notice),
        }
    }
}

impl Clone for AppState {
    fn clone(&self) -> (copy: Self)
        ensures
            copy@ == self@,
    {
        let mut accounts: Vec<AccountView> = Vec::new();
        let mut i: usize = 0;
        while i < self.accounts.len()
            invariant
                i <= self.accounts.len(),
                accounts.len() == i,
                forall|j: int| 0 <= j < i ==> (#[trigger] accounts@[j])@ == self.accounts@[j]@,
            decreases self.accounts.len() - i,
        {
            accounts.push(self.accounts[i].clone());
            i = i + 1;
        }
        assert(views(accounts@) =~= views(self.accounts@));
        AppState {
            accounts,
            refresh_interval_secs: self.refresh_interval_secs,
            fatal: copy_text(&self.fatal),
            notice: match &self.notice {
                Some(notice) => Some(notice.clone()),
                None => None,
            },
        }
    }
}

/// The place of the first account called `id`; past the end if there is none.
pub open spec fn place_of(accounts: Seq<ViewModel>, id: Seq<char>) -> int
    decreases accounts.len(),
{
    if accounts.len() == 0 || accounts[0].account.id == id {
        0
    } else {
        1 + place_of(accounts.skip(1), id)
    }
}

pub proof fn lemma_place_of(accounts: Seq<ViewModel>, id: Seq<char>, at: int)
    requires
        0 <= at <= accounts.len(),
        at < accounts.len() ==> accounts[at].account.id == id,
        forall|j: int| 0 <= j < at ==> (#[trigger] accounts[j]).account.id != id,
    ensures
        place_of(accounts, id) == at,
    decreases accounts.len(),
{
    if at > 0 {
        assert(accounts[0].account.id != id);
        let rest = accounts.skip(1);
        assert forall|j: int| 0 <= j < at - 1 implies (#[trigger] rest[j]).account.id != id by {
            assert(rest[j] == accounts[j + 1]);
        }
        lemma_place_of(rest, id, at - 1);
    }
}

/// The place of an account is in the list where there is one, and none before
/// it bears the name.
pub proof fn lemma_place_found(accounts: Seq<ViewModel>, id: Seq<char>)
    ensures
        0 <= place_of(accounts, id) <= accounts.len(),
        place_of(accounts, id) < accounts.len() ==> accounts[place_of(accounts, id)].account.id
            == id,
        forall|j: int|
            0 <= j < place_of(accounts, id) ==> (#[trigger] accounts[j]).account.id != id,
    decreases accounts.len(),
{
    if accounts.len() > 0 && accounts[0].account.id != id {
        let rest = accounts.skip(1);
        lemma_place_found(rest, id);
        assert forall|j: int| 0 <= j < place_of(accounts, id) implies (
        #[trigger] accounts[j]).account.id != id by {
            if j > 0 {
                assert(accounts[j] == rest[j - 1]);
            }
        }
    }
}

/// A change that leaves an account its name leaves every account its place.
pub proof fn lemma_places_stay(accounts: Seq<ViewModel>, at: int, view: ViewModel, id: Seq<char>)
    requires
        0 <= at < accounts.len(),
        view.account.id == accounts[at].account.id,
    ensures
        place_of(accounts.update(at, view), id) == place_of(accounts, id),
{
    lemma_place_found(accounts, id);
    let changed = accounts.update(at, view);
    let place = place_of(accounts, id);
    assert forall|j: int| 0 <= j < place implies (#[trigger] changed[j]).account.id != id by {
        assert(accounts[j].account.id != id);
    }
    lemma_place_of(changed, id, place);
}

impl StateModel {
    /// The account called `id` becomes `view`; nothing else changes.
    pub open spec fn with_view(self, id: Seq<char>, view: ViewModel) -> StateModel {
        StateModel { accounts: self.accounts.update(place_of(self.accounts, id), view), ..self }
    }

    /// Whether there is an account called `id`.
    pub open spec fn has(self, id: Seq<char>) -> bool {
        place_of(self.accounts, id) < self.accounts.len()
    }

    /// The account called `id`.
    pub open spec fn get(self, id: Seq<char>) -> ViewModel {
        self.accounts[place_of(self.accounts, id)]
    }

    /// What `begin_operation` makes of this.
    pub open spec fn begun(self, id: Seq<char>, action: Seq<char>) -> StateModel {
        if self.has(id) && self.get(id).busy is None {
            self.with_view(id, self.get(id).begun(action))
        } else {
            self
        }
    }

    /// What `set_busy` makes of this.
    pub open spec fn busy_with(self, id: Seq<char>, action: Seq<char>) -> StateModel {
        if self.has(id) {
            self.with_view(id, ViewModel { busy: Some(action), ..self.get(id) })
        } else {
            self
        }
    }

    /// The account called `id` is changed by `change`; nothing else changes.
    pub open spec fn with_account(
        self,
        id: Seq<char>,
        change: spec_fn(AccountModel) -> AccountModel,
    ) -> StateModel {
        if self.has(id) {
            let view = self.get(id);
            self.with_view(id, ViewModel { account: change(view.account), ..view })
        } else {
            self
        }
    }

    /// What `notify` makes of this.
    pub open spec fn notified(self, message: Seq<char>, error: bool) -> StateModel {
        StateModel { notice: Some(NoticeModel { message, error }), ..self }
    }

    /// What `finish_operation` makes of this.
    pub open spec fn finished(
        self,
        id: Seq<char>,
        account: AccountModel,
        limits: Option<UsageWindows>,
        error: Option<Seq<char>>,
    ) -> StateModel {
        if self.has(id) {
            self.with_view(id, self.get(id).finished(account, limits, error))
        } else {
            self
        }
    }
}

impl AppState {
    fn find(&self, id: &str) -> (at: usize)
        ensures
            at == place_of(self@.accounts, id@),
            at <= self.accounts.len(),
            self.accounts.len() == self@.accounts.len(),
            at < self.accounts.len() ==> self@.accounts[at as int] == self.accounts[at as int]@,
    {
        let mut at: usize = 0;
        while at < self.accounts.len()
            invariant
                at <= self.accounts.len(),
                forall|j: int| 0 <= j < at ==> (#[trigger] self@.accounts[j]).account.id != id@,
            decreases self.accounts.len() - at,
        {
            assert(self@.accounts[at as int] == self.accounts[at as int]@);
            if same_text(self.accounts[at].account.id.as_str(), id) {
                proof {
                    lemma_place_of(self@.accounts, id@, at as int);
                }
                return at;
            }
            at = at + 1;
        }
        proof {
            lemma_place_of(self@.accounts, id@, at as int);
        }
        at
    }

    /// Begins an operation on an account, unless one is running, and hands out
    /// a copy of the account to work on.
    pub fn begin_operation(&mut self, id: &str, action: &str) -> (account: Option<Account>)
        ensures
            final(self)@ == old(self)@.begun(id@, action@),
            account is Some <==> old(self)@.has(id@) && old(self)@.get(id@).busy is None,
            account matches Some(account) ==> account@ == old(self)@.get(id@).account,
    {
        let at = self.find(id);
        if at < self.accounts.len() && self.accounts[at].busy.is_none() {
            let account = self.accounts[at].account.clone();
            self.accounts[at].busy = Some(action.to_owned());
            self.accounts[at].error = None;
            assert(self@ =~= old(self)@.begun(id@, action@));
            Some(account)
        } else {
            None
        }
    }

    /// Shows that `action` runs on an account.
    pub fn set_busy(&mut self, id: &str, action: String)
        ensures
            final(self)@ == old(self)@.busy_with(id@, action@),
    {
        let at = self.find(id);
        if at < self.accounts.len() {
            self.accounts[at].busy = Some(action);
            assert(self@ =~= old(self)@.busy_with(id@, action@));
        }
    }

    /// Ends an operation on an account, which has become `account`.
    pub fn finish_operation(
        &mut self,
        id: &str,
        account: Account,
        limits: Option<UsageWindows>,
        error: Option<String>,
    )
        ensures
            final(self)@ == old(self)@.finished(id@, account@, limits, opt_text(error)),
    {
        let at = self.find(id);
        if at < self.accounts.len() {
            self.accounts[at].account = account;
            if limits.is_some() {
                self.accounts[at].limits = limits;
            }
            self.accounts[at].busy = None;
            self.accounts[at].error = error;
            assert(self@ =~= old(self)@.finished(id@, account@, limits, opt_text(error)));
        }
    }

    /// Shows a message.
    pub fn notify(&mut self, message: &str, error: bool)
        ensures
            final(self)@ == old(self)@.notified(message@, error),
    {
        self.notice = Some(Notice { message: message.to_owned(), error });
    }

    /// Ends a sign-in.
    pub fn after_login(
        &mut self,
        id: &str,
        account: Account,
        result: Result<AccountSnapshot, String>,
        now: i64,
    )
        ensures
            final(self)@ == match result {
                Ok(snapshot) => old(self)@.finished(
                    id@,
                    account@.seen(snapshot@, now),
                    Some(snapshot@.limits),
                    None,
                ).notified(
                    "Account connected. Limits will stay isolated from your active Codex login."@,
                    false,
                ),
                Err(error) => old(self)@.finished(id@, account@, None, Some(error@)),
            },
            old(self)@.has(id@) ==> ({
                let view = final(self)@.accounts[place_of(old(self)@.accounts, id@)];
                &&& view.busy is None
                &&& result matches Ok(snapshot) ==> {
                    &&& view.error is None
                    &&& view.limits == Some(snapshot@.limits)
                    &&& view.account.connected
                    &&& view.account.email == snapshot@.email
                    &&& view.account.plan == snapshot@.plan
                    &&& final(self)@.notice matches Some(notice) && !notice.error
                }
                &&& result matches Err(error) ==> {
                    &&& view.error == Some(error@)
                    &&& view.limits == old(self)@.get(id@).limits
                    &&& view.account == account@
                    &&& final(self)@.notice == old(self)@.notice
                }
            }),
    {
        proof {
            lemma_place_found(self@.accounts, id@);
        }
        match result {
            Ok(snapshot) => {
                let mut account = account;
                apply_snapshot(&mut account, &snapshot, now);
                account.connected = true;
                account.observe_active_windows(&snapshot.limits, now);
                self.finish_operation(id, account, Some(snapshot.limits), None);
                self.notify(
                    "Account connected. Limits will stay isolated from your active Codex login.",
                    false,
                );
            },
            Err(error) => {
                self.finish_operation(id, account, None, Some(error));
            },
        }
    }

    /// Goes on with a refresh once the limits were asked for. A refresh that the
    /// scheduler began may lead to a warmup, which is then to be sent; any other
    /// one is over.
    pub fn after_fetch(
        &mut self,
        id: &str,
        account: &mut Account,
        result: Result<AccountSnapshot, String>,
        automatic: bool,
        now: &LocalClock,
    ) -> (plan: Option<WarmPlan>)
        ensures
            final(account)@ == match result {
                Ok(snapshot) => old(account)@.seen(snapshot@, now.timestamp),
                Err(error) => after_refusal(old(account)@, error@),
            },
            match (plan, refresh_plan(old(account)@, snapshot_of(result), automatic, *now)) {
                (Some(plan), Some(expected)) => plan@ == expected,
                (None, None) => true,
                _ => false,
            },
            final(self)@ == match result {
                Ok(snapshot) => match plan {
                    Some(plan) => old(self)@.busy_with(
                        id@,
                        "Starting "@ + plan@.reason().words(),
                    ),
                    None => old(self)@.finished(
                        id@,
                        final(account)@,
                        Some(snapshot@.limits),
                        None,
                    ),
                },
                Err(error) => old(self)@.finished(id@, final(account)@, None, Some(error@)),
            },
            !automatic ==> plan is None,
            result is Err ==> plan is None,
            plan matches Some(plan) ==> plan@.session_key is Some || plan@.weekly_key is Some
                || plan@.schedule_key is Some,
            old(self)@.has(id@) ==> ({
                let view = final(self)@.accounts[place_of(old(self)@.accounts, id@)];
                &&& plan is Some <==> view.busy is Some
                &&& plan is Some ==> {
                    &&& view.account == old(self)@.get(id@).account
                    &&& view.limits == old(self)@.get(id@).limits
                    &&& view.error == old(self)@.get(id@).error
                }
                &&& plan is None ==> {
                    &&& view.account == final(account)@
                    &&& result matches Ok(snapshot) ==> view.error is None && view.limits == Some(
                        snapshot@.limits,
                    )
                    &&& result matches Err(error) ==> view.error == Some(error@) && view.limits
                        == old(self)@.get(id@).limits
                }
            }),
    {
        proof {
            lemma_place_found(self@.accounts, id@);
        }
        match result {
            Ok(snapshot) => {
                apply_snapshot(account, &snapshot, now.timestamp);
                account.connected = true;
                account.observe_active_windows(&snapshot.limits, now.timestamp);
                if automatic {
                    let plan = plan_warmup(now, account, &snapshot.limits);
                    if !plan.is_empty() {
                        let reason = plan.reason().to_string();
                        self.set_busy(id, join2("Starting ", reason.as_str()));
                        return Some(plan);
                    }
                }
                self.finish_operation(id, account.clone(), Some(snapshot.limits), None);
                None
            },
            Err(error) => {
                if contains_text(error.as_str(), "not signed in") {
                    account.connected = false;
                }
                self.finish_operation(id, account.clone(), None, Some(error));
                None
            },
        }
    }

    /// Ends a refresh whose warmup was sent. `limits` are those that were read
    /// before the warmup.
    pub fn after_warmup(
        &mut self,
        id: &str,
        account: Account,
        plan: &WarmPlan,
        limits: UsageWindows,
        result: Result<WarmupOutcome, String>,
        now: i64,
    )
        requires
            now + RETRY_DELAY_SECS <= i64::MAX,
        ensures
            final(self)@ == match result {
                Ok(outcome) => {
                    let noted = account@.with_ledger(account@.ledger.succeeded(plan@, now));
                    match outcome@.snapshot {
                        Some(snapshot) => old(self)@.finished(
                            id@,
                            noted.warmed(snapshot, now),
                            Some(snapshot.limits),
                            outcome@.refresh_error,
                        ),
                        None => old(self)@.finished(
                            id@,
                            noted,
                            Some(limits),
                            outcome@.refresh_error,
                        ),
                    }
                },
                Err(error) => old(self)@.finished(
                    id@,
                    account@.with_ledger(account@.ledger.failed(plan@.reason(), now)),
                    Some(limits),
                    Some(error@),
                ),
            },
            old(self)@.has(id@) ==> ({
                let view = final(self)@.accounts[place_of(old(self)@.accounts, id@)];
                let ledger = view.account.ledger;
                &&& view.busy is None
                &&& ledger.last_warmup matches Some(record) && record.at == now && record.success
                    == (result is Ok)
                &&& result matches Ok(outcome) ==> {
                    &&& ledger.retry_after is None
                    &&& view.error == outcome@.refresh_error
                    &&& outcome@.snapshot matches Some(snapshot) ==> view.limits == Some(
                        snapshot.limits,
                    ) && view.account.email == snapshot.email
                    &&& outcome@.snapshot is None ==> view.limits == Some(limits)
                        && view.account.email == account@.email
                    &&& plan@.schedule_key is Some ==> ledger.last_schedule_key
                        == plan@.schedule_key
                }
                &&& result matches Err(error) ==> {
                    &&& ledger.retry_after == Some((now + 60) as i64)
                    &&& view.error == Some(error@)
                    &&& view.limits == Some(limits)
                    &&& ledger.confirmed_session_key == account@.ledger.confirmed_session_key
                    &&& ledger.confirmed_weekly_key == account@.ledger.confirmed_weekly_key
                    &&& ledger.last_schedule_key == account@.ledger.last_schedule_key
                }
            }),
    {
        proof {
            lemma_place_found(self@.accounts, id@);
        }
        let mut account = account;
        match result {
            Ok(outcome) => {
                account.record_success(plan, now);
                let read = note_warmed(&mut account, &outcome.snapshot, now);
                let limits = match read {
                    Some(read) => read,
                    None => limits,
                };
                self.finish_operation(id, account, Some(limits), outcome.refresh_error);
            },
            Err(error) => {
                account.record_failure(plan.reason(), now);
                self.finish_operation(id, account, Some(limits), Some(error));
            },
        }
    }

    /// Ends a warmup that somebody asked for.
    pub fn after_manual_warmup(
        &mut self,
        id: &str,
        account: Account,
        result: Result<WarmupOutcome, String>,
        now: i64,
    )
        requires
            now + RETRY_DELAY_SECS <= i64::MAX,
        ensures
            final(self)@ == match result {
                Ok(outcome) => {
                    let noted = account@.with_ledger(account@.ledger.manually_warmed(now));
                    match outcome@.snapshot {
                        Some(snapshot) => old(self)@.finished(
                            id@,
                            noted.warmed(snapshot, now),
                            Some(snapshot.limits),
                            outcome@.refresh_error,
                        ),
                        None => old(self)@.finished(id@, noted, None, outcome@.refresh_error),
                    }.notified("Warmup completed."@, false)
                },
                Err(error) => old(self)@.finished(
                    id@,
                    account@.with_ledger(account@.ledger.failed(WarmReason::Manual, now)),
                    None,
                    Some(error@),
                ),
            },
            old(self)@.has(id@) ==> ({
                let view = final(self)@.accounts[place_of(old(self)@.accounts, id@)];
                let ledger = view.account.ledger;
                &&& view.busy is None
                &&& ledger.last_warmup matches Some(record) && record.at == now && record.success
                    == (result is Ok) && record.reason == WarmReason::Manual
                &&& ledger.last_schedule_key == account@.ledger.last_schedule_key
                &&& result matches Ok(outcome) ==> {
                    &&& ledger.retry_after is None
                    &&& view.error == outcome@.refresh_error
                    &&& outcome@.snapshot matches Some(snapshot) ==> view.limits == Some(
                        snapshot.limits,
                    ) && view.account.email == snapshot.email
                    &&& outcome@.snapshot is None ==> view.limits == old(self)@.get(id@).limits
                    &&& final(self)@.notice matches Some(notice) && !notice.error
                }
                &&& result matches Err(error) ==> {
                    &&& ledger.retry_after == Some((now + 60) as i64)
                    &&& view.error == Some(error@)
                    &&& view.limits == old(self)@.get(id@).limits
                    &&& final(self)@.notice == old(self)@.notice
                }
            }),
    {
        proof {
            lemma_place_found(self@.accounts, id@);
        }
        let mut account = account;
        match result {
            Ok(outcome) => {
                account.record_manual_success(now);
                let limits = note_warmed(&mut account, &outcome.snapshot, now);
                self.finish_operation(id, account, limits, outcome.refresh_error);
                self.notify("Warmup completed.", false);
            },
            Err(error) => {
                account.record_failure(WarmReason::Manual, now);
                self.finish_operation(id, account, None, Some(error));
            },
        }
    }

    /// What is on display after the start: the accounts that were loaded, or why
    /// they could not be.
    pub fn load(loaded: Result<AppConfig, String>) -> (state: Self)
        ensures
            state@ == match loaded {
                Ok(config) => StateModel {
                    accounts: config.accounts@.map_values(
                        |account: Account| ViewModel::idle(account@),
                    ),
                    refresh_interval_secs: config.refresh_interval_secs,
                    fatal: None,
                    notice: None,
                },
                Err(error) => StateModel {
                    accounts: Seq::empty(),
                    refresh_interval_secs: DEFAULT_REFRESH_INTERVAL_SECS,
                    fatal: Some(error@),
                    notice: None,
                },
            },
    {
        match loaded {
            Ok(config) => {
                let mut accounts: Vec<AccountView> = Vec::new();
                let mut i: usize = 0;
                while i < config.accounts.len()
                    invariant
                        i <= config.accounts.len(),
                        accounts.len() == i,
                        forall|j: int|
                            0 <= j < i ==> (#[trigger] accounts@[j])@ == ViewModel::idle(
                                config.accounts@[j]@,
                            ),
                    decreases config.accounts.len() - i,
                {
                    accounts.push(AccountView::new(config.accounts[i].clone()));
                    i = i + 1;
                }
                assert(views(accounts@) =~= config.accounts@.map_values(
                    |account: Account| ViewModel::idle(account@),
                ));
                AppState {
                    accounts,
                    refresh_interval_secs: config.refresh_interval_secs,
                    fatal: None,
                    notice: None,
                }
            },
            Err(error) => AppState {
                accounts: Vec::new(),
                refresh_interval_secs: DEFAULT_REFRESH_INTERVAL_SECS,
                fatal: Some(error),
                notice: None,
            },
        }
    }

    /// What is to be kept.
    pub fn config(&self) -> (config: AppConfig)
        ensures
            config.version == 1,
            config.refresh_interval_secs == self@.refresh_interval_secs,
            account_models(config.accounts@) == self@.accounts.map_values(
                |view: ViewModel| view.account,
            ),
    {
        let mut accounts: Vec<Account> = Vec::new();
        let mut i: usize = 0;
        while i < self.accounts.len()
            invariant
                i <= self.accounts.len(),
                accounts.len() == i,
                forall|j: int|
                    0 <= j < i ==> (#[trigger] accounts@[j])@ == self.accounts@[j].account@,
            decreases self.accounts.len() - i,
        {
            accounts.push(self.accounts[i].account.clone());
            i = i + 1;
        }
        assert(account_models(accounts@) =~= self@.accounts.map_values(
            |view: ViewModel| view.account,
        ));
        AppConfig {
            version: 1,
            refresh_interval_secs: self.refresh_interval_secs,
            accounts,
        }
    }

    /// Sets the time between two looks at the limits, within its bounds.
    pub fn set_refresh_interval(&mut self, seconds: u64)
        ensures
            final(self)@ == (StateModel {
                refresh_interval_secs: refresh_interval(seconds),
                ..old(self)@
            }),
    {
        self.refresh_interval_secs = if seconds < MIN_REFRESH_INTERVAL_SECS {
            MIN_REFRESH_INTERVAL_SECS
        } else if seconds > DEFAULT_REFRESH_INTERVAL_SECS {
            DEFAULT_REFRESH_INTERVAL_SECS
        } else {
            seconds
        };
    }

    /// Switches automatic warmups of an account on or off.
    pub fn toggle_automatic(&mut self, id: &str)
        ensures
            final(self)@ == old(self)@.with_account(
                id@,
                |account: AccountModel| AccountModel { enabled: !account.enabled, ..account },
            ),
    {
        let at = self.find(id);
        if at < self.accounts.len() {
            let enabled: bool = self.accounts[at].account.enabled;
            self.accounts[at].account.enabled = !enabled;
            assert(self@ =~= old(self)@.with_account(
                id@,
                |account: AccountModel| AccountModel { enabled: !account.enabled, ..account },
            ));
        }
    }

    /// Shows or hides the marks of working hours on a chart of an account.
    pub fn toggle_workweek_lines(&mut self, id: &str, weekly_history: bool)
        ensures
            final(self)@ == old(self)@.with_account(
                id@,
                |account: AccountModel| workweek_lines_toggled(account, weekly_history),
            ),
    {
        let at = self.find(id);
        if at < self.accounts.len() {
            if weekly_history {
                let shown: bool =
                    self.accounts[at].account.usage_history.weekly.show_workweek_lines;
                self.accounts[at].account.usage_history.weekly.show_workweek_lines = !shown;
            } else {
                let shown: bool =
                    self.accounts[at].account.usage_history.session.show_workweek_lines;
                self.accounts[at].account.usage_history.session.show_workweek_lines = !shown;
            }
            assert(self@ =~= old(self)@.with_account(
                id@,
                |account: AccountModel| workweek_lines_toggled(account, weekly_history),
            ));
        }
    }

    /// Notes what was typed in as a new time.
    pub fn update_draft_time(&mut self, id: &str, value: String)
        ensures
            final(self)@ == if old(self)@.has(id@) {
                old(self)@.with_view(
                    id@,
                    ViewModel { draft_time: value@, ..old(self)@.get(id@) },
                )
            } else {
                old(self)@
            },
    {
        let at = self.find(id);
        if at < self.accounts.len() {
            self.accounts[at].draft_time = value;
            assert(self@ =~= old(self)@.with_view(
                id@,
                ViewModel { draft_time: value@, ..old(self)@.get(id@) },
            ));
        }
    }

    /// Adds the time that was typed in to the schedule of an account, or shows
    /// why it is none. Tells whether the schedule is to be kept.
    pub fn add_time(&mut self, id: &str) -> (added: bool)
        ensures
            added == (old(self)@.has(id@) && parsed_time(old(self)@.get(id@).draft_time) is Ok),
            final(self)@ == if !old(self)@.has(id@) {
                old(self)@
            } else {
                let view = old(self)@.get(id@);
                old(self)@.with_view(
                    id@,
                    match parsed_time(view.draft_time) {
                        Ok(time) => ViewModel {
                            account: AccountModel {
                                warmup_times: with_time(view.account.warmup_times, time),
                                ..view.account
                            },
                            error: None,
                            ..view
                        },
                        Err(error) => ViewModel { error: Some(error), ..view },
                    },
                )
            },
    {
        let at = self.find(id);
        if at >= self.accounts.len() {
            return false;
        }
        let ghost view = self.accounts@[at as int]@;
        match DailyTime::parse(self.accounts[at].draft_time.as_str()) {
            Ok(time) => {
                self.accounts[at].account.add_time(time);
                self.accounts[at].error = None;
                assert(self@ =~= old(self)@.with_view(
                    id@,
                    ViewModel {
                        account: AccountModel {
                            warmup_times: with_time(view.account.warmup_times, time),
                            ..view.account
                        },
                        error: None,
                        ..view
                    },
                ));
                true
            },
            Err(error) => {
                self.accounts[at].error = Some(error);
                assert(self@ =~= old(self)@.with_view(
                    id@,
                    ViewModel { error: Some(error@), ..view },
                ));
                false
            },
        }
    }

    /// Takes a time out of the schedule of an account.
    pub fn remove_time(&mut self, id: &str, time: DailyTime)
        ensures
            final(self)@ == old(self)@.with_account(
                id@,
                |account: AccountModel|
                    AccountModel {
                        warmup_times: account.warmup_times.filter(
                            |other: DailyTime| other != time,
                        ),
                        ..account
                    },
            ),
    {
        let at = self.find(id);
        if at < self.accounts.len() {
            self.accounts[at].account.remove_time(time);
            assert(self@ =~= old(self)@.with_account(
                id@,
                |account: AccountModel|
                    AccountModel {
                        warmup_times: account.warmup_times.filter(
                            |other: DailyTime| other != time,
                        ),
                        ..account
                    },
            ));
        }
    }

    /// Puts a new account with its first times on display.
    pub fn add_account(&mut self, id: String, label: String, times: &Vec<DailyTime>)
        ensures
            final(self)@ == (StateModel {
                accounts: old(self)@.accounts.push(
                    ViewModel::idle(
                        AccountModel {
                            warmup_times: with_times(Seq::empty(), times@),
                            ..AccountModel::fresh(id@, trimmed(label@))
                        },
                    ),
                ),
                ..old(self)@
            }),
    {
        let ghost fresh = AccountModel::fresh(id@, trimmed(label@));
        let mut account = Account::new(id, label);
        let mut i: usize = 0;
        while i < times.len()
            invariant
                i <= times.len(),
                account@ == (AccountModel {
                    warmup_times: with_times(Seq::empty(), times@.take(i as int)),
                    ..fresh
                }),
            decreases times.len() - i,
        {
            assert(times@.take(i + 1).drop_last() =~= times@.take(i as int));
            assert(times@.take(i + 1).last() == times@[i as int]);
            account.add_time(times[i]);
            i = i + 1;
        }
        assert(times@.take(times@.len() as int) =~= times@);
        self.accounts.push(AccountView::new(account));
        assert(self@.accounts =~= old(self)@.accounts.push(ViewModel::idle(account@)));
    }

    /// Takes an account whose credentials were removed off the display.
    pub fn after_removal(&mut self, id: &str)
        ensures
            final(self)@ == (StateModel {
                accounts: old(self)@.accounts.filter(|view: ViewModel| view.account.id != id@),
                ..old(self)@
            }).notified("Account and its isolated credentials were removed."@, false),
    {
        let ghost keep = |view: ViewModel| view.account.id != id@;
        let mut kept: Vec<AccountView> = Vec::new();
        let mut i: usize = 0;
        proof {
            lemma_filter_start(self@.accounts, keep);
        }
        assert(views(kept@) =~= Seq::empty());
        while i < self.accounts.len()
            invariant
                i <= self.accounts.len(),
                *self == *old(self),
                keep == (|view: ViewModel| view.account.id != id@),
                views(kept@) == self@.accounts.take(i as int).filter(keep),
            decreases self.accounts.len() - i,
        {
            proof {
                lemma_filter_step(self@.accounts, keep, i as int);
            }
            assert(self@.accounts[i as int] == self.accounts@[i as int]@);
            if !same_text(self.accounts[i].account.id.as_str(), id) {
                let ghost before = kept@;
                kept.push(self.accounts[i].clone());
                assert(views(kept@) =~= views(before).push(self@.accounts[i as int]));
            }
            i = i + 1;
        }
        assert(self@.accounts.take(self@.accounts.len() as int) =~= self@.accounts);
        self.accounts = kept;
        self.notify("Account and its isolated credentials were removed.", false);
    }

    /// The accounts whose limits are to be looked at now, on the `tick`-th second.
    pub fn due_accounts(&self, tick: u64, now: i64) -> (ids: Vec<String>)
        ensures
            texts(ids@) == self@.accounts.filter(
                |view: ViewModel|
                    wants_refresh(view, tick as int, self@.refresh_interval_secs as int, now as int),
            ).map_values(|view: ViewModel| view.account.id),
    {
        let ghost wanted = |view: ViewModel|
            wants_refresh(view, tick as int, self@.refresh_interval_secs as int, now as int);
        let ghost name = |view: ViewModel| view.account.id;
        let on_time: bool = if self.refresh_interval_secs == 0 {
            tick == 0
        } else {
            tick % self.refresh_interval_secs == 0
        };
        let mut ids: Vec<String> = Vec::new();
        let mut i: usize = 0;
        proof {
            lemma_filter_start(self@.accounts, wanted);
        }
        assert(texts(ids@) =~= self@.accounts.take(0).filter(wanted).map_values(name));
        while i < self.accounts.len()
            invariant
                i <= self.accounts.len(),
                wanted == (|view: ViewModel|
                    wants_refresh(
                        view,
                        tick as int,
                        self@.refresh_interval_secs as int,
                        now as int,
                    )),
                name == (|view: ViewModel| view.account.id),
                on_time == is_multiple(tick as int, self@.refresh_interval_secs as int),
                texts(ids@) == self@.accounts.take(i as int).filter(wanted).map_values(name),
            decreases self.accounts.len() - i,
        {
            let ghost before = self@.accounts.take(i as int).filter(wanted);
            proof {
                lemma_filter_step(self@.accounts, wanted, i as int);
            }
            assert(self@.accounts[i as int] == self.accounts@[i as int]@);
            let view = &self.accounts[i];
            if view.account.connected && view.busy.is_none() && (on_time
                || weekly_reset_needs_probe(view, now)) {
                let ghost earlier = ids@;
                ids.push(view.account.id.clone());
                assert(texts(ids@) =~= texts(earlier).push(view@.account.id));
                assert(before.push(view@).map_values(name) =~= before.map_values(name).push(
                    view@.account.id,
                ));
            }
            i = i + 1;
        }
        assert(self@.accounts.take(self@.accounts.len() as int) =~= self@.accounts);
        ids
    }

    /// The number of daily slots of all accounts.
    pub fn schedule_count(&self) -> (count: u128)
        ensures
            count == slot_count(self@.accounts),
    {
        let mut count: u128 = 0;
        let mut i: usize = 0;
        assert(self@.accounts.take(0) =~= Seq::empty());
        while i < self.accounts.len()
            invariant
                i <= self.accounts.len(),
                count == slot_count(self@.accounts.take(i as int)),
                count <= i * u64::MAX,
            decreases self.accounts.len() - i,
        {
            assert(self@.accounts.take(i + 1).drop_last() =~= self@.accounts.take(i as int));
            assert(self@.accounts.take(i + 1).last() == self.accounts@[i as int]@);
            assert(count + u64::MAX <= (i + 1) * u64::MAX && (i + 1) * u64::MAX <= u64::MAX
                * u64::MAX) by (nonlinear_arith)
                requires
                    count <= i * u64::MAX,
                    i + 1 <= u64::MAX,
            ;
            count = count + self.accounts[i].account.warmup_times.len() as u128;
            i = i + 1;
        }
        assert(self@.accounts.take(self@.accounts.len() as int) =~= self@.accounts);
        count
    }

    /// The earliest slot that comes next on an account with automatic warmups.
    /// `clocks[i]` is the present for the times of the i-th account.
    pub fn next_warmup(&self, clocks: &Vec<LocalClock>) -> (at: Option<i64>)
        requires
            clocks.len() == self.accounts.len(),
        ensures
            at == earliest_slot(self@.accounts, clocks@),
    {
        let mut earliest: Option<i64> = None;
        let mut i: usize = 0;
        while i < self.accounts.len()
            invariant
                i <= self.accounts.len(),
                clocks.len() == self.accounts.len(),
                earliest == earliest_slot(self@.accounts.take(i as int), clocks@.take(i as int)),
            decreases self.accounts.len() - i,
        {
            assert(self@.accounts.take(i + 1).drop_last() =~= self@.accounts.take(i as int));
            assert(clocks@.take(i + 1).drop_last() =~= clocks@.take(i as int));
            assert(self@.accounts.take(i + 1).last() == self.accounts@[i as int]@);
            assert(clocks@.take(i + 1).last() == clocks@[i as int]);
            let account = &self.accounts[i].account;
            if account.enabled {
                if let Some(slot) = next_slot(&clocks[i], &account.warmup_times) {
                    earliest = match earliest {
                        Some(at) => if slot.at < at {
                            Some(slot.at)
                        } else {
                            Some(at)
                        },
                        None => Some(slot.at),
                    };
                }
            }
            i = i + 1;
        }
        assert(self@.accounts.take(self@.accounts.len() as int) =~= self@.accounts);
        assert(clocks@.take(clocks@.len() as int) =~= clocks@);
        earliest
    }
}

/// The contents of a list of accounts.
pub open spec fn account_models(accounts: Seq<Account>) -> Seq<AccountModel> {
    accounts.map_values(|account: Account| account@)
}

/// `seconds`, moved into the bounds for the time between two looks at the limits.
pub open spec fn refresh_interval(seconds: u64) -> u64 {
    if seconds < MIN_REFRESH_INTERVAL_SECS {
        MIN_REFRESH_INTERVAL_SECS
    } else if seconds > DEFAULT_REFRESH_INTERVAL_SECS {
        DEFAULT_REFRESH_INTERVAL_SECS
    } else {
        seconds
    }
}

/// The account with the marks of working hours shown where they were hidden and
/// hidden where they were shown.
pub open spec fn workweek_lines_toggled(
    account: AccountModel,
    weekly_history: bool,
) -> AccountModel {
    let history = account.usage_history;
    AccountModel {
        usage_history: if weekly_history {
            UsageModel {
                weekly: HistoryModel {
                    show_workweek_lines: !history.weekly.show_workweek_lines,
                    ..history.weekly
                },
                ..history
            }
        } else {
            UsageModel {
                session: HistoryModel {
                    show_workweek_lines: !history.session.show_workweek_lines,
                    ..history.session
                },
                ..history
            }
        },
        ..account
    }
}

/// `n` is a multiple of `step`; of 0, only 0 is one.
pub open spec fn is_multiple(n: int, step: int) -> bool {
    if step == 0 {
        n == 0
    } else {
        n % step == 0
    }
}

/// The weekly window has run out, no warmup was sent for that, and none is put off.
pub open spec fn needs_probe(view: ViewModel, now: int) -> bool {
    match view.limits {
        Some(limits) => match limits.weekly {
            Some(window) => match window.spec_key("weekly"@) {
                Some(key) => {
                    &&& window.resets_at->0 <= now
                    &&& view.account.ledger.retry_after matches Some(retry) ==> retry <= now
                    &&& view.account.ledger.confirmed_weekly_key != Some(key + ":expired"@)
                },
                None => false,
            },
            None => false,
        },
        None => false,
    }
}

/// The limits of an account are to be looked at: it is connected, nothing runs
/// on it, and it is time, or its weekly window has run out.
pub open spec fn wants_refresh(view: ViewModel, tick: int, interval: int, now: int) -> bool {
    &&& view.account.connected
    &&& view.busy is None
    &&& is_multiple(tick, interval) || needs_probe(view, now)
}

/// The number of daily slots of all accounts.
pub open spec fn slot_count(accounts: Seq<ViewModel>) -> nat
    decreases accounts.len(),
{
    if accounts.len() == 0 {
        0
    } else {
        slot_count(accounts.drop_last()) + accounts.last().account.warmup_times.len()
    }
}

/// The earliest slot that comes next on an account with automatic warmups.
pub open spec fn earliest_slot(accounts: Seq<ViewModel>, clocks: Seq<LocalClock>) -> Option<i64>
    decreases accounts.len(),
{
    if accounts.len() == 0 {
        None
    } else {
        let before = earliest_slot(accounts.drop_last(), clocks.drop_last());
        let account = accounts.last().account;
        match (before, clocks.last().next(account.warmup_times)) {
            (Some(at), Some(slot)) => if account.enabled && slot.at < at {
                Some(slot.at)
            } else {
                before
            },
            (None, Some(slot)) => if account.enabled {
                Some(slot.at)
            } else {
                before
            },
            (_, None) => before,
        }
    }
}

/// Whether an account is to be looked at because its weekly window has run out.
pub fn weekly_reset_needs_probe(view: &AccountView, now: i64) -> (needs: bool)
    ensures
        needs == needs_probe(view@, now as int),
{
    let window = match view.limits {
        Some(limits) => match limits.weekly {
            Some(window) => window,
            None => {
                return false;
            },
        },
        None => {
            return false;
        },
    };
    let base_key = match window.key("weekly") {
        Some(key) => key,
        None => {
            return false;
        },
    };
    let handled_key = join2(base_key.as_str(), ":expired");
    let has_come: bool = match window.resets_at {
        Some(reset) => reset <= now,
        None => true,
    };
    let may_retry: bool = match view.account.ledger.retry_after {
        Some(retry) => retry <= now,
        None => true,
    };
    has_come && may_retry && !is_text(
        &view.account.ledger.confirmed_weekly_key,
        handled_key.as_str(),
    )
}

/// What was typed in for a new account.
pub open spec fn account_form(label: Seq<char>, times: Seq<Seq<char>>) -> Result<
    (Seq<char>, Seq<DailyTime>),
    Seq<char>,
> {
    if trimmed(label).len() == 0 {
        Err("Enter an account label."@)
    } else {
        match form_times(times) {
            Some(times) => Ok((trimmed(label), times)),
            None => Err("Check the warmup times."@),
        }
    }
}

/// The times that were typed in, without the fields left blank; nothing if one
/// of them is no time.
pub open spec fn form_times(times: Seq<Seq<char>>) -> Option<Seq<DailyTime>>
    decreases times.len(),
{
    if times.len() == 0 {
        Some(Seq::empty())
    } else {
        match form_times(times.drop_last()) {
            Some(before) => if trimmed(times.last()).len() == 0 {
                Some(before)
            } else {
                match parsed_time(times.last()) {
                    Ok(time) => Some(before.push(time)),
                    Err(_) => None,
                }
            },
            None => None,
        }
    }
}

proof fn lemma_form_times_fail(times: Seq<Seq<char>>, n: int)
    requires
        0 <= n <= times.len(),
        form_times(times.take(n)) is None,
    ensures
        form_times(times) is None,
    decreases times.len() - n,
{
    if n < times.len() {
        assert(times.take(n + 1).drop_last() =~= times.take(n));
        lemma_form_times_fail(times, n + 1);
    } else {
        assert(times.take(n) =~= times);
    }
}

/// Checks what was typed in for a new account.
pub fn new_account_form(label: &str, times: &Vec<String>) -> (form: Result<
    (String, Vec<DailyTime>),
    String,
>)
    ensures
        match (form, account_form(label@, texts(times@))) {
            (Ok(form), Ok(expected)) => form.0@ == expected.0 && form.1@ == expected.1,
            (Err(error), Err(expected)) => error@ == expected,
            _ => false,
        },
{
    let name = trim_text(label);
    if name.as_str().unicode_len() == 0 {
        return Err("Enter an account label.".to_owned());
    }
    let mut parsed: Vec<DailyTime> = Vec::new();
    let mut i: usize = 0;
    assert(texts(times@).take(0) =~= Seq::empty());
    while i < times.len()
        invariant
            i <= times.len(),
            trimmed(label@).len() > 0,
            form_times(texts(times@).take(i as int)) == Some(parsed@),
        decreases times.len() - i,
    {
        let ghost seen = texts(times@).take(i + 1);
        assert(seen.drop_last() =~= texts(times@).take(i as int));
        assert(seen.last() == times@[i as int]@);
        let blank: bool = trim_text(times[i].as_str()).as_str().unicode_len() == 0;
        if !blank {
            match DailyTime::parse(times[i].as_str()) {
                Ok(time) => {
                    parsed.push(time);
                },
                Err(_) => {
                    proof {
                        lemma_form_times_fail(texts(times@), i + 1);
                    }
                    return Err("Check the warmup times.".to_owned());
                },
            }
        }
        i = i + 1;
    }
    assert(texts(times@).take(times@.len() as int) =~= texts(times@));
    Ok((name, parsed))
}

/// The snapshot that a provider answered with.
pub open spec fn snapshot_of(result: Result<AccountSnapshot, String>) -> Option<SnapshotModel> {
    match result {
        Ok(snapshot) => Some(snapshot@),
        Err(_) => None,
    }
}

/// The account once its provider refused to answer: signed out, if that is why.
pub open spec fn after_refusal(account: AccountModel, error: Seq<char>) -> AccountModel {
    AccountModel {
        connected: account.connected && !contains_seq(error, "not signed in"@),
        ..account
    }
}

/// The warmup that a refresh leads to: none unless the scheduler began it and
/// there is something to start.
pub open spec fn refresh_plan(
    account: AccountModel,
    snapshot: Option<SnapshotModel>,
    automatic: bool,
    now: LocalClock,
) -> Option<PlanModel> {
    match snapshot {
        Some(snapshot) => {
            let plan = planned(now, account.seen(snapshot, now.timestamp), snapshot.limits);
            if automatic && plan != PlanModel::empty() {
                Some(plan)
            } else {
                None
            }
        },
        None => None,
    }
}

/// Notes what was read after a warmup.
fn note_warmed(account: &mut Account, snapshot: &Option<AccountSnapshot>, now: i64) -> (limits:
    Option<UsageWindows>)
    ensures
        match *snapshot {
            Some(snapshot) => final(account)@ == old(account)@.warmed(snapshot@, now) && limits
                == Some(snapshot@.limits),
            None => final(account)@ == old(account)@ && limits is None,
        },
{
    match snapshot {
        Some(snapshot) => {
            apply_snapshot(account, snapshot, now);
            account.observe_active_windows(&snapshot.limits, now);
            account.confirm_warmed_windows(&snapshot.limits, now);
            Some(snapshot.limits)
        },
        None => None,
    }
}

/// While an operation runs on an account, another one does not begin and
/// changes nothing.
pub proof fn law_one_operation_at_a_time(
    state: StateModel,
    id: Seq<char>,
    action: Seq<char>,
    other: Seq<char>,
)
    requires
        state.has(id),
    ensures
        state.begun(id, action).has(id),
        state.begun(id, action).get(id).busy is Some,
        state.begun(id, action).begun(id, other) == state.begun(id, action),
{
    lemma_place_found(state.accounts, id);
    let at = place_of(state.accounts, id);
    if state.get(id).busy is None {
        lemma_places_stay(state.accounts, at, state.get(id).begun(action), id);
    }
}

/// An operation that ended leaves the account as it says, free for the next one;
/// without new limits the old ones stay.
pub proof fn law_finished_accounts_are_free(
    state: StateModel,
    id: Seq<char>,
    account: AccountModel,
    limits: Option<UsageWindows>,
    error: Option<Seq<char>>,
)
    requires
        state.has(id),
        account.id == id,
    ensures
        state.finished(id, account, limits, error).has(id),
        state.finished(id, account, limits, error).get(id).account == account,
        state.finished(id, account, limits, error).get(id).busy is None,
        state.finished(id, account, limits, error).get(id).error == error,
        limits is None ==> state.finished(id, account, limits, error).get(id).limits == state.get(
            id,
        ).limits,
{
    lemma_place_found(state.accounts, id);
    let at = place_of(state.accounts, id);
    lemma_places_stay(state.accounts, at, state.get(id).finished(account, limits, error), id);
}

/// Operations on one account leave the others alone.
pub proof fn law_operations_leave_other_accounts_alone(
    state: StateModel,
    id: Seq<char>,
    other: Seq<char>,
    action: Seq<char>,
    account: AccountModel,
    limits: Option<UsageWindows>,
    error: Option<Seq<char>>,
)
    requires
        other != id,
        state.has(other),
        account.id == id,
    ensures
        state.begun(id, action).has(other),
        state.begun(id, action).get(other) == state.get(other),
        state.busy_with(id, action).has(other),
        state.busy_with(id, action).get(other) == state.get(other),
        state.finished(id, account, limits, error).has(other),
        state.finished(id, account, limits, error).get(other) == state.get(other),
{
    lemma_place_found(state.accounts, id);
    lemma_place_found(state.accounts, other);
    if state.has(id) {
        let at = place_of(state.accounts, id);
        let view = state.get(id);
        lemma_places_stay(state.accounts, at, view.begun(action), other);
        lemma_places_stay(state.accounts, at, ViewModel { busy: Some(action), ..view }, other);
        lemma_places_stay(state.accounts, at, view.finished(account, limits, error), other);
    }
}

/// After a warmup that failed, no refresh leads to another one until the delay
/// is over, whatever the provider answers.
pub proof fn law_refreshes_wait_after_a_failure(
    account: AccountModel,
    reason: WarmReason,
    failed_at: i64,
    snapshot: Option<SnapshotModel>,
    automatic: bool,
    now: LocalClock,
)
    requires
        failed_at + RETRY_DELAY_SECS <= i64::MAX,
        now.timestamp < failed_at + RETRY_DELAY_SECS,
    ensures
        refresh_plan(
            account.with_ledger(account.ledger.failed(reason, failed_at)),
            snapshot,
            automatic,
            now,
        ) is None,
{
}

/// Only a refresh that the scheduler began, of an account with automatic
/// warmups, leads to a warmup.
pub proof fn law_warmups_are_asked_for(
    account: AccountModel,
    snapshot: Option<SnapshotModel>,
    automatic: bool,
    now: LocalClock,
)
    requires
        refresh_plan(account, snapshot, automatic, now) is Some,
    ensures
        automatic,
        account.enabled,
        snapshot is Some,
{
}

/// An account that was removed is gone, and all others stay.
pub proof fn law_removed_accounts_are_gone(state: StateModel, id: Seq<char>, view: ViewModel)
    ensures
        !(StateModel {
            accounts: state.accounts.filter(|view: ViewModel| view.account.id != id),
            ..state
        }).has(id),
        view.account.id != id && state.accounts.contains(view) ==> state.accounts.filter(
            |view: ViewModel| view.account.id != id,
        ).contains(view),
{
    let keep = |view: ViewModel| view.account.id != id;
    let left = state.accounts.filter(keep);
    lemma_place_found(left, id);
    if place_of(left, id) < left.len() {
        state.accounts.lemma_filter_pred(keep, place_of(left, id));
    }
    if keep(view) && state.accounts.contains(view) {
        let at = choose|i: int| 0 <= i < state.accounts.len() && state.accounts[i] == view;
        state.accounts.lemma_filter_contains(keep, at);
    }
}

/// Automatic warmups that are switched twice are as before.
pub proof fn law_switching_twice_changes_nothing(state: StateModel, id: Seq<char>)
    ensures
        ({
            let switch = |account: AccountModel|
                AccountModel { enabled: !account.enabled, ..account };
            state.with_account(id, switch).with_account(id, switch) == state
        }),
{
    let switch = |account: AccountModel| AccountModel { enabled: !account.enabled, ..account };
    lemma_place_found(state.accounts, id);
    if state.has(id) {
        let at = place_of(state.accounts, id);
        let view = state.get(id);
        let once = ViewModel { account: switch(view.account), ..view };
        lemma_places_stay(state.accounts, at, once, id);
        assert(state.with_account(id, switch).with_account(id, switch) =~= state);
    }
}

/// Accounts on which an operation runs, or that are not connected, are not
/// looked at.
pub proof fn law_busy_accounts_are_left_alone(view: ViewModel, tick: int, interval: int, now: int)
    requires
        view.busy is Some || !view.account.connected,
    ensures
        !wants_refresh(view, tick, interval, now),
{
}

/// The weekly window of an account has run out without being on record as dealt
/// with, and no delay after a failure is running.
pub open spec fn has_run_out(view: ViewModel, now: int) -> bool {
    &&& view.limits matches Some(limits)
    &&& limits.weekly matches Some(window)
    &&& window.window_duration_mins matches Some(length)
    &&& window.resets_at matches Some(reset)
    &&& reset <= now
    &&& view.account.ledger.retry_after matches Some(retry) ==> retry <= now
    &&& view.account.ledger.confirmed_weekly_key != Some(
        "weekly"@ + ":"@ + decimal(length as int) + ":"@ + decimal(reset as int) + ":expired"@,
    )
}

/// An account is looked at exactly where it is connected, nothing runs on it, and
/// the interval is over or its weekly window has run out.
pub proof fn law_accounts_are_looked_at_in_time(
    view: ViewModel,
    tick: int,
    interval: int,
    now: int,
)
    ensures
        wants_refresh(view, tick, interval, now) <==> {
            &&& view.account.connected
            &&& view.busy is None
            &&& {
                ||| interval != 0 && tick % interval == 0
                ||| interval == 0 && tick == 0
                ||| has_run_out(view, now)
            }
        },
        needs_probe(view, now) <==> has_run_out(view, now),
{
}

/// The time between two looks is as it was set, but at least five seconds and at
/// most a minute.
pub proof fn law_intervals_are_bounded(seconds: u64)
    ensures
        5 <= seconds <= 60 ==> refresh_interval(seconds) == seconds,
        seconds < 5 ==> refresh_interval(seconds) == 5,
        seconds > 60 ==> refresh_interval(seconds) == 60,
{
}

/// A provider that says that nobody is signed in ends the connection; any other
/// refusal changes nothing in the account.
pub proof fn law_refusals_may_sign_out(account: AccountModel, error: Seq<char>)
    ensures
        contains_seq(error, "not signed in"@) ==> !after_refusal(account, error).connected,
        !contains_seq(error, "not signed in"@) ==> after_refusal(account, error) == account,
        after_refusal(account, error) == (AccountModel {
            connected: after_refusal(account, error).connected,
            ..account
        }),
{
}

/// A refresh that the scheduler began leads to exactly the warmup that is planned
/// for the account as the provider sees it now; any other one leads to none.
pub proof fn law_refreshes_follow_the_plan(
    account: AccountModel,
    snapshot: SnapshotModel,
    now: LocalClock,
)
    ensures
        refresh_plan(account, Some(snapshot), false, now) is None,
        refresh_plan(account, None, true, now) is None,
        ({
            let plan = planned(now, account.seen(snapshot, now.timestamp), snapshot.limits);
            let any = plan.session_key is Some || plan.weekly_key is Some || plan.schedule_key
                is Some;
            &&& any ==> refresh_plan(account, Some(snapshot), true, now) == Some(plan)
            &&& !any ==> refresh_plan(account, Some(snapshot), true, now) is None
        }),
{
    let plan = planned(now, account.seen(snapshot, now.timestamp), snapshot.limits);
    if plan.session_key is None && plan.weekly_key is None && plan.schedule_key is None {
        assert(plan =~= PlanModel::empty());
    }
}

/// An operation that begins is shown and takes the last error off the display; one
/// that ends leaves the account, its error and its limits as it says.
pub proof fn law_operations_are_shown(
    view: ViewModel,
    action: Seq<char>,
    account: AccountModel,
    limits: Option<UsageWindows>,
    error: Option<Seq<char>>,
)
    ensures
        ({
            let begun = view.begun(action);
            &&& begun.busy == Some(action)
            &&& begun.error is None
            &&& begun.account == view.account
            &&& begun.limits == view.limits
            &&& begun.draft_time == view.draft_time
        }),
        ({
            let done = view.finished(account, limits, error);
            &&& done.busy is None
            &&& done.error == error
            &&& done.account == account
            &&& limits is Some ==> done.limits == limits
            &&& limits is None ==> done.limits == view.limits
            &&& done.draft_time == view.draft_time
        }),
        ({
            let idle = ViewModel::idle(account);
            &&& idle.account == account
            &&& idle.limits is None
            &&& idle.busy is None
            &&& idle.error is None
            &&& idle.draft_time == "08:00"@
        }),
{
}

/// A change of one account changes that account and no other, and neither the
/// interval nor what is said.
pub proof fn law_changes_are_of_one_account(
    state: StateModel,
    id: Seq<char>,
    change: spec_fn(AccountModel) -> AccountModel,
    i: int,
)
    requires
        0 <= i < state.accounts.len(),
    ensures
        ({
            let after = state.with_account(id, change);
            let first = state.accounts[i].account.id == id && forall|j: int|
                0 <= j < i ==> (#[trigger] state.accounts[j]).account.id != id;
            &&& after.accounts.len() == state.accounts.len()
            &&& after.refresh_interval_secs == state.refresh_interval_secs
            &&& after.fatal == state.fatal
            &&& after.notice == state.notice
            &&& first ==> after.accounts[i] == (ViewModel {
                account: change(state.accounts[i].account),
                ..state.accounts[i]
            })
            &&& !first ==> after.accounts[i] == state.accounts[i]
        }),
{
    lemma_place_found(state.accounts, id);
    if state.accounts[i].account.id == id && (forall|j: int|
        0 <= j < i ==> (#[trigger] state.accounts[j]).account.id != id) {
        lemma_place_of(state.accounts, id, i);
    }
}

/// Marks of working hours are switched on the chart that was asked for, and on no
/// other, and nothing else changes.
pub proof fn law_marks_are_switched(account: AccountModel, weekly: bool)
    ensures
        ({
            let after = workweek_lines_toggled(account, weekly);
            let a = account.usage_history;
            let b = after.usage_history;
            &&& b.weekly.show_workweek_lines == (a.weekly.show_workweek_lines != weekly)
            &&& b.session.show_workweek_lines == (a.session.show_workweek_lines == weekly)
            &&& b.weekly.points == a.weekly.points
            &&& b.session.points == a.session.points
            &&& b.weekly.window_key == a.weekly.window_key
            &&& b.session.window_key == a.session.window_key
            &&& after == (AccountModel { usage_history: b, ..account })
        }),
{
}

/// What is typed in for a new account is accepted with a label and times that are
/// times; fields that are left blank do not count, and the times keep their order.
pub proof fn law_forms_are_checked(
    label: Seq<char>,
    times: Seq<Seq<char>>,
    more: Seq<char>,
)
    ensures
        account_form(label, times) is Ok <==> trimmed(label).len() > 0 && forall|i: int|
            0 <= i < times.len() ==> trimmed(#[trigger] times[i]).len() == 0 || parsed_time(
                times[i],
            ) is Ok,
        account_form(label, times) matches Ok((name, _)) ==> name == trimmed(label),
        trimmed(label).len() == 0 ==> account_form(label, times) == Err::<
            (Seq<char>, Seq<DailyTime>),
            Seq<char>,
        >("Enter an account label."@),
        trimmed(label).len() > 0 ==> (account_form(label, times) matches Err(error) ==> error
            == "Check the warmup times."@),
        trimmed(label).len() > 0 ==> {
            &&& account_form(label, Seq::empty()) == Ok::<(Seq<char>, Seq<DailyTime>), Seq<char>>(
                (trimmed(label), Seq::empty()),
            )
            &&& account_form(label, times) matches Ok((_, before)) ==> {
                &&& trimmed(more).len() == 0 ==> account_form(label, times.push(more))
                    == account_form(label, times)
                &&& trimmed(more).len() > 0 ==> (parsed_time(more) matches Ok(time)
                    ==> account_form(label, times.push(more)) == Ok::<
                    (Seq<char>, Seq<DailyTime>),
                    Seq<char>,
                >((trimmed(label), before.push(time))))
            }
        },
{
    lemma_form_times_read(times);
    assert(times.push(more).drop_last() =~= times);
}

proof fn lemma_form_times_read(times: Seq<Seq<char>>)
    ensures
        form_times(times) is Some <==> forall|i: int|
            0 <= i < times.len() ==> trimmed(#[trigger] times[i]).len() == 0 || parsed_time(
                times[i],
            ) is Ok,
    decreases times.len(),
{
    if times.len() > 0 {
        let head = times.drop_last();
        lemma_form_times_read(head);
        let last = times.len() - 1;
        if form_times(times) is Some {
            assert forall|i: int| 0 <= i < times.len() implies trimmed(#[trigger] times[i]).len()
                == 0 || parsed_time(times[i]) is Ok by {
                if i < last {
                    assert(head[i] == times[i]);
                }
            }
        } else if form_times(head) is None {
            let i = choose|i: int|
                0 <= i < head.len() && !(trimmed(#[trigger] head[i]).len() == 0 || parsed_time(
                    head[i],
                ) is Ok);
            assert(times[i] == head[i]);
        } else {
            assert(!(trimmed(times[last]).len() == 0 || parsed_time(times[last]) is Ok));
        }
    }
}

/// The number of slots is that of all accounts together.
pub proof fn law_slots_add_up(accounts: Seq<ViewModel>, view: ViewModel)
    ensures
        slot_count(Seq::empty()) == 0,
        slot_count(accounts.push(view)) == slot_count(accounts) + view.account.warmup_times.len(),
{
    assert(accounts.push(view).drop_last() =~= accounts);
}

/// The next warmup of all is the earliest next slot of the accounts with automatic
/// warmups: one of theirs, and none of theirs comes before it.
pub proof fn law_the_next_warmup_is_the_earliest(
    accounts: Seq<ViewModel>,
    clocks: Seq<LocalClock>,
)
    requires
        accounts.len() == clocks.len(),
    ensures
        earliest_slot(accounts, clocks) matches Some(at) ==> exists|i: int|
            0 <= i < accounts.len() && (#[trigger] accounts[i]).account.enabled && (
            clocks[i].next(accounts[i].account.warmup_times) matches Some(slot) && slot.at == at),
        forall|i: int|
            0 <= i < accounts.len() && (#[trigger] accounts[i]).account.enabled
                && clocks[i].next(accounts[i].account.warmup_times) is Some ==> earliest_slot(
                accounts,
                clocks,
            ) is Some && earliest_slot(accounts, clocks)->0 <= clocks[i].next(
                accounts[i].account.warmup_times,
            )->0.at,
    decreases accounts.len(),
{
    if accounts.len() > 0 {
        let head = accounts.drop_last();
        let heads = clocks.drop_last();
        let last = accounts.len() - 1;
        law_the_next_warmup_is_the_earliest(head, heads);
        assert forall|i: int|
            0 <= i < accounts.len() && (#[trigger] accounts[i]).account.enabled
                && clocks[i].next(accounts[i].account.warmup_times) is Some implies earliest_slot(
            accounts,
            clocks,
        ) is Some && earliest_slot(accounts, clocks)->0 <= clocks[i].next(
            accounts[i].account.warmup_times,
        )->0.at by {
            if i < last {
                assert(head[i] == accounts[i]);
                assert(heads[i] == clocks[i]);
            }
        }
        if earliest_slot(accounts, clocks) is Some {
            if earliest_slot(accounts, clocks) == earliest_slot(head, heads) {
                let at = earliest_slot(head, heads)->0;
                let i = choose|i: int|
                    0 <= i < head.len() && (#[trigger] head[i]).account.enabled && (heads[i].next(
                        head[i].account.warmup_times,
                    ) matches Some(slot) && slot.at == at);
                assert(accounts[i] == head[i]);
                assert(clocks[i] == heads[i]);
            } else {
                assert(accounts[last].account.enabled);
            }
        }
    }
}

} // verus!
