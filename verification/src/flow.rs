//! What is done with the Codex app server, step by step: an action is carried
//! out, and what came of it decides on the next one.

use vstd::prelude::*;

use crate::codex::{
    account_document, account_in, account_params, check_workspace, flag_at, identity_in,
    initialize_document, initialize_params, login_document, login_failure, login_outcome,
    login_params, read_identity, safe_page, sign_in_page, snapshot, thread_document, thread_params,
    turn_document, turn_failure, turn_in, turn_outcome, turn_params, warmup_thread, Identity,
    IdentityModel, Message, MessageModel, LOGIN_TIMEOUT_SECS, WARMUP_TIMEOUT_SECS,
};
use crate::json::{json_flag, json_part, json_string, text_at};
use crate::snapshot::{AccountSnapshot, OutcomeModel, SnapshotModel, WarmupOutcome};
use crate::text::{join2, lemma_prefix_of_concat, opt_text, starts_with_seq};
use crate::window::{
    window_by_duration, RateLimitResponse, UsageWindows, SESSION_MINUTES, WEEK_MINUTES,
};

verus! {

/// What the server is started for.
#[derive(Debug)]
pub enum Goal {
    /// Sign in and read the account.
    Login,
    /// Read the account.
    Fetch,
    /// Send a warmup in a workspace and read the account.
    Warm(String),
    /// Sign out.
    Logout,
}

/// The contents of a [`Goal`].
pub enum GoalModel {
    Login,
    Fetch,
    Warm(Seq<char>),
    Logout,
}

impl View for Goal {
    type V = GoalModel;

    open spec fn view(&self) -> GoalModel {
        match *self {
            Goal::Login => GoalModel::Login,
            Goal::Fetch => GoalModel::Fetch,
            Goal::Warm(workspace) => GoalModel::Warm(workspace@),
            Goal::Logout => GoalModel::Logout,
        }
    }
}

/// What is being waited for.
#[derive(Debug)]
pub enum Stage {
    Initialize,
    Initialized,
    Workspace,
    LoginStart,
    LoginPage,
    LoginWait,
    ThreadStart,
    TurnStart,
    TurnWait,
    AccountRead,
    LimitsRead(Identity),
    LimitsParse(Identity),
    Logout,
    Over,
}

/// The contents of a [`Stage`].
pub enum StageModel {
    Initialize,
    Initialized,
    Workspace,
    LoginStart,
    LoginPage,
    LoginWait,
    ThreadStart,
    TurnStart,
    TurnWait,
    AccountRead,
    LimitsRead(IdentityModel),
    LimitsParse(IdentityModel),
    Logout,
    Over,
}

impl View for Stage {
    type V = StageModel;

    open spec fn view(&self) -> StageModel {
        match *self {
            Stage::Initialize => StageModel::Initialize,
            Stage::Initialized => StageModel::Initialized,
            Stage::Workspace => StageModel::Workspace,
            Stage::LoginStart => StageModel::LoginStart,
            Stage::LoginPage => StageModel::LoginPage,
            Stage::LoginWait => StageModel::LoginWait,
            Stage::ThreadStart => StageModel::ThreadStart,
            Stage::TurnStart => StageModel::TurnStart,
            Stage::TurnWait => StageModel::TurnWait,
            Stage::AccountRead => StageModel::AccountRead,
            Stage::LimitsRead(identity) => StageModel::LimitsRead(identity@),
            Stage::LimitsParse(identity) => StageModel::LimitsParse(identity@),
            Stage::Logout => StageModel::Logout,
            Stage::Over => StageModel::Over,
        }
    }
}

/// What came of an action.
#[derive(Debug)]
pub enum Event {
    /// A request was replied to with a result, as a JSON document.
    Replied(Result<String, String>),
    /// A notification was sent.
    Sent(Result<(), String>),
    /// The path of the workspace was resolved: it is what it resolves to, or not.
    Resolved(Result<bool, String>),
    /// A page was opened.
    Opened(Result<(), String>),
    /// The awaited notification came.
    Notified(Result<Message, String>),
    /// Limits were read from a JSON document.
    Parsed(Result<RateLimitResponse, String>),
}

/// The contents of an [`Event`].
pub enum EventModel {
    Replied(Result<Seq<char>, Seq<char>>),
    Sent(Option<Seq<char>>),
    Resolved(Result<bool, Seq<char>>),
    Opened(Option<Seq<char>>),
    Notified(Result<MessageModel, Seq<char>>),
    Parsed(Result<RateLimitResponse, Seq<char>>),
}

impl View for Event {
    type V = EventModel;

    open spec fn view(&self) -> EventModel {
        match *self {
            Event::Replied(Ok(result)) => EventModel::Replied(Ok(result@)),
            Event::Replied(Err(error)) => EventModel::Replied(Err(error@)),
            Event::Sent(Ok(_)) => EventModel::Sent(None),
            Event::Sent(Err(error)) => EventModel::Sent(Some(error@)),
            Event::Resolved(Ok(same)) => EventModel::Resolved(Ok(same)),
            Event::Resolved(Err(error)) => EventModel::Resolved(Err(error@)),
            Event::Opened(Ok(_)) => EventModel::Opened(None),
            Event::Opened(Err(error)) => EventModel::Opened(Some(error@)),
            Event::Notified(Ok(message)) => EventModel::Notified(Ok(message@)),
            Event::Notified(Err(error)) => EventModel::Notified(Err(error@)),
            Event::Parsed(Ok(limits)) => EventModel::Parsed(Ok(limits)),
            Event::Parsed(Err(error)) => EventModel::Parsed(Err(error@)),
        }
    }
}

/// How it all ended.
#[derive(Debug)]
pub enum Ending {
    Failed(String),
    Read(AccountSnapshot),
    Warmed(WarmupOutcome),
    LoggedOut,
}

/// The contents of an [`Ending`].
#[verifier::ext_equal]
pub enum EndingModel {
    Failed(Seq<char>),
    Read(SnapshotModel),
    Warmed(OutcomeModel),
    LoggedOut,
}

impl View for Ending {
    type V = EndingModel;

    open spec fn view(&self) -> EndingModel {
        match *self {
            Ending::Failed(error) => EndingModel::Failed(error@),
            Ending::Read(snapshot) => EndingModel::Read(snapshot@),
            Ending::Warmed(outcome) => EndingModel::Warmed(outcome@),
            Ending::LoggedOut => EndingModel::LoggedOut,
        }
    }
}

/// What is to be done next.
#[derive(Debug)]
pub enum Action {
    /// Send a request with parameters, if any, and wait for the reply.
    Request(&'static str, Option<String>),
    /// Send a notification with parameters.
    Notify(&'static str, String),
    /// Resolve the path of the workspace.
    Resolve,
    /// Open a page in the browser.
    Open(String),
    /// Wait for a notification, for so many seconds.
    Await(&'static str, u64),
    /// Read limits from a JSON document.
    Parse(String),
    /// Nothing more. The server is told to go, or just dropped.
    Finish(Ending, bool),
}

/// The contents of an [`Action`].
#[verifier::ext_equal]
pub enum ActionModel {
    Request(Seq<char>, Option<Seq<char>>),
    Notify(Seq<char>, Seq<char>),
    Resolve,
    Open(Seq<char>),
    Await(Seq<char>, u64),
    Parse(Seq<char>),
    Finish(EndingModel, bool),
}

impl View for Action {
    type V = ActionModel;

    open spec fn view(&self) -> ActionModel {
        match *self {
            Action::Request(method, params) => ActionModel::Request(method@, opt_text(params)),
            Action::Notify(method, params) => ActionModel::Notify(method@, params@),
            Action::Resolve => ActionModel::Resolve,
            Action::Open(page) => ActionModel::Open(page@),
            Action::Await(method, limit) => ActionModel::Await(method@, limit),
            Action::Parse(document) => ActionModel::Parse(document@),
            Action::Finish(ending, graceful) => ActionModel::Finish(ending@, graceful),
        }
    }
}

/// The request to read the account.
pub open spec fn account_request() -> ActionModel {
    ActionModel::Request("account/read"@, Some(account_document()))
}

/// The end, because of what went wrong before the account could be read.
pub open spec fn given_up(error: Seq<char>) -> (StageModel, ActionModel) {
    (StageModel::Over, ActionModel::Finish(EndingModel::Failed(error), false))
}

/// The end, because the account could not be read. A warmup was sent all the same.
pub open spec fn unread(goal: GoalModel, error: Seq<char>) -> (StageModel, ActionModel) {
    let ending = match goal {
        GoalModel::Warm(_) => EndingModel::Warmed(
            OutcomeModel { snapshot: None, refresh_error: Some(error) },
        ),
        _ => EndingModel::Failed(error),
    };
    (StageModel::Over, ActionModel::Finish(ending, true))
}

/// The end, with the account.
pub open spec fn read(goal: GoalModel, snapshot: SnapshotModel) -> (StageModel, ActionModel) {
    let ending = match goal {
        GoalModel::Warm(_) => EndingModel::Warmed(
            OutcomeModel { snapshot: Some(snapshot), refresh_error: None },
        ),
        _ => EndingModel::Read(snapshot),
    };
    (StageModel::Over, ActionModel::Finish(ending, true))
}

/// What follows once the conversation has begun.
pub open spec fn set_out(goal: GoalModel) -> (StageModel, ActionModel) {
    match goal {
        GoalModel::Login => (
            StageModel::LoginStart,
            ActionModel::Request("account/login/start"@, Some(login_document())),
        ),
        GoalModel::Fetch => (StageModel::AccountRead, account_request()),
        GoalModel::Warm(_) => (StageModel::Workspace, ActionModel::Resolve),
        GoalModel::Logout => (
            StageModel::Logout,
            ActionModel::Request("account/logout"@, None),
        ),
    }
}

/// What follows once the account was read.
pub open spec fn account_seen(goal: GoalModel, result: Seq<char>) -> (StageModel, ActionModel) {
    match account_in(result) {
        Some(account) => if text_at(account, "/type"@) == Some("chatgpt"@) {
            (
                StageModel::LimitsRead(identity_in(account)),
                ActionModel::Request("account/rateLimits/read"@, None),
            )
        } else {
            unread(goal, "This app needs a ChatGPT account"@)
        },
        None => unread(goal, "This account is not signed in"@),
    }
}

/// What follows once somebody has signed in or has not.
pub open spec fn login_seen(message: MessageModel) -> (StageModel, ActionModel) {
    match message.params {
        Some(params) => match login_failure(
            flag_at(params, "/success"@),
            text_at(params, "/error"@),
        ) {
            Some(error) => given_up(error),
            None => (StageModel::AccountRead, account_request()),
        },
        None => given_up("Codex returned an invalid login result"@),
    }
}

/// What follows once a turn is over.
pub open spec fn turn_seen(message: MessageModel) -> (StageModel, ActionModel) {
    match turn_in(message) {
        Some(turn) => match turn_failure(
            text_at(turn, "/status"@),
            text_at(turn, "/error/message"@),
        ) {
            Some(error) => given_up(error),
            None => (StageModel::AccountRead, account_request()),
        },
        None => given_up("Codex returned an invalid warmup result"@),
    }
}

/// The account with an identity and limits.
pub open spec fn account_of(
    identity: IdentityModel,
    limits: RateLimitResponse,
) -> SnapshotModel {
    SnapshotModel {
        email: identity.email,
        plan: identity.plan,
        limits: UsageWindows {
            session: window_by_duration(limits.chosen(), SESSION_MINUTES as int),
            weekly: window_by_duration(limits.chosen(), WEEK_MINUTES as int),
        },
    }
}

/// Whether an event is what a stage waits for.
pub open spec fn expects(stage: StageModel, event: EventModel) -> bool {
    match stage {
        StageModel::Initialize => event is Replied,
        StageModel::Initialized => event is Sent,
        StageModel::Workspace => event is Resolved,
        StageModel::LoginStart => event is Replied,
        StageModel::LoginPage => event is Opened,
        StageModel::LoginWait => event is Notified,
        StageModel::ThreadStart => event is Replied,
        StageModel::TurnStart => event is Replied,
        StageModel::TurnWait => event is Notified,
        StageModel::AccountRead => event is Replied,
        StageModel::LimitsRead(_) => event is Replied,
        StageModel::LimitsParse(_) => event is Parsed,
        StageModel::Logout => event is Replied,
        StageModel::Over => false,
    }
}

/// Whether an event is what comes of an action.
pub open spec fn comes_of(action: ActionModel, event: EventModel) -> bool {
    match action {
        ActionModel::Request(_, _) => event is Replied,
        ActionModel::Notify(_, _) => event is Sent,
        ActionModel::Resolve => event is Resolved,
        ActionModel::Open(_) => event is Opened,
        ActionModel::Await(_, _) => event is Notified,
        ActionModel::Parse(_) => event is Parsed,
        ActionModel::Finish(_, _) => false,
    }
}

/// What follows a reply with a result.
pub open spec fn after_result(goal: GoalModel, stage: StageModel, result: Seq<char>) -> (
    StageModel,
    ActionModel,
) {
    match stage {
        StageModel::Initialize => (
            StageModel::Initialized,
            ActionModel::Notify("initialized"@, "{}"@),
        ),
        StageModel::LoginStart => match safe_page(text_at(result, "/authUrl"@)) {
            Ok(page) => (StageModel::LoginPage, ActionModel::Open(page)),
            Err(error) => given_up(error),
        },
        StageModel::ThreadStart => match text_at(result, "/thread/id"@) {
            Some(thread) => (
                StageModel::TurnStart,
                ActionModel::Request("turn/start"@, Some(turn_document(thread))),
            ),
            None => given_up("Codex did not create the warmup thread"@),
        },
        StageModel::TurnStart => (
            StageModel::TurnWait,
            ActionModel::Await("turn/completed"@, WARMUP_TIMEOUT_SECS),
        ),
        StageModel::AccountRead => account_seen(goal, result),
        StageModel::LimitsRead(identity) => (
            StageModel::LimitsParse(identity),
            ActionModel::Parse(result),
        ),
        _ => (StageModel::Over, ActionModel::Finish(EndingModel::LoggedOut, true)),
    }
}

/// What follows a reply that reports an error.
pub open spec fn after_error(goal: GoalModel, stage: StageModel, error: Seq<char>) -> (
    StageModel,
    ActionModel,
) {
    match stage {
        StageModel::AccountRead => unread(goal, error),
        StageModel::LimitsRead(_) => unread(goal, error),
        StageModel::Logout => (
            StageModel::Over,
            ActionModel::Finish(EndingModel::Failed(error), true),
        ),
        _ => given_up(error),
    }
}

/// Whether an event is what a stage waits for.
pub fn is_expected(stage: &Stage, event: &Event) -> (expected: bool)
    ensures
        expected == expects(stage@, event@),
{
    match (stage, event) {
        (Stage::Initialize, Event::Replied(_)) => true,
        (Stage::Initialized, Event::Sent(_)) => true,
        (Stage::Workspace, Event::Resolved(_)) => true,
        (Stage::LoginStart, Event::Replied(_)) => true,
        (Stage::LoginPage, Event::Opened(_)) => true,
        (Stage::LoginWait, Event::Notified(_)) => true,
        (Stage::ThreadStart, Event::Replied(_)) => true,
        (Stage::TurnStart, Event::Replied(_)) => true,
        (Stage::TurnWait, Event::Notified(_)) => true,
        (Stage::AccountRead, Event::Replied(_)) => true,
        (Stage::LimitsRead(_), Event::Replied(_)) => true,
        (Stage::LimitsParse(_), Event::Parsed(_)) => true,
        (Stage::Logout, Event::Replied(_)) => true,
        _ => false,
    }
}

/// What follows an event that a stage has waited for.
pub open spec fn after(goal: GoalModel, stage: StageModel, event: EventModel) -> (
    StageModel,
    ActionModel,
) {
    match event {
        EventModel::Replied(Ok(result)) => after_result(goal, stage, result),
        EventModel::Replied(Err(error)) => after_error(goal, stage, error),
        EventModel::Sent(Some(error)) => given_up(error),
        EventModel::Sent(None) => set_out(goal),
        EventModel::Resolved(Ok(true)) => match goal {
            GoalModel::Warm(workspace) => (
                StageModel::ThreadStart,
                ActionModel::Request("thread/start"@, Some(thread_document(workspace))),
            ),
            _ => set_out(goal),
        },
        EventModel::Resolved(Ok(false)) => given_up(
            "Refusing to use an aliased warmup workspace"@,
        ),
        EventModel::Resolved(Err(error)) => given_up(
            "Could not open the warmup workspace: "@ + error,
        ),
        EventModel::Opened(Some(error)) => given_up(error),
        EventModel::Opened(None) => (
            StageModel::LoginWait,
            ActionModel::Await("account/login/completed"@, LOGIN_TIMEOUT_SECS),
        ),
        EventModel::Notified(Err(error)) => given_up(error),
        EventModel::Notified(Ok(message)) => match stage {
            StageModel::LoginWait => login_seen(message),
            _ => turn_seen(message),
        },
        EventModel::Parsed(Ok(limits)) => match stage {
            StageModel::LimitsParse(identity) => read(goal, account_of(identity, limits)),
            _ => set_out(goal),
        },
        EventModel::Parsed(Err(error)) => unread(
            goal,
            "Could not understand Codex limits: "@ + error,
        ),
    }
}

fn give_up(error: String) -> (next: (Stage, Action))
    ensures
        (next.0@, next.1@) == given_up(error@),
{
    (Stage::Over, Action::Finish(Ending::Failed(error), false))
}

fn leave_unread(goal: &Goal, error: String) -> (next: (Stage, Action))
    ensures
        (next.0@, next.1@) == unread(goal@, error@),
{
    let ending = match goal {
        Goal::Warm(_) => Ending::Warmed(WarmupOutcome::from_refresh(Err(error))),
        Goal::Login => Ending::Failed(error),
        Goal::Fetch => Ending::Failed(error),
        Goal::Logout => Ending::Failed(error),
    };
    (Stage::Over, Action::Finish(ending, true))
}

fn hand_over(goal: &Goal, snapshot: AccountSnapshot) -> (next: (Stage, Action))
    ensures
        (next.0@, next.1@) == read(goal@, snapshot@),
{
    let ending = match goal {
        Goal::Warm(_) => Ending::Warmed(WarmupOutcome::from_refresh(Ok(snapshot))),
        Goal::Login => Ending::Read(snapshot),
        Goal::Fetch => Ending::Read(snapshot),
        Goal::Logout => Ending::Read(snapshot),
    };
    (Stage::Over, Action::Finish(ending, true))
}

fn ask_for_account() -> (next: (Stage, Action))
    ensures
        (next.0@, next.1@) == (StageModel::AccountRead, account_request()),
{
    (
        Stage::AccountRead,
        Action::Request("account/read", Some(account_params().to_owned())),
    )
}

fn begin_goal(goal: &Goal) -> (next: (Stage, Action))
    ensures
        (next.0@, next.1@) == set_out(goal@),
{
    match goal {
        Goal::Login => (
            Stage::LoginStart,
            Action::Request("account/login/start", Some(login_params().to_owned())),
        ),
        Goal::Fetch => ask_for_account(),
        Goal::Warm(_) => (Stage::Workspace, Action::Resolve),
        Goal::Logout => (Stage::Logout, Action::Request("account/logout", None)),
    }
}

fn take_result(goal: &Goal, stage: Stage, result: String) -> (next: (Stage, Action))
    requires
        expects(stage@, EventModel::Replied(Ok(result@))),
    ensures
        (next.0@, next.1@) == after_result(goal@, stage@, result@),
{
    match stage {
        Stage::Initialize => (Stage::Initialized, Action::Notify("initialized", "{}".to_owned())),
        Stage::LoginStart => match sign_in_page(result.as_str()) {
            Ok(page) => (Stage::LoginPage, Action::Open(page)),
            Err(error) => give_up(error),
        },
        Stage::ThreadStart => match warmup_thread(result.as_str()) {
            Ok(thread) => (
                Stage::TurnStart,
                Action::Request("turn/start", Some(turn_params(thread.as_str()))),
            ),
            Err(error) => give_up(error),
        },
        Stage::TurnStart => (
            Stage::TurnWait,
            Action::Await("turn/completed", WARMUP_TIMEOUT_SECS),
        ),
        Stage::AccountRead => match read_identity(result.as_str()) {
            Ok(identity) => (
                Stage::LimitsRead(identity),
                Action::Request("account/rateLimits/read", None),
            ),
            Err(error) => leave_unread(goal, error),
        },
        Stage::LimitsRead(identity) => (Stage::LimitsParse(identity), Action::Parse(result)),
        _ => (Stage::Over, Action::Finish(Ending::LoggedOut, true)),
    }
}

fn take_error(goal: &Goal, stage: Stage, error: String) -> (next: (Stage, Action))
    ensures
        (next.0@, next.1@) == after_error(goal@, stage@, error@),
{
    match stage {
        Stage::AccountRead => leave_unread(goal, error),
        Stage::LimitsRead(_) => leave_unread(goal, error),
        Stage::Logout => (Stage::Over, Action::Finish(Ending::Failed(error), true)),
        _ => give_up(error),
    }
}

/// The first action: the conversation begins.
pub fn start(version: &str) -> (first: (Stage, Action))
    ensures
        first.0@ == StageModel::Initialize,
        first.1@ == ActionModel::Request("initialize"@, Some(initialize_document(version@))),
{
    (Stage::Initialize, Action::Request("initialize", Some(initialize_params(version))))
}

/// Decides on the next action, given what came of the one before.
pub fn advance(goal: &Goal, stage: Stage, event: Event) -> (next: (Stage, Action))
    requires
        expects(stage@, event@),
    ensures
        (next.0@, next.1@) == after(goal@, stage@, event@),
{
    match event {
        Event::Replied(Ok(result)) => take_result(goal, stage, result),
        Event::Replied(Err(error)) => take_error(goal, stage, error),
        Event::Sent(Err(error)) => give_up(error),
        Event::Sent(Ok(_)) => begin_goal(goal),
        Event::Resolved(resolved) => match check_workspace(resolved) {
            Ok(_) => match goal {
                Goal::Warm(workspace) => (
                    Stage::ThreadStart,
                    Action::Request("thread/start", Some(thread_params(workspace.as_str()))),
                ),
                _ => begin_goal(goal),
            },
            Err(error) => give_up(error),
        },
        Event::Opened(Err(error)) => give_up(error),
        Event::Opened(Ok(_)) => (
            Stage::LoginWait,
            Action::Await("account/login/completed", LOGIN_TIMEOUT_SECS),
        ),
        Event::Notified(Err(error)) => give_up(error),
        Event::Notified(Ok(message)) => {
            let outcome = match stage {
                Stage::LoginWait => login_outcome(&message),
                _ => turn_outcome(&message),
            };
            match outcome {
                Ok(_) => ask_for_account(),
                Err(error) => give_up(error),
            }
        },
        Event::Parsed(Ok(limits)) => match stage {
            Stage::LimitsParse(identity) => hand_over(goal, snapshot(identity, limits)),
            _ => begin_goal(goal),
        },
        Event::Parsed(Err(error)) => {
            let error = join2("Could not understand Codex limits: ", error.as_str());
            leave_unread(goal, error)
        },
    }
}

/// How many steps are left at most.
pub open spec fn steps_left(stage: StageModel) -> nat {
    match stage {
        StageModel::Initialize => 9,
        StageModel::Initialized => 8,
        StageModel::Workspace => 7,
        StageModel::LoginStart => 6,
        StageModel::LoginPage => 5,
        StageModel::LoginWait => 4,
        StageModel::ThreadStart => 6,
        StageModel::TurnStart => 5,
        StageModel::TurnWait => 4,
        StageModel::AccountRead => 3,
        StageModel::LimitsRead(_) => 2,
        StageModel::LimitsParse(_) => 1,
        StageModel::Logout => 1,
        StageModel::Over => 0,
    }
}

/// Stages that are reached on the way to a goal.
pub open spec fn belongs(goal: GoalModel, stage: StageModel) -> bool {
    match stage {
        StageModel::Workspace | StageModel::ThreadStart | StageModel::TurnStart
        | StageModel::TurnWait => goal is Warm,
        StageModel::LoginStart | StageModel::LoginPage | StageModel::LoginWait => goal is Login,
        StageModel::Logout => goal is Logout,
        StageModel::AccountRead | StageModel::LimitsRead(_) | StageModel::LimitsParse(_)
            => !(goal is Logout),
        _ => true,
    }
}

/// Whatever comes of an action is what is waited for next, so that every goal is
/// reached or given up after a few steps.
pub proof fn law_flows_come_to_an_end(goal: GoalModel, stage: StageModel, event: EventModel)
    requires
        belongs(goal, stage),
        expects(stage, event),
    ensures
        belongs(goal, after(goal, stage, event).0),
        steps_left(after(goal, stage, event).0) < steps_left(stage),
        after(goal, stage, event).0 is Over <==> after(goal, stage, event).1 is Finish,
        forall|then: EventModel| #[trigger]
            comes_of(after(goal, stage, event).1, then) <==> expects(
                after(goal, stage, event).0,
                then,
            ),
{
}

/// A warmup that was sent is reported as sent, even where the account could not
/// be read afterwards.
pub proof fn law_sent_warmups_are_reported(
    workspace: Seq<char>,
    stage: StageModel,
    event: EventModel,
)
    requires
        stage is AccountRead || stage is LimitsRead || stage is LimitsParse,
        expects(stage, event),
        after(GoalModel::Warm(workspace), stage, event).1 is Finish,
    ensures
        after(GoalModel::Warm(workspace), stage, event).1->Finish_0 is Warmed,
{
}

/// Only a page with a secure address is ever opened.
pub proof fn law_only_secure_pages_are_opened(
    goal: GoalModel,
    stage: StageModel,
    event: EventModel,
)
    requires
        after(goal, stage, event).1 is Open,
    ensures
        starts_with_seq(after(goal, stage, event).1->Open_0, "https://"@),
{
}

/// How a failure is reported: a warmup that was sent is reported as sent with the
/// reason why the account was not read; anything else has failed for that reason.
pub open spec fn is_failure_of(
    goal: GoalModel,
    sent: bool,
    action: ActionModel,
    error: Seq<char>,
) -> bool {
    &&& action matches ActionModel::Finish(ending, _)
    &&& if goal is Warm && sent {
        ending == EndingModel::Warmed(OutcomeModel { snapshot: None, refresh_error: Some(error) })
    } else {
        ending == EndingModel::Failed(error)
    }
}

/// Whatever goes wrong with an action is what is reported.
pub proof fn law_what_goes_wrong_is_reported(goal: GoalModel, stage: StageModel, error: Seq<char>)
    ensures
        ({
            let reading = stage is AccountRead || stage is LimitsRead;
            &&& expects(stage, EventModel::Replied(Err(error))) ==> is_failure_of(
                goal,
                reading,
                after(goal, stage, EventModel::Replied(Err(error))).1,
                error,
            )
            &&& expects(stage, EventModel::Sent(Some(error))) ==> is_failure_of(
                goal,
                false,
                after(goal, stage, EventModel::Sent(Some(error))).1,
                error,
            )
            &&& expects(stage, EventModel::Opened(Some(error))) ==> is_failure_of(
                goal,
                false,
                after(goal, stage, EventModel::Opened(Some(error))).1,
                error,
            )
            &&& expects(stage, EventModel::Notified(Err(error))) ==> is_failure_of(
                goal,
                false,
                after(goal, stage, EventModel::Notified(Err(error))).1,
                error,
            )
            &&& expects(stage, EventModel::Resolved(Err(error))) ==> is_failure_of(
                goal,
                false,
                after(goal, stage, EventModel::Resolved(Err(error))).1,
                "Could not open the warmup workspace: "@ + error,
            )
            &&& expects(stage, EventModel::Resolved(Ok(false))) ==> is_failure_of(
                goal,
                false,
                after(goal, stage, EventModel::Resolved(Ok(false))).1,
                "Refusing to use an aliased warmup workspace"@,
            )
            &&& expects(stage, EventModel::Parsed(Err(error))) ==> is_failure_of(
                goal,
                true,
                after(goal, stage, EventModel::Parsed(Err(error))).1,
                "Could not understand Codex limits: "@ + error,
            )
        }),
{
}

/// Once a conversation has begun, the server is asked for what it was started for:
/// to sign in, to read the account, to sign out; and for a warmup the workspace is
/// looked at before anything is asked.
pub proof fn law_goals_are_set_out_for(goal: GoalModel)
    ensures
        ({
            let (stage, action) = after(goal, StageModel::Initialized, EventModel::Sent(None));
            &&& goal is Login ==> stage is LoginStart && (action matches ActionModel::Request(
                method,
                _,
            ) && method == "account/login/start"@)
            &&& goal is Fetch ==> stage is AccountRead && (action matches ActionModel::Request(
                method,
                _,
            ) && method == "account/read"@)
            &&& goal is Logout ==> stage is Logout && (action matches ActionModel::Request(
                method,
                _,
            ) && method == "account/logout"@)
            &&& goal is Warm ==> stage is Workspace && action is Resolve
        }),
        goal matches GoalModel::Warm(workspace) ==> {
            let (stage, action) = after(
                goal,
                StageModel::Workspace,
                EventModel::Resolved(Ok(true)),
            );
            &&& stage is ThreadStart
            &&& action == ActionModel::Request(
                "thread/start"@,
                Some(thread_document(workspace)),
            )
        },
{
}

/// A sign-in goes on to read the account exactly where the server reports success;
/// else it has failed for the reason that the server gives.
pub proof fn law_sign_ins_need_success(goal: GoalModel, message: MessageModel)
    ensures
        ({
            let (stage, action) = after(
                goal,
                StageModel::LoginWait,
                EventModel::Notified(Ok(message)),
            );
            let success = message.params is Some && json_part(message.params->0, "/success"@)
                is Some && json_flag(json_part(message.params->0, "/success"@)->0) == Some(true);
            &&& success ==> stage is AccountRead && (action matches ActionModel::Request(
                method,
                _,
            ) && method == "account/read"@)
            &&& !success ==> (action matches ActionModel::Finish(EndingModel::Failed(error), _)
                && match message.params {
                None => error == "Codex returned an invalid login result"@,
                Some(params) => match json_part(params, "/error"@) {
                    Some(part) => match json_string(part) {
                        Some(given) => error == given,
                        None => error == "ChatGPT sign-in failed"@,
                    },
                    None => error == "ChatGPT sign-in failed"@,
                },
            })
        }),
{
}

/// A warmup counts as sent exactly where the server reports its turn as completed;
/// else it has failed for the reason that the server gives.
pub proof fn law_warmups_need_completion(goal: GoalModel, message: MessageModel)
    ensures
        ({
            let (stage, action) = after(
                goal,
                StageModel::TurnWait,
                EventModel::Notified(Ok(message)),
            );
            let turn = match message.params {
                Some(params) => json_part(params, "/turn"@),
                None => None,
            };
            let status = match turn {
                Some(turn) => json_part(turn, "/status"@),
                None => None,
            };
            let completed = status is Some && json_string(status->0) == Some("completed"@);
            &&& completed ==> stage is AccountRead && (action matches ActionModel::Request(
                method,
                _,
            ) && method == "account/read"@)
            &&& !completed ==> (action matches ActionModel::Finish(EndingModel::Failed(error), _)
                && match turn {
                None => error == "Codex returned an invalid warmup result"@,
                Some(turn) => match json_part(turn, "/error/message"@) {
                    Some(part) => match json_string(part) {
                        Some(given) => error == given,
                        None => error == "Warmup request failed"@,
                    },
                    None => error == "Warmup request failed"@,
                },
            })
        }),
{
}

/// The limits of an account are asked for exactly where it is a ChatGPT account that
/// is signed in; whom it belongs to and its plan are taken from the answer.
pub proof fn law_only_chatgpt_accounts_are_read(goal: GoalModel, result: Seq<char>)
    ensures
        ({
            let (stage, action) = after(
                goal,
                StageModel::AccountRead,
                EventModel::Replied(Ok(result)),
            );
            let account = json_part(result, "/account"@);
            let signed_in = account is Some && account->0 != "null"@;
            let kind = text_at(account->0, "/type"@);
            &&& signed_in && kind == Some("chatgpt"@) ==> {
                &&& stage matches StageModel::LimitsRead(identity)
                &&& identity.email == text_at(account->0, "/email"@)
                &&& identity.plan == text_at(account->0, "/planType"@)
                &&& action matches ActionModel::Request(method, _)
                &&& method == "account/rateLimits/read"@
            }
            &&& signed_in && kind != Some("chatgpt"@) ==> is_failure_of(
                goal,
                true,
                action,
                "This app needs a ChatGPT account"@,
            )
            &&& !signed_in ==> is_failure_of(goal, true, action, "This account is not signed in"@)
        }),
{
}

/// Limits are read from what the server answered, and the account is handed over
/// with its identity and the two windows of the chosen limit, as what came of a
/// warmup or by itself.
pub proof fn law_accounts_are_handed_over(
    goal: GoalModel,
    identity: IdentityModel,
    document: Seq<char>,
    limits: RateLimitResponse,
)
    ensures
        ({
            let action = after(
                goal,
                StageModel::LimitsParse(identity),
                EventModel::Parsed(Ok(limits)),
            ).1;
            let snapshot = match action {
                ActionModel::Finish(EndingModel::Read(snapshot), _) => Some(snapshot),
                ActionModel::Finish(EndingModel::Warmed(outcome), _) => outcome.snapshot,
                _ => None,
            };
            &&& snapshot matches Some(snapshot)
            &&& snapshot.email == identity.email
            &&& snapshot.plan == identity.plan
            &&& snapshot.limits.session == window_by_duration(limits.chosen(), 300)
            &&& snapshot.limits.weekly == window_by_duration(limits.chosen(), 10_080)
            &&& goal is Warm ==> (action matches ActionModel::Finish(
                EndingModel::Warmed(outcome),
                _,
            ) && outcome.refresh_error is None)
            &&& !(goal is Warm) ==> action matches ActionModel::Finish(EndingModel::Read(_), _)
        }),
        after(goal, StageModel::LimitsRead(identity), EventModel::Replied(Ok(document))) == (
            StageModel::LimitsParse(identity),
            ActionModel::Parse(document),
        ),
{
}

/// A page with a secure address is opened as it was given, and somebody has ten
/// minutes to sign in on it; a warmup has two minutes. A warmup is sent on the thread
/// that the server has opened for it.
pub proof fn law_pages_and_threads_are_used(goal: GoalModel, result: Seq<char>, rest: Seq<char>)
    ensures
        text_at(result, "/authUrl"@) == Some("https://"@ + rest) ==> after(
            goal,
            StageModel::LoginStart,
            EventModel::Replied(Ok(result)),
        ) == (StageModel::LoginPage, ActionModel::Open("https://"@ + rest)),
        text_at(result, "/authUrl"@) is None ==> is_failure_of(
            goal,
            false,
            after(goal, StageModel::LoginStart, EventModel::Replied(Ok(result))).1,
            "Codex did not return a sign-in URL"@,
        ),
        after(goal, StageModel::LoginPage, EventModel::Opened(None)) == (
            StageModel::LoginWait,
            ActionModel::Await("account/login/completed"@, 600),
        ),
        after(goal, StageModel::TurnStart, EventModel::Replied(Ok(result))) == (
            StageModel::TurnWait,
            ActionModel::Await("turn/completed"@, 120),
        ),
        text_at(result, "/thread/id"@) matches Some(thread) ==> after(
            goal,
            StageModel::ThreadStart,
            EventModel::Replied(Ok(result)),
        ) == (
            StageModel::TurnStart,
            ActionModel::Request("turn/start"@, Some(turn_document(thread))),
        ),
        text_at(result, "/thread/id"@) is None ==> is_failure_of(
            goal,
            false,
            after(goal, StageModel::ThreadStart, EventModel::Replied(Ok(result))).1,
            "Codex did not create the warmup thread"@,
        ),
        after(goal, StageModel::Logout, EventModel::Replied(Ok(result))).1 matches
            ActionModel::Finish(EndingModel::LoggedOut, _),
{
    lemma_prefix_of_concat("https://"@, rest);
}

} // verus!
