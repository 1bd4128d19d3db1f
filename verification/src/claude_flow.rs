//! What is done with the command line tool of a provider, step by step: an action is
//! carried out, and what came of it decides on the next one.

use vstd::prelude::*;

use crate::claude::{
    authorization, canonical_home, canonical_workspace, check_warmup_output, failure,
    is_blank_byte, is_first_party, is_header_char, naming, read_auth_status, reported_login,
    reported_usage, require_success, snapshot_from_status_and_limits, unsupported_login,
    usage_windows_from_response, AuthStatus, ClaudeAiOauth, CommandOutput, OAuthUsageResponse,
    Operation, Provider, ProviderModel,
};
use crate::flow::{Ending, EndingModel, Goal, GoalModel};
use crate::snapshot::{AccountSnapshot, OutcomeModel, SnapshotModel, WarmupOutcome};
use crate::text::{lossy_text, opt_text};

verus! {

/// What is being waited for.
#[derive(Debug)]
pub enum Stage {
    Home,
    Workspace,
    Login,
    Warmup,
    Logout,
    /// The home of the account once more, before the account is read.
    HomeAgain,
    Status,
    /// The credentials, for a login that can be used.
    Credentials(AuthStatus),
    /// The usage, for a login with the plan that the credentials name.
    Usage(AuthStatus, Option<String>),
    Over,
}

/// What came of an action.
#[derive(Debug)]
pub enum Event {
    /// A path was resolved: it is what it resolves to, or not.
    Resolved(Result<bool, String>),
    /// The tool was run.
    Ran(Result<CommandOutput, String>),
    /// The tool was asked for the login, and its answer was read.
    Reported(Result<(CommandOutput, Result<AuthStatus, String>), String>),
    /// The credentials were read and are ones that can be used.
    Credentials(Result<ClaudeAiOauth, String>),
    /// The service was asked for the usage.
    Usage(Result<OAuthUsageResponse, String>),
}

/// What is to be done next.
#[derive(Debug)]
pub enum Action {
    /// Resolve the path of the home of the account.
    ResolveHome,
    /// Resolve the path of the workspace.
    ResolveWorkspace,
    /// Run the tool.
    Run(Operation),
    /// Run the tool to report the login, and read what it says.
    ReadStatus,
    /// Read the credentials.
    ReadCredentials,
    /// Ask the service for the usage, under an authorization.
    AskUsage(String),
    /// Nothing more.
    Finish(Ending),
}

/// The contents of an [`Action`].
#[verifier::ext_equal]
pub enum ActionModel {
    ResolveHome,
    ResolveWorkspace,
    Run(Operation),
    ReadStatus,
    ReadCredentials,
    AskUsage(Seq<char>),
    Finish(EndingModel),
}

impl View for Action {
    type V = ActionModel;

    open spec fn view(&self) -> ActionModel {
        match *self {
            Action::ResolveHome => ActionModel::ResolveHome,
            Action::ResolveWorkspace => ActionModel::ResolveWorkspace,
            Action::Run(operation) => ActionModel::Run(operation),
            Action::ReadStatus => ActionModel::ReadStatus,
            Action::ReadCredentials => ActionModel::ReadCredentials,
            Action::AskUsage(header) => ActionModel::AskUsage(header@),
            Action::Finish(ending) => ActionModel::Finish(ending@),
        }
    }
}

/// The end, because of what went wrong before anything was achieved.
pub open spec fn given_up(error: Seq<char>) -> (Stage, ActionModel) {
    (Stage::Over, ActionModel::Finish(EndingModel::Failed(error)))
}

/// The end, because the account could not be read. A warmup was sent all the same.
pub open spec fn unread(goal: GoalModel, error: Seq<char>) -> (Stage, ActionModel) {
    let ending = match goal {
        GoalModel::Warm(_) => EndingModel::Warmed(
            OutcomeModel { snapshot: None, refresh_error: Some(error) },
        ),
        _ => EndingModel::Failed(error),
    };
    (Stage::Over, ActionModel::Finish(ending))
}

/// The end, with the account.
pub open spec fn read(goal: GoalModel, snapshot: SnapshotModel) -> (Stage, ActionModel) {
    let ending = match goal {
        GoalModel::Warm(_) => EndingModel::Warmed(
            OutcomeModel { snapshot: Some(snapshot), refresh_error: None },
        ),
        _ => EndingModel::Read(snapshot),
    };
    (Stage::Over, ActionModel::Finish(ending))
}

/// What follows once the home of the account is known to be its own.
pub open spec fn set_out(goal: GoalModel) -> (Stage, ActionModel) {
    match goal {
        GoalModel::Login => (Stage::Login, ActionModel::Run(Operation::Login)),
        GoalModel::Fetch => (Stage::Status, ActionModel::ReadStatus),
        GoalModel::Warm(_) => (Stage::Workspace, ActionModel::ResolveWorkspace),
        GoalModel::Logout => (Stage::Logout, ActionModel::Run(Operation::Logout)),
    }
}

/// What is said of a run that did not go well.
pub open spec fn run_failure(
    provider: ProviderModel,
    operation: Operation,
    output: CommandOutput,
) -> Seq<char> {
    failure(provider, operation, output.code, lossy_text(output.stderr@))
}

/// The output of a warmup says nothing.
pub open spec fn says_nothing(stdout: Seq<u8>) -> bool {
    forall|i: int| 0 <= i < stdout.len() ==> is_blank_byte(#[trigger] stdout[i])
}

/// What follows a run of the tool.
pub open spec fn after_run(provider: ProviderModel, stage: Stage, output: CommandOutput) -> (
    Stage,
    ActionModel,
) {
    match stage {
        Stage::Login => if output.success {
            (Stage::HomeAgain, ActionModel::ResolveHome)
        } else {
            given_up(run_failure(provider, Operation::Login, output))
        },
        Stage::Warmup => if !output.success {
            given_up(run_failure(provider, Operation::Warmup, output))
        } else if says_nothing(output.stdout@) {
            given_up(naming(""@, provider, " warmup returned no output"@))
        } else {
            (Stage::HomeAgain, ActionModel::ResolveHome)
        },
        _ => if output.success {
            (Stage::Over, ActionModel::Finish(EndingModel::LoggedOut))
        } else {
            given_up(run_failure(provider, Operation::Logout, output))
        },
    }
}

/// What follows a report on the login.
pub open spec fn after_report(
    provider: ProviderModel,
    goal: GoalModel,
    output: CommandOutput,
    parsed: Result<AuthStatus, String>,
) -> (Stage, ActionModel) {
    let failed = run_failure(provider, Operation::Status, output);
    match reported_login(provider, output.success, parsed, failed) {
        Ok(status) => (Stage::Credentials(status), ActionModel::ReadCredentials),
        Err(error) => unread(goal, error),
    }
}

/// The header under which usage is asked for.
pub open spec fn bearer(token: Seq<char>) -> Seq<char> {
    "Bearer "@ + token
}

/// What follows once there are credentials.
pub open spec fn after_credentials(
    provider: ProviderModel,
    goal: GoalModel,
    status: AuthStatus,
    credentials: ClaudeAiOauth,
) -> (Stage, ActionModel) {
    let header = bearer(credentials.access_token@);
    if forall|i: int| 0 <= i < header.len() ==> is_header_char(#[trigger] header[i]) {
        (Stage::Usage(status, credentials.subscription_type), ActionModel::AskUsage(header))
    } else {
        unread(goal, naming(""@, provider, " OAuth access token is invalid"@))
    }
}

/// What follows once the usage is known.
pub open spec fn after_usage(
    provider: ProviderModel,
    goal: GoalModel,
    status: AuthStatus,
    plan: Option<String>,
    response: OAuthUsageResponse,
) -> (Stage, ActionModel) {
    match reported_usage(provider, response) {
        Ok(limits) => if is_first_party(provider, status) {
            read(
                goal,
                SnapshotModel {
                    email: opt_text(status.email),
                    plan: if status.subscription_type is Some {
                        opt_text(status.subscription_type)
                    } else {
                        opt_text(plan)
                    },
                    limits,
                },
            )
        } else {
            unread(goal, unsupported_login(provider, status))
        },
        Err(error) => unread(goal, error),
    }
}

/// Whether an event is what a stage waits for.
pub open spec fn expects(stage: Stage, event: Event) -> bool {
    match stage {
        Stage::Home => event is Resolved,
        Stage::Workspace => event is Resolved,
        Stage::HomeAgain => event is Resolved,
        Stage::Login => event is Ran,
        Stage::Warmup => event is Ran,
        Stage::Logout => event is Ran,
        Stage::Status => event is Reported,
        Stage::Credentials(_) => event is Credentials,
        Stage::Usage(_, _) => event is Usage,
        Stage::Over => false,
    }
}

/// Whether an event is what a stage waits for.
pub fn is_expected(stage: &Stage, event: &Event) -> (expected: bool)
    ensures
        expected == expects(*stage, *event),
{
    match (stage, event) {
        (Stage::Home, Event::Resolved(_)) => true,
        (Stage::Workspace, Event::Resolved(_)) => true,
        (Stage::HomeAgain, Event::Resolved(_)) => true,
        (Stage::Login, Event::Ran(_)) => true,
        (Stage::Warmup, Event::Ran(_)) => true,
        (Stage::Logout, Event::Ran(_)) => true,
        (Stage::Status, Event::Reported(_)) => true,
        (Stage::Credentials(_), Event::Credentials(_)) => true,
        (Stage::Usage(_, _), Event::Usage(_)) => true,
        _ => false,
    }
}

/// Whether an event is what comes of an action.
pub open spec fn comes_of(action: ActionModel, event: Event) -> bool {
    match action {
        ActionModel::ResolveHome => event is Resolved,
        ActionModel::ResolveWorkspace => event is Resolved,
        ActionModel::Run(_) => event is Ran,
        ActionModel::ReadStatus => event is Reported,
        ActionModel::ReadCredentials => event is Credentials,
        ActionModel::AskUsage(_) => event is Usage,
        ActionModel::Finish(_) => false,
    }
}

/// What follows once a path was resolved.
pub open spec fn after_path(
    provider: ProviderModel,
    goal: GoalModel,
    stage: Stage,
    resolved: Result<bool, String>,
) -> (Stage, ActionModel) {
    match (stage, resolved) {
        (Stage::Home, Ok(true)) => set_out(goal),
        (Stage::Home, Ok(false)) => given_up(
            naming("Refusing to use an aliased "@, provider, " account storage"@),
        ),
        (Stage::Home, Err(error)) =>
            given_up(naming("Could not open "@, provider, " account storage: "@) + error@),
        (Stage::HomeAgain, Ok(true)) => (Stage::Status, ActionModel::ReadStatus),
        (Stage::HomeAgain, Ok(false)) => unread(
            goal,
            naming("Refusing to use an aliased "@, provider, " account storage"@),
        ),
        (Stage::HomeAgain, Err(error)) => unread(
            goal,
            naming("Could not open "@, provider, " account storage: "@) + error@,
        ),
        (_, Ok(true)) => (Stage::Warmup, ActionModel::Run(Operation::Warmup)),
        (_, Ok(false)) =>
            given_up(naming("Refusing to use an aliased "@, provider, " warmup workspace"@)),
        (_, Err(error)) =>
            given_up(naming("Could not open the "@, provider, " warmup workspace: "@) + error@),
    }
}

/// What follows an event that a stage has waited for.
pub open spec fn after(provider: ProviderModel, goal: GoalModel, stage: Stage, event: Event) -> (
    Stage,
    ActionModel,
) {
    match event {
        Event::Resolved(resolved) => after_path(provider, goal, stage, resolved),
        Event::Ran(Err(error)) => given_up(error@),
        Event::Ran(Ok(output)) => after_run(provider, stage, output),
        Event::Reported(Err(error)) => unread(goal, error@),
        Event::Reported(Ok((output, parsed))) => after_report(provider, goal, output, parsed),
        Event::Credentials(Err(error)) => unread(goal, error@),
        Event::Credentials(Ok(credentials)) => match stage {
            Stage::Credentials(status) => after_credentials(provider, goal, status, credentials),
            _ => set_out(goal),
        },
        Event::Usage(Err(error)) => unread(goal, error@),
        Event::Usage(Ok(response)) => match stage {
            Stage::Usage(status, plan) => after_usage(provider, goal, status, plan, response),
            _ => set_out(goal),
        },
    }
}

fn give_up(error: String) -> (next: (Stage, Action))
    ensures
        (next.0, next.1@) == given_up(error@),
{
    (Stage::Over, Action::Finish(Ending::Failed(error)))
}

fn leave_unread(goal: &Goal, error: String) -> (next: (Stage, Action))
    ensures
        (next.0, next.1@) == unread(goal@, error@),
{
    let ending = match goal {
        Goal::Warm(_) => Ending::Warmed(WarmupOutcome::from_refresh(Err(error))),
        Goal::Login => Ending::Failed(error),
        Goal::Fetch => Ending::Failed(error),
        Goal::Logout => Ending::Failed(error),
    };
    (Stage::Over, Action::Finish(ending))
}

fn hand_over(goal: &Goal, snapshot: AccountSnapshot) -> (next: (Stage, Action))
    ensures
        (next.0, next.1@) == read(goal@, snapshot@),
{
    let ending = match goal {
        Goal::Warm(_) => Ending::Warmed(WarmupOutcome::from_refresh(Ok(snapshot))),
        Goal::Login => Ending::Read(snapshot),
        Goal::Fetch => Ending::Read(snapshot),
        Goal::Logout => Ending::Read(snapshot),
    };
    (Stage::Over, Action::Finish(ending))
}

fn begin_goal(goal: &Goal) -> (next: (Stage, Action))
    ensures
        (next.0, next.1@) == set_out(goal@),
{
    match goal {
        Goal::Login => (Stage::Login, Action::Run(Operation::Login)),
        Goal::Fetch => (Stage::Status, Action::ReadStatus),
        Goal::Warm(_) => (Stage::Workspace, Action::ResolveWorkspace),
        Goal::Logout => (Stage::Logout, Action::Run(Operation::Logout)),
    }
}

fn take_path(
    provider: &Provider,
    goal: &Goal,
    stage: Stage,
    resolved: Result<bool, String>,
) -> (next: (Stage, Action))
    ensures
        (next.0, next.1@) == after_path(provider@, goal@, stage, resolved),
{
    match stage {
        Stage::Home => match canonical_home(provider, resolved) {
            Ok(_) => begin_goal(goal),
            Err(error) => give_up(error),
        },
        Stage::HomeAgain => match canonical_home(provider, resolved) {
            Ok(_) => (Stage::Status, Action::ReadStatus),
            Err(error) => leave_unread(goal, error),
        },
        _ => match canonical_workspace(provider, resolved) {
            Ok(_) => (Stage::Warmup, Action::Run(Operation::Warmup)),
            Err(error) => give_up(error),
        },
    }
}

fn take_run(provider: &Provider, stage: Stage, output: CommandOutput) -> (next: (Stage, Action))
    ensures
        (next.0, next.1@) == after_run(provider@, stage, output),
{
    match stage {
        Stage::Login => match require_success(provider, &output, Operation::Login) {
            Ok(_) => (Stage::HomeAgain, Action::ResolveHome),
            Err(error) => give_up(error),
        },
        Stage::Warmup => match require_success(provider, &output, Operation::Warmup) {
            Ok(_) => match check_warmup_output(provider, &output.stdout) {
                Ok(_) => (Stage::HomeAgain, Action::ResolveHome),
                Err(error) => give_up(error),
            },
            Err(error) => give_up(error),
        },
        _ => match require_success(provider, &output, Operation::Logout) {
            Ok(_) => (Stage::Over, Action::Finish(Ending::LoggedOut)),
            Err(error) => give_up(error),
        },
    }
}

fn take_usage(
    provider: &Provider,
    goal: &Goal,
    status: AuthStatus,
    plan: Option<String>,
    response: OAuthUsageResponse,
) -> (next: (Stage, Action))
    ensures
        (next.0, next.1@) == after_usage(provider@, goal@, status, plan, response),
{
    match usage_windows_from_response(provider, &response) {
        Ok(limits) => match snapshot_from_status_and_limits(provider, status, limits, plan) {
            Ok(snapshot) => hand_over(goal, snapshot),
            Err(error) => leave_unread(goal, error),
        },
        Err(error) => leave_unread(goal, error),
    }
}

/// The first action: the home of the account must be its own.
pub fn start() -> (first: (Stage, Action))
    ensures
        first.0 == Stage::Home,
        first.1@ == ActionModel::ResolveHome,
{
    (Stage::Home, Action::ResolveHome)
}

/// Decides on the next action, given what came of the one before.
pub fn advance(provider: &Provider, goal: &Goal, stage: Stage, event: Event) -> (next: (
    Stage,
    Action,
))
    requires
        expects(stage, event),
    ensures
        (next.0, next.1@) == after(provider@, goal@, stage, event),
{
    match event {
        Event::Resolved(resolved) => take_path(provider, goal, stage, resolved),
        Event::Ran(Err(error)) => give_up(error),
        Event::Ran(Ok(output)) => take_run(provider, stage, output),
        Event::Reported(Err(error)) => leave_unread(goal, error),
        Event::Reported(Ok((output, parsed))) => match read_auth_status(provider, &output, parsed) {
            Ok(status) => (Stage::Credentials(status), Action::ReadCredentials),
            Err(error) => leave_unread(goal, error),
        },
        Event::Credentials(Err(error)) => leave_unread(goal, error),
        Event::Credentials(Ok(credentials)) => match stage {
            Stage::Credentials(status) => match authorization(
                provider,
                credentials.access_token.as_str(),
            ) {
                Ok(header) => (
                    Stage::Usage(status, credentials.subscription_type),
                    Action::AskUsage(header),
                ),
                Err(error) => leave_unread(goal, error),
            },
            _ => begin_goal(goal),
        },
        Event::Usage(Err(error)) => leave_unread(goal, error),
        Event::Usage(Ok(response)) => match stage {
            Stage::Usage(status, plan) => take_usage(provider, goal, status, plan, response),
            _ => begin_goal(goal),
        },
    }
}

/// How many steps are left at most.
pub open spec fn steps_left(stage: Stage) -> nat {
    match stage {
        Stage::Home => 7,
        Stage::Workspace => 6,
        Stage::Login => 5,
        Stage::Warmup => 5,
        Stage::Logout => 1,
        Stage::HomeAgain => 4,
        Stage::Status => 3,
        Stage::Credentials(_) => 2,
        Stage::Usage(_, _) => 1,
        Stage::Over => 0,
    }
}

/// Whatever comes of an action is what is waited for next, so that every goal is
/// reached or given up after a few steps.
pub proof fn law_claude_flows_come_to_an_end(
    provider: ProviderModel,
    goal: GoalModel,
    stage: Stage,
    event: Event,
)
    requires
        expects(stage, event),
    ensures
        steps_left(after(provider, goal, stage, event).0) < steps_left(stage),
        after(provider, goal, stage, event).0 is Over
            <==> after(provider, goal, stage, event).1 is Finish,
        forall|then: Event| #[trigger]
            comes_of(after(provider, goal, stage, event).1, then) <==> expects(
                after(provider, goal, stage, event).0,
                then,
            ),
{
}

/// The account that an action hands over.
pub open spec fn snapshot_in(action: ActionModel) -> Option<SnapshotModel> {
    match action {
        ActionModel::Finish(EndingModel::Read(snapshot)) => Some(snapshot),
        ActionModel::Finish(EndingModel::Warmed(outcome)) => outcome.snapshot,
        _ => None,
    }
}

/// An account that is read has the limits that the service reported, under a
/// login with the provider itself; without a report there are none.
pub proof fn law_limits_are_reported_ones(
    provider: ProviderModel,
    goal: GoalModel,
    stage: Stage,
    event: Event,
)
    requires
        expects(stage, event),
        snapshot_in(after(provider, goal, stage, event).1) is Some,
    ensures
        event matches Event::Usage(Ok(response)) && reported_usage(provider, response)
            matches Ok(limits) && snapshot_in(after(provider, goal, stage, event).1)->0.limits
            == limits,
        stage matches Stage::Usage(status, _) && is_first_party(provider, status),
{
}

/// A warmup that was sent is reported as sent, even where the account could not
/// be read afterwards.
pub proof fn law_sent_claude_warmups_are_reported(
    provider: ProviderModel,
    workspace: Seq<char>,
    stage: Stage,
    event: Event,
)
    requires
        stage is HomeAgain || stage is Status || stage is Credentials || stage is Usage,
        expects(stage, event),
        after(provider, GoalModel::Warm(workspace), stage, event).1 is Finish,
    ensures
        after(provider, GoalModel::Warm(workspace), stage, event).1->Finish_0 is Warmed,
{
}

/// How a failure is reported: a warmup that was sent is reported as sent with the
/// reason why the account was not read; anything else has failed for that reason.
pub open spec fn is_failure_of(
    goal: GoalModel,
    sent: bool,
    action: ActionModel,
    error: Seq<char>,
) -> bool {
    &&& action matches ActionModel::Finish(ending)
    &&& if goal is Warm && sent {
        ending == EndingModel::Warmed(OutcomeModel { snapshot: None, refresh_error: Some(error) })
    } else {
        ending == EndingModel::Failed(error)
    }
}

/// Whatever goes wrong with an action is what is reported.
pub proof fn law_what_goes_wrong_with_the_tool_is_reported(
    provider: ProviderModel,
    goal: GoalModel,
    stage: Stage,
    error: String,
)
    ensures
        expects(stage, Event::Ran(Err(error))) ==> is_failure_of(
            goal,
            false,
            after(provider, goal, stage, Event::Ran(Err(error))).1,
            error@,
        ),
        expects(stage, Event::Reported(Err(error))) ==> is_failure_of(
            goal,
            true,
            after(provider, goal, stage, Event::Reported(Err(error))).1,
            error@,
        ),
        expects(stage, Event::Credentials(Err(error))) ==> is_failure_of(
            goal,
            true,
            after(provider, goal, stage, Event::Credentials(Err(error))).1,
            error@,
        ),
        expects(stage, Event::Usage(Err(error))) ==> is_failure_of(
            goal,
            true,
            after(provider, goal, stage, Event::Usage(Err(error))).1,
            error@,
        ),
        expects(stage, Event::Resolved(Err(error))) ==> is_failure_of(
            goal,
            stage is HomeAgain,
            after(provider, goal, stage, Event::Resolved(Err(error))).1,
            if stage is Workspace {
                "Could not open the "@ + provider.name + " warmup workspace: "@ + error@
            } else {
                "Could not open "@ + provider.name + " account storage: "@ + error@
            },
        ),
        expects(stage, Event::Resolved(Ok(false))) ==> is_failure_of(
            goal,
            stage is HomeAgain,
            after(provider, goal, stage, Event::Resolved(Ok(false))).1,
            if stage is Workspace {
                "Refusing to use an aliased "@ + provider.name + " warmup workspace"@
            } else {
                "Refusing to use an aliased "@ + provider.name + " account storage"@
            },
        ),
{
}

/// Once the home is known to be the account's own, what the goal asks for is done;
/// a warmup is sent from a workspace of its own, and the account is read only after
/// the home was looked at again.
pub proof fn law_tool_goals_are_set_out_for(provider: ProviderModel, goal: GoalModel)
    ensures
        ({
            let (stage, action) = after(provider, goal, Stage::Home, Event::Resolved(Ok(true)));
            &&& goal is Login ==> stage is Login && action == ActionModel::Run(Operation::Login)
            &&& goal is Fetch ==> stage is Status && action is ReadStatus
            &&& goal is Warm ==> stage is Workspace && action is ResolveWorkspace
            &&& goal is Logout ==> stage is Logout && action == ActionModel::Run(Operation::Logout)
        }),
        after(provider, goal, Stage::Workspace, Event::Resolved(Ok(true))) == (
            Stage::Warmup,
            ActionModel::Run(Operation::Warmup),
        ),
        after(provider, goal, Stage::HomeAgain, Event::Resolved(Ok(true))) == (
            Stage::Status,
            ActionModel::ReadStatus,
        ),
{
}

/// A sign-in, a warmup and a sign-out need a run that went well; a warmup also needs
/// an output with something other than blanks in it.
pub proof fn law_runs_need_success(
    provider: ProviderModel,
    goal: GoalModel,
    output: CommandOutput,
    i: int,
)
    ensures
        output.success ==> after(provider, goal, Stage::Login, Event::Ran(Ok(output))) == (
            Stage::HomeAgain,
            ActionModel::ResolveHome,
        ),
        output.success ==> after(provider, goal, Stage::Logout, Event::Ran(Ok(output))).1
            == ActionModel::Finish(EndingModel::LoggedOut),
        output.success && 0 <= i < output.stdout@.len() && output.stdout@[i] != 9
            && output.stdout@[i] != 10 && output.stdout@[i] != 12 && output.stdout@[i] != 13
            && output.stdout@[i] != 32 ==> after(
            provider,
            goal,
            Stage::Warmup,
            Event::Ran(Ok(output)),
        ) == (Stage::HomeAgain, ActionModel::ResolveHome),
        output.success && (forall|j: int|
            0 <= j < output.stdout@.len() ==> (#[trigger] output.stdout@[j] == 9 || output.stdout@[j]
                == 10 || output.stdout@[j] == 12 || output.stdout@[j] == 13 || output.stdout@[j]
                == 32)) ==> after(provider, goal, Stage::Warmup, Event::Ran(Ok(output))).1 is Finish,
        !output.success ==> {
            &&& after(provider, goal, Stage::Login, Event::Ran(Ok(output))).1 matches
                ActionModel::Finish(EndingModel::Failed(_))
            &&& after(provider, goal, Stage::Logout, Event::Ran(Ok(output))).1 matches
                ActionModel::Finish(EndingModel::Failed(_))
            &&& after(provider, goal, Stage::Warmup, Event::Ran(Ok(output))).1 matches
                ActionModel::Finish(EndingModel::Failed(_))
        },
{
    if 0 <= i < output.stdout@.len() && !is_blank_byte(output.stdout@[i]) {
        assert(!says_nothing(output.stdout@));
    }
    if forall|j: int|
        0 <= j < output.stdout@.len() ==> (#[trigger] output.stdout@[j] == 9 || output.stdout@[j]
            == 10 || output.stdout@[j] == 12 || output.stdout@[j] == 13 || output.stdout@[j] == 32) {
        assert forall|j: int| 0 <= j < output.stdout@.len() implies is_blank_byte(
            #[trigger] output.stdout@[j],
        ) by {
            assert(output.stdout@[j] == 9 || output.stdout@[j] == 10 || output.stdout@[j] == 12
                || output.stdout@[j] == 13 || output.stdout@[j] == 32);
        }
    }
}

/// A login that is accepted is the one that the tool reports, and usage is asked for
/// with the token of the credentials.
pub proof fn law_usage_is_asked_for_with_the_token(
    provider: ProviderModel,
    goal: GoalModel,
    output: CommandOutput,
    status: AuthStatus,
    credentials: ClaudeAiOauth,
)
    ensures
        ({
            let (stage, action) = after(
                provider,
                goal,
                Stage::Status,
                Event::Reported(Ok((output, Ok(status)))),
            );
            let accepted = output.success && status.logged_in && opt_text(status.api_provider)
                == Some("firstParty"@) && (opt_text(status.auth_method) == Some(provider.web_login)
                || opt_text(status.auth_method) == Some("oauth_token"@));
            &&& accepted ==> stage == Stage::Credentials(status) && action is ReadCredentials
            &&& !accepted ==> action is Finish
            &&& !status.logged_in ==> is_failure_of(
                goal,
                true,
                action,
                "This account is not signed in"@,
            )
        }),
        ({
            let (stage, action) = after(
                provider,
                goal,
                Stage::Credentials(status),
                Event::Credentials(Ok(credentials)),
            );
            &&& action matches ActionModel::AskUsage(header) ==> header == "Bearer "@
                + credentials.access_token@ && stage == Stage::Usage(
                status,
                credentials.subscription_type,
            )
            &&& action is AskUsage || is_failure_of(
                goal,
                true,
                action,
                provider.name + " OAuth access token is invalid"@,
            )
        }),
{
    reveal_strlit("");
    assert(""@ + provider.name =~= provider.name);
}

/// An account that was read is handed over with the email of the login and its plan,
/// or the plan of the credentials where the login names none, and the reported
/// windows; as what came of a warmup or by itself.
pub proof fn law_tool_accounts_are_handed_over(
    provider: ProviderModel,
    goal: GoalModel,
    status: AuthStatus,
    plan: Option<String>,
    response: OAuthUsageResponse,
)
    requires
        is_first_party(provider, status),
    ensures
        ({
            let action = after(
                provider,
                goal,
                Stage::Usage(status, plan),
                Event::Usage(Ok(response)),
            ).1;
            match reported_usage(provider, response) {
                Ok(limits) => {
                    &&& snapshot_in(action) matches Some(snapshot)
                    &&& snapshot.email == opt_text(status.email)
                    &&& status.subscription_type is Some ==> snapshot.plan == opt_text(
                        status.subscription_type,
                    )
                    &&& status.subscription_type is None ==> snapshot.plan == opt_text(plan)
                    &&& snapshot.limits == limits
                    &&& goal is Warm <==> (action matches ActionModel::Finish(
                        EndingModel::Warmed(_),
                    ))
                    &&& (action matches ActionModel::Finish(EndingModel::Warmed(outcome))
                        ==> outcome.refresh_error is None)
                },
                Err(error) => is_failure_of(goal, true, action, error),
            }
        }),
{
}

} // verus!
