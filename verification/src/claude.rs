//! A provider with a command line tool of its own: how the tool is run, and what
//! is made of its answers, of its credentials and of the usage that the service
//! of the provider reports.

use vstd::prelude::*;

use crate::snapshot::{AccountSnapshot, SnapshotModel};
use crate::text::{
    decimal, decimal_text, decode_lossy, is_text, join2, join3, join4, join5, lossy_text, natural,
    natural_text, opt_text, same_text, texts, trim_text, trimmed,
};
use crate::window::{percent, LimitWindow, UsageWindows, SESSION_MINUTES, WEEK_MINUTES};

verus! {

/// What a provider calls itself, the program that is its tool, and what the tool
/// calls a login on its web site.
#[derive(Debug)]
pub struct Provider {
    pub name: String,
    pub program: String,
    pub web_login: String,
}

/// The contents of a [`Provider`].
pub struct ProviderModel {
    pub name: Seq<char>,
    pub program: Seq<char>,
    pub web_login: Seq<char>,
}

impl View for Provider {
    type V = ProviderModel;

    open spec fn view(&self) -> ProviderModel {
        ProviderModel {
            name: self.name@,
            program: self.program@,
            web_login: self.web_login@,
        }
    }
}

/// A text with the name of a provider in it.
pub open spec fn naming(before: Seq<char>, provider: ProviderModel, after: Seq<char>) -> Seq<char> {
    before + provider.name + after
}

fn named(before: &str, provider: &Provider, after: &str) -> (text: String)
    ensures
        text@ == naming(before@, provider@, after@),
{
    join3(before, provider.name.as_str(), after)
}

/// How long the service may take to report usage, in seconds.
pub const OAUTH_USAGE_TIMEOUT_SECS: u64 = 30;

/// The operations for which the tool is run.
#[derive(Clone, Copy, Debug, PartialEq, Eq, Structural)]
pub enum Operation {
    Login,
    Status,
    Warmup,
    Logout,
}

impl Operation {
    /// The operation in words.
    pub open spec fn words(self) -> Seq<char> {
        match self {
            Operation::Login => "auth login"@,
            Operation::Status => "auth status"@,
            Operation::Warmup => "warmup"@,
            Operation::Logout => "auth logout"@,
        }
    }

    /// The operation in words.
    pub fn name(self) -> (name: &'static str)
        ensures
            name@ == self.words(),
    {
        match self {
            Operation::Login => "auth login",
            Operation::Status => "auth status",
            Operation::Warmup => "warmup",
            Operation::Logout => "auth logout",
        }
    }

    /// The arguments that the tool is run with.
    pub open spec fn argument_texts(self) -> Seq<Seq<char>> {
        match self {
            Operation::Login => seq!["auth"@, "login"@],
            Operation::Status => seq!["auth"@, "status"@],
            Operation::Warmup => seq![
                "--safe-mode"@,
                "--no-session-persistence"@,
                "--tools"@,
                ""@,
                "--print"@,
                "Reply exactly OK."@,
                "--output-format"@,
                "text"@,
            ],
            Operation::Logout => seq!["auth"@, "logout"@],
        }
    }

    /// The arguments that the tool is run with.
    pub fn arguments(self) -> (arguments: Vec<&'static str>)
        ensures
            arguments@.map_values(|argument: &'static str| argument@) == self.argument_texts(),
    {
        let arguments: Vec<&'static str> = match self {
            Operation::Login => vec!["auth", "login"],
            Operation::Status => vec!["auth", "status"],
            Operation::Warmup => vec![
                "--safe-mode",
                "--no-session-persistence",
                "--tools",
                "",
                "--print",
                "Reply exactly OK.",
                "--output-format",
                "text",
            ],
            Operation::Logout => vec!["auth", "logout"],
        };
        assert(arguments@.map_values(|argument: &'static str| argument@)
            =~= self.argument_texts());
        arguments
    }

    /// How long the operation may take, in seconds.
    pub open spec fn limit(self) -> u64 {
        match self {
            Operation::Login => 600,
            Operation::Status => 30,
            Operation::Warmup => 120,
            Operation::Logout => 30,
        }
    }

    /// How long the operation may take, in seconds.
    pub fn limit_secs(self) -> (limit: u64)
        ensures
            limit == self.limit(),
    {
        match self {
            Operation::Login => 600,
            Operation::Status => 30,
            Operation::Warmup => 120,
            Operation::Logout => 30,
        }
    }

    /// Whether somebody sits in front of the tool. Only signing in takes input.
    pub fn is_interactive(self) -> (interactive: bool)
        ensures
            interactive == (self == Operation::Login),
    {
        match self {
            Operation::Login => true,
            Operation::Status => false,
            Operation::Warmup => false,
            Operation::Logout => false,
        }
    }

    /// What is said of an operation that took too long.
    pub fn timeout_error(self, provider: &Provider) -> (error: String)
        ensures
            error@ == naming(""@, provider@, " "@) + self.words() + " timed out after "@ + natural(
                self.limit() as nat,
            ) + " seconds"@,
    {
        let limit = natural_text(self.limit_secs());
        let start = named("", provider, " ");
        join5(start.as_str(), self.name(), " timed out after ", limit.as_str(), " seconds")
    }

    /// What is said when the tool could not be started.
    pub fn start_error(self, provider: &Provider, details: &str) -> (error: String)
        ensures
            error@ == naming("Could not start "@, provider@, " CLI for "@) + self.words() + ": "@
                + details@,
    {
        let start = named("Could not start ", provider, " CLI for ");
        join4(start.as_str(), self.name(), ": ", details)
    }

    /// What is said when the output of the tool could not be read.
    pub fn read_error(self, provider: &Provider, details: &str) -> (error: String)
        ensures
            error@ == naming("Could not read "@, provider@, " "@) + self.words() + " output: "@
                + details@,
    {
        let start = named("Could not read ", provider, " ");
        join4(start.as_str(), self.name(), " output: ", details)
    }
}

/// The variables that would put another login in place of that of the account.
pub open spec fn overriding_names() -> Seq<Seq<char>> {
    seq![
        "ANTHROPIC_API_KEY"@,
        "ANTHROPIC_AUTH_TOKEN"@,
        "ANTHROPIC_AWS_API_KEY"@,
        "ANTHROPIC_AWS_BASE_URL"@,
        "ANTHROPIC_AWS_WORKSPACE_ID"@,
        "ANTHROPIC_BASE_URL"@,
        "ANTHROPIC_BEDROCK_BASE_URL"@,
        "ANTHROPIC_BEDROCK_MANTLE_BASE_URL"@,
        "ANTHROPIC_CUSTOM_HEADERS"@,
        "ANTHROPIC_FEDERATION_RULE_ID"@,
        "ANTHROPIC_FOUNDRY_API_KEY"@,
        "ANTHROPIC_FOUNDRY_AUTH_TOKEN"@,
        "ANTHROPIC_FOUNDRY_BASE_URL"@,
        "ANTHROPIC_FOUNDRY_RESOURCE"@,
        "ANTHROPIC_IDENTITY_TOKEN"@,
        "ANTHROPIC_IDENTITY_TOKEN_FILE"@,
        "ANTHROPIC_ORGANIZATION_ID"@,
        "ANTHROPIC_PROFILE"@,
        "ANTHROPIC_SERVICE_ACCOUNT_ID"@,
        "ANTHROPIC_VERTEX_BASE_URL"@,
        "ANTHROPIC_VERTEX_PROJECT_ID"@,
        "ANTHROPIC_WORKSPACE_ID"@,
        "AWS_BEARER_TOKEN_BEDROCK"@,
        "CLAUDE_CODE_OAUTH_REFRESH_TOKEN"@,
        "CLAUDE_CODE_OAUTH_SCOPES"@,
        "CLAUDE_CODE_OAUTH_TOKEN"@,
        "CLAUDE_CODE_SKIP_ANTHROPIC_AWS_AUTH"@,
        "CLAUDE_CODE_SKIP_BEDROCK_AUTH"@,
        "CLAUDE_CODE_SKIP_FOUNDRY_AUTH"@,
        "CLAUDE_CODE_SKIP_MANTLE_AUTH"@,
        "CLAUDE_CODE_SKIP_VERTEX_AUTH"@,
        "CLAUDE_CODE_USE_ANTHROPIC_AWS"@,
        "CLAUDE_CODE_USE_BEDROCK"@,
        "CLAUDE_CODE_USE_FOUNDRY"@,
        "CLAUDE_CODE_USE_MANTLE"@,
        "CLAUDE_CODE_USE_VERTEX"@,
    ]
}

/// The variables that are taken out of the environment of the tool: each would
/// put another login in place of that of the account.
pub fn overriding_variables() -> (names: Vec<&'static str>)
    ensures
        names@.map_values(|name: &'static str| name@) == overriding_names(),
{
    let names: Vec<&'static str> = vec![
        "ANTHROPIC_API_KEY",
        "ANTHROPIC_AUTH_TOKEN",
        "ANTHROPIC_AWS_API_KEY",
        "ANTHROPIC_AWS_BASE_URL",
        "ANTHROPIC_AWS_WORKSPACE_ID",
        "ANTHROPIC_BASE_URL",
        "ANTHROPIC_BEDROCK_BASE_URL",
        "ANTHROPIC_BEDROCK_MANTLE_BASE_URL",
        "ANTHROPIC_CUSTOM_HEADERS",
        "ANTHROPIC_FEDERATION_RULE_ID",
        "ANTHROPIC_FOUNDRY_API_KEY",
        "ANTHROPIC_FOUNDRY_AUTH_TOKEN",
        "ANTHROPIC_FOUNDRY_BASE_URL",
        "ANTHROPIC_FOUNDRY_RESOURCE",
        "ANTHROPIC_IDENTITY_TOKEN",
        "ANTHROPIC_IDENTITY_TOKEN_FILE",
        "ANTHROPIC_ORGANIZATION_ID",
        "ANTHROPIC_PROFILE",
        "ANTHROPIC_SERVICE_ACCOUNT_ID",
        "ANTHROPIC_VERTEX_BASE_URL",
        "ANTHROPIC_VERTEX_PROJECT_ID",
        "ANTHROPIC_WORKSPACE_ID",
        "AWS_BEARER_TOKEN_BEDROCK",
        "CLAUDE_CODE_OAUTH_REFRESH_TOKEN",
        "CLAUDE_CODE_OAUTH_SCOPES",
        "CLAUDE_CODE_OAUTH_TOKEN",
        "CLAUDE_CODE_SKIP_ANTHROPIC_AWS_AUTH",
        "CLAUDE_CODE_SKIP_BEDROCK_AUTH",
        "CLAUDE_CODE_SKIP_FOUNDRY_AUTH",
        "CLAUDE_CODE_SKIP_MANTLE_AUTH",
        "CLAUDE_CODE_SKIP_VERTEX_AUTH",
        "CLAUDE_CODE_USE_ANTHROPIC_AWS",
        "CLAUDE_CODE_USE_BEDROCK",
        "CLAUDE_CODE_USE_FOUNDRY",
        "CLAUDE_CODE_USE_MANTLE",
        "CLAUDE_CODE_USE_VERTEX",
    ];
    assert(names@.map_values(|name: &'static str| name@) =~= overriding_names());
    names
}

/// The variable under which the tool is told the home of the account.
pub fn home_variable() -> (name: &'static str)
    ensures
        name@ == "CLAUDE_CONFIG_DIR"@,
{
    "CLAUDE_CONFIG_DIR"
}

/// The file in the home of an account that holds its credentials.
pub fn credentials_file() -> (name: &'static str)
    ensures
        name@ == ".credentials.json"@,
{
    ".credentials.json"
}

/// What a run of the tool left behind.
#[derive(Debug)]
pub struct CommandOutput {
    pub success: bool,
    pub code: Option<i32>,
    pub stdout: Vec<u8>,
    pub stderr: Vec<u8>,
}

/// An exit code in words.
pub open spec fn exit_words(code: Option<i32>) -> Seq<char> {
    match code {
        Some(code) => decimal(code as int),
        None => "terminated by signal"@,
    }
}

/// An exit code in words.
pub fn exit_status(code: Option<i32>) -> (text: String)
    ensures
        text@ == exit_words(code),
{
    match code {
        Some(code) => decimal_text(code as i64),
        None => "terminated by signal".to_owned(),
    }
}

/// What is said of an operation that failed with an exit code, given what the
/// tool said of it.
pub open spec fn failure(
    provider: ProviderModel,
    operation: Operation,
    code: Option<i32>,
    said: Seq<char>,
) -> Seq<char> {
    if trimmed(said).len() == 0 {
        naming(""@, provider, " "@) + operation.words() + " failed with exit status "@
            + exit_words(code)
    } else {
        naming(""@, provider, " "@) + operation.words() + " failed: "@ + trimmed(said)
    }
}

/// Describes an operation that failed, given what the tool said of it.
pub fn failure_text(
    provider: &Provider,
    operation: Operation,
    code: Option<i32>,
    said: &str,
) -> (error: String)
    ensures
        error@ == failure(provider@, operation, code, said@),
{
    let start = named("", provider, " ");
    let details = trim_text(said);
    if details.as_str().unicode_len() == 0 {
        let status = exit_status(code);
        join4(start.as_str(), operation.name(), " failed with exit status ", status.as_str())
    } else {
        join4(start.as_str(), operation.name(), " failed: ", details.as_str())
    }
}

/// Describes an operation that failed.
pub fn command_error(provider: &Provider, output: &CommandOutput, operation: Operation) -> (error:
    String)
    ensures
        error@ == failure(provider@, operation, output.code, lossy_text(output.stderr@)),
{
    let said = decode_lossy(&output.stderr);
    failure_text(provider, operation, output.code, said.as_str())
}

/// Passes an operation that went well.
pub fn require_success(provider: &Provider, output: &CommandOutput, operation: Operation) -> (
    result: Result<(), String>)
    ensures
        match result {
            Ok(_) => output.success,
            Err(error) => !output.success && error@ == failure(
                provider@,
                operation,
                output.code,
                lossy_text(output.stderr@),
            ),
        },
{
    if output.success {
        Ok(())
    } else {
        Err(command_error(provider, output, operation))
    }
}

/// White space among bytes: space, tab, line feed, form feed, carriage return.
pub open spec fn is_blank_byte(byte: u8) -> bool {
    byte == 32 || byte == 9 || byte == 10 || byte == 12 || byte == 13
}

/// Passes the output of a warmup that says anything at all.
pub fn check_warmup_output(provider: &Provider, stdout: &Vec<u8>) -> (result: Result<
    (),
    String,
>)
    ensures
        match result {
            Ok(_) => exists|i: int|
                0 <= i < stdout@.len() && !is_blank_byte(#[trigger] stdout@[i]),
            Err(error) => error@ == naming(""@, provider@, " warmup returned no output"@)
                && forall|i: int|
                0 <= i < stdout@.len() ==> is_blank_byte(#[trigger] stdout@[i]),
        },
{
    let mut i: usize = 0;
    while i < stdout.len()
        invariant
            i <= stdout.len(),
            forall|j: int| 0 <= j < i ==> is_blank_byte(#[trigger] stdout@[j]),
        decreases stdout.len() - i,
    {
        let byte: u8 = stdout[i];
        if !(byte == 32 || byte == 9 || byte == 10 || byte == 12 || byte == 13) {
            assert(!is_blank_byte(stdout@[i as int]));
            return Ok(());
        }
        i = i + 1;
    }
    Err(named("", provider, " warmup returned no output"))
}

/// Passes a path to the storage of an account that leads nowhere else.
/// `resolved` tells whether the path is what it resolves to.
pub fn canonical_home(provider: &Provider, resolved: Result<bool, String>) -> (result: Result<
    (),
    String,
>)
    ensures
        match (result, resolved) {
            (Ok(_), Ok(same)) => same,
            (Err(error), Ok(same)) => !same && error@
                == naming("Refusing to use an aliased "@, provider@, " account storage"@),
            (Err(error), Err(details)) => error@
                == naming("Could not open "@, provider@, " account storage: "@)
                + details@,
            (Ok(_), Err(_)) => false,
        },
{
    match resolved {
        Ok(true) => Ok(()),
        Ok(false) => Err(named("Refusing to use an aliased ", provider, " account storage")),
        Err(details) => {
            let start = named("Could not open ", provider, " account storage: ");
            Err(join2(start.as_str(), details.as_str()))
        },
    }
}

/// Passes a path to the workspace of an account that leads nowhere else.
/// `resolved` tells whether the path is what it resolves to.
pub fn canonical_workspace(provider: &Provider, resolved: Result<bool, String>) -> (result: Result<
    (),
    String,
>)
    ensures
        match (result, resolved) {
            (Ok(_), Ok(same)) => same,
            (Err(error), Ok(same)) => !same && error@
                == naming("Refusing to use an aliased "@, provider@, " warmup workspace"@),
            (Err(error), Err(details)) => error@
                == naming("Could not open the "@, provider@, " warmup workspace: "@) + details@,
            (Ok(_), Err(_)) => false,
        },
{
    match resolved {
        Ok(true) => Ok(()),
        Ok(false) => Err(named("Refusing to use an aliased ", provider, " warmup workspace")),
        Err(details) => {
            let start = named("Could not open the ", provider, " warmup workspace: ");
            Err(join2(start.as_str(), details.as_str()))
        },
    }
}

/// What the tool says of the login of an account.
#[derive(Debug)]
pub struct AuthStatus {
    pub logged_in: bool,
    pub email: Option<String>,
    pub subscription_type: Option<String>,
    pub auth_method: Option<String>,
    pub api_provider: Option<String>,
}

/// A login with the provider itself, in one of the two ways that it offers.
pub open spec fn is_first_party(provider: ProviderModel, status: AuthStatus) -> bool {
    &&& opt_text(status.auth_method) == Some(provider.web_login) || opt_text(
        status.auth_method,
    ) == Some(
        "oauth_token"@,
    )
    &&& opt_text(status.api_provider) == Some("firstParty"@)
}

/// A value that may be missing, in words.
pub open spec fn or_missing(text: Option<String>) -> Seq<char> {
    match text {
        Some(text) => text@,
        None => "<missing>"@,
    }
}

/// What is said of a login that is not supported.
pub open spec fn unsupported_login(provider: ProviderModel, status: AuthStatus) -> Seq<char> {
    naming(""@, provider, " account uses unsupported authentication (authMethod="@)
        + or_missing(status.auth_method)
        + ", apiProvider="@ + or_missing(status.api_provider)
        + ("); expected authMethod="@ + provider.web_login
        + " or oauth_token and apiProvider=firstParty"@)
}

fn text_or_missing(text: &Option<String>) -> (r: String)
    ensures
        r@ == or_missing(*text),
{
    match text {
        Some(text) => text.clone(),
        None => "<missing>".to_owned(),
    }
}

/// Passes a login with the provider itself.
pub fn validate_auth_status(provider: &Provider, status: &AuthStatus) -> (result: Result<
    (),
    String,
>)
    ensures
        match result {
            Ok(_) => is_first_party(provider@, *status),
            Err(error) => !is_first_party(provider@, *status) && error@
                == unsupported_login(provider@, *status),
        },
{
    let valid_method: bool = is_text(
        &status.auth_method,
        provider.web_login.as_str(),
    ) || is_text(
        &status.auth_method,
        "oauth_token",
    );
    if valid_method && is_text(&status.api_provider, "firstParty") {
        Ok(())
    } else {
        let method = text_or_missing(&status.auth_method);
        let api = text_or_missing(&status.api_provider);
        let start = named(
            "",
            provider,
            " account uses unsupported authentication (authMethod=",
        );
        let expected = join3(
            "); expected authMethod=",
            provider.web_login.as_str(),
            " or oauth_token and apiProvider=firstParty",
        );
        Err(
            join5(
                start.as_str(),
                method.as_str(),
                ", apiProvider=",
                api.as_str(),
                expected.as_str(),
            ),
        )
    }
}

/// The login that the tool reports, if it is one that can be used.
pub open spec fn reported_login(
    provider: ProviderModel,
    success: bool,
    parsed: Result<AuthStatus, String>,
    failed: Seq<char>,
) -> Result<AuthStatus, Seq<char>> {
    match parsed {
        Err(error) => Err(
            if success {
                error@
            } else {
                failed
            },
        ),
        Ok(status) => if !status.logged_in {
            Err("This account is not signed in"@)
        } else if !success {
            Err(failed)
        } else if !is_first_party(provider, status) {
            Err(unsupported_login(provider, status))
        } else {
            Ok(status)
        },
    }
}

/// A reported login is used if and only if the report went well and tells of one
/// with the provider itself, by its web site or by a token.
pub proof fn law_only_first_party_logins_are_used(
    provider: ProviderModel,
    success: bool,
    parsed: Result<AuthStatus, String>,
    failed: Seq<char>,
)
    ensures
        reported_login(provider, success, parsed, failed) is Ok <==> {
            &&& success
            &&& parsed matches Ok(status)
            &&& status.logged_in
            &&& opt_text(status.api_provider) == Some("firstParty"@)
            &&& {
                ||| opt_text(status.auth_method) == Some(provider.web_login)
                ||| opt_text(status.auth_method) == Some("oauth_token"@)
            }
        },
        reported_login(provider, success, parsed, failed) matches Ok(status) ==> parsed == Ok::<
            AuthStatus,
            String,
        >(status),
{
}

/// Decides on the login that the tool reports. `failed` is what is said of the
/// operation if it did not go well.
pub fn judge_login(
    provider: &Provider,
    success: bool,
    parsed: Result<AuthStatus, String>,
    failed: String,
) -> (result: Result<AuthStatus, String>)
    ensures
        match (result, reported_login(provider@, success, parsed, failed@)) {
            (Ok(status), Ok(expected)) => status == expected,
            (Err(error), Err(expected)) => error@ == expected,
            _ => false,
        },
{
    match parsed {
        Err(error) => if success {
            Err(error)
        } else {
            Err(failed)
        },
        Ok(status) => {
            if !status.logged_in {
                return Err("This account is not signed in".to_owned());
            }
            if !success {
                return Err(failed);
            }
            match validate_auth_status(provider, &status) {
                Ok(_) => Ok(status),
                Err(error) => Err(error),
            }
        },
    }
}

/// Decides on the output of the status operation, given what it was read as.
pub fn read_auth_status(
    provider: &Provider,
    output: &CommandOutput,
    parsed: Result<AuthStatus, String>,
) -> (result: Result<AuthStatus, String>)
    ensures
        match (
            result,
            reported_login(
                provider@,
                output.success,
                parsed,
                failure(
                    provider@,
                    Operation::Status,
                    output.code,
                    lossy_text(output.stderr@),
                ),
            ),
        ) {
            (Ok(status), Ok(expected)) => status == expected,
            (Err(error), Err(expected)) => error@ == expected,
            _ => false,
        },
{
    let failed = command_error(provider, output, Operation::Status);
    judge_login(provider, output.success, parsed, failed)
}

/// An account as its login and its usage show it. The login names the plan; the
/// credentials do where it does not.
pub fn snapshot_from_status_and_limits(
    provider: &Provider,
    status: AuthStatus,
    limits: UsageWindows,
    credential_subscription_type: Option<String>,
) -> (result: Result<AccountSnapshot, String>)
    ensures
        match result {
            Ok(snapshot) => is_first_party(provider@, status) && snapshot@ == (SnapshotModel {
                email: opt_text(status.email),
                plan: if status.subscription_type is Some {
                    opt_text(status.subscription_type)
                } else {
                    opt_text(credential_subscription_type)
                },
                limits,
            }),
            Err(error) => !is_first_party(provider@, status) && error@ == unsupported_login(
                provider@,
                status,
            ),
        },
{
    match validate_auth_status(provider, &status) {
        Ok(_) => {
            let plan = match status.subscription_type {
                Some(plan) => Some(plan),
                None => credential_subscription_type,
            };
            Ok(AccountSnapshot { email: status.email, plan, limits })
        },
        Err(error) => Err(error),
    }
}

/// What a path leads to.
#[derive(Clone, Copy, Debug, PartialEq, Eq, Structural)]
pub enum FileKind {
    Regular,
    Link,
    Other,
}

/// Why a file could not be looked at.
#[derive(Debug)]
pub enum FileProblem {
    Missing,
    Other(String),
}

/// What is said when the credentials could not be looked at.
pub open spec fn credentials_unreadable(
    provider: ProviderModel,
    problem: FileProblem,
    action: Seq<char>,
) -> Seq<char> {
    match problem {
        FileProblem::Missing => naming(
            ""@,
            provider,
            naming(" OAuth credentials file is missing; sign in with "@, provider, " first"@),
        ),
        FileProblem::Other(details) => "Could not "@ + action
            + naming(" "@, provider, " OAuth credentials: "@)
            + details@,
    }
}

/// Describes why the credentials could not be looked at.
pub fn credentials_problem(provider: &Provider, problem: &FileProblem, action: &str) -> (error:
    String)
    ensures
        error@ == credentials_unreadable(provider@, *problem, action@),
{
    match problem {
        FileProblem::Missing => {
            let advice = named(
                " OAuth credentials file is missing; sign in with ",
                provider,
                " first",
            );
            named("", provider, advice.as_str())
        },
        FileProblem::Other(details) => {
            let middle = named(" ", provider, " OAuth credentials: ");
            join4("Could not ", action, middle.as_str(), details.as_str())
        },
    }
}

/// Passes credentials in a file of their own.
pub fn check_credentials_file(provider: &Provider, kind: Result<FileKind, FileProblem>) -> (result:
    Result<(), String>)
    ensures
        match (result, kind) {
            (Ok(_), Ok(kind)) => kind == FileKind::Regular,
            (Err(error), Ok(kind)) => match kind {
                FileKind::Regular => false,
                FileKind::Link => error@
                    == naming("Refusing to use aliased "@, provider@, " OAuth credentials"@),
                FileKind::Other => error@
                    == naming(""@, provider@, " OAuth credentials path is not a regular file"@),
            },
            (Err(error), Err(problem)) => error@ == credentials_unreadable(
                provider@,
                problem,
                "read"@,
            ),
            (Ok(_), Err(_)) => false,
        },
{
    match kind {
        Ok(FileKind::Regular) => Ok(()),
        Ok(FileKind::Link) =>
            Err(named("Refusing to use aliased ", provider, " OAuth credentials")),
        Ok(FileKind::Other) => {
            Err(named("", provider, " OAuth credentials path is not a regular file"))
        },
        Err(problem) => Err(credentials_problem(provider, &problem, "read")),
    }
}

/// Passes a path to the credentials that leads nowhere else. `resolved` tells
/// whether the path is what it resolves to.
pub fn check_credentials_path(provider: &Provider, resolved: Result<bool, FileProblem>) -> (result:
    Result<(), String>)
    ensures
        match (result, resolved) {
            (Ok(_), Ok(same)) => same,
            (Err(error), Ok(same)) => !same && error@
                == naming("Refusing to use aliased "@, provider@, " OAuth credentials"@),
            (Err(error), Err(problem)) => error@ == credentials_unreadable(
                provider@,
                problem,
                "verify"@,
            ),
            (Ok(_), Err(_)) => false,
        },
{
    match resolved {
        Ok(true) => Ok(()),
        Ok(false) => Err(named("Refusing to use aliased ", provider, " OAuth credentials")),
        Err(problem) => Err(credentials_problem(provider, &problem, "verify")),
    }
}

/// The login that the tool keeps in its file.
#[derive(Debug)]
pub struct ClaudeAiOauth {
    pub access_token: String,
    pub scopes: Option<Vec<String>>,
    pub subscription_type: Option<String>,
}

/// The file in which the tool keeps its login.
#[derive(Debug)]
pub struct ClaudeCredentialsFile {
    pub claude_ai_oauth: Option<ClaudeAiOauth>,
}

/// The scopes of a login, where it names any, allow to ask for usage.
pub open spec fn allows_usage(oauth: ClaudeAiOauth) -> bool {
    match oauth.scopes {
        Some(scopes) => texts(scopes@).contains("user:profile"@),
        None => true,
    }
}

/// The login in a file of credentials, if it is one that can be used.
pub open spec fn usable_login(
    provider: ProviderModel,
    file: Option<ClaudeCredentialsFile>,
) -> Result<ClaudeAiOauth, Seq<char>> {
    match file {
        None => Err(naming(""@, provider, " OAuth credentials are invalid"@)),
        Some(file) => match file.claude_ai_oauth {
            None => Err(naming(""@, provider, " OAuth credentials do not contain claudeAiOauth"@)),
            Some(oauth) => if trimmed(oauth.access_token@).len() == 0 {
                Err(naming(""@, provider, " OAuth credentials do not contain an access token"@))
            } else if !allows_usage(oauth) {
                Err(naming(""@, provider, " OAuth token lacks required user:profile scope"@))
            } else {
                Ok(oauth)
            },
        },
    }
}

fn has_text(all: &Vec<String>, wanted: &str) -> (found: bool)
    ensures
        found == texts(all@).contains(wanted@),
{
    let mut i: usize = 0;
    while i < all.len()
        invariant
            i <= all.len(),
            forall|j: int| 0 <= j < i ==> #[trigger] texts(all@)[j] != wanted@,
        decreases all.len() - i,
    {
        assert(texts(all@)[i as int] == all@[i as int]@);
        if same_text(all[i].as_str(), wanted) {
            return true;
        }
        i = i + 1;
    }
    false
}

/// Decides on the credentials of an account, as read from their file; nothing
/// was read from a file that holds something else.
pub fn parse_credentials(provider: &Provider, file: Option<ClaudeCredentialsFile>) -> (result:
    Result<ClaudeAiOauth, String>)
    ensures
        match (result, usable_login(provider@, file)) {
            (Ok(oauth), Ok(expected)) => oauth == expected,
            (Err(error), Err(expected)) => error@ == expected,
            _ => false,
        },
{
    let oauth = match file {
        Some(file) => match file.claude_ai_oauth {
            Some(oauth) => oauth,
            None => {
                return Err(named("", provider, " OAuth credentials do not contain claudeAiOauth"));
            },
        },
        None => {
            return Err(named("", provider, " OAuth credentials are invalid"));
        },
    };
    if trim_text(oauth.access_token.as_str()).as_str().unicode_len() == 0 {
        return Err(named("", provider, " OAuth credentials do not contain an access token"));
    }
    let allowed: bool = match &oauth.scopes {
        Some(scopes) => has_text(scopes, "user:profile"),
        None => true,
    };
    if allowed {
        Ok(oauth)
    } else {
        Err(named("", provider, " OAuth token lacks required user:profile scope"))
    }
}

/// Characters that may stand in the value of an HTTP header.
pub open spec fn is_header_char(c: char) -> bool {
    c == '\t' || (c >= ' ' && c != '\u{7f}')
}

/// Calls `reqwest::header::HeaderValue::from_str`, which accepts a text unless
/// one of its bytes is a control character other than a tab.
#[verifier::external_body]
fn is_header_value(text: &str) -> (valid: bool)
    ensures
        valid == forall|i: int| 0 <= i < text@.len() ==> is_header_char(#[trigger] text@[i]),
{
    reqwest::header::HeaderValue::from_str(text).is_ok()
}

/// The header under which usage is asked for.
pub fn authorization(provider: &Provider, access_token: &str) -> (result: Result<String, String>)
    ensures
        ({
            let header = "Bearer "@ + access_token@;
            match result {
                Ok(value) => value@ == header && forall|i: int|
                    0 <= i < header.len() ==> is_header_char(#[trigger] header[i]),
                Err(error) => error@ == naming(
                    ""@,
                    provider@,
                    " OAuth access token is invalid"@,
                ) && exists|i: int|
                    0 <= i < header.len() && !is_header_char(#[trigger] header[i]),
            }
        }),
{
    let header = join2("Bearer ", access_token);
    if is_header_value(header.as_str()) {
        Ok(header)
    } else {
        Err(named("", provider, " OAuth access token is invalid"))
    }
}

/// Where usage is asked for.
pub fn usage_endpoint() -> (address: &'static str)
    ensures
        address@ == "https://api.anthropic.com/api/oauth/usage"@,
{
    "https://api.anthropic.com/api/oauth/usage"
}

/// The header that goes with a request for usage, besides the authorization, and
/// its value.
pub fn usage_header() -> (header: (&'static str, &'static str))
    ensures
        header.0@ == "anthropic-beta"@,
        header.1@ == "oauth-2025-04-20"@,
{
    ("anthropic-beta", "oauth-2025-04-20")
}

/// What is said when the service took too long.
pub open spec fn usage_timeout(provider: ProviderModel) -> Seq<char> {
    naming(""@, provider, " OAuth usage request timed out after "@)
        + natural(OAUTH_USAGE_TIMEOUT_SECS as nat)
        + " seconds"@
}

fn usage_timeout_text(provider: &Provider) -> (error: String)
    ensures
        error@ == usage_timeout(provider@),
{
    let limit = natural_text(OAUTH_USAGE_TIMEOUT_SECS);
    let start = named("", provider, " OAuth usage request timed out after ");
    join3(start.as_str(), limit.as_str(), " seconds")
}

/// Describes a request for usage that was not answered.
pub fn usage_request_error(provider: &Provider, timed_out: bool, details: &str) -> (error: String)
    ensures
        error@ == if timed_out {
            usage_timeout(provider@)
        } else {
            naming("Could not fetch "@, provider@, " OAuth usage: "@) + details@
        },
{
    if timed_out {
        usage_timeout_text(provider)
    } else {
        let start = named("Could not fetch ", provider, " OAuth usage: ");
        join2(start.as_str(), details)
    }
}

/// Describes an answer that could not be read.
pub fn usage_body_error(provider: &Provider, timed_out: bool) -> (error: String)
    ensures
        error@ == if timed_out {
            usage_timeout(provider@)
        } else {
            naming(""@, provider@, " OAuth usage response was invalid; endpoint may have changed"@)
        },
{
    if timed_out {
        usage_timeout_text(provider)
    } else {
        named("", provider, " OAuth usage response was invalid; endpoint may have changed")
    }
}

/// What is said of an answer with an HTTP status that is no success.
pub open spec fn usage_refusal(provider: ProviderModel, code: u16) -> Seq<char> {
    let number = natural(code as nat);
    if code == 401 {
        naming(""@, provider, " OAuth usage unauthorized (HTTP "@) + number + "); sign in again"@
    } else if code == 403 {
        naming(""@, provider, " OAuth usage forbidden (HTTP "@) + number
            + "); verify token has user:profile scope"@
    } else if code == 404 {
        naming(""@, provider, " OAuth usage endpoint unavailable (HTTP "@) + number
            + "); endpoint may have changed"@
    } else if 500 <= code < 600 {
        naming(""@, provider, " OAuth usage service failed (HTTP "@) + number + "); retry later"@
    } else {
        naming(""@, provider, " OAuth usage request failed with HTTP status "@) + number
    }
}

/// Describes an answer with an HTTP status that is no success.
pub fn oauth_usage_status_error(provider: &Provider, code: u16) -> (error: String)
    ensures
        error@ == usage_refusal(provider@, code),
{
    let number = natural_text(code as u64);
    if code == 401 {
        let start = named("", provider, " OAuth usage unauthorized (HTTP ");
        join3(start.as_str(), number.as_str(), "); sign in again")
    } else if code == 403 {
        let start = named("", provider, " OAuth usage forbidden (HTTP ");
        join3(start.as_str(), number.as_str(), "); verify token has user:profile scope")
    } else if code == 404 {
        let start = named("", provider, " OAuth usage endpoint unavailable (HTTP ");
        join3(start.as_str(), number.as_str(), "); endpoint may have changed")
    } else if 500 <= code && code < 600 {
        let start = named("", provider, " OAuth usage service failed (HTTP ");
        join3(start.as_str(), number.as_str(), "); retry later")
    } else {
        let start = named("", provider, " OAuth usage request failed with HTTP status ");
        join2(start.as_str(), number.as_str())
    }
}

/// Passes an answer with an HTTP status of success.
pub fn check_usage_status(provider: &Provider, code: u16) -> (result: Result<(), String>)
    ensures
        match result {
            Ok(_) => 200 <= code < 300,
            Err(error) => !(200 <= code < 300) && error@ == usage_refusal(provider@, code),
        },
{
    if 200 <= code && code < 300 {
        Ok(())
    } else {
        Err(oauth_usage_status_error(provider, code))
    }
}

/// A window in a report of usage: the share that is used, rounded to whole
/// percents unless it is no number, and the moment of its reset.
#[derive(Debug)]
pub struct OAuthUsageWindow {
    pub utilization: Option<i32>,
    pub resets_at: Option<String>,
}

/// A report of usage.
#[derive(Debug)]
pub struct OAuthUsageResponse {
    pub five_hour: Option<OAuthUsageWindow>,
    pub seven_day: Option<OAuthUsageWindow>,
}

/// The moment that a text in the format of RFC 3339 names, in whole seconds
/// since the beginning of 1970; nothing for any other text.
pub uninterp spec fn rfc3339_moment(text: Seq<char>) -> Option<i64>;

/// Calls `chrono::DateTime::parse_from_rfc3339` and takes the timestamp of the
/// result. Both depend on the text alone.
#[verifier::external_body]
fn parse_rfc3339(text: &str) -> (at: Option<i64>)
    ensures
        at == rfc3339_moment(text@),
{
    chrono::DateTime::parse_from_rfc3339(text).ok().map(|time| time.timestamp())
}

/// What is said of a report with a part that makes no sense.
pub open spec fn usage_problem(
    provider: ProviderModel,
    name: Seq<char>,
    part: Seq<char>,
) -> Seq<char> {
    naming(""@, provider, " OAuth usage returned invalid "@) + name + part
}

fn usage_problem_text(provider: &Provider, name: &str, part: &str) -> (error: String)
    ensures
        error@ == usage_problem(provider@, name@, part@),
{
    let start = named("", provider, " OAuth usage returned invalid ");
    join3(start.as_str(), name, part)
}

/// The moment of a reset, as the report names it.
pub fn parse_reset_timestamp(provider: &Provider, value: &str, name: &str) -> (result: Result<
    i64,
    String,
>)
    ensures
        match (result, rfc3339_moment(value@)) {
            (Ok(at), Some(expected)) => at == expected,
            (Err(error), None) => error@ == usage_problem(provider@, name@, " reset timestamp"@),
            _ => false,
        },
{
    match parse_rfc3339(value) {
        Some(at) => Ok(at),
        None => Err(usage_problem_text(provider, name, " reset timestamp")),
    }
}

/// A window as the library has it. `reset` is the moment of its reset: nothing
/// if the report names none, and nothing in it if the report names it badly.
pub open spec fn mapped_window(
    provider: ProviderModel,
    utilization: Option<i32>,
    reset: Option<Option<i64>>,
    name: Seq<char>,
    duration_mins: i64,
) -> Result<LimitWindow, Seq<char>> {
    match (utilization, reset) {
        (None, _) => Err(usage_problem(provider, name, " utilization"@)),
        (Some(_), Some(None)) => Err(usage_problem(provider, name, " reset timestamp"@)),
        (Some(used), Some(Some(at))) => Ok(
            LimitWindow {
                used_percent: percent(used as int) as i32,
                window_duration_mins: Some(duration_mins),
                resets_at: Some(at),
            },
        ),
        (Some(used), None) => Ok(
            LimitWindow {
                used_percent: percent(used as int) as i32,
                window_duration_mins: Some(duration_mins),
                resets_at: None,
            },
        ),
    }
}

/// Makes a window out of a share that is used and the moment of a reset.
pub fn make_window(
    provider: &Provider,
    utilization: Option<i32>,
    reset: Option<Option<i64>>,
    name: &str,
    duration_mins: i64,
) -> (result: Result<LimitWindow, String>)
    ensures
        match (result, mapped_window(provider@, utilization, reset, name@, duration_mins)) {
            (Ok(window), Ok(expected)) => window == expected,
            (Err(error), Err(expected)) => error@ == expected,
            _ => false,
        },
{
    let used: i32 = match utilization {
        Some(used) => if used < 0 {
            0
        } else if used > 100 {
            100
        } else {
            used
        },
        None => {
            return Err(usage_problem_text(provider, name, " utilization"));
        },
    };
    let resets_at = match reset {
        Some(Some(at)) => Some(at),
        Some(None) => {
            return Err(usage_problem_text(provider, name, " reset timestamp"));
        },
        None => None,
    };
    Ok(LimitWindow { used_percent: used, window_duration_mins: Some(duration_mins), resets_at })
}

/// The moment of the reset of a window in a report.
pub open spec fn named_reset(window: OAuthUsageWindow) -> Option<Option<i64>> {
    match window.resets_at {
        Some(text) => Some(rfc3339_moment(text@)),
        None => None,
    }
}

/// Makes a window out of one in a report.
pub fn map_usage_window(
    provider: &Provider,
    window: &OAuthUsageWindow,
    name: &str,
    duration_mins: i64,
) -> (result: Result<LimitWindow, String>)
    ensures
        match (
            result,
            mapped_window(
                provider@,
                window.utilization,
                named_reset(*window),
                name@,
                duration_mins,
            ),
        ) {
            (Ok(window), Ok(expected)) => window == expected,
            (Err(error), Err(expected)) => error@ == expected,
            _ => false,
        },
{
    let reset = match &window.resets_at {
        Some(text) => Some(parse_rfc3339(text.as_str())),
        None => None,
    };
    make_window(provider, window.utilization, reset, name, duration_mins)
}

/// A window that a report may hold.
pub open spec fn reported_window(
    provider: ProviderModel,
    window: Option<OAuthUsageWindow>,
    name: Seq<char>,
    duration_mins: i64,
) -> Result<Option<LimitWindow>, Seq<char>> {
    match window {
        Some(window) => match mapped_window(
            provider,
            window.utilization,
            named_reset(window),
            name,
            duration_mins,
        ) {
            Ok(window) => Ok(Some(window)),
            Err(error) => Err(error),
        },
        None => Ok(None),
    }
}

/// The windows in a report: those for five hours and for a week, where it holds
/// them. One that makes no sense spoils the report.
pub open spec fn reported_usage(
    provider: ProviderModel,
    response: OAuthUsageResponse,
) -> Result<UsageWindows, Seq<char>> {
    match (
        reported_window(provider, response.five_hour, "five_hour"@, SESSION_MINUTES),
        reported_window(provider, response.seven_day, "seven_day"@, WEEK_MINUTES),
    ) {
        (Err(error), _) => Err(error),
        (Ok(_), Err(error)) => Err(error),
        (Ok(session), Ok(weekly)) => Ok(UsageWindows { session, weekly }),
    }
}

fn map_optional_window(
    provider: &Provider,
    window: &Option<OAuthUsageWindow>,
    name: &str,
    duration_mins: i64,
) -> (result: Result<Option<LimitWindow>, String>)
    ensures
        match (result, reported_window(provider@, *window, name@, duration_mins)) {
            (Ok(window), Ok(expected)) => window == expected,
            (Err(error), Err(expected)) => error@ == expected,
            _ => false,
        },
{
    match window {
        Some(window) => match map_usage_window(provider, window, name, duration_mins) {
            Ok(window) => Ok(Some(window)),
            Err(error) => Err(error),
        },
        None => Ok(None),
    }
}

/// The windows in a report.
pub fn usage_windows_from_response(provider: &Provider, response: &OAuthUsageResponse) -> (result:
    Result<UsageWindows, String>)
    ensures
        match (result, reported_usage(provider@, *response)) {
            (Ok(windows), Ok(expected)) => windows == expected,
            (Err(error), Err(expected)) => error@ == expected,
            _ => false,
        },
{
    let session = match map_optional_window(
        provider,
        &response.five_hour,
        "five_hour",
        SESSION_MINUTES,
    ) {
        Ok(session) => session,
        Err(error) => {
            return Err(error);
        },
    };
    let weekly = match map_optional_window(
        provider,
        &response.seven_day,
        "seven_day",
        WEEK_MINUTES,
    ) {
        Ok(weekly) => weekly,
        Err(error) => {
            return Err(error);
        },
    };
    Ok(UsageWindows { session, weekly })
}

/// A window that is read from a report is of the length that its name says, and
/// its usage is a percentage.
pub proof fn law_reported_windows_are_sound(
    provider: ProviderModel,
    response: OAuthUsageResponse,
)
    requires
        reported_usage(provider, response) is Ok,
    ensures
        response.five_hour is None <==> reported_usage(provider, response)->Ok_0.session is None,
        response.seven_day is None <==> reported_usage(provider, response)->Ok_0.weekly is None,
        reported_usage(provider, response)->Ok_0.session matches Some(window) ==> 0
            <= window.used_percent <= 100 && window.window_duration_mins == Some(SESSION_MINUTES),
        reported_usage(provider, response)->Ok_0.weekly matches Some(window) ==> 0
            <= window.used_percent <= 100 && window.window_duration_mins == Some(WEEK_MINUTES),
{
}

/// What is said of credentials that are refused does not depend on the token in
/// them, as long as there is one.
pub proof fn law_refusals_keep_the_token_secret(
    provider: ProviderModel,
    oauth: ClaudeAiOauth,
    token: String,
    error: Seq<char>,
)
    requires
        trimmed(oauth.access_token@).len() > 0,
        trimmed(token@).len() > 0,
        usable_login(provider, Some(ClaudeCredentialsFile { claude_ai_oauth: Some(oauth) }))
            == Err::<
            ClaudeAiOauth,
            Seq<char>,
        >(error),
    ensures
        usable_login(
            provider,
            Some(
                ClaudeCredentialsFile {
                    claude_ai_oauth: Some(ClaudeAiOauth { access_token: token, ..oauth }),
                },
            ),
        ) == Err::<ClaudeAiOauth, Seq<char>>(error),
{
}

/// What a window in an accepted report says is kept: the length that its name
/// stands for, the share that is used within the bounds of a percentage, and the
/// reset, which is there exactly where the report names one.
pub open spec fn keeps_report(
    reported: Option<OAuthUsageWindow>,
    kept: Option<LimitWindow>,
    minutes: i64,
) -> bool {
    match (reported, kept) {
        (None, None) => true,
        (Some(reported), Some(kept)) => {
            &&& kept.window_duration_mins == Some(minutes)
            &&& reported.utilization matches Some(used) && {
                &&& 0 <= used <= 100 ==> kept.used_percent == used
                &&& used < 0 ==> kept.used_percent == 0
                &&& used > 100 ==> kept.used_percent == 100
            }
            &&& reported.resets_at is None ==> kept.resets_at is None
            &&& reported.resets_at matches Some(text) ==> kept.resets_at is Some && kept.resets_at
                == rfc3339_moment(text@)
        },
        _ => false,
    }
}

/// A window in a report makes sense: its share is a number, and where it names a
/// reset, that is a moment.
pub open spec fn makes_sense(reported: Option<OAuthUsageWindow>) -> bool {
    reported matches Some(window) ==> window.utilization is Some && (window.resets_at matches Some(
        text,
    ) ==> rfc3339_moment(text@) is Some)
}

/// A report is accepted exactly where all of it makes sense, and the windows that
/// are read are the ones that it holds.
pub proof fn law_reports_are_kept_whole(provider: ProviderModel, response: OAuthUsageResponse)
    ensures
        reported_usage(provider, response) is Ok <==> makes_sense(response.five_hour)
            && makes_sense(response.seven_day),
        reported_usage(provider, response) matches Ok(windows) ==> keeps_report(
            response.five_hour,
            windows.session,
            300,
        ) && keeps_report(response.seven_day, windows.weekly, 10_080),
{
}

/// The first thing in a report that makes no sense is what is said of it.
pub proof fn law_bad_reports_are_named(provider: ProviderModel, response: OAuthUsageResponse)
    ensures
        ({
            let said = provider.name + " OAuth usage returned invalid "@;
            let usage = reported_usage(provider, response);
            &&& response.five_hour matches Some(window) ==> {
                &&& window.utilization is None ==> usage == Err::<UsageWindows, Seq<char>>(
                    said + "five_hour"@ + " utilization"@,
                )
                &&& window.utilization is Some && !makes_sense(response.five_hour) ==> usage
                    == Err::<UsageWindows, Seq<char>>(said + "five_hour"@ + " reset timestamp"@)
            }
            &&& makes_sense(response.five_hour) ==> (response.seven_day matches Some(window) ==> {
                &&& window.utilization is None ==> usage == Err::<UsageWindows, Seq<char>>(
                    said + "seven_day"@ + " utilization"@,
                )
                &&& window.utilization is Some && !makes_sense(response.seven_day) ==> usage
                    == Err::<UsageWindows, Seq<char>>(said + "seven_day"@ + " reset timestamp"@)
            })
        }),
{
    assert(""@ + provider.name =~= provider.name) by {
        reveal_strlit("");
    }
}

/// Credentials are used exactly where they hold a token that is not blank and, where
/// they name scopes, one of them is that for the profile.
pub proof fn law_credentials_need_a_token_and_a_scope(
    provider: ProviderModel,
    oauth: ClaudeAiOauth,
)
    ensures
        usable_login(provider, None) is Err,
        usable_login(provider, Some(ClaudeCredentialsFile { claude_ai_oauth: None })) is Err,
        ({
            let usable = usable_login(
                provider,
                Some(ClaudeCredentialsFile { claude_ai_oauth: Some(oauth) }),
            );
            &&& usable is Ok <==> trimmed(oauth.access_token@).len() > 0 && (
            oauth.scopes matches Some(scopes) ==> exists|i: int|
                0 <= i < scopes@.len() && (#[trigger] scopes@[i])@ == "user:profile"@)
            &&& usable matches Ok(used) ==> used == oauth
        }),
{
    if let Some(scopes) = oauth.scopes {
        let names = texts(scopes@);
        if names.contains("user:profile"@) {
            let i = choose|i: int| 0 <= i < names.len() && names[i] == "user:profile"@;
            assert(scopes@[i]@ == "user:profile"@);
        }
        if exists|i: int| 0 <= i < scopes@.len() && (#[trigger] scopes@[i])@ == "user:profile"@ {
            let i = choose|i: int|
                0 <= i < scopes@.len() && (#[trigger] scopes@[i])@ == "user:profile"@;
            assert(names[i] == "user:profile"@);
        }
    }
}

/// Somebody has ten minutes to sign in, a warmup two minutes, and anything else half
/// a minute.
pub proof fn law_operations_are_limited(operation: Operation)
    ensures
        operation.limit() == 600 <==> operation == Operation::Login,
        operation.limit() == 120 <==> operation == Operation::Warmup,
        operation.limit() == 30 <==> operation == Operation::Status || operation
            == Operation::Logout,
{
}

} // verus!
