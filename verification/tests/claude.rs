use chrono::DateTime;
use codex_keep_warm::claude::{
    authorization, canonical_home, canonical_workspace, check_credentials_file,
    check_credentials_path, check_usage_status, check_warmup_output, command_error,
    credentials_file, exit_status, home_variable, map_usage_window, oauth_usage_status_error, overriding_variables, parse_credentials,
    parse_reset_timestamp, read_auth_status, require_success, snapshot_from_status_and_limits,
    usage_body_error, usage_endpoint, usage_header, usage_request_error, usage_windows_from_response, AuthStatus, ClaudeAiOauth,
    ClaudeCredentialsFile, CommandOutput, FileKind, FileProblem, OAuthUsageResponse,
    OAuthUsageWindow, Operation, Provider,
};
use codex_keep_warm::claude_flow::{advance, is_expected, start, Action, Event, Stage};
use codex_keep_warm::flow::{Ending, Goal};
use codex_keep_warm::snapshot::AccountSnapshot;
use codex_keep_warm::window::{UsageWindows, SESSION_MINUTES, WEEK_MINUTES};
use serde_json::Value;

const WEB_LOGIN: &str = "provider.example";

fn provider() -> Provider {
    Provider {
        name: "Provider".into(),
        program: "provider".into(),
        web_login: WEB_LOGIN.into(),
    }
}

fn text(value: &Value, name: &str) -> Option<String> {
    value.get(name).and_then(Value::as_str).map(str::to_owned)
}

fn parse_auth_status(stdout: &[u8]) -> Result<AuthStatus, String> {
    let value: Value = serde_json::from_slice(stdout)
        .map_err(|error| format!("Could not understand the auth status: {error}"))?;
    Ok(AuthStatus {
        logged_in: value["loggedIn"]
            .as_bool()
            .ok_or_else(|| "Could not understand the auth status".to_string())?,
        email: text(&value, "email"),
        subscription_type: text(&value, "subscriptionType"),
        auth_method: text(&value, "authMethod"),
        api_provider: text(&value, "apiProvider"),
    })
}

fn auth_status(auth_method: &str, api_provider: &str) -> AuthStatus {
    let payload = format!(
        r#"{{
            "loggedIn": true,
            "email": "user@example.com",
            "subscriptionType": "pro",
            "authMethod": "{auth_method}",
            "apiProvider": "{api_provider}"
        }}"#
    );
    parse_auth_status(payload.as_bytes()).expect("valid auth status")
}

fn snapshot(auth_method: &str, api_provider: &str) -> Result<AccountSnapshot, String> {
    snapshot_from_status_and_limits(&provider(), 
        auth_status(auth_method, api_provider),
        UsageWindows::default(),
        None,
    )
}

fn credentials(payload: &str) -> Result<ClaudeAiOauth, String> {
    let file = serde_json::from_str::<Value>(payload)
        .ok()
        .map(|value| ClaudeCredentialsFile {
            claude_ai_oauth: value.get("claudeAiOauth").map(|oauth| ClaudeAiOauth {
                access_token: text(oauth, "accessToken").unwrap_or_default(),
                scopes: oauth.get("scopes").map(|scopes| {
                    scopes
                        .as_array()
                        .unwrap()
                        .iter()
                        .map(|scope| scope.as_str().unwrap().to_owned())
                        .collect()
                }),
                subscription_type: text(oauth, "subscriptionType"),
            }),
        });
    parse_credentials(&provider(), file)
}

fn usage_window(utilization: f64, resets_at: Option<String>) -> OAuthUsageWindow {
    OAuthUsageWindow {
        utilization: utilization
            .is_finite()
            .then(|| utilization.round() as i32),
        resets_at,
    }
}

fn parse_usage_response(bytes: &[u8]) -> Result<UsageWindows, String> {
    let value: Value = serde_json::from_slice(bytes).map_err(|_| usage_body_error(&provider(), false))?;
    let window = |name: &str| {
        value
            .get(name)
            .filter(|window| !window.is_null())
            .map(|window| {
                usage_window(
                    window["utilization"].as_f64().unwrap(),
                    text(window, "resets_at"),
                )
            })
    };
    usage_windows_from_response(&provider(), &OAuthUsageResponse {
        five_hour: window("five_hour"),
        seven_day: window("seven_day"),
    })
}

fn output(success: bool, code: Option<i32>, stdout: &str, stderr: &str) -> CommandOutput {
    CommandOutput {
        success,
        code,
        stdout: stdout.as_bytes().to_vec(),
        stderr: stderr.as_bytes().to_vec(),
    }
}

#[test]
fn accepts_first_party_claude_ai_auth() {
    let snapshot = snapshot(WEB_LOGIN, "firstParty").expect("first-party auth");

    assert_eq!(snapshot.email.as_deref(), Some("user@example.com"));
    assert_eq!(snapshot.plan.as_deref(), Some("pro"));
    assert_eq!(snapshot.limits, UsageWindows::default());
}

#[test]
fn accepts_first_party_oauth_token_auth() {
    let snapshot = snapshot("oauth_token", "firstParty").expect("first-party auth");

    assert_eq!(snapshot.email.as_deref(), Some("user@example.com"));
    assert_eq!(snapshot.plan.as_deref(), Some("pro"));
    assert_eq!(snapshot.limits, UsageWindows::default());
}

#[test]
fn rejects_api_key_auth() {
    let error = snapshot("api_key", "firstParty").expect_err("API key auth must be rejected");

    assert!(error.contains("unsupported authentication"), "{error}");
}

#[test]
fn rejects_non_first_party_auth_provider() {
    let error = snapshot(WEB_LOGIN, "thirdParty").expect_err("third-party auth must be rejected");

    assert!(error.contains("unsupported authentication"), "{error}");
}

#[test]
fn accepts_oauth_credentials_without_scopes() {
    let credentials = credentials(
        r#"{
            "claudeAiOauth": {
                "accessToken": "oauth-token",
                "subscriptionType": "pro"
            }
        }"#,
    )
    .expect("credentials without scopes");

    assert_eq!(credentials.access_token, "oauth-token");
    assert_eq!(credentials.subscription_type.as_deref(), Some("pro"));
    assert!(credentials.scopes.is_none());
}

#[test]
fn accepts_oauth_credentials_with_required_scope() {
    let credentials = credentials(
        r#"{
            "claudeAiOauth": {
                "accessToken": "oauth-token",
                "scopes": ["user:profile"]
            }
        }"#,
    )
    .expect("credentials with required scope");

    assert_eq!(
        credentials.scopes.expect("scope list"),
        vec!["user:profile".to_string()]
    );
}

#[test]
fn rejects_oauth_credentials_without_required_scope() {
    let error = credentials(
        r#"{
            "claudeAiOauth": {
                "accessToken": "oauth-token",
                "scopes": ["user:inference"]
            }
        }"#,
    )
    .err()
    .expect("credentials without profile scope must be rejected");

    assert!(error.contains("user:profile"), "{error}");
    assert!(!error.contains("oauth-token"), "{error}");
}

#[test]
fn maps_and_clamps_oauth_usage_windows() {
    let windows = parse_usage_response(
        br#"{
            "five_hour": {
                "utilization": 42.5,
                "resets_at": "2026-09-12T10:15:30+02:00"
            },
            "seven_day": {
                "utilization": 150.4,
                "resets_at": null
            }
        }"#,
    )
    .expect("valid OAuth usage");
    let expected_reset = DateTime::parse_from_rfc3339("2026-09-12T10:15:30+02:00")
        .expect("valid test reset")
        .timestamp();

    let session = windows.session.as_ref().expect("session window");
    assert_eq!(session.used_percent, 43);
    assert_eq!(session.window_duration_mins, Some(SESSION_MINUTES));
    assert_eq!(session.resets_at, Some(expected_reset));
    let weekly = windows.weekly.as_ref().expect("weekly window");
    assert_eq!(weekly.used_percent, 100);
    assert_eq!(weekly.window_duration_mins, Some(WEEK_MINUTES));
    assert_eq!(weekly.resets_at, None);

    let low = map_usage_window(&provider(), &usage_window(-2.5, None), "five_hour", SESSION_MINUTES)
        .expect("finite utilization");
    assert_eq!(low.used_percent, 0);
}

#[test]
fn rejects_malformed_oauth_reset_timestamp() {
    let error = parse_usage_response(
        br#"{
            "five_hour": {
                "utilization": 1,
                "resets_at": "not-rfc3339"
            }
        }"#,
    )
    .expect_err("malformed reset must fail");

    assert!(error.contains("five_hour reset timestamp"), "{error}");
    assert!(!error.contains("not-rfc3339"), "{error}");
}

#[test]
fn treats_absent_and_null_oauth_windows_as_empty() {
    assert_eq!(
        parse_usage_response(br#"{}"#).expect("empty usage"),
        UsageWindows::default()
    );
    assert_eq!(
        parse_usage_response(
            br#"{"five_hour":null,"seven_day":null,"seven_day_opus":{"utilization":"ignored"},"extra_usage":{"is_enabled":true}}"#,
        )
        .expect("null usage"),
        UsageWindows::default()
    );
}

#[test]
fn rejects_a_share_that_is_no_number() {
    let error = map_usage_window(&provider(), &usage_window(f64::NAN, None), "seven_day", WEEK_MINUTES)
        .expect_err("not a number");
    assert_eq!(
        error,
        "Provider OAuth usage returned invalid seven_day utilization"
    );
    assert_eq!(
        parse_reset_timestamp(&provider(), "1970-01-01T00:01:00Z", "five_hour"),
        Ok(60)
    );
}

#[test]
fn names_missing_logins() {
    let mut status = auth_status(WEB_LOGIN, "firstParty");
    status.auth_method = None;
    status.api_provider = None;
    assert_eq!(
        snapshot_from_status_and_limits(&provider(), status, UsageWindows::default(), None)
            .err()
            .as_deref(),
        Some(
            "Provider account uses unsupported authentication (authMethod=<missing>, apiProvider=<missing>); expected authMethod=provider.example or oauth_token and apiProvider=firstParty"
        )
    );
    let mut status = auth_status(WEB_LOGIN, "firstParty");
    status.subscription_type = None;
    let snapshot =
        snapshot_from_status_and_limits(&provider(), status, UsageWindows::default(), Some("max".into()))
            .unwrap();
    assert_eq!(snapshot.plan.as_deref(), Some("max"));
}

#[test]
fn refuses_unusable_credentials() {
    let error = |payload: &str| credentials(payload).err().unwrap();
    assert_eq!(error("nonsense"), "Provider OAuth credentials are invalid");
    assert_eq!(
        error("{}"),
        "Provider OAuth credentials do not contain claudeAiOauth"
    );
    assert_eq!(
        error(r#"{"claudeAiOauth":{"accessToken":" \t"}}"#),
        "Provider OAuth credentials do not contain an access token"
    );
    assert_eq!(
        error(r#"{"claudeAiOauth":{"accessToken":"a","scopes":[]}}"#),
        "Provider OAuth token lacks required user:profile scope"
    );
}

#[test]
fn refuses_credentials_that_lie_elsewhere() {
    assert_eq!(check_credentials_file(&provider(), Ok(FileKind::Regular)), Ok(()));
    assert_eq!(
        check_credentials_file(&provider(), Ok(FileKind::Link)).unwrap_err(),
        "Refusing to use aliased Provider OAuth credentials"
    );
    assert_eq!(
        check_credentials_file(&provider(), Ok(FileKind::Other)).unwrap_err(),
        "Provider OAuth credentials path is not a regular file"
    );
    assert_eq!(
        check_credentials_file(&provider(), Err(FileProblem::Missing)).unwrap_err(),
        "Provider OAuth credentials file is missing; sign in with Provider first"
    );
    assert_eq!(
        check_credentials_file(&provider(), Err(FileProblem::Other("denied".into()))).unwrap_err(),
        "Could not read Provider OAuth credentials: denied"
    );
    assert_eq!(check_credentials_path(&provider(), Ok(true)), Ok(()));
    assert_eq!(
        check_credentials_path(&provider(), Ok(false)).unwrap_err(),
        "Refusing to use aliased Provider OAuth credentials"
    );
    assert_eq!(
        check_credentials_path(&provider(), Err(FileProblem::Other("denied".into()))).unwrap_err(),
        "Could not verify Provider OAuth credentials: denied"
    );
}

#[test]
fn refuses_paths_that_lead_elsewhere() {
    assert_eq!(canonical_home(&provider(), Ok(true)), Ok(()));
    assert_eq!(
        canonical_home(&provider(), Ok(false)).unwrap_err(),
        "Refusing to use an aliased Provider account storage"
    );
    assert_eq!(
        canonical_home(&provider(), Err("gone".into())).unwrap_err(),
        "Could not open Provider account storage: gone"
    );
    assert_eq!(canonical_workspace(&provider(), Ok(true)), Ok(()));
    assert_eq!(
        canonical_workspace(&provider(), Ok(false)).unwrap_err(),
        "Refusing to use an aliased Provider warmup workspace"
    );
    assert_eq!(
        canonical_workspace(&provider(), Err("gone".into())).unwrap_err(),
        "Could not open the Provider warmup workspace: gone"
    );
}

#[test]
fn writes_the_authorization_header() {
    assert_eq!(authorization(&provider(), "token").as_deref(), Ok("Bearer token"));
    assert_eq!(authorization(&provider(), "to\tken").as_deref(), Ok("Bearer to\tken"));
    assert_eq!(
        authorization(&provider(), "to\nken").unwrap_err(),
        "Provider OAuth access token is invalid"
    );
    assert!(authorization(&provider(), "to\u{7f}ken").is_err());
    assert!(authorization(&provider(), "tökén").is_ok());
}

#[test]
fn describes_refused_usage_requests() {
    assert_eq!(
        oauth_usage_status_error(&provider(), 401),
        "Provider OAuth usage unauthorized (HTTP 401); sign in again"
    );
    assert_eq!(
        oauth_usage_status_error(&provider(), 403),
        "Provider OAuth usage forbidden (HTTP 403); verify token has user:profile scope"
    );
    assert_eq!(
        oauth_usage_status_error(&provider(), 404),
        "Provider OAuth usage endpoint unavailable (HTTP 404); endpoint may have changed"
    );
    assert_eq!(
        oauth_usage_status_error(&provider(), 503),
        "Provider OAuth usage service failed (HTTP 503); retry later"
    );
    assert_eq!(
        oauth_usage_status_error(&provider(), 429),
        "Provider OAuth usage request failed with HTTP status 429"
    );
    assert_eq!(check_usage_status(&provider(), 204), Ok(()));
    assert!(check_usage_status(&provider(), 302).is_err());
    assert_eq!(
        usage_request_error(&provider(), true, "ignored"),
        "Provider OAuth usage request timed out after 30 seconds"
    );
    assert_eq!(
        usage_request_error(&provider(), false, "no route"),
        "Could not fetch Provider OAuth usage: no route"
    );
    assert_eq!(
        usage_body_error(&provider(), true),
        "Provider OAuth usage request timed out after 30 seconds"
    );
    assert_eq!(
        usage_body_error(&provider(), false),
        "Provider OAuth usage response was invalid; endpoint may have changed"
    );
}

#[test]
fn describes_failed_runs() {
    let quiet = output(false, Some(-3), "", " \n");
    assert_eq!(
        command_error(&provider(), &quiet, Operation::Logout),
        "Provider auth logout failed with exit status -3"
    );
    let loud = output(false, Some(1), "", "\n no luck \n");
    assert_eq!(
        require_success(&provider(), &loud, Operation::Warmup).unwrap_err(),
        "Provider warmup failed: no luck"
    );
    assert_eq!(require_success(&provider(), &output(true, Some(0), "", "x"), Operation::Warmup), Ok(()));
    assert_eq!(exit_status(None), "terminated by signal");
    let broken = CommandOutput {
        success: false,
        code: None,
        stdout: Vec::new(),
        stderr: vec![b'a', 0xff, b'b'],
    };
    assert_eq!(
        command_error(&provider(), &broken, Operation::Status),
        "Provider auth status failed: a\u{fffd}b"
    );
    assert_eq!(
        Operation::Login.timeout_error(&provider()),
        "Provider auth login timed out after 600 seconds"
    );
    assert_eq!(
        Operation::Status.start_error(&provider(), "missing"),
        "Could not start Provider CLI for auth status: missing"
    );
    assert_eq!(
        Operation::Warmup.read_error(&provider(), "closed"),
        "Could not read Provider warmup output: closed"
    );
}

#[test]
fn runs_the_tool_with_fixed_arguments() {
    assert_eq!(Operation::Login.arguments(), ["auth", "login"]);
    assert_eq!(Operation::Status.arguments(), ["auth", "status"]);
    assert_eq!(Operation::Logout.arguments(), ["auth", "logout"]);
    assert_eq!(
        Operation::Warmup.arguments(),
        [
            "--safe-mode",
            "--no-session-persistence",
            "--tools",
            "",
            "--print",
            "Reply exactly OK.",
            "--output-format",
            "text"
        ]
    );
    assert_eq!(Operation::Login.limit_secs(), 600);
    assert_eq!(Operation::Warmup.limit_secs(), 120);
    assert!(Operation::Login.is_interactive());
    assert!(!Operation::Status.is_interactive());
    assert!(!Operation::Warmup.is_interactive());
    assert!(!Operation::Logout.is_interactive());
}

#[test]
fn takes_other_logins_out_of_the_environment() {
    let names = overriding_variables();
    assert_eq!(names.len(), 36);
    assert_eq!(names[0], "ANTHROPIC_API_KEY");
    assert_eq!(names[35], "CLAUDE_CODE_USE_VERTEX");
    assert!(names.contains(&"CLAUDE_CODE_OAUTH_TOKEN"));
    assert!(!names.contains(&"CLAUDE_CONFIG_DIR"));
}

#[test]
fn asks_for_usage_at_a_fixed_address() {
    assert_eq!(usage_endpoint(), "https://api.anthropic.com/api/oauth/usage");
    assert_eq!(usage_header(), ("anthropic-beta", "oauth-2025-04-20"));
    assert_eq!(home_variable(), "CLAUDE_CONFIG_DIR");
    assert_eq!(credentials_file(), ".credentials.json");
}

#[test]
fn refuses_a_warmup_without_output() {
    assert_eq!(check_warmup_output(&provider(), &b" OK\n".to_vec()), Ok(()));
    assert_eq!(
        check_warmup_output(&provider(), &b" \t\r\n\x0c".to_vec()).unwrap_err(),
        "Provider warmup returned no output"
    );
    assert!(check_warmup_output(&provider(), &Vec::new()).is_err());
}

#[test]
fn judges_the_reported_login() {
    let signed_in = || auth_status(WEB_LOGIN, "firstParty");
    let signed_out = || AuthStatus {
        logged_in: false,
        ..auth_status(WEB_LOGIN, "firstParty")
    };
    let good = output(true, Some(0), "", "");
    let bad = output(false, Some(1), "", "boom");
    assert!(read_auth_status(&provider(), &good, Ok(signed_in())).is_ok());
    assert_eq!(
        read_auth_status(&provider(), &good, Ok(signed_out())).err().unwrap(),
        "This account is not signed in"
    );
    assert_eq!(
        read_auth_status(&provider(), &bad, Ok(signed_out())).err().unwrap(),
        "This account is not signed in"
    );
    assert_eq!(
        read_auth_status(&provider(), &bad, Ok(signed_in())).err().unwrap(),
        "Provider auth status failed: boom"
    );
    assert_eq!(
        read_auth_status(&provider(), &good, Err("unreadable".into())).err().unwrap(),
        "unreadable"
    );
    assert_eq!(
        read_auth_status(&provider(), &bad, Err("unreadable".into())).err().unwrap(),
        "Provider auth status failed: boom"
    );
    assert!(read_auth_status(&provider(), &good, Ok(auth_status("api_key", "firstParty"))).is_err());
}

fn run(goal: &Goal, events: Vec<Event>) -> (Vec<&'static str>, Ending) {
    let (mut stage, mut action): (Stage, Action) = start();
    let mut done = Vec::new();
    let mut events = events.into_iter();
    loop {
        done.push(match action {
            Action::ResolveHome => "home",
            Action::ResolveWorkspace => "workspace",
            Action::Run(operation) => operation.name(),
            Action::ReadStatus => "status",
            Action::ReadCredentials => "credentials",
            Action::AskUsage(_) => "usage",
            Action::Finish(ending) => return (done, ending),
        });
        let event = events.next().expect("an event for every action");
        assert!(is_expected(&stage, &event));
        (stage, action) = advance(&provider(), goal, stage, event);
    }
}

fn usable_credentials() -> ClaudeAiOauth {
    ClaudeAiOauth {
        access_token: "token".into(),
        scopes: None,
        subscription_type: None,
    }
}

fn reading() -> Vec<Event> {
    vec![
        Event::Reported(Ok((
            output(true, Some(0), "", ""),
            Ok(auth_status(WEB_LOGIN, "firstParty")),
        ))),
        Event::Credentials(Ok(usable_credentials())),
        Event::Usage(Ok(OAuthUsageResponse {
            five_hour: Some(usage_window(12.0, None)),
            seven_day: None,
        })),
    ]
}

#[test]
fn claude_accounts_are_read_step_by_step() {
    let mut events = vec![Event::Resolved(Ok(true))];
    events.extend(reading());
    let (done, ending) = run(&Goal::Fetch, events);
    assert_eq!(done, ["home", "status", "credentials", "usage"]);
    match ending {
        Ending::Read(snapshot) => {
            assert_eq!(snapshot.limits.session.unwrap().used_percent, 12);
            assert!(snapshot.limits.weekly.is_none());
        }
        other => panic!("{other:?}"),
    }
}

#[test]
fn claude_accounts_without_credentials_have_no_limits() {
    let (done, ending) = run(
        &Goal::Fetch,
        vec![
            Event::Resolved(Ok(true)),
            Event::Reported(Ok((
                output(true, Some(0), "", ""),
                Ok(auth_status(WEB_LOGIN, "firstParty")),
            ))),
            Event::Credentials(Err("missing".into())),
        ],
    );
    assert_eq!(done, ["home", "status", "credentials"]);
    assert!(matches!(ending, Ending::Failed(error) if error == "missing"));
}

#[test]
fn claude_warmups_are_reported_even_if_the_account_is_not_read() {
    let goal = Goal::Warm("/work".into());
    let (done, ending) = run(
        &goal,
        vec![
            Event::Resolved(Ok(true)),
            Event::Resolved(Ok(true)),
            Event::Ran(Ok(output(true, Some(0), "OK", ""))),
            Event::Resolved(Ok(true)),
            Event::Reported(Err("gone".into())),
        ],
    );
    assert_eq!(done, ["home", "workspace", "warmup", "home", "status"]);
    match ending {
        Ending::Warmed(outcome) => {
            assert!(outcome.snapshot.is_none());
            assert_eq!(outcome.refresh_error.as_deref(), Some("gone"));
        }
        other => panic!("{other:?}"),
    }
    let (_, ending) = run(
        &goal,
        vec![
            Event::Resolved(Ok(true)),
            Event::Resolved(Ok(true)),
            Event::Ran(Ok(output(true, Some(0), " ", ""))),
        ],
    );
    assert!(matches!(ending, Ending::Failed(error) if error == "Provider warmup returned no output"));
}

#[test]
fn claude_homes_are_looked_at_again_before_reading() {
    let (done, ending) = run(
        &Goal::Login,
        vec![
            Event::Resolved(Ok(true)),
            Event::Ran(Ok(output(true, Some(0), "", ""))),
            Event::Resolved(Ok(false)),
        ],
    );
    assert_eq!(done, ["home", "auth login", "home"]);
    assert!(
        matches!(ending, Ending::Failed(error) if error == "Refusing to use an aliased Provider account storage")
    );

    let (done, ending) = run(
        &Goal::Warm("/work".into()),
        vec![
            Event::Resolved(Ok(true)),
            Event::Resolved(Ok(true)),
            Event::Ran(Ok(output(true, Some(0), "OK", ""))),
            Event::Resolved(Err("gone".into())),
        ],
    );
    assert_eq!(done, ["home", "workspace", "warmup", "home"]);
    match ending {
        Ending::Warmed(outcome) => {
            assert!(outcome.snapshot.is_none());
            assert_eq!(
                outcome.refresh_error.as_deref(),
                Some("Could not open Provider account storage: gone")
            );
        }
        other => panic!("{other:?}"),
    }
}

#[test]
fn claude_accounts_are_signed_in_and_out() {
    let mut events = vec![
        Event::Resolved(Ok(true)),
        Event::Ran(Ok(output(true, Some(0), "", ""))),
        Event::Resolved(Ok(true)),
    ];
    events.extend(reading());
    let (done, ending) = run(&Goal::Login, events);
    assert_eq!(
        done,
        ["home", "auth login", "home", "status", "credentials", "usage"]
    );
    assert!(matches!(ending, Ending::Read(_)));

    let (done, ending) = run(
        &Goal::Logout,
        vec![
            Event::Resolved(Ok(true)),
            Event::Ran(Ok(output(true, Some(0), "", ""))),
        ],
    );
    assert_eq!(done, ["home", "auth logout"]);
    assert!(matches!(ending, Ending::LoggedOut));
    let (_, ending) = run(&Goal::Logout, vec![Event::Resolved(Ok(false))]);
    assert!(
        matches!(ending, Ending::Failed(error) if error == "Refusing to use an aliased Provider account storage")
    );
}
