use codex_keep_warm::codex::{
    check_home, check_identity, check_login, check_page, check_turn, check_workspace,
    initialize_params, login_outcome, notification_text, notification_timeout_error, read_identity,
    read_message, refusal_text, request_timeout_error, require_text, sign_in_page, thread_params,
    turn_outcome, turn_params, warmup_thread, Conversation, Identity, LoginReport, Message,
    TurnReport,
};
use codex_keep_warm::flow::{advance, is_expected, start, Action, Ending, Event, Goal};
use codex_keep_warm::json::read_text;
use codex_keep_warm::window::{
    LimitWindow, RateLimitResponse, RateLimitSnapshot, SESSION_MINUTES,
};
use serde_json::Value;

fn message(line: &str) -> Message {
    read_message(line).unwrap().unwrap()
}

fn json(text: &str) -> Value {
    serde_json::from_str(text).unwrap()
}

#[test]
fn messages_are_read_from_lines() {
    assert!(read_message(" \t").unwrap().is_none());
    let error = read_message("{oops").err().unwrap();
    assert!(
        error.starts_with("Codex returned invalid JSON: key must be a string"),
        "{error}"
    );
    let reply = message(r#"{"id": 3, "result": {"a": [1, 2]}}"#);
    assert!(!reply.has_method);
    assert_eq!(reply.number, Some(3));
    assert_eq!(reply.result.as_deref(), Some(r#"{"a":[1,2]}"#));
    let odd = message(r#"{"method": 5, "id": "x"}"#);
    assert!(odd.has_method);
    assert_eq!(odd.method, None);
    assert_eq!(odd.id.as_deref(), Some("\"x\""));
    assert_eq!(odd.number, None);
    let list = message("[1]");
    assert!(!list.has_method);
    assert_eq!(list.id, None);
}

#[test]
fn texts_are_read_from_documents() {
    let document = r#"{"a": {"b": "c\n", "n": 1}}"#;
    assert_eq!(read_text(document, "/a/b").as_deref(), Some("c\n"));
    assert_eq!(read_text(document, "/a/n"), None);
    assert_eq!(read_text(document, "/a/x"), None);
    assert_eq!(read_text("no json", "/a"), None);
}

#[test]
fn requests_are_numbered() {
    let mut conversation = Conversation::new();
    let (id, line) = conversation.request("account/logout", &None);
    assert_eq!(id, 1);
    assert_eq!(line, r#"{"id":1,"method":"account/logout"}"#);
    let (id, line) = conversation.request("a\"b", &Some("{\"x\":[]}".into()));
    assert_eq!(id, 2);
    assert_eq!(json(&line)["method"], "a\"b");
    assert_eq!(json(&line)["params"]["x"].as_array().unwrap().len(), 0);
    assert_eq!(
        notification_text("initialized", &Some("{}".into())),
        r#"{"method":"initialized","params":{}}"#
    );
}

#[test]
fn parameters_are_json() {
    let initialize = json(&initialize_params("1.\"2"));
    assert_eq!(initialize["clientInfo"]["name"], "codex_keep_warm");
    assert_eq!(initialize["clientInfo"]["title"], "Codex Keep Warm");
    assert_eq!(initialize["clientInfo"]["version"], "1.\"2");
    let thread = json(&thread_params(r"C:\work"));
    assert_eq!(thread["cwd"], r"C:\work");
    assert_eq!(thread["ephemeral"], true);
    assert_eq!(thread["approvalPolicy"], "never");
    assert_eq!(thread["sandbox"], "read-only");
    assert_eq!(thread["config"]["model_verbosity"], "low");
    let turn = json(&turn_params("t-1"));
    assert_eq!(turn["threadId"], "t-1");
    assert_eq!(turn["input"][0]["text"], "Reply exactly OK.");
    assert_eq!(turn["summary"], "none");
}

#[test]
fn server_requests_are_refused() {
    let request = message(r#"{"id": "7", "method": "approve"}"#);
    let line = refusal_text(&request).unwrap();
    let refusal = json(&line);
    assert_eq!(refusal["id"], "7");
    assert_eq!(refusal["error"]["code"], -32601);
    assert_eq!(refusal["error"]["message"], "Unsupported server request");
    assert_eq!(refusal_text(&message(r#"{"method": "x"}"#)), None);
    assert_eq!(refusal_text(&message(r#"{"id": 1, "result": 2}"#)), None);
}

#[test]
fn replies_are_matched_by_number() {
    let mut conversation = Conversation::new();
    let early = message(r#"{"method": "turn/completed", "params": {"turn": {}}}"#);
    assert!(conversation.receive_reply(1, "m", early).is_none());
    let other = message(r#"{"id": 2, "result": 0}"#);
    assert!(conversation.receive_reply(1, "m", other).is_none());
    assert_eq!(conversation.pending.len(), 2);

    let mut receive = |line: &str| conversation.receive_reply(1, "m", message(line)).unwrap();
    assert_eq!(receive(r#"{"id": 1, "result": null}"#).unwrap(), "null");
    assert_eq!(
        receive(r#"{"id": 1, "error": {"message": "no"}}"#).unwrap_err(),
        "no"
    );
    assert_eq!(
        receive(r#"{"id": 1, "error": null}"#).unwrap_err(),
        "Unknown Codex error"
    );
    assert_eq!(
        receive(r#"{"id": 1}"#).unwrap_err(),
        "Codex returned no result for m"
    );

    assert!(conversation.take_notification("other").is_none());
    let kept = conversation.take_notification("turn/completed").unwrap();
    assert_eq!(kept.params.as_deref(), Some(r#"{"turn":{}}"#));
    assert!(conversation.take_notification("turn/completed").is_none());
    assert_eq!(conversation.pending.len(), 1);
    assert_eq!(
        request_timeout_error("m"),
        "Codex timed out while handling m"
    );
}

#[test]
fn notifications_are_awaited() {
    let mut conversation = Conversation::new();
    let other = message(r#"{"method": "a"}"#);
    assert!(conversation.receive_notification("b", other).is_none());
    let wanted = message(r#"{"method": "b"}"#);
    assert!(conversation.receive_notification("b", wanted).is_some());
    assert_eq!(conversation.pending.len(), 1);
    assert_eq!(notification_timeout_error("b"), "Timed out waiting for b");
}

#[test]
fn only_secure_pages_are_opened() {
    assert_eq!(
        sign_in_page(r#"{"authUrl": "https://x"}"#).as_deref(),
        Ok("https://x")
    );
    assert_eq!(
        sign_in_page(r#"{"authUrl": "http://x"}"#).unwrap_err(),
        "Codex returned an unsafe sign-in URL"
    );
    assert_eq!(
        check_page(None).unwrap_err(),
        "Codex did not return a sign-in URL"
    );
    assert_eq!(require_text(None, "gone").unwrap_err(), "gone");
}

#[test]
fn sign_ins_are_judged() {
    let outcome = |line: &str| login_outcome(&message(line));
    assert_eq!(
        outcome(r#"{"method": "m", "params": {"success": true}}"#),
        Ok(())
    );
    assert_eq!(
        outcome(r#"{"method": "m", "params": {"success": false, "error": "no"}}"#).unwrap_err(),
        "no"
    );
    assert_eq!(
        outcome(r#"{"method": "m", "params": {}}"#).unwrap_err(),
        "ChatGPT sign-in failed"
    );
    assert_eq!(
        outcome(r#"{"method": "m"}"#).unwrap_err(),
        "Codex returned an invalid login result"
    );
    assert_eq!(
        check_login(Some(LoginReport {
            success: Some(true),
            error: Some("ignored".into())
        })),
        Ok(())
    );
}

#[test]
fn turns_are_judged() {
    let outcome = |line: &str| turn_outcome(&message(line));
    assert_eq!(
        outcome(r#"{"params": {"turn": {"status": "completed"}}}"#),
        Ok(())
    );
    assert_eq!(
        outcome(r#"{"params": {"turn": {"status": "failed", "error": {"message": "no"}}}}"#)
            .unwrap_err(),
        "no"
    );
    assert_eq!(
        outcome(r#"{"params": {"turn": {}}}"#).unwrap_err(),
        "Warmup request failed"
    );
    assert_eq!(
        outcome(r#"{"params": {}}"#).unwrap_err(),
        "Codex returned an invalid warmup result"
    );
    assert!(check_turn(None).is_err());
    assert_eq!(
        check_turn(Some(TurnReport {
            status: None,
            error: None
        }))
        .unwrap_err(),
        "Warmup request failed"
    );
    assert_eq!(
        warmup_thread(r#"{"thread": {"id": "t"}}"#).as_deref(),
        Ok("t")
    );
    assert_eq!(
        warmup_thread(r#"{"thread": {"id": 4}}"#).unwrap_err(),
        "Codex did not create the warmup thread"
    );
}

#[test]
fn identities_are_judged() {
    let identity =
        read_identity(r#"{"account": {"type": "chatgpt", "email": "a@b.c", "planType": "plus"}}"#)
            .unwrap();
    assert_eq!(identity.email.as_deref(), Some("a@b.c"));
    assert_eq!(identity.plan.as_deref(), Some("plus"));
    assert_eq!(
        read_identity(r#"{"account": null}"#).unwrap_err(),
        "This account is not signed in"
    );
    assert_eq!(
        read_identity("{}").unwrap_err(),
        "This account is not signed in"
    );
    assert_eq!(
        read_identity(r#"{"account": {"type": "apiKey"}}"#).unwrap_err(),
        "This app needs a ChatGPT account"
    );
    assert!(check_identity(Some(Identity {
        kind: Some("chatgpt".into()),
        email: None,
        plan: None
    }))
    .is_ok());
}

#[test]
fn aliased_storage_is_refused() {
    assert_eq!(check_home(Ok(true)), Ok(()));
    assert_eq!(
        check_home(Ok(false)).unwrap_err(),
        "Refusing to use aliased account storage"
    );
    assert_eq!(
        check_home(Err("gone".into())).unwrap_err(),
        "Could not open account storage: gone"
    );
    assert_eq!(check_workspace(Ok(true)), Ok(()));
    assert_eq!(
        check_workspace(Ok(false)).unwrap_err(),
        "Refusing to use an aliased warmup workspace"
    );
    assert_eq!(
        check_workspace(Err("gone".into())).unwrap_err(),
        "Could not open the warmup workspace: gone"
    );
}

fn run(goal: &Goal, events: Vec<Event>) -> (Vec<String>, Ending, bool) {
    let (mut stage, mut action) = start("1.0");
    let mut done = Vec::new();
    let mut events = events.into_iter();
    loop {
        done.push(match action {
            Action::Request(method, _) => method.to_string(),
            Action::Notify(method, _) => method.to_string(),
            Action::Resolve => "resolve".to_string(),
            Action::Open(page) => page,
            Action::Await(method, limit) => format!("{method} {limit}"),
            Action::Parse(_) => "parse".to_string(),
            Action::Finish(ending, graceful) => return (done, ending, graceful),
        });
        let event = events.next().expect("an event for every action");
        assert!(is_expected(&stage, &event));
        (stage, action) = advance(goal, stage, event);
    }
}

fn replied(text: &str) -> Event {
    Event::Replied(Ok(text.into()))
}

fn reading() -> Vec<Event> {
    vec![
        replied(r#"{"account": {"type": "chatgpt", "planType": "plus"}}"#),
        replied("{}"),
        Event::Parsed(Ok(RateLimitResponse {
            rate_limits: RateLimitSnapshot {
                limit_id: None,
                primary: Some(LimitWindow {
                    used_percent: 5,
                    window_duration_mins: Some(SESSION_MINUTES),
                    resets_at: Some(1),
                }),
                secondary: None,
            },
            rate_limits_by_limit_id: None,
        })),
    ]
}

#[test]
fn accounts_are_read_step_by_step() {
    let mut events = vec![replied("{}"), Event::Sent(Ok(()))];
    events.extend(reading());
    let (done, ending, graceful) = run(&Goal::Fetch, events);
    assert_eq!(
        done,
        [
            "initialize",
            "initialized",
            "account/read",
            "account/rateLimits/read",
            "parse"
        ]
    );
    assert!(graceful);
    match ending {
        Ending::Read(snapshot) => {
            assert_eq!(snapshot.plan.as_deref(), Some("plus"));
            assert_eq!(snapshot.limits.session.unwrap().used_percent, 5);
        }
        other => panic!("{other:?}"),
    }
}

#[test]
fn warmups_are_sent_step_by_step() {
    let goal = Goal::Warm("/work".into());
    let sent = || {
        vec![
            replied("{}"),
            Event::Sent(Ok(())),
            Event::Resolved(Ok(true)),
            replied(r#"{"thread": {"id": "t"}}"#),
            replied("{}"),
            Event::Notified(Ok(message(
                r#"{"params": {"turn": {"status": "completed"}}}"#,
            ))),
        ]
    };
    let mut events = sent();
    events.extend(reading());
    let (done, ending, _) = run(&goal, events);
    assert_eq!(
        done[2..6],
        ["resolve", "thread/start", "turn/start", "turn/completed 120"]
    );
    assert!(matches!(ending, Ending::Warmed(outcome) if outcome.snapshot.is_some()));

    let mut events = sent();
    events.push(Event::Replied(Err("gone".into())));
    let (_, ending, graceful) = run(&goal, events);
    assert!(graceful);
    match ending {
        Ending::Warmed(outcome) => {
            assert!(outcome.snapshot.is_none());
            assert_eq!(outcome.refresh_error.as_deref(), Some("gone"));
        }
        other => panic!("{other:?}"),
    }

    let mut events = sent();
    events.truncate(4);
    events.push(Event::Replied(Err("busy".into())));
    let (_, ending, graceful) = run(&goal, events);
    assert!(!graceful);
    assert!(matches!(ending, Ending::Failed(error) if error == "busy"));
}

#[test]
fn sign_ins_are_led_step_by_step() {
    let mut events = vec![
        replied("{}"),
        Event::Sent(Ok(())),
        replied(r#"{"authUrl": "https://x"}"#),
        Event::Opened(Ok(())),
        Event::Notified(Ok(message(r#"{"params": {"success": true}}"#))),
    ];
    events.extend(reading());
    let (done, ending, _) = run(&Goal::Login, events);
    assert_eq!(
        done[2..5],
        [
            "account/login/start",
            "https://x",
            "account/login/completed 600"
        ]
    );
    assert!(matches!(ending, Ending::Read(_)));

    let (_, ending, _) = run(
        &Goal::Login,
        vec![
            replied("{}"),
            Event::Sent(Ok(())),
            replied(r#"{"authUrl": "file:///etc"}"#),
        ],
    );
    assert!(
        matches!(ending, Ending::Failed(error) if error == "Codex returned an unsafe sign-in URL")
    );
}

#[test]
fn limits_that_make_no_sense_are_reported() {
    let (_, ending, graceful) = run(
        &Goal::Fetch,
        vec![
            replied("{}"),
            Event::Sent(Ok(())),
            replied(r#"{"account": {"type": "chatgpt"}}"#),
            replied("[]"),
            Event::Parsed(Err("missing field".into())),
        ],
    );
    assert!(graceful);
    assert!(
        matches!(ending, Ending::Failed(error) if error == "Could not understand Codex limits: missing field")
    );
}

#[test]
fn sign_outs_end_the_conversation() {
    let (done, ending, graceful) = run(
        &Goal::Logout,
        vec![replied("{}"), Event::Sent(Ok(())), replied("{}")],
    );
    assert_eq!(done, ["initialize", "initialized", "account/logout"]);
    assert!(graceful);
    assert!(matches!(ending, Ending::LoggedOut));
}
