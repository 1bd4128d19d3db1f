//! The protocol of the Codex app server: requests, replies and notifications,
//! one JSON document to a line.

use vstd::prelude::*;

use crate::json::{
    fault_of, flag_of, json_fault, json_flag, json_number, json_part, json_quoted, number_of,
    part_of, quote, read_text, text_at,
};
use crate::search::{count_leading, lemma_count_leading, lemma_leading_have_property};
use crate::snapshot::AccountSnapshot;
use crate::text::{
    is_text, join2, join3, join5, natural, natural_text, opt_text, same_text, starts_with_seq,
    starts_with_text, trim_text, trimmed,
};
use crate::window::{
    window_by_duration, RateLimitResponse, UsageWindows, SESSION_MINUTES, WEEK_MINUTES,
};

verus! {

/// How long the server may take to reply to a request, in seconds.
pub const RPC_TIMEOUT_SECS: u64 = 30;

/// How long somebody may take to sign in, in seconds.
pub const LOGIN_TIMEOUT_SECS: u64 = 600;

/// How long a warmup may take, in seconds.
pub const WARMUP_TIMEOUT_SECS: u64 = 120;

/// What is read of a message of the server.
#[derive(Debug)]
pub struct Message {
    /// Whether the message names a method.
    pub has_method: bool,
    /// The method, where it is a text.
    pub method: Option<String>,
    /// The identifier, as a JSON document.
    pub id: Option<String>,
    /// The identifier, where it is a natural number.
    pub number: Option<u64>,
    /// Whether the message reports an error.
    pub has_error: bool,
    /// The message of the error, where it is a text.
    pub error: Option<String>,
    /// The result, as a JSON document.
    pub result: Option<String>,
    /// The parameters, as a JSON document.
    pub params: Option<String>,
}

/// The contents of a [`Message`].
#[verifier::ext_equal]
pub struct MessageModel {
    pub has_method: bool,
    pub method: Option<Seq<char>>,
    pub id: Option<Seq<char>>,
    pub number: Option<u64>,
    pub has_error: bool,
    pub error: Option<Seq<char>>,
    pub result: Option<Seq<char>>,
    pub params: Option<Seq<char>>,
}

impl View for Message {
    type V = MessageModel;

    open spec fn view(&self) -> MessageModel {
        MessageModel {
            has_method: self.has_method,
            method: opt_text(self.method),
            id: opt_text(self.id),
            number: self.number,
            has_error: self.has_error,
            error: opt_text(self.error),
            result: opt_text(self.result),
            params: opt_text(self.params),
        }
    }
}

/// A message as a line of JSON holds it.
pub open spec fn message_in(line: Seq<char>) -> MessageModel {
    MessageModel {
        has_method: json_part(line, "/method"@) is Some,
        method: text_at(line, "/method"@),
        id: json_part(line, "/id"@),
        number: match json_part(line, "/id"@) {
            Some(id) => json_number(id),
            None => None,
        },
        has_error: json_part(line, "/error"@) is Some,
        error: text_at(line, "/error/message"@),
        result: json_part(line, "/result"@),
        params: json_part(line, "/params"@),
    }
}

/// Reads a line that the server wrote. A blank line is no message.
pub fn read_message(line: &str) -> (message: Result<Option<Message>, String>)
    ensures
        match message {
            Ok(None) => trimmed(line@).len() == 0,
            Ok(Some(message)) => trimmed(line@).len() > 0 && json_fault(line@) is None && message@
                == message_in(line@),
            Err(error) => trimmed(line@).len() > 0 && match json_fault(line@) {
                Some(fault) => error@ == "Codex returned invalid JSON: "@ + fault,
                None => false,
            },
        },
{
    if trim_text(line).as_str().unicode_len() == 0 {
        return Ok(None);
    }
    if let Some(fault) = fault_of(line) {
        return Err(join2("Codex returned invalid JSON: ", fault.as_str()));
    }
    let method = part_of(line, "/method");
    let id = part_of(line, "/id");
    let number = match &id {
        Some(id) => number_of(id.as_str()),
        None => None,
    };
    let error = part_of(line, "/error");
    Ok(
        Some(
            Message {
                has_method: method.is_some(),
                method: read_text(line, "/method"),
                id,
                number,
                has_error: error.is_some(),
                error: read_text(line, "/error/message"),
                result: part_of(line, "/result"),
                params: part_of(line, "/params"),
            },
        ),
    )
}

/// The parameters of a message, where it has any.
pub open spec fn params_member(params: Option<Seq<char>>) -> Seq<char> {
    match params {
        Some(params) => ",\"params\":"@ + params,
        None => ""@,
    }
}

/// A request as the server reads it.
pub open spec fn request_line(id: nat, method: Seq<char>, params: Option<Seq<char>>) -> Seq<char> {
    "{\"id\":"@ + natural(id) + ",\"method\":"@ + json_quoted(method) + (params_member(params)
        + "}"@)
}

/// A notification as the server reads it.
pub open spec fn notification_line(method: Seq<char>, params: Option<Seq<char>>) -> Seq<char> {
    "{\"method\":"@ + json_quoted(method) + (params_member(params) + "}"@)
}

fn rest_of_message(params: &Option<String>) -> (text: String)
    ensures
        text@ == params_member(opt_text(*params)) + "}"@,
{
    match params {
        Some(params) => join3(",\"params\":", params.as_str(), "}"),
        None => join2("", "}"),
    }
}

/// Writes a notification.
pub fn notification_text(method: &str, params: &Option<String>) -> (line: String)
    ensures
        line@ == notification_line(method@, opt_text(*params)),
{
    let quoted = quote(method);
    let rest = rest_of_message(params);
    join3("{\"method\":", quoted.as_str(), rest.as_str())
}

/// What is said to the server when it asks for something.
pub open spec fn refusal_line(id: Seq<char>) -> Seq<char> {
    "{\"id\":"@ + id
        + ",\"error\":{\"code\":-32601,\"message\":\"Unsupported server request\"}}"@
}

/// Answers a request that the server makes: it is refused. Replies and
/// notifications get no answer.
pub fn refusal_text(message: &Message) -> (line: Option<String>)
    ensures
        opt_text(line) == match message@.id {
            Some(id) => if message@.has_method {
                Some(refusal_line(id))
            } else {
                None
            },
            None => None,
        },
{
    match &message.id {
        Some(id) => if message.has_method {
            Some(
                join3(
                    "{\"id\":",
                    id.as_str(),
                    ",\"error\":{\"code\":-32601,\"message\":\"Unsupported server request\"}}",
                ),
            )
        } else {
            None
        },
        None => None,
    }
}

/// A conversation with the server: the identifier of the next request, and the
/// messages that nobody has asked for yet.
#[derive(Debug)]
pub struct Conversation {
    pub next_id: u64,
    pub pending: Vec<Message>,
}

/// The contents of a [`Conversation`].
#[verifier::ext_equal]
pub struct ConversationModel {
    pub next_id: u64,
    pub pending: Seq<MessageModel>,
}

/// The contents of a list of messages.
pub open spec fn messages(all: Seq<Message>) -> Seq<MessageModel> {
    all.map_values(|message: Message| message@)
}

impl View for Conversation {
    type V = ConversationModel;

    open spec fn view(&self) -> ConversationModel {
        ConversationModel { next_id: self.next_id, pending: messages(self.pending@) }
    }
}

/// Whether a message is the reply to the request with an identifier.
pub open spec fn replies_to(message: MessageModel, id: u64) -> bool {
    !message.has_method && message.number == Some(id)
}

/// What a reply says: the result, or what went wrong.
pub open spec fn reply(message: MessageModel, method: Seq<char>) -> Result<Seq<char>, Seq<char>> {
    if message.has_error {
        Err(
            match message.error {
                Some(error) => error,
                None => "Unknown Codex error"@,
            },
        )
    } else {
        match message.result {
            Some(result) => Ok(result),
            None => Err("Codex returned no result for "@ + method),
        }
    }
}

/// Whether a message notifies of `method`.
pub open spec fn notifies(message: MessageModel, method: Seq<char>) -> bool {
    message.method == Some(method)
}

impl ConversationModel {
    /// The conversation with one more message that nobody has asked for.
    pub open spec fn keeping(self, message: MessageModel) -> ConversationModel {
        ConversationModel { pending: self.pending.push(message), ..self }
    }

    /// The place of the first notification of `method`; past the end if there is none.
    pub open spec fn place_of(self, method: Seq<char>) -> nat {
        count_leading(self.pending, |message: MessageModel| !notifies(message, method))
    }
}

impl Conversation {
    /// A conversation in which nothing was said.
    pub fn new() -> (conversation: Self)
        ensures
            conversation@ == (ConversationModel { next_id: 1, pending: Seq::empty() }),
    {
        let conversation = Conversation { next_id: 1, pending: Vec::new() };
        assert(conversation@ =~= (ConversationModel { next_id: 1, pending: Seq::empty() }));
        conversation
    }

    /// Writes a request under the next identifier.
    pub fn request(&mut self, method: &str, params: &Option<String>) -> (request: (u64, String))
        requires
            old(self)@.next_id < u64::MAX,
        ensures
            request.0 == old(self)@.next_id,
            request.1@ == request_line(old(self)@.next_id as nat, method@, opt_text(*params)),
            final(self)@ == (ConversationModel {
                next_id: (old(self)@.next_id + 1) as u64,
                ..old(self)@
            }),
    {
        let id: u64 = self.next_id;
        self.next_id = id + 1;
        let number = natural_text(id);
        let quoted = quote(method);
        let rest = rest_of_message(params);
        (
            id,
            join5("{\"id\":", number.as_str(), ",\"method\":", quoted.as_str(), rest.as_str()),
        )
    }

    fn keep(&mut self, message: Message)
        ensures
            final(self)@ == old(self)@.keeping(message@),
    {
        self.pending.push(message);
        assert(self@ =~= old(self)@.keeping(message@));
    }

    /// Takes a message while the reply to a request is awaited. Any other message
    /// is kept.
    pub fn receive_reply(&mut self, id: u64, method: &str, message: Message) -> (outcome: Option<
        Result<String, String>,
    >)
        ensures
            outcome is Some <==> replies_to(message@, id),
            outcome matches Some(outcome) ==> match (outcome, reply(message@, method@)) {
                (Ok(result), Ok(expected)) => result@ == expected,
                (Err(error), Err(expected)) => error@ == expected,
                _ => false,
            },
            final(self)@ == if replies_to(message@, id) {
                old(self)@
            } else {
                old(self)@.keeping(message@)
            },
    {
        let awaited: bool = match message.number {
            Some(number) => number == id,
            None => false,
        };
        if message.has_method || !awaited {
            self.keep(message);
            return None;
        }
        if message.has_error {
            return Some(
                Err(
                    match message.error {
                        Some(error) => error,
                        None => "Unknown Codex error".to_owned(),
                    },
                ),
            );
        }
        match message.result {
            Some(result) => Some(Ok(result)),
            None => Some(Err(join2("Codex returned no result for ", method))),
        }
    }

    /// Takes the first notification of `method` out of the messages that were kept.
    pub fn take_notification(&mut self, method: &str) -> (message: Option<Message>)
        ensures
            ({
                let place = old(self)@.place_of(method@);
                if place < old(self)@.pending.len() {
                    &&& message matches Some(message)
                    &&& message@ == old(self)@.pending[place as int]
                    &&& final(self)@ == (ConversationModel {
                        pending: old(self)@.pending.remove(place as int),
                        ..old(self)@
                    })
                } else {
                    message is None && final(self)@ == old(self)@
                }
            }),
    {
        let ghost other = |message: MessageModel| !notifies(message, method@);
        let mut place: usize = 0;
        while place < self.pending.len() && !is_text(&self.pending[place].method, method)
            invariant
                place <= self.pending.len(),
                *self == *old(self),
                other == (|message: MessageModel| !notifies(message, method@)),
                forall|j: int| 0 <= j < place ==> other(#[trigger] self@.pending[j]),
            decreases self.pending.len() - place,
        {
            assert(self@.pending[place as int] == self.pending@[place as int]@);
            place = place + 1;
        }
        proof {
            if place < self.pending.len() {
                assert(self@.pending[place as int] == self.pending@[place as int]@);
            }
            lemma_count_leading(self@.pending, other, place as int);
        }
        if place < self.pending.len() {
            let message = self.pending.remove(place);
            assert(self@.pending =~= old(self)@.pending.remove(place as int));
            Some(message)
        } else {
            None
        }
    }

    /// Takes a message while a notification of `method` is awaited. Any other
    /// message is kept.
    pub fn receive_notification(&mut self, method: &str, message: Message) -> (notification: Option<
        Message,
    >)
        ensures
            match notification {
                Some(notification) => notifies(message@, method@) && notification == message
                    && final(self)@ == old(self)@,
                None => !notifies(message@, method@) && final(self)@ == old(self)@.keeping(
                    message@,
                ),
            },
    {
        if is_text(&message.method, method) {
            Some(message)
        } else {
            self.keep(message);
            None
        }
    }
}

/// What is said when a request is not replied to in time.
pub fn request_timeout_error(method: &str) -> (error: String)
    ensures
        error@ == "Codex timed out while handling "@ + method@,
{
    join2("Codex timed out while handling ", method)
}

/// What is said when a notification does not come in time.
pub fn notification_timeout_error(method: &str) -> (error: String)
    ensures
        error@ == "Timed out waiting for "@ + method@,
{
    join2("Timed out waiting for ", method)
}

/// Passes a path to the storage of an account that leads nowhere else.
/// `resolved` tells whether the path is what it resolves to.
pub fn check_home(resolved: Result<bool, String>) -> (result: Result<(), String>)
    ensures
        match (result, resolved) {
            (Ok(_), Ok(same)) => same,
            (Err(error), Ok(same)) => !same && error@ == "Refusing to use aliased account storage"@,
            (Err(error), Err(details)) => error@ == "Could not open account storage: "@ + details@,
            (Ok(_), Err(_)) => false,
        },
{
    match resolved {
        Ok(true) => Ok(()),
        Ok(false) => Err("Refusing to use aliased account storage".to_owned()),
        Err(details) => Err(join2("Could not open account storage: ", details.as_str())),
    }
}

/// Passes a path to the workspace of an account that leads nowhere else.
/// `resolved` tells whether the path is what it resolves to.
pub fn check_workspace(resolved: Result<bool, String>) -> (result: Result<(), String>)
    ensures
        match (result, resolved) {
            (Ok(_), Ok(same)) => same,
            (Err(error), Ok(same)) => !same && error@
                == "Refusing to use an aliased warmup workspace"@,
            (Err(error), Err(details)) => error@ == "Could not open the warmup workspace: "@
                + details@,
            (Ok(_), Err(_)) => false,
        },
{
    match resolved {
        Ok(true) => Ok(()),
        Ok(false) => Err("Refusing to use an aliased warmup workspace".to_owned()),
        Err(details) => Err(join2("Could not open the warmup workspace: ", details.as_str())),
    }
}

/// The parameters with which a conversation begins.
pub open spec fn initialize_document(version: Seq<char>) -> Seq<char> {
    "{\"clientInfo\":{\"name\":\"codex_keep_warm\",\"title\":\"Codex Keep Warm\",\"version\":"@
        + json_quoted(version) + "}}"@
}

/// The parameters of a request to sign in.
pub open spec fn login_document() -> Seq<char> {
    "{\"type\":\"chatgpt\",\"useHostedLoginSuccessPage\":true,\"appBrand\":\"chatgpt\"}"@
}

/// The parameters of a request for a thread.
pub open spec fn thread_document(workspace: Seq<char>) -> Seq<char> {
    "{\"cwd\":"@ + json_quoted(workspace)
        + ",\"ephemeral\":true,\"approvalPolicy\":\"never\",\"sandbox\":\"read-only\",\"baseInstructions\":\"Reply exactly OK. Do not use tools.\",\"developerInstructions\":\"\",\"config\":{\"model_reasoning_effort\":\"low\",\"model_verbosity\":\"low\"}}"@
}

/// The parameters of a request for a reply on a thread.
pub open spec fn turn_document(thread_id: Seq<char>) -> Seq<char> {
    "{\"threadId\":"@ + json_quoted(thread_id)
        + ",\"input\":[{\"type\":\"text\",\"text\":\"Reply exactly OK.\"}],\"effort\":\"low\",\"summary\":\"none\"}"@
}

/// The parameters of a request to read the account.
pub open spec fn account_document() -> Seq<char> {
    "{\"refreshToken\":false}"@
}

/// The parameters with which a conversation begins.
pub fn initialize_params(version: &str) -> (params: String)
    ensures
        params@ == initialize_document(version@),
{
    let version = quote(version);
    join3(
        "{\"clientInfo\":{\"name\":\"codex_keep_warm\",\"title\":\"Codex Keep Warm\",\"version\":",
        version.as_str(),
        "}}",
    )
}

/// The parameters of a request to sign in.
pub fn login_params() -> (params: &'static str)
    ensures
        params@ == login_document(),
{
    "{\"type\":\"chatgpt\",\"useHostedLoginSuccessPage\":true,\"appBrand\":\"chatgpt\"}"
}

/// The parameters of a request to read the account.
pub fn account_params() -> (params: &'static str)
    ensures
        params@ == account_document(),
{
    "{\"refreshToken\":false}"
}

/// The parameters of a request for a thread that does nothing but reply, in a
/// workspace of its own, and leaves nothing behind.
pub fn thread_params(workspace: &str) -> (params: String)
    ensures
        params@ == thread_document(workspace@),
{
    let workspace = quote(workspace);
    join3(
        "{\"cwd\":",
        workspace.as_str(),
        ",\"ephemeral\":true,\"approvalPolicy\":\"never\",\"sandbox\":\"read-only\",\"baseInstructions\":\"Reply exactly OK. Do not use tools.\",\"developerInstructions\":\"\",\"config\":{\"model_reasoning_effort\":\"low\",\"model_verbosity\":\"low\"}}",
    )
}

/// The parameters of a request for the shortest possible reply on a thread.
pub fn turn_params(thread_id: &str) -> (params: String)
    ensures
        params@ == turn_document(thread_id@),
{
    let thread_id = quote(thread_id);
    join3(
        "{\"threadId\":",
        thread_id.as_str(),
        ",\"input\":[{\"type\":\"text\",\"text\":\"Reply exactly OK.\"}],\"effort\":\"low\",\"summary\":\"none\"}",
    )
}

/// A text that must be there, or what is said where it is not.
pub open spec fn required(text: Option<Seq<char>>, missing: Seq<char>) -> Result<
    Seq<char>,
    Seq<char>,
> {
    match text {
        Some(text) => Ok(text),
        None => Err(missing),
    }
}

/// Whether a result is the text, or the message, that it should be.
pub open spec fn is_outcome(
    result: Result<String, String>,
    expected: Result<Seq<char>, Seq<char>>,
) -> bool {
    match (result, expected) {
        (Ok(text), Ok(expected)) => text@ == expected,
        (Err(error), Err(expected)) => error@ == expected,
        _ => false,
    }
}

/// Passes a text that is there.
pub fn require_text(text: Option<String>, missing: &str) -> (result: Result<String, String>)
    ensures
        is_outcome(result, required(opt_text(text), missing@)),
{
    match text {
        Some(text) => Ok(text),
        None => Err(missing.to_owned()),
    }
}

/// The page on which to sign in. Only a page with a secure address is opened.
pub open spec fn safe_page(url: Option<Seq<char>>) -> Result<Seq<char>, Seq<char>> {
    match url {
        Some(url) => if starts_with_seq(url, "https://"@) {
            Ok(url)
        } else {
            Err("Codex returned an unsafe sign-in URL"@)
        },
        None => Err("Codex did not return a sign-in URL"@),
    }
}

/// Passes an address that is secure.
pub fn check_page(url: Option<String>) -> (result: Result<String, String>)
    ensures
        is_outcome(result, safe_page(opt_text(url))),
{
    match url {
        Some(url) => if starts_with_text(url.as_str(), "https://") {
            Ok(url)
        } else {
            Err("Codex returned an unsafe sign-in URL".to_owned())
        },
        None => Err("Codex did not return a sign-in URL".to_owned()),
    }
}

/// The page on which to sign in, given the result of the request.
pub fn sign_in_page(result: &str) -> (page: Result<String, String>)
    ensures
        is_outcome(page, safe_page(text_at(result@, "/authUrl"@))),
{
    check_page(read_text(result, "/authUrl"))
}

/// What is read of the notification that somebody has signed in or has not.
#[derive(Debug)]
pub struct LoginReport {
    pub success: Option<bool>,
    pub error: Option<String>,
}

/// What came of a sign-in; nothing for success.
pub open spec fn login_failure(success: Option<bool>, error: Option<Seq<char>>) -> Option<
    Seq<char>,
> {
    if success == Some(true) {
        None
    } else {
        match error {
            Some(error) => Some(error),
            None => Some("ChatGPT sign-in failed"@),
        }
    }
}

/// Passes a sign-in that went well.
pub fn check_login(report: Option<LoginReport>) -> (result: Result<(), String>)
    ensures
        match report {
            Some(report) => match (result, login_failure(report.success, opt_text(report.error))) {
                (Ok(_), None) => true,
                (Err(error), Some(expected)) => error@ == expected,
                _ => false,
            },
            None => result matches Err(error) && error@
                == "Codex returned an invalid login result"@,
        },
{
    match report {
        Some(report) => {
            let success: bool = match report.success {
                Some(success) => success,
                None => false,
            };
            if success {
                return Ok(());
            }
            match report.error {
                Some(error) => Err(error),
                None => Err("ChatGPT sign-in failed".to_owned()),
            }
        },
        None => Err("Codex returned an invalid login result".to_owned()),
    }
}

/// The truth value under a pointer of a document.
pub open spec fn flag_at(document: Seq<char>, pointer: Seq<char>) -> Option<bool> {
    match json_part(document, pointer) {
        Some(part) => json_flag(part),
        None => None,
    }
}

/// Decides on the notification that somebody has signed in or has not.
pub fn login_outcome(message: &Message) -> (result: Result<(), String>)
    ensures
        match message@.params {
            Some(params) => match (
                result,
                login_failure(flag_at(params, "/success"@), text_at(params, "/error"@)),
            ) {
                (Ok(_), None) => true,
                (Err(error), Some(expected)) => error@ == expected,
                _ => false,
            },
            None => result matches Err(error) && error@
                == "Codex returned an invalid login result"@,
        },
{
    let report = match &message.params {
        Some(params) => {
            let success = match part_of(params.as_str(), "/success") {
                Some(part) => flag_of(part.as_str()),
                None => None,
            };
            Some(LoginReport { success, error: read_text(params.as_str(), "/error") })
        },
        None => None,
    };
    check_login(report)
}

/// The thread on which to send a warmup, given the result of the request for one.
pub fn warmup_thread(result: &str) -> (thread: Result<String, String>)
    ensures
        is_outcome(
            thread,
            required(
                text_at(result@, "/thread/id"@),
                "Codex did not create the warmup thread"@,
            ),
        ),
{
    require_text(read_text(result, "/thread/id"), "Codex did not create the warmup thread")
}

/// What is read of the notification that a turn is over.
#[derive(Debug)]
pub struct TurnReport {
    pub status: Option<String>,
    pub error: Option<String>,
}

/// What came of a turn; nothing for success.
pub open spec fn turn_failure(status: Option<Seq<char>>, error: Option<Seq<char>>) -> Option<
    Seq<char>,
> {
    if status == Some("completed"@) {
        None
    } else {
        match error {
            Some(error) => Some(error),
            None => Some("Warmup request failed"@),
        }
    }
}

/// Passes a turn that went well.
pub fn check_turn(report: Option<TurnReport>) -> (result: Result<(), String>)
    ensures
        match report {
            Some(report) => match (
                result,
                turn_failure(opt_text(report.status), opt_text(report.error)),
            ) {
                (Ok(_), None) => true,
                (Err(error), Some(expected)) => error@ == expected,
                _ => false,
            },
            None => result matches Err(error) && error@
                == "Codex returned an invalid warmup result"@,
        },
{
    match report {
        Some(report) => {
            if is_text(&report.status, "completed") {
                return Ok(());
            }
            match report.error {
                Some(error) => Err(error),
                None => Err("Warmup request failed".to_owned()),
            }
        },
        None => Err("Codex returned an invalid warmup result".to_owned()),
    }
}

/// The turn that a notification speaks of, as a JSON document.
pub open spec fn turn_in(message: MessageModel) -> Option<Seq<char>> {
    match message.params {
        Some(params) => json_part(params, "/turn"@),
        None => None,
    }
}

/// Decides on the notification that a turn is over.
pub fn turn_outcome(message: &Message) -> (result: Result<(), String>)
    ensures
        match turn_in(message@) {
            Some(turn) => match (
                result,
                turn_failure(text_at(turn, "/status"@), text_at(turn, "/error/message"@)),
            ) {
                (Ok(_), None) => true,
                (Err(error), Some(expected)) => error@ == expected,
                _ => false,
            },
            None => result matches Err(error) && error@
                == "Codex returned an invalid warmup result"@,
        },
{
    let turn = match &message.params {
        Some(params) => part_of(params.as_str(), "/turn"),
        None => None,
    };
    let report = match turn {
        Some(turn) => Some(
            TurnReport {
                status: read_text(turn.as_str(), "/status"),
                error: read_text(turn.as_str(), "/error/message"),
            },
        ),
        None => None,
    };
    check_turn(report)
}

/// What is read of an account: the kind of its login, whom it belongs to, its plan.
#[derive(Debug)]
pub struct Identity {
    pub kind: Option<String>,
    pub email: Option<String>,
    pub plan: Option<String>,
}

/// The contents of an [`Identity`].
#[verifier::ext_equal]
pub struct IdentityModel {
    pub kind: Option<Seq<char>>,
    pub email: Option<Seq<char>>,
    pub plan: Option<Seq<char>>,
}

impl View for Identity {
    type V = IdentityModel;

    open spec fn view(&self) -> IdentityModel {
        IdentityModel {
            kind: opt_text(self.kind),
            email: opt_text(self.email),
            plan: opt_text(self.plan),
        }
    }
}

/// What is read of an account, as a JSON document holds it.
pub open spec fn identity_in(account: Seq<char>) -> IdentityModel {
    IdentityModel {
        kind: text_at(account, "/type"@),
        email: text_at(account, "/email"@),
        plan: text_at(account, "/planType"@),
    }
}

/// What is wrong with an account that cannot be used; nothing for one that can.
pub open spec fn identity_problem(identity: Option<Identity>) -> Option<Seq<char>> {
    match identity {
        Some(identity) => if opt_text(identity.kind) == Some("chatgpt"@) {
            None
        } else {
            Some("This app needs a ChatGPT account"@)
        },
        None => Some("This account is not signed in"@),
    }
}

/// Passes an account that can be used.
pub fn check_identity(identity: Option<Identity>) -> (result: Result<Identity, String>)
    ensures
        match (result, identity_problem(identity)) {
            (Ok(result), None) => Some(result) == identity,
            (Err(error), Some(expected)) => error@ == expected,
            _ => false,
        },
{
    match identity {
        Some(identity) => if is_text(&identity.kind, "chatgpt") {
            Ok(identity)
        } else {
            Err("This app needs a ChatGPT account".to_owned())
        },
        None => Err("This account is not signed in".to_owned()),
    }
}

/// The account in the result of the request for it, as a JSON document; nothing
/// where it is null.
pub open spec fn account_in(result: Seq<char>) -> Option<Seq<char>> {
    match json_part(result, "/account"@) {
        Some(account) => if account == "null"@ {
            None
        } else {
            Some(account)
        },
        None => None,
    }
}

/// The account in the result of the request for it, if it is one that can be used.
pub fn read_identity(result: &str) -> (identity: Result<Identity, String>)
    ensures
        match account_in(result@) {
            Some(account) => if text_at(account, "/type"@) == Some("chatgpt"@) {
                identity matches Ok(identity) && identity@ == identity_in(account)
            } else {
                identity matches Err(error) && error@ == "This app needs a ChatGPT account"@
            },
            None => identity matches Err(error) && error@ == "This account is not signed in"@,
        },
{
    let account = match part_of(result, "/account") {
        Some(account) => if same_text(account.as_str(), "null") {
            None
        } else {
            Some(account)
        },
        None => None,
    };
    let found = match account {
        Some(account) => Some(
            Identity {
                kind: read_text(account.as_str(), "/type"),
                email: read_text(account.as_str(), "/email"),
                plan: read_text(account.as_str(), "/planType"),
            },
        ),
        None => None,
    };
    check_identity(found)
}

/// An account as its identity and its limits show it.
pub fn snapshot(identity: Identity, limits: RateLimitResponse) -> (snapshot: AccountSnapshot)
    ensures
        snapshot@.email == opt_text(identity.email),
        snapshot@.plan == opt_text(identity.plan),
        snapshot@.limits.session == window_by_duration(limits.chosen(), SESSION_MINUTES as int),
        snapshot@.limits.weekly == window_by_duration(limits.chosen(), WEEK_MINUTES as int),
{
    AccountSnapshot {
        email: identity.email,
        plan: identity.plan,
        limits: UsageWindows::from_response(limits),
    }
}

/// A message that came too early is not lost: it is there when it is asked for.
pub proof fn law_early_notifications_are_kept(
    conversation: ConversationModel,
    message: MessageModel,
    method: Seq<char>,
)
    requires
        notifies(message, method),
        conversation.place_of(method) == conversation.pending.len(),
    ensures
        conversation.keeping(message).place_of(method) == conversation.pending.len(),
        conversation.keeping(message).pending[conversation.pending.len() as int] == message,
        conversation.keeping(message).pending.remove(conversation.pending.len() as int)
            == conversation.pending,
{
    let other = |message: MessageModel| !notifies(message, method);
    let kept = conversation.keeping(message).pending;
    let n = conversation.pending.len() as int;
    assert forall|j: int| 0 <= j < n implies other(#[trigger] kept[j]) by {
        lemma_leading_have_property(conversation.pending, other, j);
    }
    lemma_count_leading(kept, other, n);
    assert(kept.remove(n) =~= conversation.pending);
}

/// The reply to a request is the message with its number that names no method. It
/// gives the result, or the error where it reports one, or says that there is none.
pub proof fn law_replies_are_read(message: MessageModel, id: u64, method: Seq<char>)
    ensures
        message.has_method ==> !replies_to(message, id),
        !message.has_method ==> (replies_to(message, id) <==> message.number == Some(id)),
        message.has_error && message.error is Some ==> reply(message, method) == Err::<
            Seq<char>,
            Seq<char>,
        >(message.error->0),
        message.has_error && message.error is None ==> reply(message, method) == Err::<
            Seq<char>,
            Seq<char>,
        >("Unknown Codex error"@),
        !message.has_error && message.result is Some ==> reply(message, method) == Ok::<
            Seq<char>,
            Seq<char>,
        >(message.result->0),
        !message.has_error && message.result is None ==> reply(message, method) == Err::<
            Seq<char>,
            Seq<char>,
        >("Codex returned no result for "@ + method),
{
}

/// The notification that is taken is the first one of its method among the messages
/// that were kept; where there is none, none is taken.
pub proof fn law_first_notification_is_taken(
    conversation: ConversationModel,
    method: Seq<char>,
    i: int,
)
    requires
        0 <= i <= conversation.pending.len(),
        forall|j: int| 0 <= j < i ==> (#[trigger] conversation.pending[j]).method != Some(method),
        i < conversation.pending.len() ==> conversation.pending[i].method == Some(method),
    ensures
        conversation.place_of(method) == i,
{
    lemma_count_leading(
        conversation.pending,
        |message: MessageModel| !notifies(message, method),
        i,
    );
}

/// A message that nobody has asked for is kept behind those that were kept before.
pub proof fn law_messages_are_kept_in_order(
    conversation: ConversationModel,
    message: MessageModel,
    i: int,
)
    ensures
        conversation.keeping(message).next_id == conversation.next_id,
        conversation.keeping(message).pending.len() == conversation.pending.len() + 1,
        conversation.keeping(message).pending[conversation.pending.len() as int] == message,
        0 <= i < conversation.pending.len() ==> conversation.keeping(message).pending[i]
            == conversation.pending[i],
{
}

/// A line is taken apart by the names of its members: the method, the identifier,
/// the error with its message, the result and the parameters.
pub proof fn law_messages_are_taken_apart(line: Seq<char>)
    ensures
        ({
            let message = message_in(line);
            &&& message.has_method <==> json_part(line, "/method"@) is Some
            &&& message.method == text_at(line, "/method"@)
            &&& message.method is Some ==> message.has_method
            &&& message.id == json_part(line, "/id"@)
            &&& message.id matches Some(id) ==> message.number == json_number(id)
            &&& message.id is None ==> message.number is None
            &&& message.has_error <==> json_part(line, "/error"@) is Some
            &&& message.error == text_at(line, "/error/message"@)
            &&& message.result == json_part(line, "/result"@)
            &&& message.params == json_part(line, "/params"@)
        }),
{
}

} // verus!
