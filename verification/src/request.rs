//! The outbound request: where it goes, what it carries, and how the
//! answer's status is judged. Sending it is the caller's part.

use crate::wire::WireFormat;
use vstd::prelude::*;
use vstd::string::StringExecFns;

verus! {

/// Who speaks in a turn of a chat.
#[derive(Clone, Copy, Debug, PartialEq, Eq, Structural)]
pub enum Role {
    System,
    User,
    Assistant,
}

/// The name of a role on the wire.
pub open spec fn role_name(role: Role) -> Seq<char> {
    match role {
        Role::System => "system"@,
        Role::User => "user"@,
        Role::Assistant => "assistant"@,
    }
}

impl Role {
    /// The name of the role on the wire.
    pub fn name(&self) -> (name: &'static str)
        ensures
            name@ == role_name(*self),
    {
        match self {
            Role::System => "system",
            Role::User => "user",
            Role::Assistant => "assistant",
        }
    }
}

/// One turn of a chat: who speaks, and what is said.
#[derive(Debug)]
pub struct ChatTurn {
    pub role: Role,
    pub text: String,
}

/// One turn of a chat, as a mathematical value.
pub struct Turn {
    pub role: Role,
    pub text: Seq<char>,
}

impl View for ChatTurn {
    type V = Turn;

    open spec fn view(&self) -> Turn {
        Turn { role: self.role, text: self.text@ }
    }
}

/// The views of a list of turns.
pub open spec fn turns_of(turns: Seq<ChatTurn>) -> Seq<Turn> {
    Seq::new(turns.len(), |i: int| turns[i]@)
}

/// The user's part of the prompt: the manual text between a line that
/// introduces it and a line that asks for the explanation.
pub open spec fn user_prompt_text(manual: Seq<char>) -> Seq<char> {
    "Here is a man page for the user to understand:\n\n"@ + manual
        + "\n\nPlease mansplain this to them."@
}

/// The user's part of the prompt for `manual`.
pub fn user_prompt(manual: &str) -> (prompt: String)
    ensures
        prompt@ == user_prompt_text(manual@),
{
    let mut prompt = "Here is a man page for the user to understand:\n\n".to_owned();
    prompt.append(manual);
    prompt.append("\n\nPlease mansplain this to them.");
    prompt
}

/// The chat that asks for an explanation of `manual`: the system prompt,
/// then the user's prompt.
pub open spec fn chat_of(system_prompt: Seq<char>, manual: Seq<char>) -> Seq<Turn> {
    seq![
        Turn { role: Role::System, text: system_prompt },
        Turn { role: Role::User, text: user_prompt_text(manual) },
    ]
}

/// The turns of the chat that asks for an explanation of `manual`.
pub fn chat_turns(system_prompt: &str, manual: &str) -> (turns: Vec<ChatTurn>)
    ensures
        turns_of(turns@) == chat_of(system_prompt@, manual@),
{
    let mut turns: Vec<ChatTurn> = Vec::new();
    turns.push(ChatTurn { role: Role::System, text: system_prompt.to_owned() });
    turns.push(ChatTurn { role: Role::User, text: user_prompt(manual) });
    turns
}

/// The body of a request in the line-delimited format.
#[derive(Debug)]
pub struct GenerateRequest {
    pub model: String,
    pub prompt: String,
    pub system: String,
    pub stream: bool,
}

/// The body of a request in the event-stream format.
#[derive(Debug)]
pub struct ChatRequest {
    pub model: String,
    pub messages: Vec<ChatTurn>,
    pub stream: bool,
}

/// The body that asks `model` to explain `manual` under `system_prompt`, in
/// the line-delimited format.
pub fn generate_request(model: &str, system_prompt: &str, manual: &str, stream: bool) -> (request:
    GenerateRequest)
    ensures
        request.model@ == model@,
        request.prompt@ == user_prompt_text(manual@),
        request.system@ == system_prompt@,
        request.stream == stream,
{
    GenerateRequest {
        model: model.to_owned(),
        prompt: user_prompt(manual),
        system: system_prompt.to_owned(),
        stream,
    }
}

/// The body that asks `model` to explain `manual` under `system_prompt`, in
/// the event-stream format.
pub fn chat_request(model: &str, system_prompt: &str, manual: &str, stream: bool) -> (request:
    ChatRequest)
    ensures
        request.model@ == model@,
        turns_of(request.messages@) == chat_of(system_prompt@, manual@),
        request.stream == stream,
{
    ChatRequest { model: model.to_owned(), messages: chat_turns(system_prompt, manual), stream }
}

/// The path of the endpoint that answers in `format`.
pub open spec fn endpoint_path(format: WireFormat) -> Seq<char> {
    match format {
        WireFormat::LineJson => "/api/generate"@,
        WireFormat::EventStream => "/chat/completions"@,
    }
}

/// The address of the endpoint that answers in `format` under `api_url`.
pub fn endpoint(format: WireFormat, api_url: &str) -> (url: String)
    ensures
        url@ == api_url@ + endpoint_path(format),
{
    let mut url = api_url.to_owned();
    match format {
        WireFormat::LineJson => url.append("/api/generate"),
        WireFormat::EventStream => url.append("/chat/completions"),
    }
    url
}

/// The value of the `Authorization` header: `Bearer`, a space, and the key.
/// Without a key no such header is sent.
pub fn authorization(api_key: Option<&str>) -> (header: Option<String>)
    ensures
        match api_key {
            Some(key) => header matches Some(value) && value@ == "Bearer "@ + key@,
            None => header is None,
        },
{
    match api_key {
        Some(key) => {
            let mut value = "Bearer ".to_owned();
            value.append(key);
            Some(value)
        },
        None => None,
    }
}

/// Why the backend gave no response body to decode.
#[derive(Debug)]
pub enum TransportError {
    /// The backend could not be reached.
    Unreachable {
        /// What the transport said of the failure.
        detail: String,
    },
    /// The backend answered with a status that is no success.
    Status {
        /// The status code.
        code: u16,
        /// The status as the transport words it, such as `404 Not Found`.
        reason: String,
        /// The body of the answer, where it was read.
        details: Option<String>,
    },
}

/// Whether an HTTP status code reports success: 200 to 299.
pub open spec fn is_success(code: u16) -> bool {
    200 <= code < 300
}

/// Decides [`is_success`].
pub fn succeeded(code: u16) -> (success: bool)
    ensures
        success == is_success(code),
{
    200 <= code && code < 300
}

/// Judges the status of an answer. A success lets the body through to the
/// decoder; any other status is a failure that carries the code, the
/// wording of the status and, where the body was read, the body.
pub fn check_status(code: u16, reason: String, details: Option<String>) -> (result: Result<
    (),
    TransportError,
>)
    ensures
        is_success(code) ==> result is Ok,
        !is_success(code) ==> (result matches Err(
            TransportError::Status { code: told, reason: worded, details: said },
        ) && told == code && worded == reason && said == details),
{
    if succeeded(code) {
        Ok(())
    } else {
        Err(TransportError::Status { code, reason, details })
    }
}

/// What a transport failure says of itself.
pub open spec fn transport_message(error: TransportError) -> Seq<char> {
    match error {
        TransportError::Unreachable { detail } => "Failed to connect to LLM API: "@ + detail@,
        TransportError::Status { code, reason, details } => match details {
            Some(body) => "LLM API returned error: "@ + reason@ + "\nDetails: "@ + body@,
            None => "LLM API returned error: "@ + reason@,
        },
    }
}

impl TransportError {
    /// What the failure says of itself.
    pub fn message(&self) -> (message: String)
        ensures
            message@ == transport_message(*self),
    {
        match self {
            TransportError::Unreachable { detail } => {
                let mut message = "Failed to connect to LLM API: ".to_owned();
                message.append(detail.as_str());
                message
            },
            TransportError::Status { code: _, reason, details } => {
                let mut message = "LLM API returned error: ".to_owned();
                message.append(reason.as_str());
                if let Some(body) = details {
                    message.append("\nDetails: ");
                    message.append(body.as_str());
                }
                message
            },
        }
    }
}

} // verus!
