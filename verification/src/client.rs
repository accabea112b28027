//! The request that one prompt becomes, and what the answer to it allows.

use crate::view::views;
use vstd::prelude::*;
use vstd::string::StringExecFns;

verus! {

/// The model that every request names.
pub const MODEL: &'static str = "gpt-3.5-turbo-1106";

/// The instruction that opens every request.
pub const SYSTEM_INSTRUCTION: &'static str = "You are a helpful assistant.";

/// The role of the instruction.
pub const SYSTEM_ROLE: &'static str = "system";

/// The role of the prompt.
pub const USER_ROLE: &'static str = "user";

/// What precedes the key in the `Authorization` header.
pub const BEARER: &'static str = "Bearer ";

/// One message of a request.
#[derive(Debug, Clone, PartialEq, Eq)]
pub struct ChatMessage {
    pub role: String,
    pub content: String,
}

/// The value of a [`ChatMessage`].
pub struct MessageView {
    pub role: Seq<char>,
    pub content: Seq<char>,
}

impl View for ChatMessage {
    type V = MessageView;

    open spec fn view(&self) -> MessageView {
        MessageView { role: self.role@, content: self.content@ }
    }
}

/// The body of a request for a streamed completion.
#[derive(Debug, Clone, PartialEq, Eq)]
pub struct ChatRequest {
    pub model: String,
    pub messages: Vec<ChatMessage>,
    pub stream: bool,
}

/// The value of a [`ChatRequest`].
pub struct RequestView {
    pub model: Seq<char>,
    pub messages: Seq<MessageView>,
    pub stream: bool,
}

impl View for ChatRequest {
    type V = RequestView;

    open spec fn view(&self) -> RequestView {
        RequestView {
            model: self.model@,
            messages: views(self.messages@),
            stream: self.stream,
        }
    }
}

/// The body that carries `prompt`: the fixed model, the instruction as the
/// one system message, the prompt as it is as the one user message, and the
/// wish for a stream.
pub open spec fn request_for(prompt: Seq<char>) -> RequestView {
    RequestView {
        model: MODEL@,
        messages: seq![
            MessageView { role: SYSTEM_ROLE@, content: SYSTEM_INSTRUCTION@ },
            MessageView { role: USER_ROLE@, content: prompt },
        ],
        stream: true,
    }
}

/// One POST that is ready to be sent.
#[derive(Debug, Clone, PartialEq, Eq)]
pub struct Dispatch {
    /// Where to send it.
    pub endpoint: String,
    /// The value of the `Authorization` header.
    pub authorization: String,
    /// The body, to be sent as JSON.
    pub body: ChatRequest,
}

/// The key and the endpoint of one session.
#[derive(Debug, Clone, PartialEq, Eq)]
pub struct OpenAiClient {
    api_key: String,
    endpoint: String,
}

impl OpenAiClient {
    /// The key that requests are signed with.
    pub closed spec fn key(&self) -> Seq<char> {
        self.api_key@
    }

    /// The address that requests go to.
    pub closed spec fn address(&self) -> Seq<char> {
        self.endpoint@
    }

    /// A client for `endpoint` that signs with `api_key`. Neither is looked
    /// into.
    pub fn new(api_key: String, endpoint: String) -> (r: Self)
        ensures
            r.key() == api_key@,
            r.address() == endpoint@,
    {
        Self { api_key, endpoint }
    }

    /// The one request that `prompt` becomes. Nothing of earlier prompts goes
    /// into it.
    pub fn create_chat(&self, prompt: String) -> (r: Dispatch)
        ensures
            r.endpoint@ == self.address(),
            r.authorization@ == BEARER@ + self.key(),
            r.body@ == request_for(prompt@),
    {
        let mut messages: Vec<ChatMessage> = Vec::new();
        messages.push(
            ChatMessage {
                role: String::from_str(SYSTEM_ROLE),
                content: String::from_str(SYSTEM_INSTRUCTION),
            },
        );
        messages.push(ChatMessage { role: String::from_str(USER_ROLE), content: prompt });
        let body = ChatRequest { model: String::from_str(MODEL), messages, stream: true };
        assert(body@.messages =~= request_for(prompt@).messages);
        Dispatch {
            endpoint: self.endpoint.clone(),
            authorization: String::from_str(BEARER).concat(self.api_key.as_str()),
            body,
        }
    }
}

/// What came back for a request.
#[derive(Debug, Clone, PartialEq, Eq)]
pub enum Reply {
    /// No response was had: the endpoint could not be reached.
    Unreachable { detail: String },
    /// A response with this status line.
    Status { code: u16, reason: String },
}

/// Why a request got no stream.
#[derive(Debug, Clone, PartialEq, Eq)]
pub enum DispatchError {
    /// The endpoint could not be reached.
    Transport { detail: String },
    /// The endpoint answered with a status that is no success.
    HttpStatus { status: u16, reason: String },
}

/// Whether a status is one of success: 200 to 299.
pub open spec fn is_success(code: u16) -> bool {
    200 <= code <= 299
}

/// What a reply allows: with a status of success the body may be read as a
/// stream; any other status, and a failure to reach the endpoint, is an error
/// that carries what was seen.
pub open spec fn checked(reply: Reply) -> Result<(), DispatchError> {
    match reply {
        Reply::Unreachable { detail } => Err(DispatchError::Transport { detail }),
        Reply::Status { code, reason } => if is_success(code) {
            Ok(())
        } else {
            Err(DispatchError::HttpStatus { status: code, reason })
        },
    }
}

/// Decides whether the body of a reply is to be read.
pub fn check_reply(reply: Reply) -> (r: Result<(), DispatchError>)
    ensures
        r == checked(reply),
{
    match reply {
        Reply::Unreachable { detail } => Err(DispatchError::Transport { detail }),
        Reply::Status { code, reason } => if 200 <= code && code <= 299 {
            Ok(())
        } else {
            Err(DispatchError::HttpStatus { status: code, reason })
        },
    }
}

} // verus!
