//! The chat payload as values, and the answer that the proxy hands back.

use crate::http::ServiceReply;
use crate::AppError;
use vstd::prelude::*;

verus! {

/// A chat-completion request.
#[derive(Debug)]
pub struct ChatCompletionRequest {
    /// The model that is to answer.
    pub model: String,
    /// The messages of the conversation, oldest first.
    pub messages: Vec<ChatMessage>,
    /// Whether the answer is to be streamed.
    pub stream: Option<bool>,
}

/// The content of a message: plain text, or an ordered list of typed parts.
#[derive(Debug)]
pub enum MessageContent {
    Text(String),
    Parts(Vec<ContentPart>),
}

/// One part of a message's content.
#[derive(Debug)]
pub struct ContentPart {
    /// The type of the part, `text` for a text part.
    pub kind: String,
    /// The text of a text part.
    pub text: Option<String>,
}

/// One message of a conversation.
#[derive(Debug)]
pub struct ChatMessage {
    /// Who speaks: `user`, `assistant` or `system`.
    pub role: String,
    pub content: MessageContent,
}

/// One part of a content as it stands in a payload: its type and its text,
/// as far as each is there and is a string.
#[derive(Debug)]
pub struct PayloadPart {
    pub kind: Option<String>,
    pub text: Option<String>,
}

/// The content of a message as it stands in a payload: a text, a list of
/// parts, or anything else, a missing content included.
#[derive(Debug)]
pub enum PayloadContent {
    Text(String),
    Parts(Vec<PayloadPart>),
    Other,
}

/// One item of the messages of a payload: its role, as far as it is there
/// and is a string, and its content.
#[derive(Debug)]
pub struct PayloadMessage {
    pub role: Option<String>,
    pub content: PayloadContent,
}

/// The content type of an answer.
#[derive(Debug, Clone, Copy, PartialEq, Eq, Structural)]
pub enum ContentType {
    Json,
    PlainText,
}

/// The answer that the proxy hands back to its client.
#[derive(Debug)]
pub struct ProxyResponse {
    pub content_type: ContentType,
    pub body: String,
}

/// Whether `serde_json` reads `text` as one JSON document.
pub uninterp spec fn json_well_formed(text: Seq<char>) -> bool;

/// Asks `serde_json::from_str` to read `text` as a `serde_json::Value`, and
/// says whether it did.
#[verifier::external_body]
fn is_json(text: &str) -> (ok: bool)
    ensures
        ok == json_well_formed(text@),
{
    serde_json::from_str::<serde_json::Value>(text).is_ok()
}

impl ContentType {
    /// The value of the `Content-Type` header.
    pub open spec fn header_value(self) -> Seq<char> {
        match self {
            ContentType::Json => "application/json"@,
            ContentType::PlainText => "text/plain"@,
        }
    }

    /// The value of the `Content-Type` header.
    pub fn as_header(&self) -> (value: String)
        ensures
            value@ == self.header_value(),
    {
        match self {
            ContentType::Json => "application/json".to_owned(),
            ContentType::PlainText => "text/plain".to_owned(),
        }
    }
}

/// The content type under which a body is handed back, given whether it is
/// a JSON document.
pub open spec fn content_type_of(well_formed: bool) -> ContentType {
    if well_formed {
        ContentType::Json
    } else {
        ContentType::PlainText
    }
}

/// The answer made of a body, given whether the body is a JSON document: the
/// body as it is, as JSON where it is a JSON document, as plain text where it
/// is not.
pub fn answer_with(body: String, well_formed: bool) -> (response: ProxyResponse)
    ensures
        response.body == body,
        response.content_type == content_type_of(well_formed),
{
    let content_type = if well_formed {
        ContentType::Json
    } else {
        ContentType::PlainText
    };
    ProxyResponse { content_type, body }
}

/// The answer made of the body that the language-model backend sent. The
/// backend is not trusted to send JSON.
pub fn answer_of(body: String) -> (response: ProxyResponse)
    ensures
        response.body == body,
        response.content_type == content_type_of(json_well_formed(body@)),
{
    let well_formed = is_json(body.as_str());
    answer_with(body, well_formed)
}

/// Whether `r` is what the proxy makes of the backend's reply: a request
/// that did not get through is a network error, and any answer is handed
/// back with its body, whatever its status.
pub open spec fn handed_back(reply: ServiceReply<()>, r: Result<ProxyResponse, AppError>) -> bool {
    match reply {
        ServiceReply::Unreachable(why) => r matches Err(e) && e == AppError::Reqwest(why),
        ServiceReply::Answered { status, text, decoded } => {
            &&& r matches Ok(response)
            &&& response.body == text
            &&& response.content_type == content_type_of(json_well_formed(text@))
        },
    }
}

/// Makes the proxy's answer of the reply to a request that was forwarded to
/// the language-model backend.
pub fn handle_passthrough_request(reply: ServiceReply<()>) -> (r: Result<ProxyResponse, AppError>)
    ensures
        handed_back(reply, r),
{
    match reply {
        ServiceReply::Unreachable(why) => Err(AppError::Reqwest(why)),
        ServiceReply::Answered { status, text, decoded } => Ok(answer_of(text)),
    }
}

} // verus!
