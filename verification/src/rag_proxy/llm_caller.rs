//! A question put to the language-model backend, and the text of its answer.

use crate::rag_proxy::passthrough_handler::{ChatCompletionRequest, ChatMessage, MessageContent};
use vstd::prelude::*;

verus! {

/// A member of a JSON object, as far as its text matters.
#[derive(Debug)]
pub enum JsonField {
    /// The object has no such member.
    Absent,
    /// The member is there and is no string.
    Other,
    /// The member is the given string.
    Text(String),
}

/// The `choices` member of a backend's answer.
#[derive(Debug)]
pub enum Choices {
    /// The answer has no such member.
    Absent,
    /// The member is there and is no array, or an array without items.
    Empty,
    /// The member is an array; these are two members of its first item: the
    /// `content` of its `message`, and its own `content`.
    First { message_content: JsonField, content: JsonField },
}

/// What is read of a backend's answer. `message_content` is the `content`
/// of the answer's `message`, absent where either is.
#[derive(Debug)]
pub struct LlmReply {
    pub choices: Choices,
    pub content: JsonField,
    pub message_content: JsonField,
}

/// What stands for an answer without a text.
pub open spec fn no_content() -> Seq<char> {
    "No response content"@
}

/// What stands for an answer whose list of choices holds nothing.
pub open spec fn no_choices() -> Seq<char> {
    "No response choices"@
}

/// The text of a member, or the words for a missing text.
pub open spec fn field_text(field: JsonField) -> Seq<char> {
    match field {
        JsonField::Text(text) => text@,
        _ => no_content(),
    }
}

/// The first of two members that is there.
pub open spec fn first_present(first: JsonField, second: JsonField) -> JsonField {
    if first is Absent {
        second
    } else {
        first
    }
}

/// The text of a backend's answer. With choices, it is the text of the
/// first choice: the content of its message, or else its own content.
/// Without choices, it is the content of the answer, or else the content of
/// its message. A member that is there and is no string gives the words for
/// a missing text, as does an answer that has none of these members.
pub open spec fn text_of_reply(reply: LlmReply) -> Seq<char> {
    match reply.choices {
        Choices::First { message_content, content } => field_text(
            first_present(message_content, content),
        ),
        Choices::Empty => no_choices(),
        Choices::Absent => field_text(first_present(reply.content, reply.message_content)),
    }
}

fn text_or_default(field: &JsonField) -> (text: String)
    ensures
        text@ == field_text(*field),
{
    match field {
        JsonField::Text(text) => text.clone(),
        _ => "No response content".to_owned(),
    }
}

fn first_text(first: &JsonField, second: &JsonField) -> (text: String)
    ensures
        text@ == field_text(first_present(*first, *second)),
{
    match first {
        JsonField::Absent => text_or_default(second),
        _ => text_or_default(first),
    }
}

/// The text of a backend's answer.
pub fn reply_text(reply: &LlmReply) -> (text: String)
    ensures
        text@ == text_of_reply(*reply),
{
    match &reply.choices {
        Choices::First { message_content, content } => first_text(message_content, content),
        Choices::Empty => "No response choices".to_owned(),
        Choices::Absent => first_text(&reply.content, &reply.message_content),
    }
}

/// The request that puts `prompt` to the model `model`: one user message,
/// not streamed.
pub fn call_llm(model: &str, prompt: &str) -> (request: ChatCompletionRequest)
    ensures
        request.model@ == model@,
        request.stream == Some(false),
        request.messages@.len() == 1,
        request.messages@[0].role@ == "user"@,
        request.messages@[0].content matches MessageContent::Text(text) && text@ == prompt@,
{
    let mut messages: Vec<ChatMessage> = Vec::new();
    messages.push(
        ChatMessage { role: "user".to_owned(), content: MessageContent::Text(prompt.to_owned()) },
    );
    ChatCompletionRequest { model: model.to_owned(), messages, stream: Some(false) }
}

} // verus!
