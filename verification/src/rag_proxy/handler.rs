//! The question of a chat payload, and the handling of one request.
//!
//! The messages of a payload are read for the question that the user asks.
//! The handling embeds the question, searches the vector store, puts the
//! context of the matches into the raw text of the payload and forwards it.

use crate::clients::ollama::{embedded, EmbeddingResponse, OllamaClient};
use crate::http::ServiceReply;
use crate::qdrant_custom_client::{about_collection, accepted, failure, EmbeddingVector,
    SearchPointsResponse};
use crate::rag_proxy::passthrough_handler::{handed_back, handle_passthrough_request,
    ChatMessage, ContentPart, MessageContent, PayloadContent, PayloadMessage, PayloadPart,
    ProxyResponse};
use crate::rag_proxy::retriever::{context_of, retrieve_context};
use crate::rag_proxy::splice::{block_is_quoted, inject_context, injected};
use crate::text::{join, join_strings, same_text, texts};
use crate::{AppError, Config};
use vstd::prelude::*;

verus! {

/// What stands for the question where a payload holds no user message.
pub open spec fn no_question() -> Seq<char> {
    "No question provided"@
}

/// The texts of the text parts among `parts`, in order.
pub open spec fn part_texts(parts: Seq<ContentPart>) -> Seq<Seq<char>>
    decreases parts.len(),
{
    if parts.len() == 0 {
        Seq::empty()
    } else {
        let part = parts.last();
        match part.text {
            Some(text) => if part.kind@ == "text"@ {
                part_texts(parts.drop_last()).push(text@)
            } else {
                part_texts(parts.drop_last())
            },
            None => part_texts(parts.drop_last()),
        }
    }
}

/// The text of a content: the text itself, or the texts of the text parts
/// one after another, with nothing between them.
pub open spec fn text_of(content: MessageContent) -> Seq<char> {
    match content {
        MessageContent::Text(text) => text@,
        MessageContent::Parts(parts) => join(part_texts(parts@), Seq::empty()),
    }
}

/// What the handling of a request reads of a message: its role and its
/// text.
pub open spec fn sketch(message: ChatMessage) -> (Seq<char>, Seq<char>) {
    (message.role@, text_of(message.content))
}

/// The roles and texts of `messages`, in order.
pub open spec fn sketches(messages: Seq<ChatMessage>) -> Seq<(Seq<char>, Seq<char>)> {
    messages.map_values(|message: ChatMessage| sketch(message))
}

/// The texts of the text parts among the parts of a payload, in order: the
/// parts whose type is `text` and whose text is a string.
pub open spec fn payload_part_texts(parts: Seq<PayloadPart>) -> Seq<Seq<char>>
    decreases parts.len(),
{
    if parts.len() == 0 {
        Seq::empty()
    } else {
        let part = parts.last();
        match (part.kind, part.text) {
            (Some(kind), Some(text)) => if kind@ == "text"@ {
                payload_part_texts(parts.drop_last()).push(text@)
            } else {
                payload_part_texts(parts.drop_last())
            },
            _ => payload_part_texts(parts.drop_last()),
        }
    }
}

/// The role and the text of an item of a payload's messages, if the item is
/// a message: it has a role, and its content is a text or a list of parts.
pub open spec fn read_sketch(item: PayloadMessage) -> Option<(Seq<char>, Seq<char>)> {
    match item.role {
        None => None,
        Some(role) => match item.content {
            PayloadContent::Text(text) => Some((role@, text@)),
            PayloadContent::Parts(parts) => Some(
                (role@, join(payload_part_texts(parts@), Seq::empty())),
            ),
            PayloadContent::Other => None,
        },
    }
}

/// The roles and texts of the messages among `items`, in order. An item
/// that is no message is passed over.
pub open spec fn read_sketches(items: Seq<PayloadMessage>) -> Seq<(Seq<char>, Seq<char>)>
    decreases items.len(),
{
    if items.len() == 0 {
        Seq::empty()
    } else {
        match read_sketch(items.last()) {
            Some(found) => read_sketches(items.drop_last()).push(found),
            None => read_sketches(items.drop_last()),
        }
    }
}

/// A part as it is held: its type and, where it has one, its text.
pub open spec fn part_shape(part: ContentPart) -> (Seq<char>, Option<Seq<char>>) {
    (
        part.kind@,
        match part.text {
            Some(text) => Some(text@),
            None => None,
        },
    )
}

/// The parts of a payload that are held, in order: those that have a type.
pub open spec fn read_part_shapes(parts: Seq<PayloadPart>) -> Seq<(Seq<char>, Option<Seq<char>>)>
    decreases parts.len(),
{
    if parts.len() == 0 {
        Seq::empty()
    } else {
        let part = parts.last();
        match part.kind {
            Some(kind) => read_part_shapes(parts.drop_last()).push(
                (
                    kind@,
                    match part.text {
                        Some(text) => Some(text@),
                        None => None,
                    },
                ),
            ),
            None => read_part_shapes(parts.drop_last()),
        }
    }
}

/// A message as it is held: its role, its text where its content is a
/// text, and its parts where its content is a list of parts.
pub open spec fn shape(message: ChatMessage) -> (
    Seq<char>,
    Option<Seq<char>>,
    Seq<(Seq<char>, Option<Seq<char>>)>,
) {
    match message.content {
        MessageContent::Text(text) => (message.role@, Some(text@), Seq::empty()),
        MessageContent::Parts(parts) => (
            message.role@,
            None,
            parts@.map_values(|part: ContentPart| part_shape(part)),
        ),
    }
}

/// The shapes of `messages`, in order.
pub open spec fn shapes(messages: Seq<ChatMessage>) -> Seq<
    (Seq<char>, Option<Seq<char>>, Seq<(Seq<char>, Option<Seq<char>>)>),
> {
    messages.map_values(|message: ChatMessage| shape(message))
}

/// The shape of the message that an item of a payload's messages is, if it
/// is one.
pub open spec fn read_shape(item: PayloadMessage) -> Option<
    (Seq<char>, Option<Seq<char>>, Seq<(Seq<char>, Option<Seq<char>>)>),
> {
    match item.role {
        None => None,
        Some(role) => match item.content {
            PayloadContent::Text(text) => Some((role@, Some(text@), Seq::empty())),
            PayloadContent::Parts(parts) => Some((role@, None, read_part_shapes(parts@))),
            PayloadContent::Other => None,
        },
    }
}

/// The shapes of the messages among `items`, in order.
pub open spec fn read_shapes(items: Seq<PayloadMessage>) -> Seq<
    (Seq<char>, Option<Seq<char>>, Seq<(Seq<char>, Option<Seq<char>>)>),
>
    decreases items.len(),
{
    if items.len() == 0 {
        Seq::empty()
    } else {
        match read_shape(items.last()) {
            Some(found) => read_shapes(items.drop_last()).push(found),
            None => read_shapes(items.drop_last()),
        }
    }
}

/// The items of the messages of a payload; a payload without a list of
/// messages has none.
pub open spec fn items_of(found: Option<Vec<PayloadMessage>>) -> Seq<PayloadMessage> {
    match found {
        Some(items) => items@,
        None => Seq::empty(),
    }
}

/// The place of the latest message with the role `role`, if there is one.
pub open spec fn latest_with_role(messages: Seq<ChatMessage>, role: Seq<char>) -> Option<int>
    decreases messages.len(),
{
    if messages.len() == 0 {
        None
    } else if messages.last().role@ == role {
        Some(messages.len() - 1)
    } else {
        latest_with_role(messages.drop_last(), role)
    }
}

/// The question of a conversation: the text of the latest user message, or
/// the placeholder where no user speaks.
pub open spec fn question_of(messages: Seq<ChatMessage>) -> Seq<char> {
    match latest_with_role(messages, "user"@) {
        Some(i) => text_of(messages[i].content),
        None => no_question(),
    }
}

/// The text of a content.
pub fn content_text(content: &MessageContent) -> (text: String)
    ensures
        text@ == text_of(*content),
{
    match content {
        MessageContent::Text(text) => text.clone(),
        MessageContent::Parts(parts) => {
            let mut found: Vec<String> = Vec::new();
            let mut i: usize = 0;
            assert(parts@.take(0) =~= Seq::<ContentPart>::empty());
            assert(texts(found@) =~= Seq::<Seq<char>>::empty());
            while i < parts.len()
                invariant
                    i <= parts.len(),
                    texts(found@) == part_texts(parts@.take(i as int)),
                decreases parts.len() - i,
            {
                assert(parts@.take(i + 1).drop_last() =~= parts@.take(i as int));
                assert(parts@.take(i + 1).last() == parts@[i as int]);
                let ghost before = texts(found@);
                let part = &parts[i];
                match &part.text {
                    Some(text) => {
                        if same_text(part.kind.as_str(), "text") {
                            found.push(text.clone());
                            assert(texts(found@) =~= before.push(text@));
                        }
                    },
                    None => {},
                }
                i += 1;
            }
            assert(parts@.take(parts.len() as int) =~= parts@);
            let text = join_strings(&found, "");
            proof {
                reveal_strlit("");
                assert(""@ =~= Seq::<char>::empty());
            }
            text
        },
    }
}

fn readable_parts(parts: &Vec<PayloadPart>) -> (out: Vec<ContentPart>)
    ensures
        part_texts(out@) == payload_part_texts(parts@),
        out@.map_values(|part: ContentPart| part_shape(part)) == read_part_shapes(parts@),
{
    let mut out: Vec<ContentPart> = Vec::new();
    let mut i: usize = 0;
    assert(parts@.take(0) =~= Seq::<PayloadPart>::empty());
    assert(out@.map_values(|part: ContentPart| part_shape(part)) =~= Seq::empty());
    while i < parts.len()
        invariant
            i <= parts.len(),
            part_texts(out@) == payload_part_texts(parts@.take(i as int)),
            out@.map_values(|part: ContentPart| part_shape(part)) == read_part_shapes(
                parts@.take(i as int),
            ),
        decreases parts.len() - i,
    {
        assert(parts@.take(i + 1).drop_last() =~= parts@.take(i as int));
        assert(parts@.take(i + 1).last() == parts@[i as int]);
        let ghost before = out@;
        let part = &parts[i];
        match &part.kind {
            Some(kind) => {
                let text = match &part.text {
                    Some(text) => Some(text.clone()),
                    None => None,
                };
                let held = ContentPart { kind: kind.clone(), text };
                out.push(held);
                assert(out@.drop_last() =~= before);
                assert(out@.map_values(|part: ContentPart| part_shape(part)) =~= before.map_values(
                    |part: ContentPart| part_shape(part),
                ).push(part_shape(held)));
            },
            None => {},
        }
        i += 1;
    }
    assert(parts@.take(parts.len() as int) =~= parts@);
    out
}

/// The messages among the items of a payload, in order. An item without a
/// role, and an item whose content is neither a text nor a list of parts,
/// is passed over, and so is a part without a type.
pub fn readable_messages(items: &Vec<PayloadMessage>) -> (messages: Vec<ChatMessage>)
    ensures
        shapes(messages@) == read_shapes(items@),
        sketches(messages@) == read_sketches(items@),
{
    let mut messages: Vec<ChatMessage> = Vec::new();
    let mut i: usize = 0;
    assert(items@.take(0) =~= Seq::<PayloadMessage>::empty());
    assert(sketches(messages@) =~= Seq::<(Seq<char>, Seq<char>)>::empty());
    assert(shapes(messages@) =~= Seq::empty());
    while i < items.len()
        invariant
            i <= items.len(),
            sketches(messages@) == read_sketches(items@.take(i as int)),
            shapes(messages@) == read_shapes(items@.take(i as int)),
        decreases items.len() - i,
    {
        assert(items@.take(i + 1).drop_last() =~= items@.take(i as int));
        assert(items@.take(i + 1).last() == items@[i as int]);
        let ghost before = sketches(messages@);
        let ghost held = shapes(messages@);
        let item = &items[i];
        match &item.role {
            Some(role) => {
                match &item.content {
                    PayloadContent::Text(text) => {
                        let message = ChatMessage {
                            role: role.clone(),
                            content: MessageContent::Text(text.clone()),
                        };
                        messages.push(message);
                        assert(sketches(messages@) =~= before.push((role@, text@)));
                        assert(shapes(messages@) =~= held.push(
                            (role@, Some(text@), Seq::empty()),
                        ));
                    },
                    PayloadContent::Parts(parts) => {
                        let message = ChatMessage {
                            role: role.clone(),
                            content: MessageContent::Parts(readable_parts(parts)),
                        };
                        messages.push(message);
                        assert(sketches(messages@) =~= before.push(
                            (role@, join(payload_part_texts(parts@), Seq::empty())),
                        ));
                        assert(shapes(messages@) =~= held.push(
                            (role@, None, read_part_shapes(parts@)),
                        ));
                    },
                    PayloadContent::Other => {},
                }
            },
            None => {},
        }
        i += 1;
    }
    assert(items@.take(items.len() as int) =~= items@);
    messages
}

/// The place of the latest message with the role `role`.
pub fn find_latest(messages: &Vec<ChatMessage>, role: &str) -> (at: Option<usize>)
    ensures
        match at {
            Some(i) => latest_with_role(messages@, role@) == Some(i as int) && i < messages.len(),
            None => latest_with_role(messages@, role@) is None,
        },
{
    let mut end: usize = messages.len();
    assert(messages@.take(end as int) =~= messages@);
    while end > 0
        invariant
            end <= messages.len(),
            latest_with_role(messages@, role@) == latest_with_role(
                messages@.take(end as int),
                role@,
            ),
        decreases end,
    {
        assert(messages@.take(end as int).drop_last() =~= messages@.take(end - 1));
        assert(messages@.take(end as int).last() == messages@[end - 1]);
        if same_text(messages[end - 1].role.as_str(), role) {
            return Some(end - 1);
        }
        end -= 1;
    }
    None
}

/// The question that a conversation asks: the text of the latest user
/// message, or a placeholder where no user speaks.
pub fn extract_question(messages: &Vec<ChatMessage>) -> (question: String)
    ensures
        question@ == question_of(messages@),
{
    match find_latest(messages, "user") {
        Some(i) => content_text(&messages[i].content),
        None => "No question provided".to_owned(),
    }
}

/// How far the handling of one request has come.
#[derive(Debug, Clone, Copy, PartialEq, Eq, Structural)]
pub enum RagStage {
    /// No request was taken in yet.
    Waiting,
    /// The question is being embedded.
    Embedding,
    /// The vector store is being searched.
    Searching,
    /// The payload is with the language-model backend.
    Forwarding,
    /// The request was answered, or failed.
    Finished,
}

/// The handling of one request. Requests share nothing: each has a
/// handling of its own.
#[derive(Debug)]
pub struct RagRequest {
    pub stage: RagStage,
    /// The payload as the client sent it.
    pub raw: String,
    /// The messages of the payload.
    pub messages: Vec<ChatMessage>,
}

/// What the caller reports to the handling of a request.
#[derive(Debug)]
pub enum RagEvent {
    /// A request came in: its text, and the items of its list of messages,
    /// `None` where it has no such list, or why it is no JSON document.
    Received { raw: String, messages: Result<Option<Vec<PayloadMessage>>, String> },
    /// The reply of the embedding service.
    Embedded(ServiceReply<EmbeddingResponse>),
    /// The reply of the vector store.
    Searched(ServiceReply<SearchPointsResponse>),
    /// The reply of the language-model backend.
    Answered(ServiceReply<()>),
}

/// What the handling of a request asks of the caller.
#[derive(Debug)]
pub enum RagAction {
    /// Embed the given question.
    Embed(String),
    /// Search the vector store with the given embedding.
    Search(EmbeddingVector),
    /// Send the given payload to the language-model backend.
    Forward(String),
    /// Hand the given answer to the client.
    Respond(ProxyResponse),
    /// Report the given error to the client.
    Fail(AppError),
}

impl RagRequest {
    /// Whether the handling has ended with `post`.
    pub open spec fn finishes(self, post: RagRequest) -> bool {
        post == (RagRequest { stage: RagStage::Finished, ..self })
    }

    /// What the handling makes of an event. A payload that is no JSON
    /// document is a JSON error; the items of its messages that are no
    /// messages are passed over. The question of the payload is embedded, the
    /// embedding is searched for, the context of the matches is put into the
    /// payload, the payload is forwarded, and the backend's answer is handed
    /// back. Any failure on the way ends the handling with its error; an
    /// event out of turn ends it as well.
    pub open spec fn handles(
        self,
        config: Config,
        event: RagEvent,
        post: RagRequest,
        action: RagAction,
    ) -> bool {
        match (self.stage, event) {
            (RagStage::Waiting, RagEvent::Received { raw, messages: Ok(found) }) => {
                &&& post.stage == RagStage::Embedding
                &&& post.raw == raw
                &&& shapes(post.messages@) == read_shapes(items_of(found))
                &&& sketches(post.messages@) == read_sketches(items_of(found))
                &&& action matches RagAction::Embed(question)
                &&& question@ == question_of(post.messages@)
            },
            (RagStage::Waiting, RagEvent::Received { raw, messages: Err(why) }) => {
                &&& self.finishes(post)
                &&& action == RagAction::Fail(AppError::Json(why))
            },
            (RagStage::Embedding, RagEvent::Embedded(reply)) => {
                &&& post.raw == self.raw
                &&& post.messages == self.messages
                &&& match action {
                    RagAction::Search(vector) => post.stage == RagStage::Searching && embedded(
                        reply,
                        Ok(vector),
                    ),
                    RagAction::Fail(e) => post.stage == RagStage::Finished && embedded(
                        reply,
                        Err(e),
                    ),
                    _ => false,
                }
            },
            (RagStage::Searching, RagEvent::Searched(reply)) => {
                &&& post.raw == self.raw
                &&& post.messages == self.messages
                &&& match accepted(reply) {
                    Some(body) => {
                        &&& post.stage == RagStage::Forwarding
                        &&& action matches RagAction::Forward(payload)
                        &&& payload@ == injected(self.raw@, context_of(body.result.points@))
                        &&& context_of(body.result.points@).len() > 0 ==> block_is_quoted(
                            context_of(body.result.points@),
                        )
                    },
                    None => {
                        &&& post.stage == RagStage::Finished
                        &&& action matches RagAction::Fail(e)
                        &&& failure(
                            about_collection("search in collection "@, config.qdrant.collection@),
                            reply,
                            e,
                        )
                    },
                }
            },
            (RagStage::Forwarding, RagEvent::Answered(reply)) => {
                &&& self.finishes(post)
                &&& match action {
                    RagAction::Respond(response) => handed_back(reply, Ok(response)),
                    RagAction::Fail(e) => handed_back(reply, Err(e)),
                    _ => false,
                }
            },
            _ => {
                &&& self.finishes(post)
                &&& action matches RagAction::Fail(e)
                &&& e is Unknown
                &&& e.detail() == "unexpected event"@
            },
        }
    }

    /// The handling of a request that has not come in yet.
    pub fn new() -> (request: RagRequest)
        ensures
            request.stage == RagStage::Waiting,
            request.raw@.len() == 0,
            request.messages@.len() == 0,
    {
        RagRequest { stage: RagStage::Waiting, raw: String::new(), messages: Vec::new() }
    }
}

/// Takes an event of the handling of a request and names what is to be
/// done next.
pub fn handle_rag_request(request: &mut RagRequest, config: &Config, event: RagEvent) -> (action:
    RagAction)
    ensures
        old(request).handles(*config, event, *final(request), action),
{
    match (request.stage, event) {
        (RagStage::Waiting, RagEvent::Received { raw, messages: Ok(found) }) => {
            let messages = match &found {
                Some(items) => readable_messages(items),
                None => readable_messages(&Vec::new()),
            };
            let question = extract_question(&messages);
            request.stage = RagStage::Embedding;
            request.raw = raw;
            request.messages = messages;
            RagAction::Embed(question)
        },
        (RagStage::Waiting, RagEvent::Received { raw, messages: Err(why) }) => {
            request.stage = RagStage::Finished;
            RagAction::Fail(AppError::Json(why))
        },
        (RagStage::Embedding, RagEvent::Embedded(reply)) => {
            match OllamaClient::generate_embedding(reply) {
                Ok(vector) => {
                    request.stage = RagStage::Searching;
                    RagAction::Search(vector)
                },
                Err(e) => {
                    request.stage = RagStage::Finished;
                    RagAction::Fail(e)
                },
            }
        },
        (RagStage::Searching, RagEvent::Searched(reply)) => {
            match retrieve_context(config, reply) {
                Ok(context) => {
                    let payload = inject_context(request.raw.as_str(), context.as_str());
                    request.stage = RagStage::Forwarding;
                    RagAction::Forward(payload)
                },
                Err(e) => {
                    request.stage = RagStage::Finished;
                    RagAction::Fail(e)
                },
            }
        },
        (RagStage::Forwarding, RagEvent::Answered(reply)) => {
            request.stage = RagStage::Finished;
            match handle_passthrough_request(reply) {
                Ok(response) => RagAction::Respond(response),
                Err(e) => RagAction::Fail(e),
            }
        },
        _ => {
            request.stage = RagStage::Finished;
            RagAction::Fail(AppError::Unknown("unexpected event".to_owned()))
        },
    }
}

/// A request whose search finds nothing is forwarded as the client sent
/// it.
pub proof fn lemma_no_match_forwards_unmodified(
    pre: RagRequest,
    config: Config,
    reply: ServiceReply<SearchPointsResponse>,
    post: RagRequest,
    action: RagAction,
)
    requires
        pre.stage == RagStage::Searching,
        pre.handles(config, RagEvent::Searched(reply), post, action),
        accepted(reply) matches Some(body) && context_of(body.result.points@).len() == 0,
    ensures
        action matches RagAction::Forward(payload) && payload@ == pre.raw@,
{
}

/// A request whose search fails is not forwarded: it ends with the error
/// of the search.
pub proof fn lemma_failed_search_is_not_forwarded(
    pre: RagRequest,
    config: Config,
    reply: ServiceReply<SearchPointsResponse>,
    post: RagRequest,
    action: RagAction,
)
    requires
        pre.stage == RagStage::Searching,
        pre.handles(config, RagEvent::Searched(reply), post, action),
        accepted(reply) is None,
    ensures
        action is Fail,
        post.stage == RagStage::Finished,
{
}

/// The place of the latest of `turns` with the role `role`, if there is
/// one. A turn is a role with a text.
pub open spec fn latest_turn(turns: Seq<(Seq<char>, Seq<char>)>, role: Seq<char>) -> Option<int>
    decreases turns.len(),
{
    if turns.len() == 0 {
        None
    } else if turns.last().0 == role {
        Some(turns.len() - 1)
    } else {
        latest_turn(turns.drop_last(), role)
    }
}

/// The question that `turns` ask: the text of the latest turn of the user,
/// or the placeholder where the user has none.
pub open spec fn asked(turns: Seq<(Seq<char>, Seq<char>)>) -> Seq<char> {
    match latest_turn(turns, "user"@) {
        Some(i) => turns[i].1,
        None => no_question(),
    }
}

/// The latest message of a role is found by the roles alone.
pub proof fn lemma_latest_is_read_from_sketches(messages: Seq<ChatMessage>, role: Seq<char>)
    ensures
        latest_with_role(messages, role) == latest_turn(sketches(messages), role),
        latest_with_role(messages, role) matches Some(i) ==> 0 <= i < messages.len(),
    decreases messages.len(),
{
    if messages.len() > 0 {
        assert(sketches(messages).drop_last() =~= sketches(messages.drop_last()));
        assert(sketches(messages).last() == sketch(messages.last()));
        lemma_latest_is_read_from_sketches(messages.drop_last(), role);
    }
}

/// The question depends on nothing but the roles and the texts of the
/// messages.
pub proof fn lemma_question_is_read_from_sketches(messages: Seq<ChatMessage>)
    ensures
        question_of(messages) == asked(sketches(messages)),
{
    lemma_latest_is_read_from_sketches(messages, "user"@);
}

} // verus!
