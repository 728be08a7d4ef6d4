use rag_rust::clients::ollama::EmbeddingResponse;
use rag_rust::http::ServiceReply;
use rag_rust::qdrant_custom_client::{
    EmbeddingVector, ScoredPoint, SearchPointsPayload, SearchPointsResponse, SearchPointsResult,
};
use rag_rust::rag_proxy::handler::{
    content_text, extract_question, find_latest, handle_rag_request, readable_messages,
    RagAction, RagEvent, RagRequest, RagStage,
};
use rag_rust::rag_proxy::passthrough_handler::{
    ChatMessage, ContentPart, ContentType, MessageContent, PayloadContent, PayloadMessage,
    PayloadPart,
};
use rag_rust::{
    AppError, Config, DataSourcesConfig, EmbeddingsConfig, IndexingConfig, LlmConfig,
    QdrantConfig, RagProxyConfig,
};

fn message(role: &str, text: &str) -> ChatMessage {
    ChatMessage { role: role.to_string(), content: MessageContent::Text(text.to_string()) }
}

fn item(role: &str, text: &str) -> PayloadMessage {
    PayloadMessage {
        role: Some(role.to_string()),
        content: PayloadContent::Text(text.to_string()),
    }
}

fn part(kind: &str, text: Option<&str>) -> ContentPart {
    ContentPart { kind: kind.to_string(), text: text.map(|t| t.to_string()) }
}

fn config() -> Config {
    Config {
        data_sources: DataSourcesConfig { path: "data".to_string() },
        indexing: IndexingConfig {
            path: "data".to_string(),
            file_tracker_path: "tracker.json".to_string(),
            chunk_size: 100,
            embeddings_chunk_size: 4,
        },
        rag_proxy: RagProxyConfig {
            port: 8080,
            host: "127.0.0.1".to_string(),
            chat_completion_endpoint: "/v1/chat/completions".to_string(),
            system_message_fingerprint_length: 8,
        },
        llm: LlmConfig {
            endpoint: "http://llm/v1".to_string(),
            model: "m".to_string(),
            api_key: "k".to_string(),
        },
        embeddings: EmbeddingsConfig { endpoint: "http://e".to_string(), model: "em".to_string() },
        qdrant: QdrantConfig {
            host: "localhost".to_string(),
            port: 6333,
            api_key: "key".to_string(),
            collection: "docs".to_string(),
            vector_size: 3,
            distance: "Cosine".to_string(),
            limit: 5,
            score_threshold: 0.5f32.to_bits(),
        },
    }
}

fn found(texts: &[&str]) -> ServiceReply<SearchPointsResponse> {
    let points = texts
        .iter()
        .map(|t| ScoredPoint {
            id: "id".to_string(),
            vector: None,
            payload: Some(SearchPointsPayload {
                source: "a.txt".to_string(),
                text: t.to_string(),
            }),
            score: 0.9f32.to_bits(),
            version: 1,
        })
        .collect();
    ServiceReply::Answered {
        status: 200,
        text: String::new(),
        decoded: Ok(SearchPointsResponse { result: SearchPointsResult { points } }),
    }
}

#[test]
fn the_question_is_the_latest_user_message() {
    let messages = vec![
        message("system", "You are helpful."),
        message("user", "first question"),
        message("assistant", "an answer"),
        message("user", "second question"),
        message("assistant", "another answer"),
    ];
    assert_eq!(extract_question(&messages), "second question");
}

#[test]
fn without_a_user_message_the_question_is_a_placeholder() {
    assert_eq!(extract_question(&Vec::new()), "No question provided");
    assert_eq!(extract_question(&vec![message("system", "s")]), "No question provided");
}

#[test]
fn text_parts_are_concatenated() {
    let content = MessageContent::Parts(vec![part("text", Some("a")), part("text", Some("b"))]);
    assert_eq!(content_text(&content), "ab");
    let content = MessageContent::Parts(vec![
        part("text", Some("What is ")),
        part("image_url", Some("ignored")),
        part("text", None),
        part("text", Some("this?")),
    ]);
    assert_eq!(content_text(&content), "What is this?");
    assert_eq!(content_text(&MessageContent::Parts(Vec::new())), "");
    let messages = vec![ChatMessage { role: "user".to_string(), content }];
    assert_eq!(extract_question(&messages), "What is this?");
}

#[test]
fn the_latest_message_of_a_role_is_found() {
    let messages = vec![message("system", "a"), message("user", "b"), message("system", "c")];
    assert_eq!(find_latest(&messages, "system"), Some(2));
    assert_eq!(find_latest(&messages, "user"), Some(1));
    assert_eq!(find_latest(&messages, "assistant"), None);
}

#[test]
fn a_request_is_handled_step_by_step() {
    let config = config();
    let raw = r#"{"messages":[{"role":"system","content":"You are helpful."},{"role":"user","content":"Where is Paris?"}]}"#;
    let messages = vec![item("system", "You are helpful."), item("user", "Where is Paris?")];
    let mut request = RagRequest::new();
    assert_eq!(request.stage, RagStage::Waiting);
    let action = handle_rag_request(&mut request, &config,
        RagEvent::Received { raw: raw.to_string(), messages: Ok(Some(messages)) },
    );
    match action {
        RagAction::Embed(question) => assert_eq!(question, "Where is Paris?"),
        other => panic!("{:?}", other),
    }
    assert_eq!(request.stage, RagStage::Embedding);
    let reply = ServiceReply::Answered {
        status: 200,
        text: String::new(),
        decoded: Ok(EmbeddingResponse {
            embedding: EmbeddingVector { components: vec![1.0f32.to_bits()] },
        }),
    };
    match handle_rag_request(&mut request, &config, RagEvent::Embedded(reply)) {
        RagAction::Search(vector) => assert_eq!(vector.components, vec![1.0f32.to_bits()]),
        other => panic!("{:?}", other),
    }
    assert_eq!(request.stage, RagStage::Searching);
    let action = handle_rag_request(&mut request, &config,
        RagEvent::Searched(found(&["Paris is the capital of France.", "Paris is on the Seine."])),
    );
    match action {
        RagAction::Forward(payload) => assert_eq!(
            payload,
            r#"{"messages":[{"role":"system","content":"You are helpful.--- Context from: RAG ---\nParis is the capital of France.\n\nParis is on the Seine."},{"role":"user","content":"Where is Paris?"}]}"#
        ),
        other => panic!("{:?}", other),
    }
    assert_eq!(request.stage, RagStage::Forwarding);
    let reply = ServiceReply::Answered {
        status: 200,
        text: r#"{"choices":[]}"#.to_string(),
        decoded: Ok(()),
    };
    match handle_rag_request(&mut request, &config, RagEvent::Answered(reply)) {
        RagAction::Respond(response) => {
            assert_eq!(response.content_type, ContentType::Json);
            assert_eq!(response.body, r#"{"choices":[]}"#);
        }
        other => panic!("{:?}", other),
    }
    assert_eq!(request.stage, RagStage::Finished);
}

#[test]
fn a_request_without_matches_is_forwarded_as_it_came() {
    let config = config();
    let raw = r#"{"messages":[{"role":"user","content":"q"}]}"#;
    let mut request = RagRequest::new();
    handle_rag_request(&mut request, &config,
        RagEvent::Received { raw: raw.to_string(), messages: Ok(Some(vec![item("user", "q")])) },
    );
    let reply = ServiceReply::Answered {
        status: 200,
        text: String::new(),
        decoded: Ok(EmbeddingResponse { embedding: EmbeddingVector { components: vec![] } }),
    };
    handle_rag_request(&mut request, &config, RagEvent::Embedded(reply));
    match handle_rag_request(&mut request, &config, RagEvent::Searched(found(&[]))) {
        RagAction::Forward(payload) => assert_eq!(payload, raw),
        other => panic!("{:?}", other),
    }
}

#[test]
fn a_malformed_request_is_a_json_error() {
    let mut request = RagRequest::new();
    let action = handle_rag_request(&mut request, &config(),
        RagEvent::Received { raw: "{".to_string(), messages: Err("EOF while parsing".to_string()) },
    );
    match action {
        RagAction::Fail(e) => {
            assert_eq!(e.status_code(), 400);
            assert_eq!(e.message(), "EOF while parsing");
        }
        other => panic!("{:?}", other),
    }
    assert_eq!(request.stage, RagStage::Finished);
}

#[test]
fn a_failing_embedding_is_not_covered_up() {
    let config = config();
    let mut request = RagRequest::new();
    handle_rag_request(&mut request, &config,
        RagEvent::Received { raw: "{}".to_string(), messages: Ok(None) },
    );
    let reply: ServiceReply<EmbeddingResponse> =
        ServiceReply::Unreachable("connection refused".to_string());
    match handle_rag_request(&mut request, &config, RagEvent::Embedded(reply)) {
        RagAction::Fail(AppError::Reqwest(m)) => assert_eq!(m, "connection refused"),
        other => panic!("{:?}", other),
    }
    assert_eq!(request.stage, RagStage::Finished);
}

#[test]
fn a_failing_search_ends_the_request() {
    let config = config();
    let mut request = RagRequest::new();
    handle_rag_request(&mut request, &config,
        RagEvent::Received { raw: "{}".to_string(), messages: Ok(None) },
    );
    let reply = ServiceReply::Answered {
        status: 200,
        text: String::new(),
        decoded: Ok(EmbeddingResponse { embedding: EmbeddingVector { components: vec![] } }),
    };
    handle_rag_request(&mut request, &config, RagEvent::Embedded(reply));
    let reply: ServiceReply<SearchPointsResponse> =
        ServiceReply::Answered { status: 500, text: "boom".to_string(), decoded: Err("x".into()) };
    match handle_rag_request(&mut request, &config, RagEvent::Searched(reply)) {
        RagAction::Fail(AppError::Qdrant(m)) => {
            assert_eq!(m, "search in collection 'docs' failed with status 500: boom")
        }
        other => panic!("{:?}", other),
    }
}

#[test]
fn an_event_out_of_turn_ends_the_request() {
    let mut request = RagRequest::new();
    match handle_rag_request(&mut request, &config(), RagEvent::Searched(found(&["x"]))) {
        RagAction::Fail(AppError::Unknown(m)) => assert_eq!(m, "unexpected event"),
        other => panic!("{:?}", other),
    }
    assert_eq!(request.stage, RagStage::Finished);
}

#[test]
fn items_that_are_no_messages_are_passed_over() {
    let items = vec![
        item("system", "rules"),
        PayloadMessage { role: None, content: PayloadContent::Text("no role".to_string()) },
        PayloadMessage { role: Some("user".to_string()), content: PayloadContent::Other },
        PayloadMessage {
            role: Some("user".to_string()),
            content: PayloadContent::Parts(vec![
                PayloadPart { kind: Some("text".to_string()), text: Some("a".to_string()) },
                PayloadPart { kind: None, text: Some("untyped".to_string()) },
                PayloadPart { kind: Some("image_url".to_string()), text: None },
                PayloadPart { kind: Some("text".to_string()), text: Some("b".to_string()) },
            ]),
        },
    ];
    let messages = readable_messages(&items);
    assert_eq!(messages.len(), 2);
    assert_eq!(messages[0].role, "system");
    assert_eq!(content_text(&messages[0].content), "rules");
    assert_eq!(messages[1].role, "user");
    assert_eq!(content_text(&messages[1].content), "ab");
    assert_eq!(extract_question(&messages), "ab");
    assert!(readable_messages(&Vec::new()).is_empty());
}

#[test]
fn the_question_of_a_request_is_made_of_its_text_parts() {
    let mut request = RagRequest::new();
    let parts = PayloadContent::Parts(vec![
        PayloadPart { kind: Some("text".to_string()), text: Some("a".to_string()) },
        PayloadPart { kind: Some("text".to_string()), text: Some("b".to_string()) },
    ]);
    let items = vec![PayloadMessage { role: Some("user".to_string()), content: parts }];
    let received = RagEvent::Received { raw: "{}".to_string(), messages: Ok(Some(items)) };
    match handle_rag_request(&mut request, &config(), received) {
        RagAction::Embed(question) => assert_eq!(question, "ab"),
        other => panic!("{:?}", other),
    }
}

#[test]
fn a_request_without_a_system_message_gets_one_in_front() {
    let config = config();
    let raw = r#"{ "model" : "m", "messages" : [ {"role": "user", "content": "q"} ] }"#;
    let mut request = RagRequest::new();
    let received =
        RagEvent::Received { raw: raw.to_string(), messages: Ok(Some(vec![item("user", "q")])) };
    handle_rag_request(&mut request, &config, received);
    let reply = ServiceReply::Answered {
        status: 200,
        text: String::new(),
        decoded: Ok(EmbeddingResponse { embedding: EmbeddingVector { components: vec![] } }),
    };
    handle_rag_request(&mut request, &config, RagEvent::Embedded(reply));
    match handle_rag_request(&mut request, &config, RagEvent::Searched(found(&["c"]))) {
        RagAction::Forward(payload) => {
            assert_eq!(
                payload,
                r#"{ "model" : "m", "messages" : [{"role":"system","content":"--- Context from: RAG ---\nc"}, {"role": "user", "content": "q"} ] }"#
            );
            let value: serde_json::Value = serde_json::from_str(&payload).unwrap();
            let list = value["messages"].as_array().unwrap();
            assert_eq!(list.len(), 2);
            assert_eq!(list[0]["role"], serde_json::Value::String("system".to_string()));
            assert_eq!(
                list[0]["content"],
                serde_json::Value::String("--- Context from: RAG ---\nc".to_string())
            );
            assert_eq!(list[1]["content"], serde_json::Value::String("q".to_string()));
        }
        other => panic!("{:?}", other),
    }
}
