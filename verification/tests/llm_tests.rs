use rag_rust::clients::llm::LlmClient;
use rag_rust::clients::ollama::{EmbeddingResponse, OllamaClient};
use rag_rust::http::{HttpMethod, HttpRequest, ServiceReply};
use rag_rust::qdrant_custom_client::EmbeddingVector;
use rag_rust::rag_proxy::llm_caller::{call_llm, reply_text, Choices, JsonField, LlmReply};
use rag_rust::rag_proxy::passthrough_handler::{
    answer_of, answer_with, handle_passthrough_request, ContentType, MessageContent,
};
use rag_rust::{
    AppError, Config, DataSourcesConfig, EmbeddingsConfig, IndexingConfig, LlmConfig,
    QdrantConfig, RagProxyConfig,
};

fn config() -> Config {
    Config {
        data_sources: DataSourcesConfig { path: "data".to_string() },
        indexing: IndexingConfig {
            path: "data".to_string(),
            file_tracker_path: "tracker.json".to_string(),
            chunk_size: 100,
            embeddings_chunk_size: 4,
        },
        rag_proxy: RagProxyConfig {
            port: 8080,
            host: "127.0.0.1".to_string(),
            chat_completion_endpoint: "/v1/chat/completions".to_string(),
            system_message_fingerprint_length: 8,
        },
        llm: LlmConfig {
            endpoint: "http://llm/v1/chat".to_string(),
            model: "big".to_string(),
            api_key: "token".to_string(),
        },
        embeddings: EmbeddingsConfig {
            endpoint: "http://ollama:11434".to_string(),
            model: "embedder".to_string(),
        },
        qdrant: QdrantConfig {
            host: "localhost".to_string(),
            port: 6333,
            api_key: "key".to_string(),
            collection: "docs".to_string(),
            vector_size: 3,
            distance: "Cosine".to_string(),
            limit: 5,
            score_threshold: 0,
        },
    }
}

fn lines(request: &HttpRequest) -> Vec<(String, String)> {
    request.headers.iter().map(|h| (h.name.clone(), h.value.clone())).collect()
}

fn text(value: &str) -> JsonField {
    JsonField::Text(value.to_string())
}

fn reply(choices: Choices, content: JsonField, message_content: JsonField) -> LlmReply {
    LlmReply { choices, content, message_content }
}

#[test]
fn the_first_choice_gives_the_text() {
    let choices = Choices::First { message_content: text("from message"), content: text("own") };
    assert_eq!(
        reply_text(&reply(choices, text("top"), text("top message"))),
        "from message"
    );
    let choices = Choices::First { message_content: JsonField::Absent, content: text("own") };
    assert_eq!(reply_text(&reply(choices, JsonField::Absent, JsonField::Absent)), "own");
}

#[test]
fn a_content_that_is_no_string_gives_the_placeholder() {
    let choices = Choices::First { message_content: JsonField::Other, content: text("own") };
    assert_eq!(
        reply_text(&reply(choices, JsonField::Absent, JsonField::Absent)),
        "No response content"
    );
    let choices = Choices::First { message_content: JsonField::Absent, content: JsonField::Absent };
    assert_eq!(reply_text(&reply(choices, text("top"), JsonField::Absent)), "No response content");
    assert_eq!(
        reply_text(&reply(Choices::Absent, JsonField::Other, text("message"))),
        "No response content"
    );
}

#[test]
fn choices_without_items_give_their_own_placeholder() {
    assert_eq!(
        reply_text(&reply(Choices::Empty, text("top"), text("message"))),
        "No response choices"
    );
}

#[test]
fn without_choices_the_answer_itself_gives_the_text() {
    assert_eq!(reply_text(&reply(Choices::Absent, text("top"), text("message"))), "top");
    assert_eq!(
        reply_text(&reply(Choices::Absent, JsonField::Absent, text("message"))),
        "message"
    );
    assert_eq!(
        reply_text(&reply(Choices::Absent, JsonField::Absent, JsonField::Absent)),
        "No response content"
    );
    assert_eq!(
        reply_text(&reply(Choices::Absent, JsonField::Absent, JsonField::Other)),
        "No response content"
    );
}

#[test]
fn a_prompt_becomes_one_user_message() {
    let request = call_llm("big", "Why?");
    assert_eq!(request.model, "big");
    assert_eq!(request.stream, Some(false));
    assert_eq!(request.messages.len(), 1);
    assert_eq!(request.messages[0].role, "user");
    match &request.messages[0].content {
        MessageContent::Text(t) => assert_eq!(t, "Why?"),
        other => panic!("{:?}", other),
    }
}

#[test]
fn requests_to_the_backend_carry_the_key() {
    let client = LlmClient::new(&config());
    assert_eq!(client.endpoint, "http://llm/v1/chat");
    let expected = vec![
        ("Content-Type".to_string(), "application/json".to_string()),
        ("Authorization".to_string(), "Bearer token".to_string()),
    ];
    let (request, body) = client.send_request("{\"a\":1}".to_string());
    assert_eq!(request.method, HttpMethod::Post);
    assert_eq!(request.url, "http://llm/v1/chat");
    assert_eq!(lines(&request), expected);
    assert_eq!(body, "{\"a\":1}");
    let (request, body) = client.forward_request(vec![1, 2, 3]);
    assert_eq!(request.method, HttpMethod::Post);
    assert_eq!(request.url, "http://llm/v1/chat");
    assert_eq!(lines(&request), expected);
    assert_eq!(body, vec![1, 2, 3]);
}

#[test]
fn a_json_body_is_handed_back_as_json() {
    let response = answer_of("{\"choices\":[{\"message\":{\"content\":\"hi\"}}]}".to_string());
    assert_eq!(response.content_type, ContentType::Json);
    assert_eq!(response.body, "{\"choices\":[{\"message\":{\"content\":\"hi\"}}]}");
    assert_eq!(answer_of("  [1, 2]  ".to_string()).content_type, ContentType::Json);
    assert_eq!(answer_of("\"text\"".to_string()).content_type, ContentType::Json);
}

#[test]
fn any_other_body_is_handed_back_as_plain_text() {
    for body in ["upstream timed out", "", "{", "{\"a\":1} trailing", "<html></html>"] {
        let response = answer_of(body.to_string());
        assert_eq!(response.content_type, ContentType::PlainText, "{:?}", body);
        assert_eq!(response.body, body);
    }
}

#[test]
fn the_content_type_follows_the_flag() {
    assert_eq!(answer_with("x".to_string(), true).content_type, ContentType::Json);
    assert_eq!(answer_with("x".to_string(), false).content_type, ContentType::PlainText);
    assert_eq!(ContentType::Json.as_header(), "application/json");
    assert_eq!(ContentType::PlainText.as_header(), "text/plain");
}

#[test]
fn the_backends_answer_is_handed_back_whatever_its_status() {
    let reply =
        ServiceReply::Answered { status: 500, text: "oops".to_string(), decoded: Ok(()) };
    let response = handle_passthrough_request(reply).unwrap();
    assert_eq!(response.content_type, ContentType::PlainText);
    assert_eq!(response.body, "oops");
    let reply = ServiceReply::Answered { status: 200, text: "{}".to_string(), decoded: Ok(()) };
    let response = handle_passthrough_request(reply).unwrap();
    assert_eq!(response.content_type, ContentType::Json);
}

#[test]
fn an_unreachable_backend_is_a_gateway_error() {
    match handle_passthrough_request(ServiceReply::Unreachable("refused".to_string())) {
        Err(e) => {
            assert_eq!(e.status_code(), 502);
            assert_eq!(e.to_string(), "Network error: refused");
        }
        Ok(other) => panic!("{:?}", other),
    }
}

#[test]
fn one_text_is_embedded_per_request() {
    let client = OllamaClient::new(&config());
    let (request, body) = client.embedding_request("a chunk");
    assert_eq!(request.method, HttpMethod::Post);
    assert_eq!(request.url, "http://ollama:11434/api/embeddings");
    assert_eq!(
        lines(&request),
        vec![("Content-Type".to_string(), "application/json".to_string())]
    );
    assert_eq!(body.model, "embedder");
    assert_eq!(body.prompt, "a chunk");
}

#[test]
fn an_embedding_reply_is_judged() {
    let good = ServiceReply::Answered {
        status: 200,
        text: String::new(),
        decoded: Ok(EmbeddingResponse {
            embedding: EmbeddingVector { components: vec![0.25f32.to_bits()] },
        }),
    };
    assert_eq!(
        OllamaClient::generate_embedding(good).unwrap().components,
        vec![0.25f32.to_bits()]
    );
    let refused: ServiceReply<EmbeddingResponse> = ServiceReply::Answered {
        status: 404,
        text: "model not found".to_string(),
        decoded: Err("x".to_string()),
    };
    match OllamaClient::generate_embedding(refused) {
        Err(e @ AppError::Llm(_)) => {
            assert_eq!(e.message(), "Ollama API error: 404 - model not found");
            assert_eq!(e.status_code(), 502);
        }
        other => panic!("{:?}", other),
    }
    let malformed: ServiceReply<EmbeddingResponse> = ServiceReply::Answered {
        status: 200,
        text: "{}".to_string(),
        decoded: Err("missing field `embedding`".to_string()),
    };
    match OllamaClient::generate_embedding(malformed) {
        Err(AppError::Json(m)) => assert_eq!(m, "missing field `embedding`"),
        other => panic!("{:?}", other),
    }
    let unreachable: ServiceReply<EmbeddingResponse> =
        ServiceReply::Unreachable("refused".to_string());
    match OllamaClient::generate_embedding(unreachable) {
        Err(AppError::Reqwest(m)) => assert_eq!(m, "refused"),
        other => panic!("{:?}", other),
    }
}
