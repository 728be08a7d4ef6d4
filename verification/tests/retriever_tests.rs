use rag_rust::http::{HttpMethod, ServiceReply};
use rag_rust::qdrant_custom_client::{
    EmbeddingVector, ScoredPoint, SearchPointsPayload, SearchPointsResponse, SearchPointsResult,
};
use rag_rust::rag_proxy::retriever::{build_context, retrieve_context, search_request, store_client};
use rag_rust::{
    AppError, Config, DataSourcesConfig, EmbeddingsConfig, IndexingConfig, LlmConfig,
    QdrantConfig, RagProxyConfig,
};

fn config() -> Config {
    Config {
        data_sources: DataSourcesConfig { path: "data".to_string() },
        indexing: IndexingConfig {
            path: "data".to_string(),
            file_tracker_path: "tracker.json".to_string(),
            chunk_size: 100,
            embeddings_chunk_size: 4,
        },
        rag_proxy: RagProxyConfig {
            port: 8080,
            host: "127.0.0.1".to_string(),
            chat_completion_endpoint: "/v1/chat/completions".to_string(),
            system_message_fingerprint_length: 8,
        },
        llm: LlmConfig {
            endpoint: "http://llm/v1".to_string(),
            model: "m".to_string(),
            api_key: "k".to_string(),
        },
        embeddings: EmbeddingsConfig { endpoint: "http://e".to_string(), model: "em".to_string() },
        qdrant: QdrantConfig {
            host: "qdrant.local".to_string(),
            port: 6333,
            api_key: "key".to_string(),
            collection: "docs".to_string(),
            vector_size: 3,
            distance: "Cosine".to_string(),
            limit: 5,
            score_threshold: 0.5f32.to_bits(),
        },
    }
}

fn scored(text: Option<&str>) -> ScoredPoint {
    ScoredPoint {
        id: "id".to_string(),
        vector: None,
        payload: text
            .map(|t| SearchPointsPayload { source: "a.txt".to_string(), text: t.to_string() }),
        score: 0.9f32.to_bits(),
        version: 1,
    }
}

fn answered(points: Vec<ScoredPoint>) -> ServiceReply<SearchPointsResponse> {
    ServiceReply::Answered {
        status: 200,
        text: String::new(),
        decoded: Ok(SearchPointsResponse { result: SearchPointsResult { points } }),
    }
}

#[test]
fn no_match_gives_the_empty_context() {
    assert_eq!(build_context(&Vec::new()), "");
    assert_eq!(retrieve_context(&config(), answered(Vec::new())).unwrap(), "");
}

#[test]
fn matches_are_joined_by_a_blank_line_in_ranked_order() {
    let points = vec![scored(Some("first")), scored(Some("second")), scored(Some("third"))];
    assert_eq!(build_context(&points), "first\n\nsecond\n\nthird");
    assert_eq!(build_context(&vec![scored(Some("only"))]), "only");
}

#[test]
fn matches_without_a_payload_add_nothing() {
    let points = vec![scored(None), scored(Some("first")), scored(None), scored(Some("second"))];
    assert_eq!(build_context(&points), "first\n\nsecond");
    assert_eq!(build_context(&vec![scored(None)]), "");
}

#[test]
fn the_context_grows_with_the_matches() {
    for count in 1..6usize {
        let points: Vec<ScoredPoint> = (0..count).map(|_| scored(Some("abc"))).collect();
        assert_eq!(build_context(&points).chars().count(), 3 * count + 2 * (count - 1));
    }
    assert_eq!(build_context(&vec![scored(Some("")), scored(Some(""))]), "\n\n");
    assert_eq!(build_context(&vec![scored(Some(""))]), "");
}

#[test]
fn a_failed_search_is_an_error() {
    let reply: ServiceReply<SearchPointsResponse> =
        ServiceReply::Unreachable("connection refused".to_string());
    match retrieve_context(&config(), reply) {
        Err(AppError::Reqwest(m)) => assert_eq!(m, "connection refused"),
        other => panic!("{:?}", other),
    }
    let reply: ServiceReply<SearchPointsResponse> = ServiceReply::Answered {
        status: 200,
        text: "[]".to_string(),
        decoded: Err("missing field".to_string()),
    };
    match retrieve_context(&config(), reply) {
        Err(AppError::Qdrant(m)) => assert_eq!(
            m,
            "search in collection 'docs' returned a malformed response: missing field"
        ),
        other => panic!("{:?}", other),
    }
}

#[test]
fn the_search_uses_the_configured_values() {
    let (request, body) =
        search_request(&config(), EmbeddingVector { components: vec![1.0f32.to_bits()] });
    assert_eq!(request.method, HttpMethod::Post);
    assert_eq!(request.url, "http://qdrant.local:6333/collections/docs/points/query");
    assert_eq!(request.headers[0].name, "api-key");
    assert_eq!(request.headers[0].value, "key");
    assert_eq!(body.limit, 5);
    assert_eq!(f32::from_bits(body.score_threshold), 0.5);
    assert_eq!(body.filter, None);
    assert_eq!(body.vector.components, vec![1.0f32.to_bits()]);
}

#[test]
fn the_store_client_takes_over_the_configuration() {
    let client = store_client(&config());
    assert_eq!(client.host, "qdrant.local");
    assert_eq!(client.port, 6333);
    assert_eq!(client.api_key, "key");
    assert_eq!(client.vector_size, 3);
    assert_eq!(client.distance, "Cosine");
    assert_eq!(client.limit, 5);
}
