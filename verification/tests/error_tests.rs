use rag_rust::http::{status_is_success, HttpMethod, HttpRequest};
use rag_rust::AppError;

fn all(message: &str) -> Vec<AppError> {
    let m = || message.to_string();
    vec![
        AppError::Io(m()),
        AppError::Toml(m()),
        AppError::Reqwest(m()),
        AppError::Json(m()),
        AppError::Qdrant(m()),
        AppError::Config(m()),
        AppError::Pdf(m()),
        AppError::Docx(m()),
        AppError::Llm(m()),
        AppError::Unknown(m()),
    ]
}

#[test]
fn each_kind_has_its_status() {
    let codes: Vec<u16> = all("x").iter().map(|e| e.status_code()).collect();
    assert_eq!(codes, vec![500, 500, 502, 400, 502, 500, 500, 500, 502, 500]);
}

#[test]
fn each_kind_has_its_description() {
    let texts: Vec<String> = all("boom").iter().map(|e| e.to_string()).collect();
    assert_eq!(
        texts,
        vec![
            "IO error: boom",
            "TOML parsing error: boom",
            "Network error: boom",
            "JSON error: boom",
            "Qdrant error: boom",
            "Configuration error: boom",
            "PDF extraction error: boom",
            "DOCX extraction error: boom",
            "LLM error: boom",
            "Unknown error: boom",
        ]
    );
}

#[test]
fn the_message_is_what_the_error_carries() {
    for e in all("the detail") {
        assert_eq!(e.message(), "the detail");
    }
}

#[test]
fn a_text_becomes_an_unknown_error() {
    match AppError::from("something".to_string()) {
        AppError::Unknown(m) => assert_eq!(m, "something"),
        other => panic!("{:?}", other),
    }
}

#[test]
fn success_statuses_are_200_to_299() {
    assert!(!status_is_success(199));
    assert!(status_is_success(200));
    assert!(status_is_success(204));
    assert!(status_is_success(299));
    assert!(!status_is_success(300));
    assert!(!status_is_success(404));
    assert!(!status_is_success(0));
}

#[test]
fn header_lines_keep_their_order() {
    let mut request = HttpRequest::new(HttpMethod::Get, "http://x".to_string());
    assert!(request.headers.is_empty());
    request.header("a", "1");
    request.header("b", "2");
    assert_eq!(request.url, "http://x");
    assert_eq!(request.headers.len(), 2);
    assert_eq!(request.headers[0].name, "a");
    assert_eq!(request.headers[1].value, "2");
}
