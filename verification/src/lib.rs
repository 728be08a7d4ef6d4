//! Retrieval-augmented generation proxy: the verified core.
//!
//! The crate holds the decisions of two pipelines. The indexing pipeline
//! selects changed files, splits their text into chunks and derives the
//! content-addressed points that are written to the vector store. The query
//! pipeline extracts the user's question from a chat payload, joins the
//! retrieved passages into a context block and splices that block into the
//! raw payload text.
//!
//! Nothing here performs I/O: every function maps plain values to plain
//! values, and a caller performs the requests that the returned values
//! describe.
//!
//! - [`indexing`]: chunking, change tracking, document loading and the
//!   indexing run.
//! - [`qdrant_custom_client`]: requests to the vector store, the judgement of
//!   its replies, and content-addressed points.
//! - [`clients`]: the embedding service and the language-model backend.
//! - [`rag_proxy`]: the question of a payload, the context of a search, and
//!   the handling of one request.
//! - [`http`]: requests and replies as values.
//! - [`text`]: strings as sequences of characters.
//!
//! Numbers with a fraction (scores, thresholds, the components of an
//! embedding) are held as the bit patterns of single-precision numbers: the
//! library hands them on and never computes with them.

use vstd::prelude::*;

pub mod clients;
pub mod http;
pub mod indexing;
pub mod qdrant_custom_client;
pub mod rag_proxy;
pub mod text;

verus! {

/// The whole configuration, read once and never changed afterwards.
#[derive(Debug)]
pub struct Config {
    pub data_sources: DataSourcesConfig,
    pub indexing: IndexingConfig,
    pub rag_proxy: RagProxyConfig,
    pub llm: LlmConfig,
    pub embeddings: EmbeddingsConfig,
    pub qdrant: QdrantConfig,
}

/// Where the documents to index are found.
#[derive(Debug)]
pub struct DataSourcesConfig {
    pub path: String,
}

/// Settings of the indexing run.
#[derive(Debug)]
pub struct IndexingConfig {
    pub path: String,
    pub file_tracker_path: String,
    pub chunk_size: usize,
    pub embeddings_chunk_size: usize,
}

/// Settings of the proxy server.
#[derive(Debug)]
pub struct RagProxyConfig {
    pub port: u16,
    pub host: String,
    pub chat_completion_endpoint: String,
    /// How many characters at the end of a system text count as its
    /// fingerprint. The context goes behind the end of the system text
    /// whatever this number is: see `rag_proxy::splice`.
    pub system_message_fingerprint_length: usize,
}

/// Settings of the language-model backend.
#[derive(Debug)]
pub struct LlmConfig {
    pub endpoint: String,
    pub model: String,
    pub api_key: String,
}

/// Settings of the embedding service.
#[derive(Debug)]
pub struct EmbeddingsConfig {
    pub endpoint: String,
    pub model: String,
}

/// Settings of the vector store.
///
/// `score_threshold` is the bit pattern of a single-precision number: the
/// library hands the threshold on and never computes with it.
#[derive(Debug)]
pub struct QdrantConfig {
    pub host: String,
    pub port: u16,
    pub api_key: String,
    pub collection: String,
    pub vector_size: usize,
    pub distance: String,
    pub limit: u64,
    pub score_threshold: u32,
}

/// What can go wrong, by kind. Each variant carries the message of the
/// failure it stands for.
#[derive(Debug)]
pub enum AppError {
    /// A file could not be read or written.
    Io(String),
    /// The configuration text is not valid TOML.
    Toml(String),
    /// A request did not reach its service, or no answer came back.
    Reqwest(String),
    /// A JSON document could not be decoded or encoded.
    Json(String),
    /// The vector store refused an operation.
    Qdrant(String),
    /// The configuration holds a value that cannot be used.
    Config(String),
    /// Text could not be extracted from a PDF document.
    Pdf(String),
    /// Text could not be extracted from a DOCX document.
    Docx(String),
    /// The language-model backend failed.
    Llm(String),
    /// Anything else.
    Unknown(String),
}

/// Status of a failure inside the proxy.
pub const STATUS_INTERNAL_SERVER_ERROR: u16 = 500;

/// Status of a failure of a service behind the proxy.
pub const STATUS_BAD_GATEWAY: u16 = 502;

/// Status of a request that the client sent malformed.
pub const STATUS_BAD_REQUEST: u16 = 400;

impl AppError {
    /// The message that the error carries.
    pub open spec fn detail(self) -> Seq<char> {
        match self {
            AppError::Io(m) => m@,
            AppError::Toml(m) => m@,
            AppError::Reqwest(m) => m@,
            AppError::Json(m) => m@,
            AppError::Qdrant(m) => m@,
            AppError::Config(m) => m@,
            AppError::Pdf(m) => m@,
            AppError::Docx(m) => m@,
            AppError::Llm(m) => m@,
            AppError::Unknown(m) => m@,
        }
    }

    /// The words that name the kind of the error in its description.
    pub open spec fn label(self) -> Seq<char> {
        match self {
            AppError::Io(_) => "IO error: "@,
            AppError::Toml(_) => "TOML parsing error: "@,
            AppError::Reqwest(_) => "Network error: "@,
            AppError::Json(_) => "JSON error: "@,
            AppError::Qdrant(_) => "Qdrant error: "@,
            AppError::Config(_) => "Configuration error: "@,
            AppError::Pdf(_) => "PDF extraction error: "@,
            AppError::Docx(_) => "DOCX extraction error: "@,
            AppError::Llm(_) => "LLM error: "@,
            AppError::Unknown(_) => "Unknown error: "@,
        }
    }

    /// The HTTP status with which the proxy answers when a request ends in
    /// this error: bad gateway where a service behind the proxy failed, bad
    /// request where the client's JSON is malformed, internal error otherwise.
    pub open spec fn status(self) -> u16 {
        match self {
            AppError::Reqwest(_) => STATUS_BAD_GATEWAY,
            AppError::Qdrant(_) => STATUS_BAD_GATEWAY,
            AppError::Llm(_) => STATUS_BAD_GATEWAY,
            AppError::Json(_) => STATUS_BAD_REQUEST,
            _ => STATUS_INTERNAL_SERVER_ERROR,
        }
    }

    /// The HTTP status of the answer that reports this error.
    pub fn status_code(&self) -> (code: u16)
        ensures
            code == self.status(),
    {
        match self {
            AppError::Reqwest(_) => STATUS_BAD_GATEWAY,
            AppError::Qdrant(_) => STATUS_BAD_GATEWAY,
            AppError::Llm(_) => STATUS_BAD_GATEWAY,
            AppError::Json(_) => STATUS_BAD_REQUEST,
            _ => STATUS_INTERNAL_SERVER_ERROR,
        }
    }

    /// The message of the error, as the body of an error answer shows it.
    pub fn message(&self) -> (m: String)
        ensures
            m@ == self.detail(),
    {
        match self {
            AppError::Io(m) => m.clone(),
            AppError::Toml(m) => m.clone(),
            AppError::Reqwest(m) => m.clone(),
            AppError::Json(m) => m.clone(),
            AppError::Qdrant(m) => m.clone(),
            AppError::Config(m) => m.clone(),
            AppError::Pdf(m) => m.clone(),
            AppError::Docx(m) => m.clone(),
            AppError::Llm(m) => m.clone(),
            AppError::Unknown(m) => m.clone(),
        }
    }

    /// The description of the error: the kind, then the message.
    pub fn to_string(&self) -> (s: String)
        ensures
            s@ == self.label() + self.detail(),
    {
        let label = match self {
            AppError::Io(_) => "IO error: ",
            AppError::Toml(_) => "TOML parsing error: ",
            AppError::Reqwest(_) => "Network error: ",
            AppError::Json(_) => "JSON error: ",
            AppError::Qdrant(_) => "Qdrant error: ",
            AppError::Config(_) => "Configuration error: ",
            AppError::Pdf(_) => "PDF extraction error: ",
            AppError::Docx(_) => "DOCX extraction error: ",
            AppError::Llm(_) => "LLM error: ",
            AppError::Unknown(_) => "Unknown error: ",
        };
        let mut s = label.to_owned();
        let m = self.message();
        s.append(m.as_str());
        s
    }
}

impl From<String> for AppError {
    fn from(err: String) -> (e: AppError) {
        AppError::Unknown(err)
    }
}

impl vstd::std_specs::convert::FromSpecImpl<String> for AppError {
    open spec fn obeys_from_spec() -> bool {
        true
    }

    open spec fn from_spec(err: String) -> AppError {
        AppError::Unknown(err)
    }
}

} // verus!
