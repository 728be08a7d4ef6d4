//! Client side of the embedding service.

use crate::http::{is_success, status_is_success, HttpMethod, HttpRequest, ServiceReply};
use crate::qdrant_custom_client::EmbeddingVector;
use crate::text::{decimal, decimal_string};
use crate::{AppError, Config};
use vstd::prelude::*;

verus! {

/// Where the embedding service is, and the model that embeds.
#[derive(Debug)]
pub struct OllamaClient {
    pub base_url: String,
    pub model: String,
}

/// Body of the request for one embedding.
#[derive(Debug)]
pub struct EmbeddingRequest {
    pub model: String,
    pub prompt: String,
}

/// Body of the answer to a request for one embedding.
#[derive(Debug)]
pub struct EmbeddingResponse {
    pub embedding: EmbeddingVector,
}

/// The message of an answer of the embedding service whose status is no
/// success: the status, then the body.
pub open spec fn api_error_message(status: u16, text: Seq<char>) -> Seq<char> {
    "Ollama API error: "@ + decimal(status as nat) + " - "@ + text
}

/// Whether `r` is what the reply to a request for an embedding comes to. A
/// request that did not get through is a network error. An answer with a
/// status outside 200 to 299 is an error of the service behind the proxy
/// that carries the status and the body. An answer whose body is no embedding is a JSON error. Otherwise the
/// embedding is the result.
pub open spec fn embedded(reply: ServiceReply<EmbeddingResponse>, r: Result<
    EmbeddingVector,
    AppError,
>) -> bool {
    match reply {
        ServiceReply::Unreachable(why) => r matches Err(e) && e == AppError::Reqwest(why),
        ServiceReply::Answered { status, text, decoded } => if !is_success(status) {
            r matches Err(e) && e is Llm && e.detail() == api_error_message(status, text@)
        } else {
            match decoded {
                Err(why) => r matches Err(e) && e == AppError::Json(why),
                Ok(body) => r == Ok::<EmbeddingVector, AppError>(body.embedding),
            }
        },
    }
}

impl OllamaClient {
    /// The client of the embedding service that the configuration names.
    pub fn new(config: &Config) -> (client: OllamaClient)
        ensures
            client.base_url@ == config.embeddings.endpoint@,
            client.model@ == config.embeddings.model@,
    {
        OllamaClient {
            base_url: config.embeddings.endpoint.clone(),
            model: config.embeddings.model.clone(),
        }
    }

    /// The request for the embedding of `prompt`, and its body. One text is
    /// embedded per request.
    pub fn embedding_request(&self, prompt: &str) -> (r: (HttpRequest, EmbeddingRequest))
        ensures
            r.0.is(
                HttpMethod::Post,
                self.base_url@ + "/api/embeddings"@,
                seq![("Content-Type"@, "application/json"@)],
            ),
            r.1.model@ == self.model@,
            r.1.prompt@ == prompt@,
    {
        let mut url = self.base_url.clone();
        url.append("/api/embeddings");
        let mut request = HttpRequest::new(HttpMethod::Post, url);
        request.header("Content-Type", "application/json");
        assert(Seq::<(Seq<char>, Seq<char>)>::empty().push(
            ("Content-Type"@, "application/json"@),
        ) =~= seq![("Content-Type"@, "application/json"@)]);
        (request, EmbeddingRequest { model: self.model.clone(), prompt: prompt.to_owned() })
    }

    /// Judges the reply to a request for an embedding.
    pub fn generate_embedding(reply: ServiceReply<EmbeddingResponse>) -> (r: Result<
        EmbeddingVector,
        AppError,
    >)
        ensures
            embedded(reply, r),
    {
        match reply {
            ServiceReply::Unreachable(why) => Err(AppError::Reqwest(why)),
            ServiceReply::Answered { status, text, decoded } => {
                if !status_is_success(status) {
                    let mut m = "Ollama API error: ".to_owned();
                    m.append(decimal_string(status as u64).as_str());
                    m.append(" - ");
                    m.append(text.as_str());
                    Err(AppError::Llm(m))
                } else {
                    match decoded {
                        Err(why) => Err(AppError::Json(why)),
                        Ok(body) => Ok(body.embedding),
                    }
                }
            },
        }
    }
}

} // verus!
