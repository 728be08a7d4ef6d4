//! Client side of the language-model backend.

use crate::http::{HttpMethod, HttpRequest};
use crate::Config;
use vstd::prelude::*;

verus! {

/// Where the backend is, and the key that it asks for.
#[derive(Debug)]
pub struct LlmClient {
    pub endpoint: String,
    pub api_key: String,
}

/// The header lines of a request to the backend: a JSON body, and the key
/// as a bearer token.
pub open spec fn bearer_lines(api_key: Seq<char>) -> Seq<(Seq<char>, Seq<char>)> {
    seq![("Content-Type"@, "application/json"@), ("Authorization"@, "Bearer "@ + api_key)]
}

impl LlmClient {
    /// The client of the backend that the configuration names.
    pub fn new(config: &Config) -> (client: LlmClient)
        ensures
            client.endpoint@ == config.llm.endpoint@,
            client.api_key@ == config.llm.api_key@,
    {
        LlmClient { endpoint: config.llm.endpoint.clone(), api_key: config.llm.api_key.clone() }
    }

    fn request(&self) -> (request: HttpRequest)
        ensures
            request.is(HttpMethod::Post, self.endpoint@, bearer_lines(self.api_key@)),
    {
        let mut request = HttpRequest::new(HttpMethod::Post, self.endpoint.clone());
        request.header("Content-Type", "application/json");
        let mut bearer = "Bearer ".to_owned();
        bearer.append(self.api_key.as_str());
        request.header("Authorization", bearer.as_str());
        assert(Seq::<(Seq<char>, Seq<char>)>::empty().push(
            ("Content-Type"@, "application/json"@),
        ).push(("Authorization"@, "Bearer "@ + self.api_key@)) =~= bearer_lines(self.api_key@));
        request
    }

    /// The request that carries a payload to the backend, and the payload
    /// as it was given.
    pub fn send_request(&self, body: String) -> (r: (HttpRequest, String))
        ensures
            r.0.is(HttpMethod::Post, self.endpoint@, bearer_lines(self.api_key@)),
            r.1 == body,
    {
        (self.request(), body)
    }

    /// The request that carries the bytes of a client's payload to the
    /// backend, and the bytes as they were given.
    pub fn forward_request(&self, body: Vec<u8>) -> (r: (HttpRequest, Vec<u8>))
        ensures
            r.0.is(HttpMethod::Post, self.endpoint@, bearer_lines(self.api_key@)),
            r.1 == body,
    {
        (self.request(), body)
    }
}

} // verus!
