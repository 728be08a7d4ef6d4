//! Requests and replies as plain values.
//!
//! The library describes each request that a pipeline needs and judges each
//! reply; sending and receiving are left to the caller.

use vstd::prelude::*;

verus! {

/// The verb of a request.
#[derive(Debug, Clone, Copy, PartialEq, Eq, Structural)]
pub enum HttpMethod {
    Get,
    Put,
    Post,
    Delete,
}

/// One header line of a request.
#[derive(Debug)]
pub struct Header {
    pub name: String,
    pub value: String,
}

/// A request without its body.
#[derive(Debug)]
pub struct HttpRequest {
    pub method: HttpMethod,
    pub url: String,
    pub headers: Vec<Header>,
}

/// What came of one request to a service. `T` is the decoded body.
#[derive(Debug)]
pub enum ServiceReply<T> {
    /// The request could not be sent, or no answer arrived.
    Unreachable(String),
    /// An answer arrived.
    Answered {
        /// The status of the answer.
        status: u16,
        /// The body as text.
        text: String,
        /// The body decoded, or why it could not be decoded.
        decoded: Result<T, String>,
    },
}

/// Whether `status` is one of the success statuses, 200 to 299.
pub open spec fn is_success(status: u16) -> bool {
    200 <= status <= 299
}

/// Whether `status` reports success.
pub fn status_is_success(status: u16) -> (ok: bool)
    ensures
        ok == is_success(status),
{
    200 <= status && status <= 299
}

/// The names and values of `headers`, as texts.
pub open spec fn header_lines(headers: Seq<Header>) -> Seq<(Seq<char>, Seq<char>)> {
    headers.map_values(|h: Header| (h.name@, h.value@))
}

impl HttpRequest {
    /// Whether the request has the given verb, address and header lines.
    pub open spec fn is(
        self,
        method: HttpMethod,
        url: Seq<char>,
        headers: Seq<(Seq<char>, Seq<char>)>,
    ) -> bool {
        &&& self.method == method
        &&& self.url@ == url
        &&& header_lines(self.headers@) == headers
    }

    /// A request with no header lines yet.
    pub fn new(method: HttpMethod, url: String) -> (r: HttpRequest)
        ensures
            r.is(method, url@, Seq::empty()),
    {
        let r = HttpRequest { method, url, headers: Vec::new() };
        assert(header_lines(r.headers@) =~= Seq::empty());
        r
    }

    /// Adds one header line after those already present.
    pub fn header(&mut self, name: &str, value: &str)
        ensures
            final(self).method == old(self).method,
            final(self).url == old(self).url,
            header_lines(final(self).headers@) == header_lines(old(self).headers@).push(
                (name@, value@),
            ),
    {
        self.headers.push(Header { name: name.to_owned(), value: value.to_owned() });
        assert(header_lines(self.headers@) =~= header_lines(old(self).headers@).push(
            (name@, value@),
        ));
    }
}

} // verus!
