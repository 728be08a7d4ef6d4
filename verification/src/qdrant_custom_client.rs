//! Client side of the vector store's REST interface.
//!
//! Each operation has two halves: a function that describes the request and a
//! function that judges the reply. The points that are written carry ids
//! derived from their text, so that writing the same text again replaces the
//! point instead of adding one.

use crate::http::{is_success, status_is_success, HttpMethod, HttpRequest, ServiceReply};
use crate::indexing::chunker::Chunk;
use crate::text::{decimal, decimal_string, hex_fixed, lemma_hex_fixed_injective,
    lemma_hex_fixed_len, pow16, push_hex_fixed};
use crate::AppError;
use std::hash::{Hash, Hasher};
use vstd::prelude::*;

verus! {

/// An embedding: an ordered sequence of single-precision numbers, each held
/// as its bit pattern. The library carries embeddings and never computes
/// with them.
#[derive(Debug)]
pub struct EmbeddingVector {
    pub components: Vec<u32>,
}

impl View for EmbeddingVector {
    type V = Seq<u32>;

    open spec fn view(&self) -> Seq<u32> {
        self.components@
    }
}

/// Connection parameters and defaults of the vector store.
///
/// `score_threshold` is the bit pattern of a single-precision number.
#[derive(Debug)]
pub struct QdrantClient {
    pub host: String,
    pub port: u16,
    pub api_key: String,
    pub vector_size: u64,
    pub distance: String,
    pub limit: u64,
    pub score_threshold: u32,
}

/// Body of the answer to a health check.
#[derive(Debug)]
pub struct TelemetryResponse {
    pub status: String,
}

/// Body of the answer to an existence check.
#[derive(Debug)]
pub struct CollectionExistsResponse {
    pub result: CollectionExistsResult,
}

/// Result part of the answer to an existence check.
#[derive(Debug)]
pub struct CollectionExistsResult {
    pub exists: bool,
}

/// Body of the answer to the creation of a collection.
#[derive(Debug)]
pub struct CreateCollectionResponse {
    pub result: bool,
    pub status: String,
}

/// Parameters of the dense vectors of a collection.
#[derive(Debug)]
pub struct VectorParams {
    pub size: u64,
    pub distance: String,
}

/// Parameters of the sparse vectors of a collection.
#[derive(Debug)]
pub struct SparseVectorParams {
    pub index: SparseVectorIndex,
}

/// Index settings of sparse vectors.
#[derive(Debug)]
pub struct SparseVectorIndex {
    pub on_disk: bool,
}

/// Body of the request that creates a collection.
#[derive(Debug)]
pub struct CreateCollectionRequest {
    pub vectors: VectorParams,
}

/// Body of the request that writes points.
#[derive(Debug)]
pub struct UpsertPointsRequest {
    pub points: Vec<Point>,
}

/// Body of a similarity search. `filter`, where present, is a JSON document
/// that is handed on as it is.
#[derive(Debug)]
pub struct SearchPointsRequest {
    pub vector: EmbeddingVector,
    pub limit: u64,
    pub score_threshold: u32,
    pub filter: Option<String>,
    pub with_payload: Option<bool>,
    pub with_vector: Option<bool>,
}

/// Body of the answer to a similarity search.
#[derive(Debug)]
pub struct SearchPointsResponse {
    pub result: SearchPointsResult,
}

/// Result part of the answer to a similarity search.
#[derive(Debug)]
pub struct SearchPointsResult {
    pub points: Vec<ScoredPoint>,
}

/// What a found point says of the text it stands for.
#[derive(Debug)]
pub struct SearchPointsPayload {
    pub source: String,
    pub text: String,
}

/// One match of a similarity search. `score` is the bit pattern of a
/// single-precision number; the store has ranked the matches already.
#[derive(Debug)]
pub struct ScoredPoint {
    pub id: String,
    pub vector: Option<EmbeddingVector>,
    pub payload: Option<SearchPointsPayload>,
    pub score: u32,
    pub version: u64,
}

/// What a written point says of the chunk it stands for.
#[derive(Debug)]
pub struct PointPayload {
    pub text: String,
    pub source: String,
    pub chunk_index: usize,
}

/// A point of a collection.
#[derive(Debug)]
pub struct Point {
    pub id: String,
    pub vector: EmbeddingVector,
    pub payload: Option<PointPayload>,
}

/// The 64-bit hash that `std::collections::hash_map::DefaultHasher`, freshly
/// made, gives to a text.
pub uninterp spec fn text_hash(text: Seq<char>) -> u64;

/// Hashes `text` with a fresh `DefaultHasher`: `DefaultHasher::new`, then
/// `Hash::hash` of the text, then `Hasher::finish`. A fresh hasher has fixed
/// keys, so the result depends on the text alone.
#[verifier::external_body]
fn hash_text(text: &str) -> (h: u64)
    ensures
        h == text_hash(text@),
{
    let mut hasher = std::collections::hash_map::DefaultHasher::new();
    text.hash(&mut hasher);
    hasher.finish()
}

/// The id that stands for the hash `h`: 32 hexadecimal digits, the hash
/// padded with zeros on the left, grouped as 8-4-4-4-12.
pub open spec fn id_of_hash(h: u64) -> Seq<char> {
    "00000000-0000-0000-"@ + hex_fixed(h as nat, 16).subrange(0, 4) + "-"@ + hex_fixed(
        h as nat,
        16,
    ).subrange(4, 16)
}

/// The id of the point that stands for `text`.
pub open spec fn point_id_of(text: Seq<char>) -> Seq<char> {
    id_of_hash(text_hash(text))
}

/// Writes the hash `h` as a point id.
pub fn format_point_id(h: u64) -> (id: String)
    ensures
        id@ == id_of_hash(h),
{
    let mut digits = String::new();
    push_hex_fixed(&mut digits, h, 16);
    proof {
        lemma_hex_fixed_len(h as nat, 16);
    }
    let digit_chars = crate::text::chars_of(digits.as_str());
    let head = crate::text::string_of_range(&digit_chars, 0, 4);
    let tail = crate::text::string_of_range(&digit_chars, 4, 16);
    let mut id = "00000000-0000-0000-".to_owned();
    id.append(head.as_str());
    id.append("-");
    id.append(tail.as_str());
    id
}

/// The id of the point that stands for `text`. It depends on the text alone.
pub fn point_id(text: &str) -> (id: String)
    ensures
        id@ == point_id_of(text@),
{
    format_point_id(hash_text(text))
}

/// Different hashes have different ids.
pub proof fn lemma_id_of_hash_injective(a: u64, b: u64)
    requires
        id_of_hash(a) == id_of_hash(b),
    ensures
        a == b,
{
    reveal_strlit("00000000-0000-0000-");
    reveal_strlit("-");
    lemma_hex_fixed_len(a as nat, 16);
    lemma_hex_fixed_len(b as nat, 16);
    let ha = hex_fixed(a as nat, 16);
    let hb = hex_fixed(b as nat, 16);
    let ia = id_of_hash(a);
    let ib = id_of_hash(b);
    assert(ia.len() == 36);
    assert forall|i: int| 0 <= i < 16 implies ha[i] == hb[i] by {
        if i < 4 {
            assert(ia[19 + i] == ha.subrange(0, 4)[i]);
            assert(ib[19 + i] == hb.subrange(0, 4)[i]);
        } else {
            assert(ia[20 + i] == ha.subrange(4, 16)[i - 4]);
            assert(ib[20 + i] == hb.subrange(4, 16)[i - 4]);
        }
    }
    assert(ha =~= hb);
    assert(pow16(16) == 0x1_0000_0000_0000_0000) by {
        reveal_with_fuel(pow16, 17);
    }
    lemma_hex_fixed_injective(a as nat, b as nat, 16);
}

impl Point {
    /// Whether the point stands for the chunk `text` at place `index` of the
    /// file `source_file`, with the embedding `vector`.
    pub open spec fn stands_for(
        self,
        text: Seq<char>,
        source_file: Seq<char>,
        index: usize,
        vector: Seq<u32>,
    ) -> bool {
        &&& self.id@ == point_id_of(text)
        &&& self.vector@ == vector
        &&& self.payload matches Some(p)
        &&& p.text@ == text
        &&& p.source@ == source_file
        &&& p.chunk_index == index
    }

    /// A point from its parts.
    pub fn new(id: String, vector: EmbeddingVector, payload: Option<PointPayload>) -> (p: Point)
        ensures
            p.id == id,
            p.vector == vector,
            p.payload == payload,
    {
        Point { id, vector, payload }
    }

    /// A point from an id given as text, a vector and a payload.
    pub fn from_id_vector_payload(id: &str, vector: EmbeddingVector, payload: PointPayload) -> (p:
        Point)
        ensures
            p.id@ == id@,
            p.vector == vector,
            p.payload == Some(payload),
    {
        Point { id: id.to_owned(), vector, payload: Some(payload) }
    }

    /// The point that stands for `chunk`: its id is derived from the chunk's
    /// text, its payload names the text, the file and the place in the file.
    pub fn for_chunk(chunk: &Chunk, vector: EmbeddingVector) -> (p: Point)
        ensures
            p.stands_for(chunk.text@, chunk.source_file@, chunk.index, vector@),
            p.vector == vector,
    {
        let id = point_id(chunk.text.as_str());
        let payload = PointPayload {
            text: chunk.text.clone(),
            source: chunk.source_file.clone(),
            chunk_index: chunk.index,
        };
        Point::from_id_vector_payload(id.as_str(), vector, payload)
    }
}

/// Two points that stand for the same text have the same id, whatever file,
/// place or embedding they come with.
pub proof fn lemma_same_text_same_id(
    p: Point,
    q: Point,
    text: Seq<char>,
    file_p: Seq<char>,
    file_q: Seq<char>,
    index_p: usize,
    index_q: usize,
    vector_p: Seq<u32>,
    vector_q: Seq<u32>,
)
    requires
        p.stands_for(text, file_p, index_p, vector_p),
        q.stands_for(text, file_q, index_q, vector_q),
    ensures
        p.id@ == q.id@,
{
}

/// The message of a reply whose status is no success.
pub open spec fn refusal_message(subject: Seq<char>, status: u16, text: Seq<char>) -> Seq<char> {
    subject + " failed with status "@ + decimal(status as nat) + ": "@ + text
}

/// The message of a reply whose body could not be decoded.
pub open spec fn malformed_message(subject: Seq<char>, why: Seq<char>) -> Seq<char> {
    subject + " returned a malformed response: "@ + why
}

/// The decoded body of a reply that counts as a success: an answer with a
/// status from 200 to 299 whose body could be decoded.
pub open spec fn accepted<T>(reply: ServiceReply<T>) -> Option<T> {
    match reply {
        ServiceReply::Answered { status, text, decoded: Ok(body) } => if is_success(status) {
            Some(body)
        } else {
            None
        },
        _ => None,
    }
}

/// Whether `e` is the error of a reply that is no success. A request that
/// did not get through is a network error with the transport's message. An
/// answer with a status outside 200 to 299, or else with a body that could
/// not be decoded, is a vector-store error whose message starts with
/// `subject`.
pub open spec fn failure<T>(subject: Seq<char>, reply: ServiceReply<T>, e: AppError) -> bool {
    match reply {
        ServiceReply::Unreachable(why) => e is Reqwest && e.detail() == why@,
        ServiceReply::Answered { status, text, decoded } => {
            &&& e is Qdrant
            &&& !is_success(status) ==> e.detail() == refusal_message(subject, status, text@)
            &&& is_success(status) ==> (decoded matches Err(why) ==> e.detail()
                == malformed_message(subject, why@))
        },
    }
}

/// How a reply is judged: the decoded body where the reply is a success,
/// the error that `failure` describes where it is not.
pub open spec fn judged<T>(subject: Seq<char>, reply: ServiceReply<T>, r: Result<T, AppError>) -> bool {
    match accepted(reply) {
        Some(body) => r == Ok::<T, AppError>(body),
        None => r matches Err(e) && failure(subject, reply, e),
    }
}

/// Judges a reply of the vector store.
pub fn judge_reply<T>(subject: &str, reply: ServiceReply<T>) -> (r: Result<T, AppError>)
    ensures
        judged(subject@, reply, r),
{
    match reply {
        ServiceReply::Unreachable(why) => Err(AppError::Reqwest(why)),
        ServiceReply::Answered { status, text, decoded } => {
            if !status_is_success(status) {
                let mut m = subject.to_owned();
                m.append(" failed with status ");
                m.append(decimal_string(status as u64).as_str());
                m.append(": ");
                m.append(text.as_str());
                Err(AppError::Qdrant(m))
            } else {
                match decoded {
                    Err(why) => {
                        let mut m = subject.to_owned();
                        m.append(" returned a malformed response: ");
                        m.append(why.as_str());
                        Err(AppError::Qdrant(m))
                    },
                    Ok(body) => Ok(body),
                }
            }
        },
    }
}

/// The address of the store at `host` and `port`.
pub open spec fn store_address(host: Seq<char>, port: u16) -> Seq<char> {
    "http://"@ + host + ":"@ + decimal(port as nat)
}

/// The address of the collection `name` of the store at `host` and `port`.
pub open spec fn collection_address_at(host: Seq<char>, port: u16, name: Seq<char>) -> Seq<char> {
    store_address(host, port) + "/collections/"@ + name
}

/// The header line that carries the key `key`.
pub open spec fn keyed_lines(key: Seq<char>) -> Seq<(Seq<char>, Seq<char>)> {
    seq![("api-key"@, key)]
}

/// The header lines of a request with the key `key` and a JSON body.
pub open spec fn keyed_json_lines(key: Seq<char>) -> Seq<(Seq<char>, Seq<char>)> {
    seq![("api-key"@, key), ("Content-Type"@, "application/json"@)]
}

/// `subject`, then the collection's name in single quotes.
pub open spec fn about_collection(subject: Seq<char>, name: Seq<char>) -> Seq<char> {
    subject + "'"@ + name + "'"@
}

fn subject_of(subject: &str, name: &str) -> (s: String)
    ensures
        s@ == about_collection(subject@, name@),
{
    let mut s = subject.to_owned();
    s.append("'");
    s.append(name);
    s.append("'");
    s
}

impl QdrantClient {
    /// A client for the store at `host` and `port`.
    pub fn new(
        host: String,
        port: u16,
        api_key: String,
        vector_size: u64,
        distance: String,
        limit: u64,
        score_threshold: u32,
    ) -> (c: QdrantClient)
        ensures
            c.host == host,
            c.port == port,
            c.api_key == api_key,
            c.vector_size == vector_size,
            c.distance == distance,
            c.limit == limit,
            c.score_threshold == score_threshold,
    {
        QdrantClient { host, port, api_key, vector_size, distance, limit, score_threshold }
    }

    /// The address of the store.
    pub open spec fn base(self) -> Seq<char> {
        store_address(self.host@, self.port)
    }

    /// The address of a collection.
    pub open spec fn collection_address(self, name: Seq<char>) -> Seq<char> {
        collection_address_at(self.host@, self.port, name)
    }

    /// The header line that carries the key.
    pub open spec fn key_line(self) -> Seq<(Seq<char>, Seq<char>)> {
        keyed_lines(self.api_key@)
    }

    /// The header lines of a request with a JSON body.
    pub open spec fn json_lines(self) -> Seq<(Seq<char>, Seq<char>)> {
        keyed_json_lines(self.api_key@)
    }

    fn base_url(&self) -> (url: String)
        ensures
            url@ == self.base(),
    {
        let mut url = "http://".to_owned();
        url.append(self.host.as_str());
        url.append(":");
        url.append(decimal_string(self.port as u64).as_str());
        url
    }

    fn collection_url(&self, name: &str) -> (url: String)
        ensures
            url@ == self.collection_address(name@),
    {
        let mut url = self.base_url();
        url.append("/collections/");
        url.append(name);
        url
    }

    fn keyed(&self, method: HttpMethod, url: String) -> (r: HttpRequest)
        ensures
            r.is(method, url@, self.key_line()),
    {
        let mut r = HttpRequest::new(method, url);
        r.header("api-key", self.api_key.as_str());
        assert(Seq::<(Seq<char>, Seq<char>)>::empty().push(("api-key"@, self.api_key@))
            =~= self.key_line());
        r
    }

    fn keyed_json(&self, method: HttpMethod, url: String) -> (r: HttpRequest)
        ensures
            r.is(method, url@, self.json_lines()),
    {
        let mut r = self.keyed(method, url);
        r.header("Content-Type", "application/json");
        assert(self.key_line().push(("Content-Type"@, "application/json"@))
            =~= self.json_lines());
        r
    }

    /// The request that asks whether the store is up.
    pub fn health_check_request(&self) -> (r: HttpRequest)
        ensures
            r.is(HttpMethod::Get, self.base() + "/telemetry"@, self.key_line()),
    {
        let mut url = self.base_url();
        url.append("/telemetry");
        self.keyed(HttpMethod::Get, url)
    }

    /// Judges the reply to a health check.
    pub fn health_check(reply: ServiceReply<TelemetryResponse>) -> (r: Result<
        TelemetryResponse,
        AppError,
    >)
        ensures
            judged("health check"@, reply, r),
    {
        judge_reply("health check", reply)
    }

    /// The request that asks whether a collection exists.
    pub fn collection_exists_request(&self, collection_name: &str) -> (r: HttpRequest)
        ensures
            r.is(
                HttpMethod::Get,
                self.collection_address(collection_name@) + "/exists"@,
                self.key_line(),
            ),
    {
        let mut url = self.collection_url(collection_name);
        url.append("/exists");
        self.keyed(HttpMethod::Get, url)
    }

    /// Judges the reply to an existence check: whether the collection exists.
    pub fn collection_exists(
        collection_name: &str,
        reply: ServiceReply<CollectionExistsResponse>,
    ) -> (r: Result<bool, AppError>)
        ensures
            match accepted(reply) {
                Some(body) => r == Ok::<bool, AppError>(body.result.exists),
                None => r matches Err(e) && failure(
                    about_collection("existence check of collection "@, collection_name@),
                    reply,
                    e,
                ),
            },
    {
        let subject = subject_of("existence check of collection ", collection_name);
        match judge_reply(subject.as_str(), reply) {
            Ok(body) => Ok(body.result.exists),
            Err(e) => Err(e),
        }
    }

    /// The request that creates a collection, and its body: dense vectors of
    /// the client's size and distance.
    pub fn create_collection_request(&self, collection_name: &str) -> (r: (
        HttpRequest,
        CreateCollectionRequest,
    ))
        ensures
            r.0.is(HttpMethod::Put, self.collection_address(collection_name@), self.json_lines()),
            r.1.vectors.size == self.vector_size,
            r.1.vectors.distance@ == self.distance@,
    {
        let url = self.collection_url(collection_name);
        let body = CreateCollectionRequest {
            vectors: VectorParams { size: self.vector_size, distance: self.distance.clone() },
        };
        (self.keyed_json(HttpMethod::Put, url), body)
    }

    /// Judges the reply to the creation of a collection: whether the store
    /// says that it created it.
    pub fn create_collection(
        collection_name: &str,
        reply: ServiceReply<CreateCollectionResponse>,
    ) -> (r: Result<bool, AppError>)
        ensures
            match accepted(reply) {
                Some(body) => r == Ok::<bool, AppError>(body.result),
                None => r matches Err(e) && failure(
                    about_collection("creation of collection "@, collection_name@),
                    reply,
                    e,
                ),
            },
    {
        let subject = subject_of("creation of collection ", collection_name);
        match judge_reply(subject.as_str(), reply) {
            Ok(body) => Ok(body.result),
            Err(e) => Err(e),
        }
    }

    /// The request that deletes a collection.
    pub fn delete_collection_request(&self, collection_name: &str) -> (r: HttpRequest)
        ensures
            r.is(HttpMethod::Delete, self.collection_address(collection_name@), self.key_line()),
    {
        let url = self.collection_url(collection_name);
        self.keyed(HttpMethod::Delete, url)
    }

    /// Judges the reply to the deletion of a collection: any success status
    /// means that the collection is gone.
    pub fn delete_collection(collection_name: &str, reply: ServiceReply<()>) -> (r: Result<
        bool,
        AppError,
    >)
        ensures
            match accepted(reply) {
                Some(_) => r == Ok::<bool, AppError>(true),
                None => r matches Err(e) && failure(
                    about_collection("deletion of collection "@, collection_name@),
                    reply,
                    e,
                ),
            },
    {
        let subject = subject_of("deletion of collection ", collection_name);
        match judge_reply(subject.as_str(), reply) {
            Ok(_) => Ok(true),
            Err(e) => Err(e),
        }
    }

    /// The request that writes `points`, and its body. Writing no point is
    /// done without a request: the result is then `None`.
    pub fn upsert_points_request(&self, collection_name: &str, points: Vec<Point>) -> (r: Option<
        (HttpRequest, UpsertPointsRequest),
    >)
        ensures
            points@.len() == 0 <==> r is None,
            r matches Some(pair) ==> {
                &&& pair.0.is(
                    HttpMethod::Put,
                    self.collection_address(collection_name@) + "/points"@,
                    self.json_lines(),
                )
                &&& pair.1.points == points
            },
    {
        if points.len() == 0 {
            None
        } else {
            let mut url = self.collection_url(collection_name);
            url.append("/points");
            Some((self.keyed_json(HttpMethod::Put, url), UpsertPointsRequest { points }))
        }
    }

    /// Judges the reply to a write of points; `None` stands for a write of
    /// no points, for which no request was sent and which succeeds. The body
    /// of an answer is not read: any success status means that the points
    /// were taken.
    pub fn upsert_points(collection_name: &str, reply: Option<ServiceReply<()>>) -> (r: Result<
        bool,
        AppError,
    >)
        ensures
            match reply {
                None => r == Ok::<bool, AppError>(true),
                Some(answer) => match accepted(answer) {
                    Some(_) => r == Ok::<bool, AppError>(true),
                    None => r matches Err(e) && failure(
                        about_collection("upsert into collection "@, collection_name@),
                        answer,
                        e,
                    ),
                },
            },
    {
        match reply {
            None => Ok(true),
            Some(answer) => {
                let subject = subject_of("upsert into collection ", collection_name);
                match judge_reply(subject.as_str(), answer) {
                    Ok(_) => Ok(true),
                    Err(e) => Err(e),
                }
            },
        }
    }

    /// The request that searches a collection for the neighbours of
    /// `question_vector`, and its body. Payloads are asked for, vectors are
    /// not.
    pub fn search_points_request(
        &self,
        collection_name: &str,
        question_vector: EmbeddingVector,
        limit: u64,
        score_threshold: u32,
        filter: Option<String>,
    ) -> (r: (HttpRequest, SearchPointsRequest))
        ensures
            r.0.is(
                HttpMethod::Post,
                self.collection_address(collection_name@) + "/points/query"@,
                self.json_lines(),
            ),
            r.1.vector == question_vector,
            r.1.limit == limit,
            r.1.score_threshold == score_threshold,
            r.1.filter == filter,
            r.1.with_payload == Some(true),
            r.1.with_vector == Some(false),
    {
        let mut url = self.collection_url(collection_name);
        url.append("/points/query");
        let body = SearchPointsRequest {
            vector: question_vector,
            limit,
            score_threshold,
            filter,
            with_payload: Some(true),
            with_vector: Some(false),
        };
        (self.keyed_json(HttpMethod::Post, url), body)
    }

    /// Judges the reply to a search: the matches, in the order in which the
    /// store ranked them.
    pub fn search_points(
        collection_name: &str,
        reply: ServiceReply<SearchPointsResponse>,
    ) -> (r: Result<Vec<ScoredPoint>, AppError>)
        ensures
            match accepted(reply) {
                Some(body) => r == Ok::<Vec<ScoredPoint>, AppError>(body.result.points),
                None => r matches Err(e) && failure(
                    about_collection("search in collection "@, collection_name@),
                    reply,
                    e,
                ),
            },
    {
        let subject = subject_of("search in collection ", collection_name);
        match judge_reply(subject.as_str(), reply) {
            Ok(body) => Ok(body.result.points),
            Err(e) => Err(e),
        }
    }
}

} // verus!
