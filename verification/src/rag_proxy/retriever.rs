//! From the matches of a similarity search to the context block.

use crate::http::{HttpMethod, HttpRequest, ServiceReply};
use crate::qdrant_custom_client::{accepted, about_collection, collection_address_at, failure,
    keyed_json_lines, EmbeddingVector,
    QdrantClient, ScoredPoint, SearchPointsRequest, SearchPointsResponse};
use crate::text::{join, join_strings, lemma_join_len, texts, total_len};
use crate::{AppError, Config};
use vstd::prelude::*;

verus! {

/// The texts of the matches that have a payload, in ranked order.
pub open spec fn passages(results: Seq<ScoredPoint>) -> Seq<Seq<char>>
    decreases results.len(),
{
    if results.len() == 0 {
        Seq::empty()
    } else {
        match results.last().payload {
            Some(payload) => passages(results.drop_last()).push(payload.text@),
            None => passages(results.drop_last()),
        }
    }
}

/// The context made of `results`: the passages, with a blank line between
/// neighbours.
pub open spec fn context_of(results: Seq<ScoredPoint>) -> Seq<char> {
    join(passages(results), "\n\n"@)
}

/// Joins the texts of the matches into one context, in ranked order, with a
/// blank line between neighbours. No match gives the empty context.
pub fn build_context(results: &Vec<ScoredPoint>) -> (context: String)
    ensures
        context@ == context_of(results@),
{
    let mut found: Vec<String> = Vec::new();
    let mut i: usize = 0;
    assert(results@.take(0) =~= Seq::<ScoredPoint>::empty());
    assert(texts(found@) =~= Seq::<Seq<char>>::empty());
    while i < results.len()
        invariant
            i <= results.len(),
            texts(found@) == passages(results@.take(i as int)),
        decreases results.len() - i,
    {
        assert(results@.take(i + 1).drop_last() =~= results@.take(i as int));
        assert(results@.take(i + 1).last() == results@[i as int]);
        let ghost before = texts(found@);
        match &results[i].payload {
            Some(payload) => {
                found.push(payload.text.clone());
                assert(texts(found@) =~= before.push(payload.text@));
            },
            None => {},
        }
        i += 1;
    }
    assert(results@.take(results.len() as int) =~= results@);
    join_strings(&found, "\n\n")
}

/// The client of the vector store that the configuration describes.
pub fn store_client(config: &Config) -> (client: QdrantClient)
    ensures
        client.host@ == config.qdrant.host@,
        client.port == config.qdrant.port,
        client.api_key@ == config.qdrant.api_key@,
        client.vector_size == config.qdrant.vector_size as u64,
        client.distance@ == config.qdrant.distance@,
        client.limit == config.qdrant.limit,
        client.score_threshold == config.qdrant.score_threshold,
{
    QdrantClient::new(
        config.qdrant.host.clone(),
        config.qdrant.port,
        config.qdrant.api_key.clone(),
        config.qdrant.vector_size as u64,
        config.qdrant.distance.clone(),
        config.qdrant.limit,
        config.qdrant.score_threshold,
    )
}

/// The search for the neighbours of the question's embedding: in the
/// configured collection, with the configured limit and threshold, without
/// a filter.
pub fn search_request(config: &Config, question_embedding: EmbeddingVector) -> (r: (
    HttpRequest,
    SearchPointsRequest,
))
    ensures
        r.0.is(
            HttpMethod::Post,
            collection_address_at(
                config.qdrant.host@,
                config.qdrant.port,
                config.qdrant.collection@,
            ) + "/points/query"@,
            keyed_json_lines(config.qdrant.api_key@),
        ),
        r.1.vector == question_embedding,
        r.1.limit == config.qdrant.limit,
        r.1.score_threshold == config.qdrant.score_threshold,
        r.1.filter is None,
        r.1.with_payload == Some(true),
        r.1.with_vector == Some(false),
{
    let client = store_client(config);
    client.search_points_request(
        config.qdrant.collection.as_str(),
        question_embedding,
        config.qdrant.limit,
        config.qdrant.score_threshold,
        None,
    )
}

/// Makes the context of the reply to a search. A search that failed is an
/// error: no context is made up in its place. A search without matches gives
/// the empty context.
pub fn retrieve_context(config: &Config, reply: ServiceReply<SearchPointsResponse>) -> (r: Result<
    String,
    AppError,
>)
    ensures
        match accepted(reply) {
            Some(body) => r matches Ok(context) && context@ == context_of(body.result.points@),
            None => r matches Err(e) && failure(
                about_collection("search in collection "@, config.qdrant.collection@),
                reply,
                e,
            ),
        },
{
    match QdrantClient::search_points(config.qdrant.collection.as_str(), reply) {
        Ok(points) => Ok(build_context(&points)),
        Err(e) => Err(e),
    }
}

/// Without a passage the context is empty. With passages it is as long as
/// the passages together and two characters between each pair of
/// neighbours.
pub proof fn lemma_context_len(results: Seq<ScoredPoint>)
    ensures
        passages(results).len() == 0 ==> context_of(results).len() == 0,
        passages(results).len() > 0 ==> context_of(results).len() == total_len(passages(results))
            + 2 * (passages(results).len() - 1),
{
    reveal_strlit("\n\n");
    lemma_join_len(passages(results), "\n\n"@);
    assert((passages(results).len() - 1) * 2 == 2 * (passages(results).len() - 1));
}

/// A search without matches gives the empty context; two passages or more,
/// or one passage that is not empty, give a context that is not empty.
pub proof fn lemma_context_empty_or_not(results: Seq<ScoredPoint>)
    ensures
        results.len() == 0 ==> context_of(results).len() == 0,
        passages(results).len() >= 2 ==> context_of(results).len() > 0,
        passages(results).len() == 1 && passages(results)[0].len() > 0 ==> context_of(
            results,
        ).len() > 0,
{
    lemma_context_len(results);
}

} // verus!
