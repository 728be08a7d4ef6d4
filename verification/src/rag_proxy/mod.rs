//! The query pipeline: from a chat payload to the question, from the
//! matches of the vector store to a context block, and from the block back
//! into the payload.

pub mod handler;
pub mod llm_caller;
pub mod passthrough_handler;
pub mod retriever;
pub mod splice;
