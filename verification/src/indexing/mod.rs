//! The indexing pipeline: loading, chunking, change tracking and the run
//! that ties them to the embedding service and the vector store.

pub mod chunker;
pub mod file_tracker;
pub mod indexer;
pub mod loader;
