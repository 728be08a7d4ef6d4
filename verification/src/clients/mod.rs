//! Clients of the two services beside the vector store: the language-model
//! backend and the embedding service.

pub mod llm;
pub mod ollama;
