//! Retrieval-augmented generation over a Qdrant vector collection: tool
//! argument checking, operator configuration, text chunking, Qdrant and
//! embeddings request building and response parsing, and the per-tool
//! orchestration of host calls.
pub mod json;
pub mod fields;
pub mod text;
pub mod error;
pub mod config;
pub mod input;
pub mod ops;
pub mod chunk;
pub mod qdrant;
pub mod listing;
pub mod host;
pub mod embed;
pub mod tool_meta;
pub mod extension;
