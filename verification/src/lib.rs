//! A small retrieval-augmented generation core: a document segmenter that
//! splits loosely structured text into embeddable units, an indexing planner
//! that assigns every unit a unique point id, and the decision logic of a
//! query pipeline that resolves a matched document and builds the grounded
//! prompt for a streamed completion.
//!
//! All network I/O (embedding service, vector index, completion streaming,
//! HTTP serving) lives outside this crate; the functions here are pure and
//! carry full functional contracts.

pub mod contents;
pub mod error;
pub mod index;
pub mod laws;
pub mod lines;
pub mod query;
