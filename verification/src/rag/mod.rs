//! Answers that rest on retrieved text.

pub mod answer;
pub mod chunks;
pub mod context_laws;
pub mod laws;
pub mod merge;
pub mod query;
pub mod rerank;
pub mod search;
pub mod search_laws;
