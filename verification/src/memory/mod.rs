//! Memory of conversations.

pub mod laws;
pub mod manager;
pub mod summarizer;
pub mod types;
