//! Verified core of the llama-nexus gateway.

pub mod chat;
pub mod cli;
pub mod clock;
pub mod debug_text;
pub mod error;
pub mod executor;
pub mod gateway_laws;
pub mod handlers;
pub mod ids;
pub mod json;
pub mod mcp;
pub mod memory;
pub mod paths;
pub mod pattern;
pub mod rag;
pub mod responses;
pub mod single;
pub mod skills;
pub mod sorted;
pub mod sum;
pub mod text;
pub mod text_map;
pub mod upstream;
