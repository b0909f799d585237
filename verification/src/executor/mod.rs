//! Execution of scripts.

pub mod docker;
pub mod laws;
pub mod types;
