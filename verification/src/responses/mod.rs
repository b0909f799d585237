//! The responses API: single answers with a session behind them.

pub mod code_interpreter;
pub mod db;
pub mod handlers;
pub mod laws;
pub mod models;
