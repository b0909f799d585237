//! Chat processing.

pub mod chat_laws;
pub mod message;
pub mod normal;
pub mod plan;
pub mod plan_laws;
pub mod planner;
pub mod react;
pub mod subtask;
pub mod subtask_laws;
pub mod trace;
pub mod utils;
pub mod xml_laws;
pub mod xml_parser;
