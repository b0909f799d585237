//! Commands.

pub mod laws;
pub mod skill;
