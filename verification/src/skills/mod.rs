//! Skills: instructions that a model can ask for.
//!
//! A skill is a directory with a `SKILL.md` file. The model is first told the names
//! and descriptions of the skills, and gets the whole text of one when it asks for it.

pub mod detector;
pub mod error;
pub mod injector;
pub mod laws;
pub mod loader;
pub mod parser;
pub mod registry;
pub mod types;
pub mod validator;
