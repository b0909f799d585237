//! What the execution of a script takes and gives.

use crate::clock::Elapsed;
use vstd::prelude::*;
use vstd::string::*;

verus! {

/// What can go wrong when a script is executed.
#[derive(Debug, Clone)]
pub enum ExecutionError {
    /// There is no such script.
    ScriptNotFound(String),
    /// The configuration does not allow it.
    ConfigError(String),
    /// What runs scripts is not there: its name, and why.
    ExecutorUnavailable(String, String),
    /// What runs scripts failed: its name, and how.
    Runtime(String, String),
}

impl ExecutionError {
    /// This is a failure of `executor` with the message `m`.
    pub open spec fn is_runtime(self, executor: Seq<char>, m: Seq<char>) -> bool {
        match self {
            ExecutionError::Runtime(e, t) => e@ == executor && t@ == m,
            _ => false,
        }
    }

    /// A failure of `executor` with the message `m`.
    pub fn runtime(executor: &str, m: String) -> (r: ExecutionError)
        ensures
            r.is_runtime(executor@, m@),
    {
        ExecutionError::Runtime(executor.to_owned(), m)
    }

    /// The error in words.
    pub open spec fn words(self) -> Seq<char> {
        match self {
            ExecutionError::ScriptNotFound(p) => "Script not found: "@ + p@,
            ExecutionError::ConfigError(m) => "Configuration error: "@ + m@,
            ExecutionError::ExecutorUnavailable(e, m) => "Executor '"@ + e@ + "' unavailable: "@
                + m@,
            ExecutionError::Runtime(e, m) => "Executor '"@ + e@ + "' failed: "@ + m@,
        }
    }

    /// The error in words.
    pub fn message(&self) -> (r: String)
        ensures
            r@ == self.words(),
    {
        match self {
            ExecutionError::ScriptNotFound(p) => {
                let mut r = "Script not found: ".to_owned();
                r.append(p.as_str());
                r
            },
            ExecutionError::ConfigError(m) => {
                let mut r = "Configuration error: ".to_owned();
                r.append(m.as_str());
                r
            },
            ExecutionError::ExecutorUnavailable(e, m) => {
                let mut r = "Executor '".to_owned();
                r.append(e.as_str());
                r.append("' unavailable: ");
                r.append(m.as_str());
                r
            },
            ExecutionError::Runtime(e, m) => {
                let mut r = "Executor '".to_owned();
                r.append(e.as_str());
                r.append("' failed: ");
                r.append(m.as_str());
                r
            },
        }
    }
}

/// What a script may use.
#[derive(Debug, Clone, Copy)]
pub struct ResourceLimits {
    /// The most time.
    pub timeout: Elapsed,
    /// The most memory.
    pub max_memory_bytes: u64,
    /// Whether it may use the network.
    pub network_access: bool,
}

/// What a script gave.
#[derive(Debug, Clone)]
pub struct ScriptOutput {
    pub stdout: String,
    pub stderr: String,
    pub exit_code: i32,
    pub duration: Elapsed,
    pub timed_out: bool,
}

} // verus!
