//! Errors of the gateway.

use crate::text::{decimal, decimal_text};
use vstd::prelude::*;
use vstd::string::*;

verus! {

/// What can go wrong while a request is served.
#[derive(Debug, Clone, PartialEq, Eq)]
pub enum ServerError {
    /// An operation failed.
    Operation(String),
    /// The request is not acceptable.
    BadRequest(String),
    /// An MCP operation failed.
    McpOperation(String),
    /// A tool gave no content.
    McpEmptyContent,
    /// No MCP client offers the tool.
    McpNotFoundClient,
    /// A tool call failed on every attempt.
    ToolCallRetryExhausted { tool_name: String, attempts: u32, message: String },
    /// A loop took more iterations than it may.
    MaxIterationsExceeded(u32),
    /// A React loop took more seconds than it may.
    ReactTimeout(u64),
    /// A subtask took more time than it may.
    SubtaskTimeout { subtask_id: usize, timeout_secs: u64 },
    /// A subtask failed on every attempt.
    SubtaskRetryExhausted { subtask_id: usize, attempts: u32, message: String },
    /// A plan took more time than it may.
    TimeBudgetExhausted { elapsed_secs: u64 },
    /// A plan could not be read.
    PlanParseError(String),
    /// The subtasks of a plan depend on each other in a circle.
    CyclicDependency,
    /// A plan has no subtasks.
    EmptyPlan,
}

impl ServerError {
    /// The error in words.
    pub open spec fn words(self) -> Seq<char> {
        match self {
            ServerError::Operation(m) => m@,
            ServerError::BadRequest(m) => m@,
            ServerError::McpOperation(m) => "MCP operation failed: "@ + m@,
            ServerError::McpEmptyContent => "The tool returned empty content"@,
            ServerError::McpNotFoundClient => "No MCP client found for the tool"@,
            ServerError::ToolCallRetryExhausted { tool_name, attempts, message } => "Tool call '"@
                + tool_name@ + "' failed after "@ + decimal(attempts as nat) + " attempts: "@
                + message@,
            ServerError::MaxIterationsExceeded(n) => "Exceeded the maximum of "@ + decimal(
                n as nat,
            ) + " iterations"@,
            ServerError::ReactTimeout(n) => "React loop timed out after "@ + decimal(n as nat)
                + " seconds"@,
            ServerError::SubtaskTimeout { subtask_id, timeout_secs } => "Subtask "@ + decimal(
                subtask_id as nat,
            ) + " timed out after "@ + decimal(timeout_secs as nat) + " seconds"@,
            ServerError::SubtaskRetryExhausted { subtask_id, attempts, message } => "Subtask "@
                + decimal(subtask_id as nat) + " failed after "@ + decimal(attempts as nat)
                + " attempts: "@ + message@,
            ServerError::TimeBudgetExhausted { elapsed_secs } => "Time budget exhausted after "@
                + decimal(elapsed_secs as nat) + " seconds"@,
            ServerError::PlanParseError(m) => "Failed to parse the plan: "@ + m@,
            ServerError::CyclicDependency => "The plan has a cyclic dependency"@,
            ServerError::EmptyPlan => "The plan is empty"@,
        }
    }

    /// The error in words.
    pub fn message(&self) -> (r: String)
        ensures
            r@ == self.words(),
    {
        match self {
            ServerError::Operation(m) => m.clone(),
            ServerError::BadRequest(m) => m.clone(),
            ServerError::McpOperation(m) => {
                let mut r = "MCP operation failed: ".to_owned();
                r.append(m.as_str());
                r
            },
            ServerError::McpEmptyContent => "The tool returned empty content".to_owned(),
            ServerError::McpNotFoundClient => "No MCP client found for the tool".to_owned(),
            ServerError::ToolCallRetryExhausted { tool_name, attempts, message } => {
                let mut r = "Tool call '".to_owned();
                r.append(tool_name.as_str());
                r.append("' failed after ");
                r.append(decimal_text(*attempts as u64).as_str());
                r.append(" attempts: ");
                r.append(message.as_str());
                r
            },
            ServerError::MaxIterationsExceeded(n) => {
                let mut r = "Exceeded the maximum of ".to_owned();
                r.append(decimal_text(*n as u64).as_str());
                r.append(" iterations");
                r
            },
            ServerError::ReactTimeout(n) => {
                let mut r = "React loop timed out after ".to_owned();
                r.append(decimal_text(*n).as_str());
                r.append(" seconds");
                r
            },
            ServerError::SubtaskTimeout { subtask_id, timeout_secs } => {
                let mut r = "Subtask ".to_owned();
                r.append(decimal_text(*subtask_id as u64).as_str());
                r.append(" timed out after ");
                r.append(decimal_text(*timeout_secs).as_str());
                r.append(" seconds");
                r
            },
            ServerError::SubtaskRetryExhausted { subtask_id, attempts, message } => {
                let mut r = "Subtask ".to_owned();
                r.append(decimal_text(*subtask_id as u64).as_str());
                r.append(" failed after ");
                r.append(decimal_text(*attempts as u64).as_str());
                r.append(" attempts: ");
                r.append(message.as_str());
                r
            },
            ServerError::TimeBudgetExhausted { elapsed_secs } => {
                let mut r = "Time budget exhausted after ".to_owned();
                r.append(decimal_text(*elapsed_secs).as_str());
                r.append(" seconds");
                r
            },
            ServerError::PlanParseError(m) => {
                let mut r = "Failed to parse the plan: ".to_owned();
                r.append(m.as_str());
                r
            },
            ServerError::CyclicDependency => "The plan has a cyclic dependency".to_owned(),
            ServerError::EmptyPlan => "The plan is empty".to_owned(),
        }
    }

    /// `e` is an `Operation` error with the message `m`.
    pub open spec fn is_operation(self, m: Seq<char>) -> bool {
        match self {
            ServerError::Operation(t) => t@ == m,
            _ => false,
        }
    }

    /// An `Operation` error with the message `m`.
    pub fn operation(m: &str) -> (r: ServerError)
        ensures
            r.is_operation(m@),
    {
        ServerError::Operation(m.to_owned())
    }
}

} // verus!
