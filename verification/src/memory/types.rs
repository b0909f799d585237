//! What is kept of a conversation.

use crate::clock::Timestamp;
use crate::text::{lemma_lowers_once, lowered, lowers_to, same_text, to_lowercase};
use vstd::prelude::*;
use vstd::string::*;

verus! {

/// Who a message comes from.
#[derive(Debug, Clone, Copy, PartialEq, Eq, Structural)]
pub enum MessageRole {
    User,
    Assistant,
    System,
    Tool,
}

/// The role that a text in lower case names.
pub open spec fn role_named(lower: Seq<char>) -> Option<MessageRole> {
    if lower == "user"@ {
        Some(MessageRole::User)
    } else if lower == "assistant"@ {
        Some(MessageRole::Assistant)
    } else if lower == "system"@ {
        Some(MessageRole::System)
    } else if lower == "tool"@ {
        Some(MessageRole::Tool)
    } else {
        None
    }
}

impl MessageRole {
    /// The name of the role.
    pub open spec fn name(self) -> Seq<char> {
        match self {
            MessageRole::User => "user"@,
            MessageRole::Assistant => "assistant"@,
            MessageRole::System => "system"@,
            MessageRole::Tool => "tool"@,
        }
    }

    /// The name of the role.
    pub fn to_text(&self) -> (r: &'static str)
        ensures
            r@ == self.name(),
    {
        match self {
            MessageRole::User => "user",
            MessageRole::Assistant => "assistant",
            MessageRole::System => "system",
            MessageRole::Tool => "tool",
        }
    }

    /// The role that `lower`, a text in lower case, names.
    pub fn of_lowercase(lower: &str) -> (r: Option<MessageRole>)
        ensures
            r == role_named(lower@),
    {
        if same_text(lower, "user") {
            Some(MessageRole::User)
        } else if same_text(lower, "assistant") {
            Some(MessageRole::Assistant)
        } else if same_text(lower, "system") {
            Some(MessageRole::System)
        } else if same_text(lower, "tool") {
            Some(MessageRole::Tool)
        } else {
            None
        }
    }

    /// The role that a text names, in any letter case.
    pub fn from_str(s: &str) -> (r: Result<MessageRole, String>)
        ensures
            match r {
                Ok(role) => role_named(lowered(s@)) == Some(role),
                Err(m) => role_named(lowered(s@)) is None && m@ == "Invalid message role: "@ + s@,
            },
            forall|role: MessageRole|
                lowers_to(s@, #[trigger] role.name()) ==> r == Ok::<MessageRole, String>(role),
    {
        let lower = to_lowercase(s);
        proof {
            assert forall|role: MessageRole|
                lowers_to(s@, #[trigger] role.name()) implies role_named(lower@) == Some(role) by {
                lemma_lowers_once(s@, lower@, role.name());
                law_role_round_trip(role);
            }
        }
        match MessageRole::of_lowercase(lower.as_str()) {
            Some(role) => Ok(role),
            None => {
                let mut m = "Invalid message role: ".to_owned();
                m.append(s);
                Err(m)
            },
        }
    }
}

/// The name of a role is the name of that role and of no other.
pub proof fn law_role_round_trip(role: MessageRole)
    ensures
        role_named(role.name()) == Some(role),
{
    reveal_strlit("user");
    reveal_strlit("assistant");
    reveal_strlit("system");
    reveal_strlit("tool");
    assert("user"@[0] == 'u' && "assistant"@[0] == 'a' && "system"@[0] == 's' && "tool"@[0] == 't');
}

/// What a tool gave, as it is kept.
#[derive(Debug, Clone)]
pub struct StoredToolResult {
    /// The content, in JSON.
    pub content: String,
    /// Whether the call succeeded.
    pub success: bool,
    /// The error, if it failed.
    pub error: Option<String>,
    /// How long it took.
    pub execution_time_ms: Option<i64>,
    /// When it was kept.
    pub timestamp: Timestamp,
}

/// A tool call, as it is kept.
#[derive(Debug, Clone)]
pub struct StoredToolCall {
    /// Identifier of the call.
    pub id: String,
    /// Name of the function.
    pub name: String,
    /// The arguments, in JSON.
    pub arguments: String,
    /// What the tool gave, once known.
    pub result: Option<StoredToolResult>,
    /// Position among the calls of the message.
    pub sequence: i32,
}

/// A message, as it is kept.
#[derive(Debug, Clone)]
pub struct StoredMessage {
    pub id: String,
    pub conversation_id: String,
    pub role: MessageRole,
    pub content: String,
    pub timestamp: Timestamp,
    pub sequence: i64,
    pub tokens: Option<usize>,
    pub tool_calls: Vec<StoredToolCall>,
}

/// A conversation, as it is kept.
#[derive(Debug, Clone)]
pub struct StoredConversation {
    pub id: String,
    pub user_id: Option<String>,
    pub title: Option<String>,
    pub model_name: String,
    pub created_at: Timestamp,
    pub updated_at: Timestamp,
    pub message_count: i64,
    pub total_tokens: i64,
    pub summary: Option<String>,
    pub last_summary_sequence: Option<i64>,
}

/// The part of a conversation that is at hand.
#[derive(Debug, Clone)]
pub struct ContextMemory {
    pub conversation_id: String,
    pub working_messages: Vec<StoredMessage>,
    pub summary: Option<String>,
    pub total_tokens: usize,
    pub max_context_tokens: usize,
}

/// A message, as it is sent to a model.
#[derive(Debug, Clone)]
pub struct ModelMessage {
    pub role: String,
    pub content: String,
    pub tool_calls: Option<Vec<ModelToolCall>>,
    pub tool_call_id: Option<String>,
}

/// A tool call, as it is sent to a model.
#[derive(Debug, Clone)]
pub struct ModelToolCall {
    pub id: String,
    pub ty: String,
    pub function: ModelToolFunction,
}

/// The function of a tool call, as it is sent to a model.
#[derive(Debug, Clone)]
pub struct ModelToolFunction {
    pub name: String,
    pub arguments: String,
}

/// An entry in a list of conversations.
#[derive(Debug, Clone)]
pub struct ConversationSummary {
    pub id: String,
    pub user_id: Option<String>,
    pub title: Option<String>,
    pub model_name: String,
    pub message_count: i64,
    pub last_message_at: Timestamp,
    pub created_at: Timestamp,
}

/// A conversation with all its messages, for export.
#[derive(Debug, Clone)]
pub struct ConversationExport {
    pub conversation: StoredConversation,
    pub messages: Vec<StoredMessage>,
    pub export_timestamp: Timestamp,
    pub version: String,
}

/// What can go wrong in the memory.
#[derive(Debug, Clone)]
pub enum MemoryError {
    Database(String),
    Serialization(String),
    Io(String),
    ConversationNotFound(String),
    MessageNotFound(String),
    InvalidConfig(String),
    SummarizationFailed(String),
    InvalidData(String),
}

impl MemoryError {
    /// What the error's message begins with, and what it speaks of.
    pub open spec fn parts(self) -> (Seq<char>, Seq<char>) {
        match self {
            MemoryError::Database(m) => ("Database error: "@, m@),
            MemoryError::Serialization(m) => ("Serialization error: "@, m@),
            MemoryError::Io(m) => ("IO error: "@, m@),
            MemoryError::ConversationNotFound(m) => ("Conversation not found: "@, m@),
            MemoryError::MessageNotFound(m) => ("Message not found: "@, m@),
            MemoryError::InvalidConfig(m) => ("Invalid configuration: "@, m@),
            MemoryError::SummarizationFailed(m) => ("Summarization failed: "@, m@),
            MemoryError::InvalidData(m) => ("Invalid data: "@, m@),
        }
    }

    /// The error in words.
    pub fn message(&self) -> (r: String)
        ensures
            r@ == self.parts().0 + self.parts().1,
    {
        let (head, rest) = match self {
            MemoryError::Database(m) => ("Database error: ", m),
            MemoryError::Serialization(m) => ("Serialization error: ", m),
            MemoryError::Io(m) => ("IO error: ", m),
            MemoryError::ConversationNotFound(m) => ("Conversation not found: ", m),
            MemoryError::MessageNotFound(m) => ("Message not found: ", m),
            MemoryError::InvalidConfig(m) => ("Invalid configuration: ", m),
            MemoryError::SummarizationFailed(m) => ("Summarization failed: ", m),
            MemoryError::InvalidData(m) => ("Invalid data: ", m),
        };
        let mut r = head.to_owned();
        r.append(rest.as_str());
        r
    }
}

} // verus!
