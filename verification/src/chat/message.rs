//! Messages exchanged with a language model.

use vstd::prelude::*;
use vstd::string::*;

verus! {

/// A call of a function that the model asks for.
#[derive(Debug, Clone)]
pub struct ToolCall {
    /// Identifier of the call.
    pub id: String,
    /// Kind of the call, `function` throughout.
    pub ty: String,
    /// Name of the function.
    pub name: String,
    /// Arguments of the function, in JSON.
    pub arguments: String,
}

impl ToolCall {
    /// The same call again.
    pub fn copy(&self) -> (r: ToolCall)
        ensures
            r == *self,
    {
        ToolCall {
            id: self.id.clone(),
            ty: self.ty.clone(),
            name: self.name.clone(),
            arguments: self.arguments.clone(),
        }
    }
}

/// The calls `v`, once more.
pub fn copy_calls(v: &Vec<ToolCall>, n: usize) -> (r: Vec<ToolCall>)
    requires
        n <= v@.len(),
    ensures
        r@ == v@.take(n as int),
{
    let mut r: Vec<ToolCall> = Vec::new();
    let mut i: usize = 0;
    while i < n
        invariant
            i <= n <= v@.len(),
            r@ == v@.take(i as int),
        decreases n - i,
    {
        r.push(v[i].copy());
        assert(v@.take(i + 1) =~= v@.take(i as int).push(v@[i as int]));
        i = i + 1;
    }
    r
}

/// What a user says: a text, or parts of which each has a JSON text where it
/// can be written in JSON.
#[derive(Debug, Clone)]
pub enum UserContent {
    Text(String),
    Parts(Vec<Option<String>>),
}

/// A message of a chat.
#[derive(Debug, Clone)]
pub enum ChatMessage {
    /// What the model is to be like.
    System { content: String, name: Option<String> },
    /// What the user says.
    User { content: UserContent, name: Option<String> },
    /// What the developer of the application says.
    Developer { content: String, name: Option<String> },
    /// What the model answered.
    Assistant {
        content: Option<String>,
        name: Option<String>,
        tool_calls: Option<Vec<ToolCall>>,
    },
    /// What a tool gave.
    Tool { content: String, tool_call_id: String },
}

impl ChatMessage {
    /// A system message with the text `t` and no name.
    pub open spec fn is_system(self, t: Seq<char>) -> bool {
        match self {
            ChatMessage::System { content, name } => content@ == t && name is None,
            _ => false,
        }
    }

    /// A user message with the text `t` and no name.
    pub open spec fn is_user_text(self, t: Seq<char>) -> bool {
        match self {
            ChatMessage::User { content: UserContent::Text(s), name } => s@ == t && name is None,
            _ => false,
        }
    }

    /// An assistant message with this content, these calls and no name.
    pub open spec fn is_assistant(self, c: Option<String>, calls: Seq<ToolCall>) -> bool {
        match self {
            ChatMessage::Assistant { content, name, tool_calls: Some(v) } => content == c && name
                is None && v@ == calls,
            _ => false,
        }
    }

    /// A tool message with the text `t` in answer to the call `id`.
    pub open spec fn is_tool(self, t: Seq<char>, id: Seq<char>) -> bool {
        match self {
            ChatMessage::Tool { content, tool_call_id } => content@ == t && tool_call_id@ == id,
            _ => false,
        }
    }

    /// A system message.
    pub fn system(content: String) -> (r: ChatMessage)
        ensures
            r.is_system(content@),
    {
        ChatMessage::System { content, name: None }
    }

    /// A user message.
    pub fn user(content: String) -> (r: ChatMessage)
        ensures
            r.is_user_text(content@),
    {
        ChatMessage::User { content: UserContent::Text(content), name: None }
    }
}

/// A tool that the model may call.
#[derive(Debug, Clone)]
pub struct ToolSpec {
    /// Name of the function.
    pub name: String,
    /// What it does.
    pub description: Option<String>,
    /// What arguments it takes, as a JSON schema.
    pub parameters: Option<String>,
}

impl ToolSpec {
    /// The same tool again.
    pub fn copy(&self) -> (r: ToolSpec)
        ensures
            r == *self,
    {
        ToolSpec {
            name: self.name.clone(),
            description: copy_opt(&self.description),
            parameters: copy_opt(&self.parameters),
        }
    }
}

/// The same text again.
pub fn copy_opt(s: &Option<String>) -> (r: Option<String>)
    ensures
        r == *s,
{
    match s {
        Some(t) => Some(t.clone()),
        None => None,
    }
}

/// How the model may call tools.
#[derive(Debug, Clone)]
pub enum ToolMode {
    /// Not at all.
    Off,
    /// As it sees fit.
    Auto,
    /// It has to.
    Required,
    /// It has to call this one.
    Named(String),
}

/// A request for a chat.
#[derive(Debug, Clone)]
pub struct ChatRequest {
    /// The model.
    pub model: Option<String>,
    /// The messages so far.
    pub messages: Vec<ChatMessage>,
    /// Whether the answer is to be sent bit by bit.
    pub stream: Option<bool>,
    /// Who asks.
    pub user: Option<String>,
    /// The tools that may be called.
    pub tools: Option<Vec<ToolSpec>>,
    /// How they may be called.
    pub tool_choice: Option<ToolMode>,
}

/// The answer of a model.
#[derive(Debug, Clone)]
pub struct Completion {
    /// The text, if any.
    pub content: Option<String>,
    /// The calls that the model asks for.
    pub tool_calls: Vec<ToolCall>,
    /// Tokens in the request.
    pub prompt_tokens: u64,
    /// Tokens in the answer.
    pub completion_tokens: u64,
}

/// One piece of what a tool gave.
#[derive(Debug, Clone)]
pub enum ToolContent {
    /// A text.
    Text(String),
    /// Something else.
    Other,
}

/// What a tool gave.
#[derive(Debug, Clone)]
pub struct ToolReply {
    /// Whether the tool reports an error.
    pub is_error: Option<bool>,
    /// What the tool gave, piece by piece.
    pub content: Vec<ToolContent>,
}

} // verus!
