//! Normal mode: one request to the model, and where it asks for a tool, the tool's
//! result in a second one.

use super::message::{ChatMessage, ChatRequest, Completion, ToolCall, ToolContent, ToolMode, ToolReply};
use super::plan::{are_answer_chunks, number_chunks, AnswerChunk};
use super::subtask::{split_tool_name, tool_and_server};
use super::utils::{chunks_from, gen_chunks_with_formatting};
use crate::error::ServerError;
use crate::mcp::{tool_result_text, tool_text, McpService};
use crate::memory::types::{ModelMessage, ModelToolCall};
use crate::pattern::opt_text;
use crate::text::same_text;
use crate::text_map::TextMap;
use vstd::prelude::*;
use vstd::string::*;

verus! {

// ---------------------------------------------------------------------------
// The first request
// ---------------------------------------------------------------------------

/// Makes a request ready: the messages of the memory take the place of its own,
/// where there are any, and the answer is asked for in one piece. Says whether the
/// client wants it bit by bit.
pub fn begin_chat(request: &mut ChatRequest, context: Option<Vec<ChatMessage>>) -> (r: bool)
    ensures
        r == (old(request).stream == Some(true)),
        *final(request) == (ChatRequest {
            messages: match context {
                Some(m) => m,
                None => old(request).messages,
            },
            stream: if r {
                Some(false)
            } else {
                old(request).stream
            },
            ..*old(request)
        }),
{
    if let Some(messages) = context {
        request.messages = messages;
    }
    let stream = match request.stream {
        Some(b) => b,
        None => false,
    };
    if stream {
        request.stream = Some(false);
    }
    stream
}

/// What the model's answer asks for.
#[derive(Debug, Clone)]
pub enum NormalStep {
    /// To call this tool of this server.
    CallTool { call: ToolCall, tool: String, server: String },
    /// To answer with this text.
    Answer(String),
    /// Nothing that can be done.
    Reject(ServerError),
}

/// The text of an answer, empty where there is none.
pub open spec fn text_or_empty(content: Option<String>) -> Seq<char> {
    match content {
        Some(c) => c@,
        None => Seq::empty(),
    }
}

/// The text of an answer, empty where there is none.
pub fn answer_text(content: &Option<String>) -> (r: String)
    ensures
        r@ == text_or_empty(*content),
{
    match content {
        Some(c) => c.clone(),
        None => String::new(),
    }
}

/// What the model's answer asks for: of its tool calls, the first one.
pub fn read_completion(completion: &Completion) -> (r: NormalStep)
    ensures
        if completion.tool_calls@.len() == 0 {
            r matches NormalStep::Answer(t) && t@ == text_or_empty(completion.content)
        } else {
            let first = completion.tool_calls@[0];
            match tool_and_server(first.name@) {
                Some((t, s)) => r matches NormalStep::CallTool { call, tool, server } && call
                    == first && tool@ == t && server@ == s,
                None => r matches NormalStep::Reject(e) && e.is_operation(
                    "The tool call '"@ + first.name@ + "' is not supported."@,
                ),
            }
        },
{
    if completion.tool_calls.len() == 0 {
        return NormalStep::Answer(answer_text(&completion.content));
    }
    let call = completion.tool_calls[0].copy();
    match split_tool_name(call.name.as_str()) {
        Some((tool, server)) => NormalStep::CallTool { call, tool, server },
        None => {
            let mut m = "The tool call '".to_owned();
            m.append(call.name.as_str());
            m.append("' is not supported.");
            NormalStep::Reject(ServerError::Operation(m))
        },
    }
}

// ---------------------------------------------------------------------------
// The tool
// ---------------------------------------------------------------------------

/// The service of the server, among those that the gateway is connected to.
pub open spec fn known_service(server: Seq<char>, services: Option<&TextMap<McpService>>) -> Option<
    McpService,
> {
    match services {
        Some(s) => if s@.dom().contains(server) {
            Some(s@[server])
        } else {
            None
        },
        None => None,
    }
}

/// The server has no service, and `e` says why: there are none, or it is not among them.
pub open spec fn no_service(server: Seq<char>, services: Option<&TextMap<McpService>>, e: ServerError) -> bool {
    match services {
        None => e matches ServerError::McpOperation(m) && m@ == "Empty MCP CLIENTS"@,
        Some(_) => e matches ServerError::McpOperation(m) && m@
            == "Not found mcp client connected with "@ + server + " mcp server"@,
    }
}

/// The service of the server, among those that the gateway is connected to.
pub fn find_mcp_service<'a>(server: &str, services: Option<&'a TextMap<McpService>>) -> (r: Result<
    &'a McpService,
    ServerError,
>)
    ensures
        match r {
            Ok(service) => known_service(server@, services) == Some(*service),
            Err(e) => known_service(server@, services) is None && no_service(server@, services, e),
        },
{
    match services {
        None => Err(ServerError::McpOperation("Empty MCP CLIENTS".to_owned())),
        Some(s) => match s.get(server) {
            Some(service) => Ok(service),
            None => {
                let mut m = "Not found mcp client connected with ".to_owned();
                m.append(server);
                m.append(" mcp server");
                Err(ServerError::McpOperation(m))
            },
        },
    }
}

/// `r` is what is made of a tool's reply: a failed call, a reported error (or no
/// word that there was none), no content, content that is not text, or the text.
pub open spec fn reply_told(
    reply: Result<ToolReply, String>,
    tool: Seq<char>,
    server: Seq<char>,
    fallback: Seq<char>,
    r: Result<String, ServerError>,
) -> bool {
    match reply {
        Err(e) => r matches Err(x) && x.is_operation(e@),
        Ok(t) => if t.is_error != Some(false) {
            r matches Err(x) && x.is_operation("Failed to call the tool: "@ + tool)
        } else if t.content@.len() == 0 {
            r == Err::<String, ServerError>(ServerError::McpEmptyContent)
        } else {
            match t.content@[0] {
                ToolContent::Text(s) => r matches Ok(x) && x@ == tool_text(server, fallback, s@),
                ToolContent::Other => r matches Err(x) && x.is_operation(
                    "Only text content is supported for tool call results"@,
                ),
            }
        },
    }
}

/// What the model is told of a tool's reply.
pub fn tool_reply_text(
    reply: Result<ToolReply, String>,
    tool: &str,
    server: &str,
    service: &McpService,
) -> (r: Result<String, ServerError>)
    ensures
        reply_told(reply, tool@, server@, service.fallback(), r),
{
    match reply {
        Err(e) => Err(ServerError::Operation(e)),
        Ok(t) => {
            let fine = match t.is_error {
                Some(b) => !b,
                None => false,
            };
            if !fine {
                let mut m = "Failed to call the tool: ".to_owned();
                m.append(tool);
                return Err(ServerError::Operation(m));
            }
            if t.content.len() == 0 {
                return Err(ServerError::McpEmptyContent);
            }
            match &t.content[0] {
                ToolContent::Text(s) => Ok(tool_result_text(server, service, s.as_str())),
                ToolContent::Other => Err(
                    ServerError::operation("Only text content is supported for tool call results"),
                ),
            }
        },
    }
}

/// `after` is the request `before` with a call and its result behind the messages.
pub open spec fn is_continued(before: ChatRequest, call: ToolCall, content: Seq<char>, after: ChatRequest) -> bool {
    let n = before.messages@.len() as int;
    &&& after.messages@.len() == n + 2
    &&& after.messages@.take(n) == before.messages@
    &&& after.messages@[n].is_assistant(None, seq![call])
    &&& after.messages@.last().is_tool(content, call.id@)
}

/// Makes the second request: with a memory its messages, without one the call and
/// its result behind the messages so far. Tools are off now, where they were spoken of.
pub fn continue_chat(
    request: &mut ChatRequest,
    context: Option<Vec<ChatMessage>>,
    call: &ToolCall,
    content: &String,
)
    ensures
        match context {
            Some(m) => final(request).messages == m,
            None => {
                let n = old(request).messages@.len();
                &&& final(request).messages@.len() == n + 2
                &&& final(request).messages@.take(n as int) == old(request).messages@
                &&& final(request).messages@[n as int].is_assistant(None, seq![*call])
                &&& final(request).messages@.last().is_tool(content@, call.id@)
            },
        },
        *final(request) == (ChatRequest {
            messages: final(request).messages,
            tool_choice: match old(request).tool_choice {
                Some(_) => Some(ToolMode::Off),
                None => None,
            },
            ..*old(request)
        }),
        context is None ==> is_continued(*old(request), *call, content@, *final(request)),
{
    match context {
        Some(messages) => {
            request.messages = messages;
        },
        None => {
            let mut calls: Vec<ToolCall> = Vec::new();
            calls.push(call.copy());
            assert(calls@ =~= seq![*call]);
            request.messages.push(
                ChatMessage::Assistant { content: None, name: None, tool_calls: Some(calls) },
            );
            request.messages.push(
                ChatMessage::Tool { content: content.clone(), tool_call_id: call.id.clone() },
            );
            assert(request.messages@.take(old(request).messages@.len() as int) =~= old(
                request,
            ).messages@);
        },
    }
    if request.tool_choice.is_some() {
        request.tool_choice = Some(ToolMode::Off);
    }
}

// ---------------------------------------------------------------------------
// The answer
// ---------------------------------------------------------------------------

/// The pieces in which an answer is sent bit by bit, of about ten characters.
pub fn stream_chunks(text: &str) -> (r: Vec<AnswerChunk>)
    ensures
        are_answer_chunks(chunks_from(text@, 0, 10), r@),
{
    number_chunks(gen_chunks_with_formatting(text, 10))
}

/// How an answer is delivered to the client.
#[derive(Debug, Clone)]
pub enum Delivery {
    /// Bit by bit, in these pieces.
    Stream(Vec<AnswerChunk>),
    /// In one piece, as the gateway read it.
    Whole,
    /// As it came: its status, its body, and the headers that are passed.
    PassThrough,
}

/// What is to be done after the model's first answer.
#[derive(Debug)]
pub enum NormalAction<'a> {
    /// Call this tool for this call, at this service.
    Call { call: ToolCall, tool: String, server: String, service: &'a McpService },
    /// Deliver this text in this way; it is what the memory keeps.
    Deliver(String, Delivery),
    /// Deliver what came as it came.
    Pass,
    /// End with this error.
    Fail(ServerError),
}

/// What is to be done after the model's first answer. `answer` is what it says, where
/// its status says that there is one. A tool that it calls is called, if its name and
/// its server are known; a text is delivered bit by bit or as it came.
pub fn after_first_answer<'a>(
    answer: Option<&Completion>,
    stream: bool,
    services: Option<&'a TextMap<McpService>>,
) -> (r: NormalAction<'a>)
    ensures
        match answer {
            None => r is Pass,
            Some(c) => if c.tool_calls@.len() == 0 {
                r matches NormalAction::Deliver(text, how) && text@ == text_or_empty(c.content)
                    && if stream {
                    how matches Delivery::Stream(v) && are_answer_chunks(
                        chunks_from(text@, 0, 10),
                        v@,
                    )
                } else {
                    how is PassThrough
                }
            } else {
                let first = c.tool_calls@[0];
                match tool_and_server(first.name@) {
                    None => r matches NormalAction::Fail(e) && e.is_operation(
                        "The tool call '"@ + first.name@ + "' is not supported."@,
                    ),
                    Some((t, s)) => match known_service(s, services) {
                        Some(x) => r matches NormalAction::Call { call, tool, server, service }
                            && call == first && tool@ == t && server@ == s && *service == x,
                        None => r matches NormalAction::Fail(e) && no_service(s, services, e),
                    },
                }
            },
        },
{
    match answer {
        None => NormalAction::Pass,
        Some(completion) => match read_completion(completion) {
            NormalStep::Reject(e) => NormalAction::Fail(e),
            NormalStep::Answer(text) => {
                let how = if stream {
                    Delivery::Stream(stream_chunks(text.as_str()))
                } else {
                    Delivery::PassThrough
                };
                NormalAction::Deliver(text, how)
            },
            NormalStep::CallTool { call, tool, server } => match find_mcp_service(
                server.as_str(),
                services,
            ) {
                Ok(service) => NormalAction::Call { call, tool, server, service },
                Err(e) => NormalAction::Fail(e),
            },
        },
    }
}

/// How the answer to the second request is delivered: `content` is its text, where its
/// status says that there is an answer (`None` otherwise). Gives the text that the memory
/// keeps, if any.
pub fn after_second_answer(content: Option<&Option<String>>, stream: bool) -> (r: (
    Option<String>,
    Delivery,
))
    ensures
        match content {
            None => r.0 is None && r.1 is PassThrough,
            Some(c) => opt_text(r.0) == Some(text_or_empty(*c)) && if stream {
                r.1 matches Delivery::Stream(v) && are_answer_chunks(
                    chunks_from(text_or_empty(*c), 0, 10),
                    v@,
                )
            } else {
                r.1 is Whole
            },
        },
{
    match content {
        None => (None, Delivery::PassThrough),
        Some(c) => {
            let text = answer_text(c);
            let how = if stream {
                Delivery::Stream(stream_chunks(text.as_str()))
            } else {
                Delivery::Whole
            };
            (Some(text), how)
        },
    }
}

/// The headers of a model's answer that the client gets.
pub open spec fn is_passed_header(name: Seq<char>) -> bool {
    ||| name == "access-control-allow-origin"@
    ||| name == "access-control-allow-headers"@
    ||| name == "access-control-allow-methods"@
    ||| name == "content-type"@
    ||| name == "content-length"@
    ||| name == "cache-control"@
    ||| name == "connection"@
    ||| name == "user"@
    ||| name == "date"@
    ||| name == "requires-tool-call"@
}

fn passes(name: &str) -> (r: bool)
    ensures
        r == is_passed_header(name@),
{
    same_text(name, "access-control-allow-origin") || same_text(
        name,
        "access-control-allow-headers",
    ) || same_text(name, "access-control-allow-methods") || same_text(name, "content-type")
        || same_text(name, "content-length") || same_text(name, "cache-control") || same_text(
        name,
        "connection",
    ) || same_text(name, "user") || same_text(name, "date") || same_text(
        name,
        "requires-tool-call",
    )
}

/// Of the headers of a model's answer, by their names in lower case, those that
/// the client gets, in order.
pub fn copy_response_headers(names: &Vec<String>) -> (r: Vec<String>)
    ensures
        r@ == names@.filter(|n: String| is_passed_header(n@)),
{
    let ghost p = |n: String| is_passed_header(n@);
    let mut r: Vec<String> = Vec::new();
    let mut i: usize = 0;
    assert(names@.take(0).filter(p) =~= Seq::empty()) by {
        reveal(Seq::filter);
    }
    while i < names.len()
        invariant
            i <= names@.len(),
            p == (|n: String| is_passed_header(n@)),
            r@ == names@.take(i as int).filter(p),
        decreases names@.len() - i,
    {
        proof {
            assert(names@.take(i + 1).drop_last() =~= names@.take(i as int));
            reveal(Seq::filter);
        }
        if passes(names[i].as_str()) {
            r.push(names[i].clone());
        }
        i = i + 1;
    }
    assert(names@.take(names@.len() as int) =~= names@);
    r
}

// ---------------------------------------------------------------------------
// Messages of the memory
// ---------------------------------------------------------------------------

/// `r` are the calls `s` of the memory as calls of a chat.
pub open spec fn are_chat_calls(s: Seq<ModelToolCall>, r: Seq<ToolCall>) -> bool {
    &&& r.len() == s.len()
    &&& forall|i: int|
        0 <= i < s.len() ==> #[trigger] r[i] == (ToolCall {
            id: s[i].id,
            ty: s[i].ty,
            name: s[i].function.name,
            arguments: s[i].function.arguments,
        })
}

/// `m` can be a message of a chat: it has a known role, and a tool's message says
/// which call it answers.
pub open spec fn is_chat_message(m: ModelMessage) -> bool {
    ||| m.role@ == "system"@
    ||| m.role@ == "user"@
    ||| m.role@ == "assistant"@
    ||| m.role@ == "tool"@ && m.tool_call_id is Some
}

/// `r` is the message `m` of the memory as a message of a chat.
pub open spec fn is_chat_form(m: ModelMessage, r: ChatMessage) -> bool {
    if m.role@ == "system"@ {
        r.is_system(m.content@)
    } else if m.role@ == "user"@ {
        r.is_user_text(m.content@)
    } else if m.role@ == "assistant"@ {
        r matches ChatMessage::Assistant { content, name, tool_calls } && opt_text(content) == Some(
            m.content@,
        ) && name is None && match m.tool_calls {
            Some(v) => tool_calls matches Some(w) && are_chat_calls(v@, w@),
            None => tool_calls is None,
        }
    } else {
        r.is_tool(m.content@, m.tool_call_id->0@)
    }
}

fn chat_calls(v: &Vec<ModelToolCall>) -> (r: Vec<ToolCall>)
    ensures
        are_chat_calls(v@, r@),
{
    let mut r: Vec<ToolCall> = Vec::new();
    let mut i: usize = 0;
    while i < v.len()
        invariant
            i <= v@.len(),
            are_chat_calls(v@.take(i as int), r@),
        decreases v@.len() - i,
    {
        r.push(
            ToolCall {
                id: v[i].id.clone(),
                ty: v[i].ty.clone(),
                name: v[i].function.name.clone(),
                arguments: v[i].function.arguments.clone(),
            },
        );
        i = i + 1;
    }
    assert(v@.take(v@.len() as int) =~= v@);
    r
}

/// A message of the memory as a message of a chat.
pub fn to_chat_message(msg: &ModelMessage) -> (r: ChatMessage)
    requires
        is_chat_message(*msg),
    ensures
        is_chat_form(*msg, r),
{
    if same_text(msg.role.as_str(), "system") {
        ChatMessage::system(msg.content.clone())
    } else if same_text(msg.role.as_str(), "user") {
        ChatMessage::user(msg.content.clone())
    } else if same_text(msg.role.as_str(), "assistant") {
        let tool_calls = match &msg.tool_calls {
            Some(v) => Some(chat_calls(v)),
            None => None,
        };
        ChatMessage::Assistant { content: Some(msg.content.clone()), name: None, tool_calls }
    } else {
        match &msg.tool_call_id {
            Some(id) => ChatMessage::Tool {
                content: msg.content.clone(),
                tool_call_id: id.clone(),
            },
            None => ChatMessage::Tool { content: msg.content.clone(), tool_call_id: String::new() },
        }
    }
}

} // verus!
