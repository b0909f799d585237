//! React mode: the model thinks and acts in turn, until it gives a final answer.

use super::message::{copy_calls, ChatMessage, ChatRequest, Completion, ToolCall, ToolReply};
use super::normal::{reply_told, tool_reply_text};
use super::plan::{are_answer_chunks, number_chunks, AnswerChunk};
use crate::error::ServerError;
use crate::mcp::McpService;
use crate::pattern::{
    first_group, is_element_word, line_element_content, line_element_pattern, opt_text,
};
use crate::text::{contains, has_text, split_whitespace, words};
use crate::text_map::TextMap;
use vstd::prelude::*;
use vstd::string::*;

verus! {

/// What the model's answer asks for.
#[derive(Debug, Clone)]
pub enum ReactStep {
    /// To call the first of these tools.
    CallTool(Vec<ToolCall>),
    /// To end with this answer.
    Answer(String),
    /// To ask the model again.
    Again,
    /// To end with an error.
    Fail(ServerError),
}

/// The content says what it begins to say: a thought that begins ends on the
/// same line, and so does the final answer of a content that calls no tools.
pub open spec fn is_readable_text(content: Seq<char>, calls_tools: bool) -> bool {
    &&& has_text(content, "<thought>"@) ==> line_element_content(content, "thought"@) is Some
    &&& !calls_tools && has_text(content, "<final_answer>"@) ==> line_element_content(
        content,
        "final_answer"@,
    ) is Some
}

/// The answer calls tools or has content, and its content can be read.
pub open spec fn is_readable(completion: Completion) -> bool {
    match completion.content {
        Some(c) => is_readable_text(c@, completion.tool_calls@.len() > 0),
        None => completion.tool_calls@.len() > 0,
    }
}

fn line_element(content: &str, word: &str) -> (r: Option<String>)
    requires
        is_element_word(word@),
    ensures
        opt_text(r) == line_element_content(content@, word@),
{
    let mut pattern = "<".to_owned();
    pattern.append(word);
    pattern.append(">(.*?)</");
    pattern.append(word);
    pattern.append(">");
    assert(pattern@ == line_element_pattern(word@));
    assert(crate::pattern::is_known_pattern(pattern@)) by {
        let w = word@;
        assert(crate::pattern::element_pattern(w) == crate::pattern::element_pattern(w));
    }
    first_group(pattern.as_str(), content)
}

/// Whether an answer can be read.
pub fn check_readable(completion: &Completion) -> (r: bool)
    ensures
        r == is_readable(*completion),
{
    match &completion.content {
        None => completion.tool_calls.len() > 0,
        Some(c) => {
            let thought = !contains(c.as_str(), "<thought>") || line_element(
                c.as_str(),
                "thought",
            ).is_some();
            let answer = completion.tool_calls.len() > 0 || !contains(c.as_str(), "<final_answer>")
                || line_element(c.as_str(), "final_answer").is_some();
            thought && answer
        },
    }
}

/// `r` is what an answer asks for. An answer with tool calls asks for them, unless
/// it has content without an action; one without asks to end with the final answer
/// in its content, or to be asked again after an action.
pub open spec fn is_step(completion: Completion, r: ReactStep) -> bool {
    let no_action = match completion.content {
        Some(c) => line_element_content(c@, "action"@) is None,
        None => false,
    };
    let answered = match completion.content {
        Some(c) => completion.tool_calls@.len() == 0 && has_text(c@, "<final_answer>"@),
        None => false,
    };
    if answered {
        r matches ReactStep::Answer(a) && Some(a@) == line_element_content(
            completion.content->0@,
            "final_answer"@,
        )
    } else if no_action {
        r matches ReactStep::Fail(e) && e.is_operation("No <action> tags found in the response"@)
    } else if completion.tool_calls@.len() > 0 {
        r matches ReactStep::CallTool(v) && v@ == completion.tool_calls@
    } else {
        r is Again
    }
}

/// What an answer asks for.
pub fn read_completion(completion: &Completion) -> (r: ReactStep)
    requires
        is_readable(*completion),
    ensures
        is_step(*completion, r),
{
    if let Some(content) = &completion.content {
        if completion.tool_calls.len() == 0 && contains(content.as_str(), "<final_answer>") {
            if let Some(answer) = line_element(content.as_str(), "final_answer") {
                return ReactStep::Answer(answer);
            }
        }
        if line_element(content.as_str(), "action").is_none() {
            return ReactStep::Fail(
                ServerError::operation("No <action> tags found in the response"),
            );
        }
    }
    if completion.tool_calls.len() > 0 {
        assert(completion.tool_calls@.take(completion.tool_calls@.len() as int)
            =~= completion.tool_calls@);
        ReactStep::CallTool(copy_calls(&completion.tool_calls, completion.tool_calls.len()))
    } else {
        ReactStep::Again
    }
}

/// The service that offers a tool: `tools` says which server offers it, and
/// `services` are the servers that the gateway is connected to.
pub open spec fn tool_service(
    tool: Seq<char>,
    tools: Option<&TextMap<String>>,
    services: Option<&TextMap<McpService>>,
) -> Option<McpService> {
    match (tools, services) {
        (Some(t), Some(s)) => if t@.dom().contains(tool) && s@.dom().contains(t@[tool]@) {
            Some(s@[t@[tool]@])
        } else {
            None
        },
        _ => None,
    }
}

/// There is no service that offers the tool, and `e` says why: there are no tools,
/// no server offers it, there are no servers, or the one that offers it is missing.
pub open spec fn no_tool_service(
    tool: Seq<char>,
    tools: Option<&TextMap<String>>,
    services: Option<&TextMap<McpService>>,
    e: ServerError,
) -> bool {
    match tools {
        None => e.is_operation("Empty MCP TOOLS"@),
        Some(t) => if !t@.dom().contains(tool) {
            e == ServerError::McpNotFoundClient
        } else {
            match services {
                None => e.is_operation("Empty MCP CLIENTS"@),
                Some(s) => !s@.dom().contains(t@[tool]@) && e.is_operation(
                    "Tool not found: "@ + tool,
                ),
            }
        },
    }
}

/// The service that offers a tool: `tools` says which server offers it, and
/// `services` are the servers that the gateway is connected to.
pub fn find_tool_service<'a>(
    tool: &str,
    tools: Option<&TextMap<String>>,
    services: Option<&'a TextMap<McpService>>,
) -> (r: Result<&'a McpService, ServerError>)
    ensures
        match r {
            Ok(service) => tool_service(tool@, tools, services) == Some(*service),
            Err(e) => tool_service(tool@, tools, services) is None && no_tool_service(
                tool@,
                tools,
                services,
                e,
            ),
        },
{
    match tools {
        None => Err(ServerError::operation("Empty MCP TOOLS")),
        Some(t) => match t.get(tool) {
            None => Err(ServerError::McpNotFoundClient),
            Some(server) => match services {
                None => Err(ServerError::operation("Empty MCP CLIENTS")),
                Some(s) => match s.get(server.as_str()) {
                    Some(service) => Ok(service),
                    None => {
                        let mut m = "Tool not found: ".to_owned();
                        m.append(tool);
                        Err(ServerError::Operation(m))
                    },
                },
            },
        },
    }
}

/// What is to be done next.
#[derive(Debug)]
pub enum ReactAction<'a> {
    /// Call the first of these tools, at this service.
    Call(Vec<ToolCall>, &'a McpService),
    /// Send this answer.
    Answer(String),
    /// Ask the model again.
    Ask,
    /// End with this error.
    Fail(ServerError),
}

/// What is to be done after an answer of the model: what it asks for, where a tool
/// that it calls has a service.
pub fn decide<'a>(
    completion: &Completion,
    tools: Option<&TextMap<String>>,
    services: Option<&'a TextMap<McpService>>,
) -> (r: ReactAction<'a>)
    requires
        is_readable(*completion),
    ensures
        exists|step: ReactStep| #[trigger]
            is_step(*completion, step) && match step {
                ReactStep::CallTool(v) => match tool_service(v@[0].name@, tools, services) {
                    Some(s) => r matches ReactAction::Call(w, service) && w@ == v@ && *service == s,
                    None => r matches ReactAction::Fail(e) && no_tool_service(
                        v@[0].name@,
                        tools,
                        services,
                        e,
                    ),
                },
                ReactStep::Answer(a) => r == ReactAction::<'a>::Answer(a),
                ReactStep::Again => r is Ask,
                ReactStep::Fail(e) => r == ReactAction::<'a>::Fail(e),
            },
        r is Call ==> completion.tool_calls@.len() > 0,
{
    let step = read_completion(completion);
    let ghost g = step;
    assert(is_step(*completion, g));
    match step {
        ReactStep::CallTool(calls) => match find_tool_service(
            calls[0].name.as_str(),
            tools,
            services,
        ) {
            Ok(service) => ReactAction::Call(calls, service),
            Err(e) => ReactAction::Fail(e),
        },
        ReactStep::Answer(a) => ReactAction::Answer(a),
        ReactStep::Again => ReactAction::Ask,
        ReactStep::Fail(e) => ReactAction::Fail(e),
    }
}

/// `after` is the request `before` with the calls and what the first of them gave behind
/// the messages.
pub open spec fn is_observed(before: ChatRequest, calls: Seq<ToolCall>, text: Seq<char>, after: ChatRequest) -> bool {
    let n = before.messages@.len() as int;
    &&& after.messages@.len() == n + 2
    &&& after.messages@.take(n) == before.messages@
    &&& after.messages@[n].is_assistant(None, calls)
    &&& after.messages@.last().is_tool("<observation>"@ + text + "</observation>"@, calls[0].id@)
    &&& after == (ChatRequest { messages: after.messages, ..before })
}

/// Shows the model what the first of the tools that it called gave: the calls and
/// the result join the messages. Where there is no result to show, the request ends.
pub fn observe(
    request: &mut ChatRequest,
    calls: &Vec<ToolCall>,
    reply: Result<ToolReply, String>,
    server: &str,
    service: &McpService,
) -> (r: Result<(), ServerError>)
    requires
        calls@.len() > 0,
    ensures
        ({
            let n = old(request).messages@.len() as int;
            exists|told: Result<String, ServerError>| #[trigger]
                reply_told(reply, calls@[0].name@, server@, service.fallback(), told)
                    && match told {
                    Ok(text) => {
                        &&& r is Ok
                        &&& final(request).messages@.len() == n + 2
                        &&& final(request).messages@.take(n) == old(request).messages@
                        &&& final(request).messages@[n].is_assistant(None, calls@)
                        &&& final(request).messages@.last().is_tool(
                            "<observation>"@ + text@ + "</observation>"@,
                            calls@[0].id@,
                        )
                        &&& *final(request) == (ChatRequest {
                            messages: final(request).messages,
                            ..*old(request)
                        })
                    },
                    Err(e) => r == Err::<(), ServerError>(e) && *final(request) == *old(request),
                }
        }),
        r is Ok ==> exists|text: String| #[trigger]
            reply_told(reply, calls@[0].name@, server@, service.fallback(), Ok(text))
                && is_observed(*old(request), calls@, text@, *final(request)),
{
    let told = tool_reply_text(reply, calls[0].name.as_str(), server, service);
    let ghost g = told;
    match told {
        Err(e) => {
            assert(reply_told(reply, calls@[0].name@, server@, service.fallback(), g));
            Err(e)
        },
        Ok(text) => {
            assert(reply_told(reply, calls@[0].name@, server@, service.fallback(), g));
            let mut observation = "<observation>".to_owned();
            observation.append(text.as_str());
            observation.append("</observation>");
            assert(calls@.take(calls@.len() as int) =~= calls@);
            request.messages.push(
                ChatMessage::Assistant {
                    content: None,
                    name: None,
                    tool_calls: Some(copy_calls(calls, calls.len())),
                },
            );
            request.messages.push(
                ChatMessage::Tool { content: observation, tool_call_id: calls[0].id.clone() },
            );
            assert(request.messages@.take(old(request).messages@.len() as int) =~= old(
                request,
            ).messages@);
            Ok(())
        },
    }
}

/// The pieces in which a final answer is sent bit by bit: its words.
pub fn answer_words(answer: &str) -> (r: Vec<AnswerChunk>)
    ensures
        are_answer_chunks(words(answer@), r@),
{
    number_chunks(split_whitespace(answer))
}

} // verus!
