//! Serving the responses API.

use super::laws::law_user_message_comes_last;
use super::models::{ResponseReply, ResponseRequest, Session, SessionMessage, ToolDefinition};
use crate::chat::message::{copy_opt, ChatMessage};
use crate::ids::{is_simple_uuid, new_simple_uuid};
use crate::single::{lemma_single_small, single, to_single};
use crate::text::{decimal, decimal_text, is_listed, list_has, same_text, texts, trim, trimmed};
use vstd::prelude::*;
use vstd::string::*;
use vstd::utf8::encode_utf8;

verus! {

// ---------------------------------------------------------------------------
// Errors
// ---------------------------------------------------------------------------

/// What can go wrong while a request is served.
#[derive(Debug, Clone)]
pub enum ResponseError {
    InvalidInput(String),
    SessionNotFound(String),
    DatabaseError(String),
    ChatBackendError(String),
}

impl ResponseError {
    /// The status that the client gets.
    pub open spec fn status(self) -> u16 {
        match self {
            ResponseError::InvalidInput(_) => 400,
            ResponseError::SessionNotFound(_) => 404,
            ResponseError::DatabaseError(_) => 500,
            ResponseError::ChatBackendError(_) => 502,
        }
    }

    /// The message that the client gets.
    pub open spec fn words(self) -> Seq<char> {
        match self {
            ResponseError::InvalidInput(m) => m@,
            ResponseError::SessionNotFound(m) => m@,
            ResponseError::DatabaseError(m) => m@,
            ResponseError::ChatBackendError(m) => m@,
        }
    }

    /// The status and the message that the client gets.
    pub fn to_http_error(&self) -> (r: (u16, String))
        ensures
            r.0 == self.status(),
            r.1@ == self.words(),
    {
        match self {
            ResponseError::InvalidInput(m) => (400, m.clone()),
            ResponseError::SessionNotFound(m) => (404, m.clone()),
            ResponseError::DatabaseError(m) => (500, m.clone()),
            ResponseError::ChatBackendError(m) => (502, m.clone()),
        }
    }

    /// This is an `InvalidInput` error with the message `m`.
    pub open spec fn is_invalid_input(self, m: Seq<char>) -> bool {
        match self {
            ResponseError::InvalidInput(t) => t@ == m,
            _ => false,
        }
    }

    /// An `InvalidInput` error with the message `m`.
    pub fn invalid_input(m: &str) -> (r: ResponseError)
        ensures
            r.is_invalid_input(m@),
    {
        ResponseError::InvalidInput(m.to_owned())
    }

    /// The error of a database, as the client is told of it.
    pub fn from_database(error: DatabaseError) -> (r: ResponseError)
        ensures
            match error {
                DatabaseError::SessionNotFound { id } => r matches ResponseError::SessionNotFound(m)
                    && m@ == "Session not found: "@ + id@,
                DatabaseError::Sqlx(e) => r matches ResponseError::DatabaseError(m) && m@
                    == "Database error: "@ + e@,
                DatabaseError::Serialization(e) => r matches ResponseError::DatabaseError(m) && m@
                    == "Data serialization error: "@ + e@,
                DatabaseError::InvalidSessionData => r matches ResponseError::DatabaseError(m) && m@
                    == "Invalid session data"@,
            },
    {
        match error {
            DatabaseError::SessionNotFound { id } => {
                let mut m = "Session not found: ".to_owned();
                m.append(id.as_str());
                ResponseError::SessionNotFound(m)
            },
            DatabaseError::Sqlx(e) => {
                let mut m = "Database error: ".to_owned();
                m.append(e.as_str());
                ResponseError::DatabaseError(m)
            },
            DatabaseError::Serialization(e) => {
                let mut m = "Data serialization error: ".to_owned();
                m.append(e.as_str());
                ResponseError::DatabaseError(m)
            },
            DatabaseError::InvalidSessionData => ResponseError::DatabaseError(
                "Invalid session data".to_owned(),
            ),
        }
    }
}

/// What can go wrong with the database of sessions.
#[derive(Debug, Clone)]
pub enum DatabaseError {
    SessionNotFound { id: String },
    Sqlx(String),
    Serialization(String),
    InvalidSessionData,
}

// ---------------------------------------------------------------------------
// Checks
// ---------------------------------------------------------------------------

/// An estimate of the tokens of a text: a quarter of its bytes, rounded up, in single
/// precision, and never more than can be held.
pub open spec fn token_estimate(s: Seq<char>) -> int {
    let n = (single(encode_utf8(s).len() as usize as nat) + 3) / 4;
    if n > i32::MAX {
        i32::MAX as int
    } else {
        n as int
    }
}

/// An estimate of the tokens of a text.
pub fn estimate_tokens(text: &str) -> (r: i32)
    ensures
        r == token_estimate(text@),
        r >= 0,
{
    let bytes: usize = text.len();
    let n: u128 = (to_single(bytes as u128) + 3) / 4;
    if n > 2_147_483_647 {
        2_147_483_647
    } else {
        n as i32
    }
}

/// The estimate for a text of up to 16,777,216 bytes is a quarter of its bytes,
/// rounded up to a whole token and not otherwise.
pub proof fn law_estimate_is_a_quarter(s: Seq<char>)
    requires
        encode_utf8(s).len() <= 16_777_216,
    ensures
        token_estimate(s) == (encode_utf8(s).len() + 3) / 4,
{
    lemma_single_small(encode_utf8(s).len());
}

/// The bits of 2.0.
pub const TWO: u32 = 0x4000_0000;

/// The bits of 1.0.
pub const ONE: u32 = 0x3f80_0000;

/// The number of `bits` lies between zero and that of `max`, a positive one. Bits
/// without the sign bit are ordered as their numbers; with it, only minus zero counts.
pub open spec fn is_within(bits: u32, max: u32) -> bool {
    bits <= max || bits == 0x8000_0000
}

/// What is wrong with a request, if anything.
pub open spec fn request_error(req: ResponseRequest) -> Option<Seq<char>> {
    if req.temperature matches Some(t) && !is_within(t, TWO) {
        Some("Temperature must be between 0.0 and 2.0"@)
    } else if req.top_p matches Some(t) && !is_within(t, ONE) {
        Some("top_p must be between 0.0 and 1.0"@)
    } else if req.max_output_tokens == Some(0u32) {
        Some("max_output_tokens must be positive"@)
    } else if req.stream == Some(true) {
        Some("Streaming not yet implemented"@)
    } else {
        None
    }
}

/// `s` with `w` behind it, where it applies.
pub open spec fn warned(s: Seq<Seq<char>>, applies: bool, w: Seq<char>) -> Seq<Seq<char>> {
    if applies {
        s.push(w)
    } else {
        s
    }
}

/// What a request asks for that is not supported.
pub open spec fn request_warnings(req: ResponseRequest) -> Seq<Seq<char>> {
    let s = warned(
        Seq::empty(),
        req.modalities is Some,
        "Multiple modalities not yet fully supported"@,
    );
    let s = warned(
        s,
        req.reasoning is Some,
        "Reasoning enhancements not yet supported by backend"@,
    );
    let s = warned(
        s,
        req.response_format is Some,
        "Custom response formats not yet fully supported"@,
    );
    let s = warned(s, req.tool_resources is Some, "Tool resources not yet fully supported"@);
    warned(s, req.attachments is Some, "Attachments not yet fully supported"@)
}

fn warn(v: &mut Vec<String>, applies: bool, w: &str)
    ensures
        texts(final(v)@) == warned(texts(old(v)@), applies, w@),
{
    if applies {
        v.push(w.to_owned());
        assert(texts(v@) =~= texts(old(v)@).push(w@));
    }
}

/// Checks a request, and says what it asks for that is not supported.
pub fn validate_request(req: &ResponseRequest) -> (r: Result<Vec<String>, ResponseError>)
    ensures
        match request_error(*req) {
            Some(m) => r matches Err(e) && e.is_invalid_input(m),
            None => r matches Ok(v) && texts(v@) == request_warnings(*req),
        },
{
    if let Some(t) = req.temperature {
        if !(t <= TWO || t == 0x8000_0000) {
            return Err(ResponseError::invalid_input("Temperature must be between 0.0 and 2.0"));
        }
    }
    if let Some(t) = req.top_p {
        if !(t <= ONE || t == 0x8000_0000) {
            return Err(ResponseError::invalid_input("top_p must be between 0.0 and 1.0"));
        }
    }
    if let Some(n) = req.max_output_tokens {
        if n == 0 {
            return Err(ResponseError::invalid_input("max_output_tokens must be positive"));
        }
    }
    if let Some(s) = req.stream {
        if s {
            return Err(ResponseError::invalid_input("Streaming not yet implemented"));
        }
    }
    let mut v: Vec<String> = Vec::new();
    assert(texts(v@) =~= Seq::empty());
    warn(&mut v, req.modalities.is_some(), "Multiple modalities not yet fully supported");
    warn(
        &mut v,
        req.reasoning.is_some(),
        "Reasoning enhancements not yet supported by backend",
    );
    warn(
        &mut v,
        req.response_format.is_some(),
        "Custom response formats not yet fully supported",
    );
    warn(&mut v, req.tool_resources.is_some(), "Tool resources not yet fully supported");
    warn(&mut v, req.attachments.is_some(), "Attachments not yet fully supported");
    Ok(v)
}

/// The name of the first tool that has the name of an MCP tool.
pub open spec fn conflict(tools: Seq<ToolDefinition>, names: Seq<String>) -> Option<Seq<char>>
    decreases tools.len(),
{
    if tools.len() == 0 {
        None
    } else if conflict(tools.drop_last(), names) is Some {
        conflict(tools.drop_last(), names)
    } else {
        match tools.last().function {
            Some(f) if is_listed(names, f.name@) => Some(f.name@),
            _ => None,
        }
    }
}

proof fn lemma_conflict_stays(tools: Seq<ToolDefinition>, names: Seq<String>, n: int)
    requires
        0 <= n <= tools.len(),
        conflict(tools.take(n), names) is Some,
    ensures
        conflict(tools, names) == conflict(tools.take(n), names),
    decreases tools.len() - n,
{
    if n == tools.len() {
        assert(tools.take(n) =~= tools);
    } else {
        assert(tools.take(n + 1).drop_last() =~= tools.take(n));
        lemma_conflict_stays(tools, names, n + 1);
    }
}

proof fn lemma_no_conflict(tools: Seq<ToolDefinition>, names: Seq<String>)
    requires
        names.len() == 0,
    ensures
        conflict(tools, names) is None,
    decreases tools.len(),
{
    if tools.len() > 0 {
        lemma_no_conflict(tools.drop_last(), names);
    }
}

fn find_conflict(tools: &Vec<ToolDefinition>, names: &Vec<String>) -> (r: Option<String>)
    ensures
        crate::pattern::opt_text(r) == conflict(tools@, names@),
{
    let mut i: usize = 0;
    while i < tools.len()
        invariant
            i <= tools@.len(),
            conflict(tools@.take(i as int), names@) is None,
        decreases tools@.len() - i,
    {
        assert(tools@.take(i + 1).drop_last() =~= tools@.take(i as int));
        assert(tools@.take(i + 1).last() == tools@[i as int]);
        if let Some(f) = &tools[i].function {
            if list_has(names, f.name.as_str()) {
                proof {
                    lemma_conflict_stays(tools@, names@, i + 1);
                }
                return Some(f.name.clone());
            }
        }
        i = i + 1;
    }
    assert(tools@.take(tools@.len() as int) =~= tools@);
    None
}

/// What is said of tools that a user offers.
pub open spec fn tools_warning(n: nat) -> Seq<char> {
    "User-supplied tools ("@ + decimal(n) + ") will be appended after MCP tools"@
}

/// `r` is the verdict on the tools that a request offers: none may have the name of an
/// MCP tool; where there are any, it is said that they come behind those.
pub open spec fn is_tool_verdict(
    tools: Option<Vec<ToolDefinition>>,
    names: Seq<String>,
    r: Result<Vec<String>, ResponseError>,
) -> bool {
    match tools {
        None => r matches Ok(v) && v@.len() == 0,
        Some(t) => match conflict(t@, names) {
            Some(name) => r matches Err(e) && e.is_invalid_input(
                "Tool name '"@ + name + "' conflicts with existing MCP tool"@,
            ),
            None => r matches Ok(v) && texts(v@) == (if t@.len() > 0 {
                seq![tools_warning(t@.len())]
            } else {
                Seq::empty()
            }),
        },
    }
}

/// Checks the tools that a request offers against the names of the MCP tools.
pub fn check_tool_conflicts(req: &ResponseRequest, mcp_tool_names: &Vec<String>) -> (r: Result<
    Vec<String>,
    ResponseError,
>)
    ensures
        is_tool_verdict(req.tools, mcp_tool_names@, r),
{
    let mut v: Vec<String> = Vec::new();
    assert(texts(v@) =~= Seq::empty());
    if let Some(tools) = &req.tools {
        if let Some(name) = find_conflict(tools, mcp_tool_names) {
            let mut m = "Tool name '".to_owned();
            m.append(name.as_str());
            m.append("' conflicts with existing MCP tool");
            return Err(ResponseError::InvalidInput(m));
        }
        if tools.len() > 0 {
            let mut w = "User-supplied tools (".to_owned();
            w.append(decimal_text(tools.len() as u64).as_str());
            w.append(") will be appended after MCP tools");
            v.push(w);
            assert(texts(v@) =~= seq![tools_warning(tools@.len())]);
        }
    }
    Ok(v)
}

/// What is wrong with a request before anything else is looked at: no model, no input,
/// or what `request_error` says.
pub open spec fn first_error(req: ResponseRequest) -> Option<Seq<char>> {
    if trimmed(req.model@).len() == 0 {
        Some("Model name cannot be empty"@)
    } else if trimmed(req.input@).len() == 0 {
        Some("Input message cannot be empty"@)
    } else {
        request_error(req)
    }
}

/// Checks a request before anything else is done, and says what it asks for that is
/// not supported.
pub fn check_request(req: &ResponseRequest) -> (r: Result<Vec<String>, ResponseError>)
    ensures
        match first_error(*req) {
            Some(m) => r matches Err(e) && e.is_invalid_input(m),
            None => r matches Ok(v) && texts(v@) == request_warnings(*req),
        },
{
    if trim(req.model.as_str()).is_empty() {
        return Err(ResponseError::invalid_input("Model name cannot be empty"));
    }
    if trim(req.input.as_str()).is_empty() {
        return Err(ResponseError::invalid_input("Input message cannot be empty"));
    }
    validate_request(req)
}

// ---------------------------------------------------------------------------
// The request to the model
// ---------------------------------------------------------------------------

/// The identifier of a reply.
pub fn new_response_id() -> (r: String)
    ensures
        exists|id: Seq<char>| is_simple_uuid(id) && r@ == "resp_"@ + id,
{
    let id = new_simple_uuid();
    let mut r = "resp_".to_owned();
    r.append(id.as_str());
    r
}

/// A request to the model.
#[derive(Debug)]
pub struct BackendRequest {
    pub model: String,
    pub messages: Vec<ChatMessage>,
    pub user: String,
    /// As its bits.
    pub temperature: Option<u32>,
    /// As its bits.
    pub top_p: Option<u32>,
    pub max_completion_tokens: Option<i32>,
}

/// `m` is a message of the conversation, as the model gets it.
pub open spec fn is_message_of(p: (Seq<char>, Seq<char>), m: ChatMessage) -> bool {
    if p.0 == "system"@ {
        m.is_system(p.1)
    } else if p.0 == "user"@ {
        m.is_user_text(p.1)
    } else {
        m matches ChatMessage::Assistant { content, name, tool_calls } && name is None
            && crate::pattern::opt_text(content)
            == Some(p.1) && tool_calls is None
    }
}

/// The messages of a conversation that the model gets: those of the system, the user
/// and the model itself.
pub open spec fn sendable(s: Seq<(Seq<char>, Seq<char>)>) -> Seq<(Seq<char>, Seq<char>)> {
    s.filter(
        |p: (Seq<char>, Seq<char>)| p.0 == "system"@ || p.0 == "user"@ || p.0 == "assistant"@,
    )
}

/// `r` are the messages of a conversation, as the model gets them.
pub open spec fn are_messages_of(s: Seq<(Seq<char>, Seq<char>)>, r: Seq<ChatMessage>) -> bool {
    &&& r.len() == sendable(s).len()
    &&& forall|i: int| 0 <= i < r.len() ==> is_message_of(sendable(s)[i], #[trigger] r[i])
}

fn session_messages(session: &Session) -> (r: Vec<ChatMessage>)
    ensures
        are_messages_of(session.conversation(), r@),
{
    let pairs = session.get_conversation_history();
    let ghost all = session.conversation();
    let ghost p = |p: (Seq<char>, Seq<char>)|
        p.0 == "system"@ || p.0 == "user"@ || p.0 == "assistant"@;
    let mut r: Vec<ChatMessage> = Vec::new();
    let mut i: usize = 0;
    assert(sendable(all.take(0)) =~= Seq::empty()) by {
        reveal(Seq::filter);
    }
    assert(super::models::pair_views(pairs@) == all);
    while i < pairs.len()
        invariant
            i <= pairs@.len(),
            all == super::models::pair_views(pairs@),
            are_messages_of(all.take(i as int), r@),
        decreases pairs@.len() - i,
    {
        proof {
            assert(all.take(i + 1).drop_last() =~= all.take(i as int));
            assert(all.take(i + 1).last() == all[i as int]);
            assert(all[i as int] == (pairs@[i as int].0@, pairs@[i as int].1@));
            reveal(Seq::filter);
        }
        let role = pairs[i].0.as_str();
        if same_text(role, "system") {
            r.push(ChatMessage::system(pairs[i].1.clone()));
        } else if same_text(role, "user") {
            r.push(ChatMessage::user(pairs[i].1.clone()));
        } else if same_text(role, "assistant") {
            r.push(
                ChatMessage::Assistant {
                    content: Some(pairs[i].1.clone()),
                    name: None,
                    tool_calls: None,
                },
            );
        }
        i = i + 1;
    }
    assert(all.take(pairs@.len() as int) =~= all);
    r
}

#[verifier::truncate]
fn as_signed(n: u32) -> (r: i32)
    ensures
        r == n as i32,
{
    n as i32
}

/// The session that a request belongs to. `found` is what was found for the previous
/// reply that the request names. A request that names none begins a session at `at`.
pub fn open_session(req: &ResponseRequest, response_id: &String, found: Option<Session>, at: i64) -> (r:
    Result<Session, ResponseError>)
    ensures
        match (req.previous_response_id, found) {
            (None, _) => r matches Ok(s) && s.numbered() && s.is_new(
                *response_id,
                req.model,
                req.instructions,
                at,
            ),
            (Some(_), Some(s)) => r == Ok::<Session, ResponseError>(s),
            (Some(id), None) => r matches Err(ResponseError::SessionNotFound(m)) && m@
                == "Previous response ID not found: "@ + id@,
        },
{
    match &req.previous_response_id {
        None => Ok(
            Session::new_at(
                response_id.clone(),
                req.model.clone(),
                copy_opt(&req.instructions),
                at,
            ),
        ),
        Some(id) => match found {
            Some(s) => Ok(s),
            None => {
                let mut m = "Previous response ID not found: ".to_owned();
                m.append(id.as_str());
                Err(ResponseError::SessionNotFound(m))
            },
        },
    }
}

/// What is said of tools and of the choice of tools in a request.
pub open spec fn all_warnings(req: ResponseRequest) -> Seq<Seq<char>> {
    let s = request_warnings(req);
    let n = match req.tools {
        Some(t) => t@.len(),
        None => 0,
    };
    let s = if n > 0 {
        s.push(tools_warning(n)).push(
            "User-supplied tools are not yet fully integrated with chat backend"@,
        )
    } else {
        s
    };
    warned(s, req.tool_choice is Some, "Tool choice specification not yet fully supported"@)
}

/// A request whose question is in its session, and that is about to be sent.
#[derive(Debug)]
pub struct PreparedResponse {
    pub session: Session,
    pub request: BackendRequest,
    pub user_tokens: i32,
    pub warnings: Vec<String>,
}

/// The question as a message of its session.
pub open spec fn question(req: ResponseRequest, at: i64, m: SessionMessage) -> bool {
    &&& m.role@ == "user"@
    &&& m.content@ == req.input@
    &&& m.tokens == token_estimate(req.input@)
    &&& m.created_at == at
    &&& m.response_time is None
    &&& m.response_id is None
}

/// `s` is the session `before` with one more message, which satisfies `p`.
pub open spec fn grown(before: Session, s: Session, p: spec_fn(SessionMessage) -> bool) -> bool {
    let key = decimal(before.messages@.dom().len());
    &&& s == (Session { messages: s.messages, ..before })
    &&& s.messages@ == before.messages@.insert(key, s.messages@[key])
    &&& p(s.messages@[key])
}

/// `r` asks the model what the request asks, with the conversation so far.
pub open spec fn is_backend_request(req: ResponseRequest, session: Session, r: BackendRequest) -> bool {
    &&& r.model == req.model
    &&& are_messages_of(session.conversation(), r.messages@)
    &&& r.user@ == match req.user {
        Some(u) => u@,
        None => "responses-api"@,
    }
    &&& r.temperature == req.temperature
    &&& r.top_p == req.top_p
    &&& r.max_completion_tokens == match req.max_output_tokens {
        Some(n) => Some(n as i32),
        None => None,
    }
}

/// Puts the question of a request into its session, and makes the request to the model.
/// `warnings` are those of its check.
pub fn prepare_response(req: &ResponseRequest, session: Session, warnings: Vec<String>, at: i64) -> (r:
    PreparedResponse)
    requires
        texts(warnings@) == request_warnings(*req),
    ensures
        grown(session, r.session, |m: SessionMessage| question(*req, at, m)),
        session.numbered() ==> r.session.numbered(),
        is_backend_request(*req, r.session, r.request),
        session.numbered() ==> r.request.messages@.len() > 0 && r.request.messages@.last().is_user_text(
            req.input@,
        ),
        r.user_tokens == token_estimate(req.input@),
        texts(r.warnings@) == all_warnings(*req),
{
    let ghost begun = session;
    let mut session = session;
    let mut warnings = warnings;
    let user_tokens: i32 = estimate_tokens(req.input.as_str());
    session.add_message_at(
        "user".to_owned(),
        req.input.clone(),
        user_tokens,
        None,
        None,
        at,
    );
    let messages = session_messages(&session);
    proof {
        if begun.numbered() {
            let key = decimal(begun.messages@.dom().len());
            law_user_message_comes_last(begun, session, session.messages@[key], messages@);
        }
    }
    let user = match &req.user {
        Some(u) => u.clone(),
        None => "responses-api".to_owned(),
    };
    let max_completion_tokens = match req.max_output_tokens {
        Some(n) => Some(as_signed(n)),
        None => None,
    };
    let request = BackendRequest {
        model: req.model.clone(),
        messages,
        user,
        temperature: req.temperature,
        top_p: req.top_p,
        max_completion_tokens,
    };
    if let Some(tools) = &req.tools {
        if tools.len() > 0 {
            let names: Vec<String> = Vec::new();
            proof {
                lemma_no_conflict(tools@, names@);
            }
            if let Ok(more) = check_tool_conflicts(req, &names) {
                let ghost before = warnings@;
                let ghost added = more@;
                let mut more = more;
                warnings.append(&mut more);
                assert(texts(added) == seq![tools_warning(tools@.len())]);
                assert(texts(warnings@) =~= texts(before) + texts(added));
                assert(texts(warnings@) =~= texts(before).push(tools_warning(tools@.len())));
            }
            warn(
                &mut warnings,
                true,
                "User-supplied tools are not yet fully integrated with chat backend",
            );
        }
    }
    warn(
        &mut warnings,
        req.tool_choice.is_some(),
        "Tool choice specification not yet fully supported",
    );
    PreparedResponse { session, request, user_tokens, warnings }
}

// ---------------------------------------------------------------------------
// The reply
// ---------------------------------------------------------------------------

/// The error of a backend that failed for the reason `e`.
pub fn backend_error(e: &str) -> (r: ResponseError)
    ensures
        r matches ResponseError::ChatBackendError(m) && m@ == "Chat backend failed: "@ + e@,
{
    let mut m = "Chat backend failed: ".to_owned();
    m.append(e);
    ResponseError::ChatBackendError(m)
}

/// The text of a backend's answer: that of its first choice, or word that there is none.
pub fn backend_text(content: &Option<String>) -> (r: String)
    ensures
        r@ == match *content {
            Some(c) => c@,
            None => "No response content"@,
        },
{
    match content {
        Some(c) => c.clone(),
        None => "No response content".to_owned(),
    }
}

/// What came of asking the chat server.
#[derive(Debug, Clone)]
pub enum BackendReply {
    /// No chat server is registered.
    NoServer,
    /// None of the chat servers can be asked, with the reason.
    Unavailable(String),
    /// The request could not be sent, with the reason.
    NotSent(String),
    /// The server refused it; what it said, where that could be read.
    Refused(Option<String>),
    /// The answer could not be read, with the reason.
    Unreadable(String),
    /// The answer's text, if it has one.
    Answered(Option<String>),
}

/// What stands for a reply of the chat server: the answer's text, or what went wrong.
pub open spec fn backend_outcome(reply: BackendReply) -> Result<Seq<char>, Seq<char>> {
    match reply {
        BackendReply::NoServer => Err("No chat server available"@),
        BackendReply::Unavailable(e) => Err("Failed to get chat server: "@ + e@),
        BackendReply::NotSent(e) => Err("Request failed: "@ + e@),
        BackendReply::Refused(Some(t)) => Err("Chat API Error: "@ + t@),
        BackendReply::Refused(None) => Err("Chat API Error: "@ + "Unknown error"@),
        BackendReply::Unreadable(e) => Err("Failed to parse response: "@ + e@),
        BackendReply::Answered(Some(c)) => Ok(c@),
        BackendReply::Answered(None) => Ok("No response content"@),
    }
}

/// The text that the chat server answered with, or the error of a backend that failed.
pub fn backend_reply(reply: &BackendReply) -> (r: Result<String, ResponseError>)
    ensures
        match backend_outcome(*reply) {
            Ok(t) => r matches Ok(s) && s@ == t,
            Err(m) => r matches Err(ResponseError::ChatBackendError(s)) && s@
                == "Chat backend failed: "@ + m,
        },
{
    let mut m = match reply {
        BackendReply::Answered(content) => return Ok(backend_text(content)),
        BackendReply::NoServer => "No chat server available".to_owned(),
        BackendReply::Unavailable(_) => "Failed to get chat server: ".to_owned(),
        BackendReply::NotSent(_) => "Request failed: ".to_owned(),
        BackendReply::Refused(_) => "Chat API Error: ".to_owned(),
        BackendReply::Unreadable(_) => "Failed to parse response: ".to_owned(),
    };
    match reply {
        BackendReply::Unavailable(e) => m.append(e.as_str()),
        BackendReply::NotSent(e) => m.append(e.as_str()),
        BackendReply::Refused(Some(t)) => m.append(t.as_str()),
        BackendReply::Refused(None) => m.append("Unknown error"),
        BackendReply::Unreadable(e) => m.append(e.as_str()),
        _ => {},
    }
    Err(backend_error(m.as_str()))
}

/// What else is kept with a session: the metadata, the attachments and the resources of
/// the request, each in JSON, where there are any.
#[derive(Debug, Clone)]
pub struct ExtendedData {
    pub metadata: Option<String>,
    pub attachments: Option<String>,
    pub tool_resources: Option<String>,
}

/// An entry of a JSON object behind those in `s`.
pub open spec fn with_entry(s: Seq<char>, key: Seq<char>, value: Option<String>) -> Seq<char> {
    match value {
        None => s,
        Some(v) => (if s.len() == 0 {
            s
        } else {
            s + ","@
        }) + "\""@ + key + "\":"@ + v@,
    }
}

/// The entries of what else is kept, in JSON.
pub open spec fn extended_entries(d: ExtendedData) -> Seq<char> {
    with_entry(
        with_entry(
            with_entry(Seq::empty(), "attachments"@, d.attachments),
            "metadata"@,
            d.metadata,
        ),
        "tool_resources"@,
        d.tool_resources,
    )
}

fn add_entry(s: &mut String, key: &str, value: &Option<String>)
    ensures
        final(s)@ == with_entry(old(s)@, key@, *value),
{
    if let Some(v) = value {
        if !s.as_str().is_empty() {
            s.append(",");
        }
        s.append("\"");
        s.append(key);
        s.append("\":");
        s.append(v.as_str());
    }
}

/// What else is kept with a session, as a JSON object; nothing where there is nothing.
pub fn extended_data(d: &ExtendedData) -> (r: Option<String>)
    ensures
        match r {
            Some(t) => t@ == "{"@ + extended_entries(*d) + "}"@ && (d.attachments is Some
                || d.metadata is Some || d.tool_resources is Some),
            None => d.attachments is None && d.metadata is None && d.tool_resources is None,
        },
{
    if d.attachments.is_none() && d.metadata.is_none() && d.tool_resources.is_none() {
        return None;
    }
    let mut s = String::new();
    add_entry(&mut s, "attachments", &d.attachments);
    add_entry(&mut s, "metadata", &d.metadata);
    add_entry(&mut s, "tool_resources", &d.tool_resources);
    let mut r = "{".to_owned();
    r.append(s.as_str());
    r.append("}");
    Some(r)
}

/// The answer as a message of its session.
pub open spec fn answer(text: Seq<char>, response_id: Seq<char>, at: i64, m: SessionMessage) -> bool {
    &&& m.role@ == "assistant"@
    &&& m.content@ == text
    &&& m.tokens == token_estimate(text)
    &&& m.created_at == at
    &&& m.response_time is None
    &&& m.response_id matches Some(id) && id@ == response_id
}

/// `s` is `before` with the answer and what else is kept with it.
pub open spec fn is_answered(
    before: Session,
    text: Seq<char>,
    response_id: Seq<char>,
    at: i64,
    extended: Option<String>,
    s: Session,
) -> bool {
    let key = decimal(before.messages@.dom().len());
    &&& s.messages@ == before.messages@.insert(key, s.messages@[key])
    &&& answer(text, response_id, at, s.messages@[key])
    &&& s.response_id == before.response_id
    &&& s.created == before.created
    &&& s.model_used == before.model_used
    &&& s.extended_data == match extended {
        Some(d) => Some(d),
        None => before.extended_data,
    }
}

/// `r` is the reply to a request.
pub open spec fn is_final_reply(
    req: ResponseRequest,
    response_id: String,
    text: String,
    user_tokens: i32,
    warnings: Vec<String>,
    r: ResponseReply,
) -> bool {
    &&& (ResponseReply {
        metadata: None,
        instructions: None,
        modalities: None,
        response_format: None,
        warnings: None,
        ..r
    }).is_reply(
        response_id,
        req.model,
        text,
        user_tokens,
        token_estimate(text@) as i32,
        req.previous_response_id,
    )
    &&& r.metadata == req.metadata
    &&& r.instructions == req.instructions
    &&& r.modalities == req.modalities
    &&& r.response_format == req.response_format
    &&& r.warnings == if warnings@.len() > 0 {
        Some(warnings)
    } else {
        None
    }
}

/// Puts the answer of the model into its session, with what else is kept, and makes the
/// reply.
pub fn finish_response(
    req: ResponseRequest,
    response_id: String,
    prepared: PreparedResponse,
    text: String,
    extended: Option<String>,
    at: i64,
) -> (r: (Session, ResponseReply))
    requires
        i32::MIN <= prepared.user_tokens + token_estimate(text@) <= i32::MAX,
    ensures
        is_answered(prepared.session, text@, response_id@, at, extended, r.0),
        prepared.session.numbered() ==> r.0.numbered(),
        is_final_reply(
            req,
            response_id,
            text,
            prepared.user_tokens,
            prepared.warnings,
            r.1,
        ),
{
    let output_tokens: i32 = estimate_tokens(text.as_str());
    let mut session = prepared.session;
    session.add_message_at(
        "assistant".to_owned(),
        text.clone(),
        output_tokens,
        None,
        Some(response_id.clone()),
        at,
    );
    if let Some(d) = extended {
        session.extended_data = Some(d);
    }
    let mut reply = ResponseReply::new(
        response_id,
        req.model,
        text,
        prepared.user_tokens,
        output_tokens,
        req.previous_response_id,
    );
    reply.metadata = req.metadata;
    reply.instructions = req.instructions;
    reply.modalities = req.modalities;
    reply.response_format = req.response_format;
    if prepared.warnings.len() > 0 {
        reply.warnings = Some(prepared.warnings);
    }
    (session, reply)
}

// ---------------------------------------------------------------------------
// Laws
// ---------------------------------------------------------------------------

/// A session carries a conversation on: after a request was served, the conversation of
/// its session is what it was, then the question, then the answer.
pub proof fn law_conversation_carried_on(
    req: ResponseRequest,
    before: Session,
    asked: Session,
    answered: Session,
    text: Seq<char>,
    response_id: Seq<char>,
    asked_at: i64,
    answered_at: i64,
    extended: Option<String>,
)
    requires
        before.numbered(),
        grown(before, asked, |m: SessionMessage| question(req, asked_at, m)),
        is_answered(asked, text, response_id, answered_at, extended, answered),
    ensures
        answered.numbered(),
        answered.conversation() == before.conversation().push(("user"@, req.input@)).push(
            ("assistant"@, text),
        ),
{
    let k1 = decimal(before.messages@.dom().len());
    let k2 = decimal(asked.messages@.dom().len());
    super::models::law_session_remembers(before, asked, asked.messages@[k1]);
    super::models::law_session_remembers(asked, answered, answered.messages@[k2]);
}

/// A reply can be followed up: the session that it was put into is the one that its
/// identifier leads to.
pub proof fn law_reply_leads_to_session(
    asked: Session,
    answered: Session,
    text: Seq<char>,
    response_id: Seq<char>,
    at: i64,
    extended: Option<String>,
)
    requires
        is_answered(asked, text, response_id, at, extended, answered),
    ensures
        super::db::holds_reply(answered, response_id),
{
    let key = decimal(asked.messages@.dom().len());
    assert(answered.messages@.dom().contains(key));
}

} // verus!
