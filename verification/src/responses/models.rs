//! Requests, replies and sessions of the responses API.
//!
//! Values that are passed on as they are stand as their JSON text, and
//! floating-point numbers as their bits (IEEE 754, single precision).

use crate::clock::now;
use crate::ids::{is_simple_uuid, new_simple_uuid};
use crate::text::{decimal, decimal_text, digit_char};
use crate::text_map::TextMap;
use vstd::prelude::*;
use vstd::string::*;

verus! {

/// The form that a reply is to have.
#[derive(Debug, Clone)]
pub enum ResponseFormat {
    Text,
    JsonObject,
    JsonSchema { json_schema: JsonSchemaDefinition },
}

impl Default for ResponseFormat {
    fn default() -> (r: ResponseFormat)
        ensures
            r == ResponseFormat::Text,
    {
        ResponseFormat::Text
    }
}

/// A JSON schema that a reply is to follow.
#[derive(Debug, Clone)]
pub struct JsonSchemaDefinition {
    pub name: String,
    pub description: Option<String>,
    /// The schema, in JSON.
    pub schema: String,
    pub strict: Option<bool>,
}

/// How hard the model is to think.
#[derive(Debug)]
pub struct ReasoningSettings {
    pub effort: String,
    /// More settings, in JSON.
    pub extra: TextMap<String>,
}

/// A tool that the user offers.
#[derive(Debug, Clone)]
pub struct ToolDefinition {
    pub tool_type: String,
    pub function: Option<ToolFunction>,
}

/// The function of a tool.
#[derive(Debug, Clone)]
pub struct ToolFunction {
    pub name: String,
    pub description: Option<String>,
    /// What arguments it takes, in JSON.
    pub parameters: Option<String>,
}

/// Which tool is to be used.
#[derive(Debug, Clone)]
pub enum ToolChoice {
    String(String),
    Object(ToolChoiceObject),
}

/// Which tool is to be used, in detail.
#[derive(Debug, Clone)]
pub struct ToolChoiceObject {
    pub choice_type: String,
    pub function: Option<ToolChoiceFunction>,
}

/// The function that is to be used.
#[derive(Debug, Clone)]
pub struct ToolChoiceFunction {
    pub name: String,
}

/// What tools have at their disposal.
#[derive(Debug, Clone)]
pub struct ToolResources {
    pub code_interpreter: Option<CodeInterpreterResources>,
    pub file_search: Option<FileSearchResources>,
}

/// What the code interpreter has at its disposal.
#[derive(Debug, Clone)]
pub struct CodeInterpreterResources {
    pub sandbox: Option<CodeInterpreterSandbox>,
}

/// The sandbox of the code interpreter.
#[derive(Debug, Clone)]
pub struct CodeInterpreterSandbox {
    pub files: Option<Vec<String>>,
}

/// What the file search has at its disposal.
#[derive(Debug, Clone)]
pub struct FileSearchResources {
    pub vector_store_ids: Option<Vec<String>>,
    pub files: Option<Vec<String>>,
}

/// A file that comes with a request.
#[derive(Debug, Clone)]
pub struct Attachment {
    pub file_id: String,
    pub tools: Option<Vec<String>>,
}

/// An error in a reply.
#[derive(Debug, Clone)]
pub struct ErrorObject {
    pub error_type: String,
    pub message: String,
    pub param: Option<String>,
    pub code: Option<String>,
}

/// A request.
#[derive(Debug)]
pub struct ResponseRequest {
    pub model: String,
    pub input: String,
    pub instructions: Option<String>,
    pub previous_response_id: Option<String>,
    pub modalities: Option<Vec<String>>,
    pub response_format: Option<ResponseFormat>,
    pub reasoning: Option<ReasoningSettings>,
    /// As its bits.
    pub temperature: Option<u32>,
    /// As its bits.
    pub top_p: Option<u32>,
    pub max_output_tokens: Option<u32>,
    pub stream: Option<bool>,
    /// What else the reply is to hold.
    pub included: Option<Vec<String>>,
    pub tools: Option<Vec<ToolDefinition>>,
    pub tool_choice: Option<ToolChoice>,
    pub tool_resources: Option<ToolResources>,
    pub attachments: Option<Vec<Attachment>>,
    pub metadata: Option<TextMap<String>>,
    pub user: Option<String>,
}

/// A reply.
#[derive(Debug)]
pub struct ResponseReply {
    pub id: String,
    pub object: String,
    pub created_at: i64,
    pub status: String,
    pub model: String,
    pub output: Vec<OutputItem>,
    pub usage: Usage,
    pub previous_response_id: Option<String>,
    pub metadata: Option<TextMap<String>>,
    pub instructions: Option<String>,
    pub modalities: Option<Vec<String>>,
    pub response_format: Option<ResponseFormat>,
    /// In JSON, as the six that follow it below where they are not typed.
    pub reasoning: Option<String>,
    pub tool_calls: Option<String>,
    pub tool_outputs: Option<String>,
    pub tool_resources: Option<ToolResources>,
    pub output_text: Option<String>,
    pub input: Option<String>,
    pub error: Option<ErrorObject>,
    pub warnings: Option<Vec<String>>,
    pub usage_details: Option<String>,
}

/// One item of a reply.
#[derive(Debug)]
pub struct OutputItem {
    pub item_type: String,
    pub id: String,
    pub status: String,
    pub role: String,
    pub content: Vec<ContentItem>,
}

/// One piece of an item.
#[derive(Debug)]
pub struct ContentItem {
    pub content_type: String,
    pub text: String,
}

/// The tokens of a reply.
#[derive(Debug, Clone, Copy)]
pub struct Usage {
    pub input_tokens: i32,
    pub output_tokens: i32,
    pub total_tokens: i32,
}

/// A conversation that replies belong to.
#[derive(Debug)]
pub struct Session {
    pub response_id: String,
    pub created: i64,
    pub model_used: String,
    /// The messages, by their numbers from 0 on.
    pub messages: TextMap<SessionMessage>,
    /// More, in JSON.
    pub extended_data: Option<String>,
}

/// A message of a session.
#[derive(Debug, Clone)]
pub struct SessionMessage {
    pub role: String,
    pub content: String,
    pub tokens: i32,
    pub created_at: i64,
    pub response_time: Option<i64>,
    pub response_id: Option<String>,
}

/// A session, as it is stored.
#[derive(Debug)]
pub struct SessionRow {
    pub id: String,
    pub session_data: String,
    pub created_at: i64,
    pub last_updated: i64,
}

/// The roles and texts of the messages numbered below `n`, in order.
pub open spec fn history(m: Map<Seq<char>, SessionMessage>, n: nat) -> Seq<(Seq<char>, Seq<char>)>
    decreases n,
{
    if n == 0 {
        Seq::empty()
    } else {
        let before = history(m, (n - 1) as nat);
        let key = decimal((n - 1) as nat);
        if m.dom().contains(key) {
            before.push((m[key].role@, m[key].content@))
        } else {
            before
        }
    }
}

/// The texts of pairs.
pub open spec fn pair_views(s: Seq<(String, String)>) -> Seq<(Seq<char>, Seq<char>)> {
    s.map_values(|p: (String, String)| (p.0@, p.1@))
}

/// The sum of the tokens of messages.
pub open spec fn token_sum(s: Seq<(String, SessionMessage)>) -> int
    decreases s.len(),
{
    if s.len() == 0 {
        0
    } else {
        token_sum(s.drop_last()) + s.last().1.tokens
    }
}

impl Session {
    /// The messages are numbered from 0 on, without gaps.
    pub open spec fn numbered(self) -> bool {
        &&& self.messages@.dom().finite()
        &&& forall|k: Seq<char>| #[trigger]
            self.messages@.dom().contains(k) <==> exists|i: nat|
                i < self.messages@.dom().len() && #[trigger] decimal(i) == k
    }

    /// The roles and texts of the messages, in order.
    pub open spec fn conversation(self) -> Seq<(Seq<char>, Seq<char>)> {
        history(self.messages@, self.messages@.dom().len())
    }

    /// This is a new session that began at `at`.
    pub open spec fn is_new(self, response_id: String, model: String, instructions: Option<String>, at: i64) -> bool {
        &&& self.response_id == response_id
        &&& self.created == at
        &&& self.model_used == model
        &&& self.extended_data is None
        &&& match instructions {
            None => self.messages@ == Map::<Seq<char>, SessionMessage>::empty(),
            Some(t) => exists|m: SessionMessage|
                self.messages@ == #[trigger] Map::<Seq<char>, SessionMessage>::empty().insert(
                    "0"@,
                    m,
                ) && m.role@ == "system"@ && m.content == t && m.tokens == 0 && m.created_at == at
                    && m.response_time is None && m.response_id is None,
        }
    }

    /// A session that begins at `at`, with the instructions as a system message.
    pub fn new_at(response_id: String, model: String, instructions: Option<String>, at: i64) -> (r: Session)
        ensures
            r.is_new(response_id, model, instructions, at),
            r.numbered(),
    {
        let mut messages: TextMap<SessionMessage> = TextMap::new();
        let ghost empty = messages@;
        if let Some(inst) = instructions {
            let m = SessionMessage {
                role: "system".to_owned(),
                content: inst,
                tokens: 0,
                created_at: at,
                response_time: None,
                response_id: None,
            };
            messages.insert("0".to_owned(), m);
        }
        let r = Session {
            response_id,
            created: at,
            model_used: model,
            messages,
            extended_data: None,
        };
        proof {
            reveal_strlit("0");
            assert(decimal(0) =~= "0"@);
            assert forall|k: Seq<char>| #[trigger]
                r.messages@.dom().contains(k) <==> exists|i: nat|
                    i < r.messages@.dom().len() && #[trigger] decimal(i) == k by {
                if r.messages@.dom().contains(k) {
                    assert(decimal(0) == k);
                }
                if exists|i: nat| i < r.messages@.dom().len() && #[trigger] decimal(i) == k {
                    let i = choose|i: nat| i < r.messages@.dom().len() && #[trigger] decimal(i) == k;
                    assert(i == 0);
                }
            }
        }
        r
    }

    /// A session that begins now.
    pub fn new(response_id: String, model: String, instructions: Option<String>) -> (r: Session)
        ensures
            r.is_new(response_id, model, instructions, r.created),
            r.numbered(),
    {
        Session::new_at(response_id, model, instructions, now().secs)
    }

    /// Adds a message at `at`, under the number of messages that there are.
    pub fn add_message_at(
        &mut self,
        role: String,
        content: String,
        tokens: i32,
        response_time: Option<i64>,
        response_id: Option<String>,
        at: i64,
    )
        ensures
            final(self).messages@ == old(self).messages@.insert(
                decimal(old(self).messages@.dom().len()),
                SessionMessage { role, content, tokens, created_at: at, response_time, response_id },
            ),
            *final(self) == (Session { messages: final(self).messages, ..*old(self) }),
            old(self).numbered() ==> final(self).numbered() && final(self).messages@.dom().len()
                == old(self).messages@.dom().len() + 1,
    {
        let index = decimal_text(self.messages.len() as u64);
        let ghost m = SessionMessage {
            role,
            content,
            tokens,
            created_at: at,
            response_time,
            response_id,
        };
        self.messages.insert(
            index,
            SessionMessage { role, content, tokens, created_at: at, response_time, response_id },
        );
        proof {
            if old(self).numbered() {
                law_session_remembers(*old(self), *self, m);
            }
        }
    }

    /// Adds a message now, under the number of messages that there are.
    pub fn add_message(
        &mut self,
        role: String,
        content: String,
        tokens: i32,
        response_time: Option<i64>,
        response_id: Option<String>,
    )
        ensures
            ({
                let key = decimal(old(self).messages@.dom().len());
                let m = final(self).messages@[key];
                &&& final(self).messages@ == old(self).messages@.insert(key, m)
                &&& m == (SessionMessage {
                    role,
                    content,
                    tokens,
                    created_at: m.created_at,
                    response_time,
                    response_id,
                })
            }),
            *final(self) == (Session { messages: final(self).messages, ..*old(self) }),
            old(self).numbered() ==> final(self).numbered() && final(self).messages@.dom().len()
                == old(self).messages@.dom().len() + 1,
    {
        self.add_message_at(role, content, tokens, response_time, response_id, now().secs);
    }

    /// The roles and texts of the messages, in order.
    pub fn get_conversation_history(&self) -> (r: Vec<(String, String)>)
        ensures
            pair_views(r@) == self.conversation(),
    {
        let n: usize = self.messages.len();
        let mut r: Vec<(String, String)> = Vec::new();
        let mut i: usize = 0;
        assert(pair_views(r@) =~= history(self.messages@, 0));
        while i < n
            invariant
                i <= n,
                n == self.messages@.dom().len(),
                pair_views(r@) == history(self.messages@, i as nat),
            decreases n - i,
        {
            let key = decimal_text(i as u64);
            let ghost before = r@;
            if let Some(m) = self.messages.get(key.as_str()) {
                r.push((m.role.clone(), m.content.clone()));
                assert(pair_views(r@) =~= pair_views(before).push((m.role@, m.content@)));
            }
            i = i + 1;
        }
        r
    }

    /// The tokens of all messages.
    pub fn total_tokens(&self) -> (r: i32)
        requires
            forall|i: int|
                0 <= i <= self.messages.listed().len() ==> i32::MIN <= #[trigger] token_sum(
                    self.messages.listed().take(i),
                ) <= i32::MAX,
        ensures
            r == token_sum(self.messages.listed()),
    {
        let ghost all = self.messages.listed();
        let n: usize = self.messages.len();
        let mut r: i32 = 0;
        let mut i: usize = 0;
        while i < n
            invariant
                i <= n,
                n == all.len(),
                all == self.messages.listed(),
                forall|k: int|
                    0 <= k <= all.len() ==> i32::MIN <= #[trigger] token_sum(all.take(k))
                        <= i32::MAX,
                r == token_sum(all.take(i as int)),
            decreases n - i,
        {
            assert(all.take(i + 1).drop_last() =~= all.take(i as int));
            assert(token_sum(all.take(i + 1)) <= i32::MAX);
            r = r + self.messages.value_at(i).tokens;
            i = i + 1;
        }
        assert(all.take(n as int) =~= all);
        r
    }
}

impl ResponseReply {
    /// This is a reply with one message, and nothing else in it.
    pub open spec fn is_reply(
        self,
        response_id: String,
        model: String,
        content: String,
        input_tokens: i32,
        output_tokens: i32,
        previous_id: Option<String>,
    ) -> bool {
        &&& self.id == response_id
        &&& self.object@ == "response"@
        &&& self.status@ == "completed"@
        &&& self.model == model
        &&& self.output@.len() == 1
        &&& self.output@[0].item_type@ == "message"@
        &&& self.output@[0].status@ == "completed"@
        &&& self.output@[0].role@ == "assistant"@
        &&& self.output@[0].content@.len() == 1
        &&& self.output@[0].content@[0].content_type@ == "output_text"@
        &&& self.output@[0].content@[0].text@ == content@
        &&& self.usage.input_tokens == input_tokens
        &&& self.usage.output_tokens == output_tokens
        &&& self.usage.total_tokens == input_tokens + output_tokens
        &&& self.previous_response_id == previous_id
        &&& self.output_text == Some(content)
        &&& self.metadata is None && self.instructions is None && self.modalities is None
        &&& self.response_format is None && self.reasoning is None && self.tool_calls is None
        &&& self.tool_outputs is None && self.tool_resources is None && self.input is None
        &&& self.error is None && self.warnings is None && self.usage_details is None
    }

    /// A reply with one message, made now.
    pub fn new(
        response_id: String,
        model: String,
        content: String,
        input_tokens: i32,
        output_tokens: i32,
        previous_id: Option<String>,
    ) -> (r: ResponseReply)
        requires
            i32::MIN <= input_tokens + output_tokens <= i32::MAX,
        ensures
            r.is_reply(
                response_id,
                model,
                content,
                input_tokens,
                output_tokens,
                previous_id,
            ),
            exists|id: Seq<char>| is_simple_uuid(id) && r.output@[0].id@ == "msg_"@ + id,
    {
        let uuid = new_simple_uuid();
        let mut message_id = "msg_".to_owned();
        message_id.append(uuid.as_str());
        let mut pieces: Vec<ContentItem> = Vec::new();
        pieces.push(ContentItem { content_type: "output_text".to_owned(), text: content.clone() });
        let mut output: Vec<OutputItem> = Vec::new();
        output.push(
            OutputItem {
                item_type: "message".to_owned(),
                id: message_id,
                status: "completed".to_owned(),
                role: "assistant".to_owned(),
                content: pieces,
            },
        );
        ResponseReply {
            id: response_id,
            object: "response".to_owned(),
            created_at: now().secs,
            status: "completed".to_owned(),
            model,
            output,
            usage: Usage {
                input_tokens,
                output_tokens,
                total_tokens: input_tokens + output_tokens,
            },
            previous_response_id: previous_id,
            metadata: None,
            instructions: None,
            modalities: None,
            response_format: None,
            reasoning: None,
            tool_calls: None,
            tool_outputs: None,
            tool_resources: None,
            output_text: Some(content),
            input: None,
            error: None,
            warnings: None,
            usage_details: None,
        }
    }
}

// ---------------------------------------------------------------------------
// Laws
// ---------------------------------------------------------------------------

proof fn lemma_digit_injective(a: int, b: int)
    requires
        0 <= a < 10,
        0 <= b < 10,
        digit_char(a) == digit_char(b),
    ensures
        a == b,
{
}

proof fn lemma_decimal_len(n: nat)
    ensures
        decimal(n).len() > 0,
        n < 10 <==> decimal(n).len() == 1,
    decreases n,
{
    if n >= 10 {
        lemma_decimal_len(n / 10);
    }
}

/// Different numbers have different decimal texts.
pub proof fn lemma_decimal_injective(a: nat, b: nat)
    requires
        decimal(a) == decimal(b),
    ensures
        a == b,
    decreases a,
{
    lemma_decimal_len(a);
    lemma_decimal_len(b);
    if a < 10 {
        assert(decimal(a) == seq![digit_char(a as int)]);
        assert(decimal(b) == seq![digit_char(b as int)]);
        assert(decimal(a)[0] == digit_char(a as int));
        assert(decimal(b)[0] == digit_char(b as int));
        lemma_digit_injective(a as int, b as int);
    } else {
        assert(decimal(a) == decimal(a / 10).push(digit_char((a % 10) as int)));
        assert(decimal(b) == decimal(b / 10).push(digit_char((b % 10) as int)));
        assert(decimal(a).drop_last() =~= decimal(a / 10));
        assert(decimal(b).drop_last() =~= decimal(b / 10));
        assert(decimal(a).last() == digit_char((a % 10) as int));
        assert(decimal(b).last() == digit_char((b % 10) as int));
        lemma_digit_injective((a % 10) as int, (b % 10) as int);
        lemma_decimal_injective(a / 10, b / 10);
    }
}

/// In a numbered session the number of messages is not taken by a message.
proof fn lemma_number_free(s: Session)
    requires
        s.numbered(),
    ensures
        !s.messages@.dom().contains(decimal(s.messages@.dom().len())),
{
    let n = s.messages@.dom().len();
    if s.messages@.dom().contains(decimal(n)) {
        let i = choose|i: nat| i < n && #[trigger] decimal(i) == decimal(n);
        lemma_decimal_injective(i, n);
    }
}

proof fn lemma_history_insert(m: Map<Seq<char>, SessionMessage>, n: nat, k: nat, x: SessionMessage)
    requires
        n <= k,
    ensures
        history(m.insert(decimal(k), x), n) == history(m, n),
    decreases n,
{
    if n > 0 {
        lemma_history_insert(m, (n - 1) as nat, k, x);
        if decimal((n - 1) as nat) == decimal(k) {
            lemma_decimal_injective((n - 1) as nat, k);
        }
    }
}

/// A session remembers: after a message is added, its conversation is what it was,
/// with the new message at the end, and its messages are still numbered.
pub proof fn law_session_remembers(before: Session, after: Session, m: SessionMessage)
    requires
        before.numbered(),
        after.messages@ == before.messages@.insert(decimal(before.messages@.dom().len()), m),
    ensures
        after.conversation() == before.conversation().push((m.role@, m.content@)),
        after.numbered(),
        after.messages@.dom().len() == before.messages@.dom().len() + 1,
{
    let n = before.messages@.dom().len();
    lemma_number_free(before);
    assert(after.messages@.dom() =~= before.messages@.dom().insert(decimal(n)));
    lemma_history_insert(before.messages@, n, n, m);
    assert forall|k: Seq<char>| #[trigger]
        after.messages@.dom().contains(k) <==> exists|i: nat|
            i < n + 1 && #[trigger] decimal(i) == k by {
        if after.messages@.dom().contains(k) {
            if k == decimal(n) {
                assert(decimal(n) == k);
            } else {
                assert(before.messages@.dom().contains(k));
                let i = choose|i: nat| i < n && #[trigger] decimal(i) == k;
                assert(decimal(i) == k);
            }
        }
        if exists|i: nat| i < n + 1 && #[trigger] decimal(i) == k {
            let i = choose|i: nat| i < n + 1 && #[trigger] decimal(i) == k;
            if i < n {
                assert(before.messages@.dom().contains(k));
            }
        }
    }
}

/// The conversation of a numbered session has every message in it.
pub proof fn law_conversation_complete(s: Session)
    requires
        s.numbered(),
    ensures
        s.conversation().len() == s.messages@.dom().len(),
{
    lemma_history_full(s, s.messages@.dom().len());
}

proof fn lemma_history_full(s: Session, n: nat)
    requires
        s.numbered(),
        n <= s.messages@.dom().len(),
    ensures
        history(s.messages@, n).len() == n,
    decreases n,
{
    if n > 0 {
        lemma_history_full(s, (n - 1) as nat);
        assert(s.messages@.dom().contains(decimal((n - 1) as nat)));
    }
}

} // verus!
