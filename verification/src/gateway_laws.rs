//! What holds of the gateway towards its servers and its clients.

use crate::chat::message::{ChatRequest, ToolMode};
use crate::error::ServerError;
use crate::handlers::{
    digits_of, digits_value, each, error_json, has_tools_of, history_failure, history_json,
    is_digit, is_history_reply, is_openrouter_model, lists_models, models_of, number_in, offered,
    present, request_tools, unsupported, ApiServer, HistoryKind, JsonReply, Model, ModelLists,
    ServerKind, Service, ToolServer,
};
use crate::json::json_string;
use crate::single::{lemma_single_small, single, spacing};
use crate::text::{
    begins_with, decimal, finishes_with, has_text, law_decimal_reads_back, lemma_has_end,
    lemma_has_middle, lemma_has_start, occurs_at,
};
use crate::upstream::{authorization_of, bearer, without_slashes};
use vstd::prelude::*;
use vstd::string::*;

verus! {

// ---------------------------------------------------------------------------
// Tools and models
// ---------------------------------------------------------------------------

/// Every tool of every server that offers its tools is offered.
pub proof fn law_tools_of_servers_are_offered(servers: Seq<ToolServer>, i: int, k: int)
    requires
        0 <= i < servers.len(),
        servers[i].enable,
        servers[i].tools matches Some(v) && 0 <= k < v@.len(),
    ensures
        offered(servers).contains(servers[i].tools->0@[k]),
    decreases servers.len(),
{
    let t = servers.drop_last();
    let x = servers[i].tools->0@[k];
    let before = offered(t);
    if i < t.len() {
        assert(t[i] == servers[i]);
        law_tools_of_servers_are_offered(t, i, k);
        let j = choose|j: int| 0 <= j < before.len() && before[j] == x;
        assert(offered(servers)[j] == x);
    } else {
        assert(offered(servers)[before.len() + k] == x);
    }
}

/// Nothing is offered but tools of servers that offer theirs.
pub proof fn law_only_tools_of_servers_are_offered(servers: Seq<ToolServer>, j: int) -> (r: (
    int,
    int,
))
    requires
        0 <= j < offered(servers).len(),
    ensures
        0 <= r.0 < servers.len(),
        servers[r.0].enable,
        servers[r.0].tools matches Some(v) && 0 <= r.1 < v@.len() && v@[r.1] == offered(servers)[j],
    decreases servers.len(),
{
    let t = servers.drop_last();
    let n = offered(t).len();
    if j < n {
        let r = law_only_tools_of_servers_are_offered(t, j);
        assert(t[r.0] == servers[r.0]);
        r
    } else {
        (servers.len() - 1, j - n)
    }
}

/// Every model that a server names is listed, and no others.
pub proof fn law_present_are_listed(s: Seq<Option<String>>, v: String)
    ensures
        present(s).contains(v) <==> s.contains(Some(v)),
    decreases s.len(),
{
    if s.len() > 0 {
        let t = s.drop_last();
        law_present_are_listed(t, v);
        let p = present(t);
        if present(s).contains(v) {
            let i = choose|i: int| 0 <= i < present(s).len() && present(s)[i] == v;
            if i < p.len() {
                assert(p[i] == v);
                let k = choose|k: int| 0 <= k < t.len() && t[k] == Some(v);
                assert(s[k] == Some(v));
            } else {
                assert(s[s.len() - 1] == Some(v));
            }
        }
        if s.contains(Some(v)) {
            let k = choose|k: int| 0 <= k < s.len() && s[k] == Some(v);
            if k < t.len() {
                assert(t[k] == Some(v));
                let i = choose|i: int| 0 <= i < p.len() && p[i] == v;
                assert(present(s)[i] == v);
            } else {
                assert(present(s)[p.len() as int] == v);
            }
        }
    }
}

/// The models of servers behind others are listed behind theirs, all of them.
pub proof fn law_models_of_all_servers(s: Seq<(String, Vec<Model>)>, i: int, k: int)
    requires
        0 <= i < s.len(),
        0 <= k < s[i].1@.len(),
    ensures
        models_of(s).contains(s[i].1@[k]),
        models_of(s) == models_of(s.drop_last()) + s.last().1@,
    decreases s.len(),
{
    let t = s.drop_last();
    let before = models_of(t);
    let x = s[i].1@[k];
    if i < t.len() {
        assert(t[i] == s[i]);
        law_models_of_all_servers(t, i, k);
        let j = choose|j: int| 0 <= j < before.len() && before[j] == x;
        assert(models_of(s)[j] == x);
    } else {
        assert(models_of(s)[before.len() + k] == x);
    }
}

/// A model that a server lists in its own way keeps its identifier and its time.
pub proof fn law_listed_model_keeps_its_name(e: (String, u64), m: Model)
    requires
        is_openrouter_model(e, m),
    ensures
        m.id@ == e.0@,
        m.created == e.1,
        m.object@ == "model"@,
        m.owned_by@ == "openrouter.ai"@,
{
}

// ---------------------------------------------------------------------------
// Servers
// ---------------------------------------------------------------------------

/// Every service is found under its own path.
pub proof fn law_services_have_their_paths()
    ensures
        Service::Chat.path() == "/chat/completions"@,
        Service::Embeddings.path() == "/embeddings"@,
        Service::Transcribe.path() == "/audio/transcriptions"@,
        Service::Translate.path() == "/audio/translations"@,
        Service::Tts.path() == "/audio/speech"@,
        Service::Image.path() == "/images/generations"@,
        Service::Chat.name() == "chat"@,
        Service::Embeddings.name() == "embeddings"@,
        Service::Transcribe.name() == "transcribe"@,
        Service::Translate.name() == "translate"@,
        Service::Tts.name() == "tts"@,
        Service::Image.name() == "image"@,
{
}

/// What is cut off the end of an address are slashes, all of them and nothing else.
pub proof fn law_only_slashes_are_cut(s: Seq<char>)
    ensures
        without_slashes(s).len() <= s.len(),
        without_slashes(s) == s.take(without_slashes(s).len() as int),
        forall|i: int| without_slashes(s).len() <= i < s.len() ==> #[trigger] s[i] == '/',
        without_slashes(s).len() > 0 ==> without_slashes(s).last() != '/',
    decreases s.len(),
{
    if s.len() > 0 && s.last() == '/' {
        let t = s.drop_last();
        law_only_slashes_are_cut(t);
        assert(t.take(without_slashes(t).len() as int) =~= s.take(without_slashes(s).len() as int));
        assert forall|i: int| without_slashes(s).len() <= i < s.len() implies #[trigger] s[i]
            == '/' by {
            if i < t.len() {
                assert(t[i] == s[i]);
            }
        }
    } else {
        assert(s.take(s.len() as int) =~= s);
    }
}

/// A key goes into the header behind the word that says what it is, once.
pub proof fn law_key_is_a_bearer(key: Seq<char>)
    ensures
        begins_with(bearer(key), "Bearer "@),
        finishes_with(bearer(key), key),
        bearer(bearer(key)) == bearer(key),
        !begins_with(key, "Bearer "@) ==> bearer(key) == "Bearer "@ + key,
        begins_with(key, "Bearer "@) ==> bearer(key) == key,
{
    let b = bearer(key);
    if !begins_with(key, "Bearer "@) {
        assert(b.subrange(0, "Bearer "@.len() as int) =~= "Bearer "@);
    }
    assert(b.subrange(b.len() - key.len(), b.len() as int) =~= key);
}

/// A server's own key is used where there is one that says something; otherwise what the
/// client sent, and nothing where it sent nothing.
pub proof fn law_own_key_goes_first(key: Option<Seq<char>>, sent: Option<Seq<char>>)
    ensures
        key matches Some(k) ==> k.len() > 0 ==> (authorization_of(key, sent) matches Some(v)
            && finishes_with(v, k) && begins_with(v, "Bearer "@)),
        key matches Some(k) ==> k.len() == 0 ==> authorization_of(key, sent) == sent,
        key is None ==> authorization_of(key, sent) == sent,
{
    if let Some(k) = key {
        law_key_is_a_bearer(k);
    }
}

proof fn lemma_chat_named()
    ensures
        has_text(
            "You are trying to register a chat server. However, the server does not support `chat`. Please check the server kind."@,
            "does not support `chat`"@,
        ),
{
    reveal_strlit(
        "You are trying to register a chat server. However, the server does not support `chat`. Please check the server kind.",
    );
    reveal_strlit("does not support `chat`");
    let s = "You are trying to register a chat server. However, the server does not support `chat`. Please check the server kind."@;
    assert(s.subrange(62, 85) =~= "does not support `chat`"@);
    assert(occurs_at(s, "does not support `chat`"@, 62));
}

proof fn lemma_embeddings_named()
    ensures
        has_text(
            "You are trying to register an embedding server. However, the server does not support `embeddings`. Please check the server kind."@,
            "does not support `embeddings`"@,
        ),
{
    reveal_strlit(
        "You are trying to register an embedding server. However, the server does not support `embeddings`. Please check the server kind.",
    );
    reveal_strlit("does not support `embeddings`");
    let s = "You are trying to register an embedding server. However, the server does not support `embeddings`. Please check the server kind."@;
    assert(s.subrange(68, 97) =~= "does not support `embeddings`"@);
    assert(occurs_at(s, "does not support `embeddings`"@, 68));
}

proof fn lemma_image_named()
    ensures
        has_text(
            "You are trying to register an image server. However, the server does not support `image`. Please check the server kind."@,
            "does not support `image`"@,
        ),
{
    reveal_strlit(
        "You are trying to register an image server. However, the server does not support `image`. Please check the server kind.",
    );
    reveal_strlit("does not support `image`");
    let s = "You are trying to register an image server. However, the server does not support `image`. Please check the server kind."@;
    assert(s.subrange(64, 88) =~= "does not support `image`"@);
    assert(occurs_at(s, "does not support `image`"@, 64));
}

proof fn lemma_tts_named()
    ensures
        has_text(
            "You are trying to register a TTS server. However, the server does not support `tts`. Please check the server kind."@,
            "does not support `tts`"@,
        ),
{
    reveal_strlit(
        "You are trying to register a TTS server. However, the server does not support `tts`. Please check the server kind.",
    );
    reveal_strlit("does not support `tts`");
    let s = "You are trying to register a TTS server. However, the server does not support `tts`. Please check the server kind."@;
    assert(s.subrange(61, 83) =~= "does not support `tts`"@);
    assert(occurs_at(s, "does not support `tts`"@, 61));
}

proof fn lemma_translate_named()
    ensures
        has_text(
            "You are trying to register a translation server. However, the server does not support `translate`. Please check the server kind."@,
            "does not support `translate`"@,
        ),
{
    reveal_strlit(
        "You are trying to register a translation server. However, the server does not support `translate`. Please check the server kind.",
    );
    reveal_strlit("does not support `translate`");
    let s = "You are trying to register a translation server. However, the server does not support `translate`. Please check the server kind."@;
    assert(s.subrange(69, 97) =~= "does not support `translate`"@);
    assert(occurs_at(s, "does not support `translate`"@, 69));
}

proof fn lemma_transcribe_named()
    ensures
        has_text(
            "You are trying to register a transcription server. However, the server does not support `transcribe`. Please check the server kind."@,
            "does not support `transcribe`"@,
        ),
{
    reveal_strlit(
        "You are trying to register a transcription server. However, the server does not support `transcribe`. Please check the server kind.",
    );
    reveal_strlit("does not support `transcribe`");
    let s = "You are trying to register a transcription server. However, the server does not support `transcribe`. Please check the server kind."@;
    assert(s.subrange(71, 100) =~= "does not support `transcribe`"@);
    assert(occurs_at(s, "does not support `transcribe`"@, 71));
}

/// A server that is registered for something that it does not offer is refused, with the
/// first such service named; one that offers all is not.
pub proof fn law_missing_service_is_named(kind: ServerKind, server: ApiServer)
    ensures
        unsupported(kind, server) is None <==> {
            &&& kind.chat ==> server.chat_model is Some
            &&& kind.embeddings ==> server.embedding_model is Some
            &&& kind.image ==> server.image_model is Some
            &&& kind.tts ==> server.tts_model is Some
            &&& kind.translate ==> server.translate_model is Some
            &&& kind.transcribe ==> server.transcribe_model is Some
        },
        kind.chat && server.chat_model is None ==> (unsupported(kind, server) matches Some(m) && has_text(
            m,
            "does not support `chat`"@,
        )),
        kind.embeddings && server.embedding_model is None && !kind.chat ==> (unsupported(kind, server) matches Some(m) && has_text(
            m,
            "does not support `embeddings`"@,
        )),
        kind.image && server.image_model is None && !kind.chat && !kind.embeddings ==> (unsupported(kind, server) matches Some(m) && has_text(
            m,
            "does not support `image`"@,
        )),
        kind.tts && server.tts_model is None && !kind.chat && !kind.embeddings && !kind.image ==> (unsupported(kind, server) matches Some(m) && has_text(
            m,
            "does not support `tts`"@,
        )),
        kind.translate && server.translate_model is None && !kind.chat && !kind.embeddings && !kind.image && !kind.tts ==> (unsupported(kind, server) matches Some(m) && has_text(
            m,
            "does not support `translate`"@,
        )),
        kind.transcribe && server.transcribe_model is None && !kind.chat && !kind.embeddings && !kind.image && !kind.tts && !kind.translate ==> (unsupported(kind, server) matches Some(m) && has_text(
            m,
            "does not support `transcribe`"@,
        )),
{
    lemma_chat_named();
    lemma_embeddings_named();
    lemma_image_named();
    lemma_tts_named();
    lemma_translate_named();
    lemma_transcribe_named();
}

// ---------------------------------------------------------------------------
// Answers
// ---------------------------------------------------------------------------

/// An error is told in JSON with its message.
pub proof fn law_error_is_told_in_json(m: Seq<char>)
    ensures
        error_json(m) == "{\"error\":"@ + json_string(m) + "}"@,
        has_text(error_json(m), json_string(m)),
{
    lemma_has_middle("{\"error\":"@, json_string(m), "}"@);
}

/// What was found goes to the client: the entries, and whose they are; of conversations
/// also how many there are.
pub proof fn law_history_tells_what_was_found(
    kind: HistoryKind,
    id: Seq<char>,
    items: Seq<char>,
    n: nat,
)
    ensures
        kind is Conversation ==> history_json(kind, id, items, n) == "{\"conversation_id\":"@
            + json_string(id) + ",\"messages\":"@ + items + "}"@,
        has_text(history_json(kind, id, items, n), items),
        has_text(history_json(kind, id, items, n), json_string(id)),
        kind is Conversations ==> has_text(
            history_json(kind, id, items, n),
            ",\"total\":"@ + decimal(n),
        ),
{
    let s = history_json(kind, id, items, n);
    let j = json_string(id);
    match kind {
        HistoryKind::Conversation => {
            let b = ",\"messages\":"@ + items + "}"@;
            assert(s =~= "{\"conversation_id\":"@ + j + b);
            lemma_has_middle("{\"conversation_id\":"@, j, b);
            lemma_has_middle("{\"conversation_id\":"@ + j + ",\"messages\":"@, items, "}"@);
        },
        HistoryKind::User => {
            let b = ",\"user_id\":"@ + j + "}"@;
            assert(s =~= "{\"messages\":"@ + items + b);
            lemma_has_middle("{\"messages\":"@, items, b);
            lemma_has_middle("{\"messages\":"@ + items + ",\"user_id\":"@, j, "}"@);
        },
        HistoryKind::Conversations => {
            let t = ",\"total\":"@ + decimal(n);
            let b = ",\"user_id\":"@ + j + "}"@;
            assert(s =~= "{\"conversations\":"@ + items + (t + b));
            lemma_has_middle("{\"conversations\":"@, items, t + b);
            assert(s =~= ("{\"conversations\":"@ + items) + t + b);
            lemma_has_middle("{\"conversations\":"@ + items, t, b);
            let a = "{\"conversations\":"@ + items + t + ",\"user_id\":"@;
            assert(s =~= a + j + "}"@);
            lemma_has_middle(a, j, "}"@);
        },
    }
}

/// A failure of the memory is told with its reason; a conversation that is not there is
/// one that is not found.
pub proof fn law_history_failure_tells_why(kind: HistoryKind, e: Seq<char>)
    ensures
        has_text(history_failure(kind, e).1, e),
        kind is Conversation ==> history_failure(kind, e).0 == 404,
        kind is User || kind is Conversations ==> history_failure(kind, e).0 == 500,
{
    lemma_has_end("Conversation not found: "@, e);
    lemma_has_end("Failed to retrieve user history: "@, e);
    lemma_has_end("Failed to retrieve user conversations: "@, e);
}

/// A number in decimal digits is read back.
pub proof fn law_number_is_read_back(n: nat)
    requires
        n <= usize::MAX,
    ensures
        number_in(decimal(n)) == Some(n),
        number_in(seq!['+'] + decimal(n)) == Some(n),
{
    lemma_digits(n);
    law_decimal_reads_back(n);
    let d = decimal(n);
    assert('0' <= d[0] <= '9');
    assert((seq!['+'] + d).drop_first() =~= d);
    assert forall|i: int| 0 <= i < d.len() implies is_digit(#[trigger] d[i]) by {}
}

proof fn lemma_digits(n: nat)
    ensures
        digits_value(decimal(n)) == n,
    decreases n,
{
    if n < 10 {
        let d = decimal(n);
        assert(d.drop_last() =~= Seq::<char>::empty());
        assert(digits_value(d.drop_last()) == 0);
        assert(d.last() as u32 - 48 == n);
    } else {
        lemma_digits(n / 10);
        let d = decimal(n);
        assert(d.drop_last() =~= decimal(n / 10));
        assert(d.last() as u32 - 48 == n % 10);
    }
}

/// A text with anything in it but digits behind one plus sign is no number, nor is an empty
/// one.
pub proof fn law_only_digits_make_a_number(s: Seq<char>, i: int)
    ensures
        s.len() == 0 ==> number_in(s) is None,
        1 <= i < s.len() && !('0' <= s[i] <= '9') ==> number_in(s) is None,
        s.len() > 0 && s[0] != '+' && !('0' <= s[0] <= '9') ==> number_in(s) is None,
{
    let d = digits_of(s);
    if 1 <= i < s.len() {
        if s[0] == '+' {
            assert(d[i - 1] == s[i]);
        } else {
            assert(d[i] == s[i]);
        }
    }
    if s.len() > 0 && s[0] != '+' {
        assert(d[0] == s[0]);
    }
}

/// An error in words tells what it speaks of.
pub proof fn law_errors_tell_their_details(
    m: String,
    tool: String,
    attempts: u32,
    id: usize,
    secs: u64,
)
    ensures
        ServerError::Operation(m).words() == m@,
        ServerError::BadRequest(m).words() == m@,
        has_text(ServerError::McpOperation(m).words(), m@),
        has_text(ServerError::PlanParseError(m).words(), m@),
        has_text(
            (ServerError::ToolCallRetryExhausted { tool_name: tool, attempts, message: m }).words(),
            "'"@ + tool@ + "'"@,
        ),
        has_text(
            (ServerError::ToolCallRetryExhausted { tool_name: tool, attempts, message: m }).words(),
            decimal(attempts as nat) + " attempts: "@ + m@,
        ),
        has_text(
            (ServerError::SubtaskRetryExhausted { subtask_id: id, attempts, message: m }).words(),
            "Subtask "@ + decimal(id as nat) + " failed after "@ + decimal(attempts as nat)
                + " attempts: "@ + m@,
        ),
        has_text(
            (ServerError::SubtaskTimeout { subtask_id: id, timeout_secs: secs }).words(),
            "Subtask "@ + decimal(id as nat) + " timed out after "@ + decimal(secs as nat),
        ),
        has_text(ServerError::MaxIterationsExceeded(attempts).words(), decimal(attempts as nat)),
        has_text(ServerError::ReactTimeout(secs).words(), decimal(secs as nat)),
        has_text(
            (ServerError::TimeBudgetExhausted { elapsed_secs: secs }).words(),
            decimal(secs as nat),
        ),
{
    lemma_has_end("MCP operation failed: "@, m@);
    lemma_has_end("Failed to parse the plan: "@, m@);
    lemma_tool_words(m, tool, attempts);
    let w = (ServerError::SubtaskRetryExhausted { subtask_id: id, attempts, message: m }).words();
    lemma_has_end(Seq::empty(), w);
    assert(Seq::<char>::empty() + w =~= w);
    lemma_has_start(
        "Subtask "@ + decimal(id as nat) + " timed out after "@ + decimal(secs as nat),
        " seconds"@,
    );
    lemma_has_middle("Exceeded the maximum of "@, decimal(attempts as nat), " iterations"@);
    lemma_has_middle("React loop timed out after "@, decimal(secs as nat), " seconds"@);
    lemma_has_middle("Time budget exhausted after "@, decimal(secs as nat), " seconds"@);
}

proof fn lemma_tool_words(m: String, tool: String, attempts: u32)
    ensures
        has_text(
            (ServerError::ToolCallRetryExhausted { tool_name: tool, attempts, message: m }).words(),
            "'"@ + tool@ + "'"@,
        ),
        has_text(
            (ServerError::ToolCallRetryExhausted { tool_name: tool, attempts, message: m }).words(),
            decimal(attempts as nat) + " attempts: "@ + m@,
        ),
{
    reveal_strlit("Tool call '");
    reveal_strlit("' failed after ");
    reveal_strlit("'");
    let w = (ServerError::ToolCallRetryExhausted { tool_name: tool, attempts, message: m }).words();
    let n = decimal(attempts as nat);
    let a = "Tool call '"@.take(10);
    let b = "' failed after "@.skip(1);
    assert("Tool call '"@ =~= a + "'"@);
    assert("' failed after "@ =~= "'"@ + b);
    let rest = b + n + " attempts: "@ + m@;
    assert(w =~= a + ("'"@ + tool@ + "'"@) + rest);
    lemma_has_middle(a, "'"@ + tool@ + "'"@, rest);
    let c = "Tool call '"@ + tool@ + "' failed after "@;
    let e = n + " attempts: "@ + m@;
    assert(w =~= c + e);
    lemma_has_end(c, e);
}

// ---------------------------------------------------------------------------
// Single precision
// ---------------------------------------------------------------------------

proof fn lemma_spacing(n: nat, unit: nat)
    requires
        unit > 0,
        unit == 1 || 8_388_608 * unit <= n,
    ensures
        spacing(n, unit) > 0,
        n < 16_777_216 * spacing(n, unit),
        spacing(n, unit) == 1 || 8_388_608 * spacing(n, unit) <= n,
    decreases n - unit,
{
    if n >= 16_777_216 * unit {
        lemma_spacing(n, 2 * unit);
    }
}

/// A number in single precision is off by at most one part in 2 to the 24th.
pub proof fn law_single_is_close(n: nat)
    ensures
        16_777_216 * single(n) <= 16_777_217 * n,
        16_777_215 * n <= 16_777_216 * single(n),
        n <= 16_777_216 ==> single(n) == n,
{
    let u = spacing(n, 1);
    lemma_spacing(n, 1);
    let q = n / u;
    let r = n % u;
    assert(n == q * u + r && 0 <= r < u) by (nonlinear_arith)
        requires
            u > 0,
            q == n / u,
            r == n % u,
    ;
    assert((q + 1) * u == q * u + u) by (nonlinear_arith);
    if u == 1 {
        assert(r == 0);
        assert(q * u == n);
    }
    if n <= 16_777_216 {
        lemma_single_small(n);
    }
}

// ---------------------------------------------------------------------------
// Parts of requests
// ---------------------------------------------------------------------------

/// The tools of a request are those that it names.
pub proof fn law_tools_of_a_request(r: ChatRequest)
    ensures
        r.tools matches Some(v) ==> request_tools(r) == v@,
        r.tools is None ==> request_tools(r).len() == 0,
{
}

/// One property of every server is taken from each of them, in order.
pub proof fn law_property_of_each_server(
    s: Seq<(String, ApiServer)>,
    f: spec_fn(ApiServer) -> Option<String>,
    i: int,
)
    requires
        0 <= i < s.len(),
    ensures
        each(s, f).len() == s.len(),
        each(s, f)[i] == f(s[i].1),
{
}

/// A request for history is answered with what was found; without a memory, and where the
/// memory fails, with an error and its status.
pub proof fn law_history_is_answered(
    kind: HistoryKind,
    id: Seq<char>,
    found: Option<Result<(String, usize), String>>,
    r: JsonReply,
)
    requires
        is_history_reply(kind, id, found, r),
    ensures
        found is None ==> r.status == 503 && has_text(
            r.body@,
            json_string("Memory system is not enabled"@),
        ),
        found matches Some(Ok((items, n))) ==> r.status == 200 && has_text(r.body@, items@)
            && has_text(r.body@, json_string(id)),
        found matches Some(Err(e)) ==> (r.status == 404 <==> kind is Conversation) && (r.status
            == 500 <==> !(kind is Conversation)),
{
    match found {
        None => law_error_is_told_in_json("Memory system is not enabled"@),
        Some(Ok((items, n))) => law_history_tells_what_was_found(kind, id, items@, n as nat),
        Some(Err(e)) => law_history_failure_tells_why(kind, e@),
    }
}

/// A request keeps its own tools, in front, and gets every tool of every server that offers
/// its tools; where there are any, the model may call them.
pub proof fn law_request_gets_the_tools(
    before: ChatRequest,
    servers: Seq<ToolServer>,
    after: ChatRequest,
    i: int,
    k: int,
)
    requires
        has_tools_of(before, servers, after),
        0 <= i < servers.len(),
        servers[i].enable,
        servers[i].tools matches Some(v) && 0 <= k < v@.len(),
    ensures
        after.tools matches Some(t) && t@.contains(servers[i].tools->0@[k]),
        before.tools matches Some(v) ==> (after.tools matches Some(t) && t@.len() >= v@.len()
            && t@.take(v@.len() as int) == v@),
        after.tool_choice is Some && after.tool_choice != Some(ToolMode::Off),
        after.messages == before.messages,
{
    law_tools_of_servers_are_offered(servers, i, k);
    let x = servers[i].tools->0@[k];
    let more = offered(servers);
    let own = request_tools(before);
    let j = choose|j: int| 0 <= j < more.len() && more[j] == x;
    let all = request_tools(after);
    assert(all[own.len() + j] == x);
    if let Some(v) = before.tools {
        assert(all.take(v@.len() as int) =~= v@);
    }
}

/// Every model that a server has for a service is listed under that service, and nothing
/// else is.
pub proof fn law_models_are_listed_by_service(
    s: Seq<(String, ApiServer)>,
    r: ModelLists,
    m: String,
)
    requires
        lists_models(s, r),
    ensures
        r.chat@.contains(m) <==> exists|i: int|
            0 <= i < s.len() && (#[trigger] s[i]).1.chat_model == Some(m),
        r.embedding@.contains(m) <==> exists|i: int|
            0 <= i < s.len() && (#[trigger] s[i]).1.embedding_model == Some(m),
        r.image@.contains(m) <==> exists|i: int|
            0 <= i < s.len() && (#[trigger] s[i]).1.image_model == Some(m),
        r.tts@.contains(m) <==> exists|i: int|
            0 <= i < s.len() && (#[trigger] s[i]).1.tts_model == Some(m),
        r.translate@.contains(m) <==> exists|i: int|
            0 <= i < s.len() && (#[trigger] s[i]).1.translate_model == Some(m),
        r.transcribe@.contains(m) <==> exists|i: int|
            0 <= i < s.len() && (#[trigger] s[i]).1.transcribe_model == Some(m),
{
    lemma_listed(s, |x: ApiServer| x.chat_model, m);
    lemma_listed(s, |x: ApiServer| x.embedding_model, m);
    lemma_listed(s, |x: ApiServer| x.image_model, m);
    lemma_listed(s, |x: ApiServer| x.tts_model, m);
    lemma_listed(s, |x: ApiServer| x.translate_model, m);
    lemma_listed(s, |x: ApiServer| x.transcribe_model, m);
}

proof fn lemma_listed(
    s: Seq<(String, ApiServer)>,
    f: spec_fn(ApiServer) -> Option<String>,
    m: String,
)
    ensures
        present(each(s, f)).contains(m) <==> exists|i: int|
            0 <= i < s.len() && f((#[trigger] s[i]).1) == Some(m),
{
    let e = each(s, f);
    law_present_are_listed(e, m);
    if e.contains(Some(m)) {
        let i = choose|i: int| 0 <= i < e.len() && e[i] == Some(m);
        assert(f(s[i].1) == Some(m));
    }
    if exists|i: int| 0 <= i < s.len() && f((#[trigger] s[i]).1) == Some(m) {
        let i = choose|i: int| 0 <= i < s.len() && f((#[trigger] s[i]).1) == Some(m);
        assert(e[i] == Some(m));
    }
}

} // verus!
