//! Searches by keywords and by vectors, which MCP servers carry out.

use super::rerank::{
    first_of_each, remove_duplicates, told, unique_points, unique_told, FoundPoint, KwSearchHit,
    RagScoredPoint,
};
use crate::chat::message::{ChatMessage, ChatRequest, ToolMode, ToolSpec};
use crate::debug_text::{debug_str, str_debug};
use crate::error::ServerError;
use crate::json::{json_string, string_to_json};
use crate::text::{decimal, decimal_text, is_listed, join, join_text, list_has, same_text, texts};
use crate::text_map::TextMap;
use vstd::prelude::*;
use vstd::string::*;

verus! {

// ---------------------------------------------------------------------------
// Servers
// ---------------------------------------------------------------------------

/// The keyword search servers that are known.
#[derive(Debug, Clone, Copy, PartialEq, Eq, Structural)]
pub enum SearchServer {
    /// Documents in an index of their own.
    Keyword,
    /// Elasticsearch.
    Elastic,
    /// TiDB.
    Tidb,
}

/// The server that a client is named after.
pub open spec fn client_server(name: Seq<char>) -> Option<SearchServer> {
    if name == "gaia-keyword-search"@ {
        Some(SearchServer::Keyword)
    } else if name == "gaia-elastic-search"@ {
        Some(SearchServer::Elastic)
    } else if name == "gaia-tidb-search"@ {
        Some(SearchServer::Tidb)
    } else {
        None
    }
}

/// The server that gives itself this name.
pub open spec fn peer_server(name: Seq<char>) -> Option<SearchServer> {
    if name == "gaia-kwsearch-mcp-server"@ {
        Some(SearchServer::Keyword)
    } else if name == "gaia-elastic-mcp-server"@ {
        Some(SearchServer::Elastic)
    } else if name == "gaia-tidb-mcp-server"@ {
        Some(SearchServer::Tidb)
    } else {
        None
    }
}

/// The server that a client is named after.
pub fn server_of_client(name: &str) -> (r: Result<SearchServer, ServerError>)
    ensures
        match client_server(name@) {
            Some(s) => r == Ok::<SearchServer, ServerError>(s),
            None => r matches Err(e) && e.is_operation(
                "Unsupported keyword search mcp server: "@ + name@,
            ),
        },
{
    if same_text(name, "gaia-keyword-search") {
        Ok(SearchServer::Keyword)
    } else if same_text(name, "gaia-elastic-search") {
        Ok(SearchServer::Elastic)
    } else if same_text(name, "gaia-tidb-search") {
        Ok(SearchServer::Tidb)
    } else {
        let mut m = "Unsupported keyword search mcp server: ".to_owned();
        m.append(name);
        Err(ServerError::Operation(m))
    }
}

/// `r` is the server that a peer says it is.
pub open spec fn is_peer(name: Option<Seq<char>>, r: Result<SearchServer, ServerError>) -> bool {
    match name {
        None => r matches Err(e) && e.is_operation(
            "Failed to get the server info from MCP server"@,
        ),
        Some(n) => match peer_server(n) {
            Some(s) => r == Ok::<SearchServer, ServerError>(s),
            None => r matches Err(e) && e.is_operation("Unsupported MCP server: "@ + n),
        },
    }
}

/// The server that a peer says it is.
pub fn server_of_peer(name: &Option<String>) -> (r: Result<SearchServer, ServerError>)
    ensures
        is_peer(crate::pattern::opt_text(*name), r),
{
    match name {
        None => Err(ServerError::operation("Failed to get the server info from MCP server")),
        Some(n) => if same_text(n.as_str(), "gaia-kwsearch-mcp-server") {
            Ok(SearchServer::Keyword)
        } else if same_text(n.as_str(), "gaia-elastic-mcp-server") {
            Ok(SearchServer::Elastic)
        } else if same_text(n.as_str(), "gaia-tidb-mcp-server") {
            Ok(SearchServer::Tidb)
        } else {
            let mut m = "Unsupported MCP server: ".to_owned();
            m.append(n.as_str());
            Err(ServerError::Operation(m))
        },
    }
}

impl SearchServer {
    /// Whether the server is asked for keywords that the model extracts; otherwise it
    /// is asked for the text as it is.
    pub fn needs_keywords(self) -> (r: bool)
        ensures
            r == (self != SearchServer::Elastic),
    {
        match self {
            SearchServer::Elastic => false,
            _ => true,
        }
    }

    /// The error of a call that the model asked for and that failed for the reason `e`.
    pub fn call_error(self, e: &str) -> (r: ServerError)
        ensures
            r.is_operation(
                if self == SearchServer::Elastic {
                    "Failed to call the tool: "@ + e@
                } else {
                    e@
                },
            ),
    {
        match self {
            SearchServer::Elastic => {
                let mut m = "Failed to call the tool: ".to_owned();
                m.append(e);
                ServerError::Operation(m)
            },
            _ => ServerError::operation(e),
        }
    }
}

/// The error of a search that the gateway called itself and that failed for the reason `e`.
pub fn search_error(e: &str) -> (r: ServerError)
    ensures
        r.is_operation("Failed to call the tool: "@ + e@),
{
    SearchServer::Elastic.call_error(e)
}

// ---------------------------------------------------------------------------
// Calls
// ---------------------------------------------------------------------------

/// What a request says about where to search.
#[derive(Debug, Clone)]
pub struct SearchFields {
    pub kw_search_index: Option<String>,
    pub es_search_index: Option<String>,
    pub es_search_fields: Option<Vec<String>>,
    pub tidb_search_database: Option<String>,
    pub tidb_search_table: Option<String>,
}

/// A tool to be called with arguments, in JSON.
#[derive(Debug, Clone)]
pub struct SearchCall {
    pub tool: String,
    pub arguments: String,
}

/// A value that is there and not empty.
pub open spec fn given(s: Option<String>) -> Option<Seq<char>> {
    match s {
        Some(t) if t@.len() > 0 => Some(t@),
        _ => None,
    }
}

/// What is answered when a field is missing.
pub open spec fn missing_field(field: Seq<char>, server: Seq<char>) -> Seq<char> {
    "Not found `"@ + field + "` field in the request. `"@ + field + "` field is required for "@
        + server + ". "@
}

fn require(s: &Option<String>, field: &str, server: &str) -> (r: Result<String, ServerError>)
    ensures
        match given(*s) {
            Some(t) => r matches Ok(x) && x@ == t,
            None => r matches Err(e) && e.is_bad_request(missing_field(field@, server@)),
        },
{
    if let Some(t) = s {
        if !t.as_str().is_empty() {
            return Ok(t.clone());
        }
    }
    Err(missing_field_error(field, server))
}

fn missing_field_error(field: &str, server: &str) -> (r: ServerError)
    ensures
        r.is_bad_request(missing_field(field@, server@)),
{
    let mut m = "Not found `".to_owned();
    m.append(field);
    m.append("` field in the request. `");
    m.append(field);
    m.append("` field is required for ");
    m.append(server);
    m.append(". ");
    ServerError::BadRequest(m)
}

/// A JSON array of texts.
pub open spec fn json_texts(s: Seq<String>) -> Seq<char> {
    "["@ + join_text(s.map_values(|t: String| json_string(t@)), ","@) + "]"@
}

fn texts_to_json(v: &Vec<String>) -> (r: String)
    ensures
        r@ == json_texts(v@),
{
    let mut parts: Vec<String> = Vec::new();
    let mut i: usize = 0;
    while i < v.len()
        invariant
            i <= v@.len(),
            parts@.len() == i,
            forall|j: int| 0 <= j < i ==> (#[trigger] parts@[j])@ == json_string(v@[j]@),
        decreases v@.len() - i,
    {
        parts.push(string_to_json(v[i].as_str()));
        i = i + 1;
    }
    assert(texts(parts@) =~= v@.map_values(|t: String| json_string(t@)));
    let mut r = "[".to_owned();
    r.append(join(&parts, ",").as_str());
    r.append("]");
    r
}

/// The arguments of a search for documents.
pub open spec fn keyword_arguments(index: Seq<char>, query: Seq<char>, limit: u64) -> Seq<char> {
    "{\"index_name\":"@ + json_string(index) + ",\"limit\":"@ + decimal(limit as nat)
        + ",\"query\":"@ + json_string(query) + "}"@
}

/// The arguments of a search in Elasticsearch.
pub open spec fn elastic_arguments(index: Seq<char>, fields: Seq<String>, query: Seq<char>, limit: u64) -> Seq<
    char,
> {
    "{\"fields\":"@ + json_texts(fields) + ",\"index\":"@ + json_string(index) + ",\"query\":"@
        + json_string(query) + ",\"size\":"@ + decimal(limit as nat) + "}"@
}

/// The arguments of a search in TiDB.
pub open spec fn tidb_arguments(database: Seq<char>, table: Seq<char>, query: Seq<char>, limit: u64) -> Seq<
    char,
> {
    "{\"database\":"@ + json_string(database) + ",\"limit\":"@ + decimal(limit as nat)
        + ",\"query\":"@ + json_string(query) + ",\"table_name\":"@ + json_string(table) + "}"@
}

/// Some fields are named.
pub open spec fn fields_given(f: Option<Vec<String>>) -> bool {
    f matches Some(v) && v@.len() > 0
}

/// `r` is the call for a search, or the error that names the field that the request lacks.
pub open spec fn is_search_call(
    server: SearchServer,
    f: SearchFields,
    query: Seq<char>,
    limit: u64,
    r: Result<SearchCall, ServerError>,
) -> bool {
    match server {
        SearchServer::Keyword => match given(f.kw_search_index) {
            None => r matches Err(e) && e.is_bad_request(
                missing_field("kw_search_index"@, "kw-search-server"@),
            ),
            Some(index) => r matches Ok(c) && c.tool@ == "search_documents"@ && c.arguments@
                == keyword_arguments(index, query, limit),
        },
        SearchServer::Elastic => match given(f.es_search_index) {
            None => r matches Err(e) && e.is_bad_request(
                missing_field("es_search_index"@, "Elasticsearch server"@),
            ),
            Some(index) => if fields_given(f.es_search_fields) {
                r matches Ok(c) && c.tool@ == "search"@ && c.arguments@ == elastic_arguments(
                    index,
                    f.es_search_fields->0@,
                    query,
                    limit,
                )
            } else {
                r matches Err(e) && e.is_bad_request(
                    missing_field("es_search_fields"@, "Elasticsearch server"@),
                )
            },
        },
        SearchServer::Tidb => match given(f.tidb_search_database) {
            None => r matches Err(e) && e.is_bad_request(
                missing_field("tidb_search_database"@, "tidb-search-server"@),
            ),
            Some(database) => match given(f.tidb_search_table) {
                None => r matches Err(e) && e.is_bad_request(
                    missing_field("tidb_search_table"@, "tidb-search-server"@),
                ),
                Some(table) => r matches Ok(c) && c.tool@ == "search"@ && c.arguments@
                    == tidb_arguments(database, table, query, limit),
            },
        },
    }
}

/// The call for a search of at most `limit` hits, if the request says where to search.
pub fn search_call(server: SearchServer, fields: &SearchFields, query: &str, limit: u64) -> (r: Result<
    SearchCall,
    ServerError,
>)
    ensures
        is_search_call(server, *fields, query@, limit, r),
{
    match server {
        SearchServer::Keyword => match require(
            &fields.kw_search_index,
            "kw_search_index",
            "kw-search-server",
        ) {
            Err(e) => Err(e),
            Ok(index) => {
                let mut a = "{\"index_name\":".to_owned();
                a.append(string_to_json(index.as_str()).as_str());
                a.append(",\"limit\":");
                a.append(decimal_text(limit).as_str());
                a.append(",\"query\":");
                a.append(string_to_json(query).as_str());
                a.append("}");
                Ok(SearchCall { tool: "search_documents".to_owned(), arguments: a })
            },
        },
        SearchServer::Elastic => match require(
            &fields.es_search_index,
            "es_search_index",
            "Elasticsearch server",
        ) {
            Err(e) => Err(e),
            Ok(index) => {
                if let Some(v) = &fields.es_search_fields {
                    if v.len() > 0 {
                        let mut a = "{\"fields\":".to_owned();
                        a.append(texts_to_json(v).as_str());
                        a.append(",\"index\":");
                        a.append(string_to_json(index.as_str()).as_str());
                        a.append(",\"query\":");
                        a.append(string_to_json(query).as_str());
                        a.append(",\"size\":");
                        a.append(decimal_text(limit).as_str());
                        a.append("}");
                        return Ok(SearchCall { tool: "search".to_owned(), arguments: a });
                    }
                }
                Err(missing_field_error("es_search_fields", "Elasticsearch server"))
            },
        },
        SearchServer::Tidb => match require(
            &fields.tidb_search_database,
            "tidb_search_database",
            "tidb-search-server",
        ) {
            Err(e) => Err(e),
            Ok(database) => match require(
                &fields.tidb_search_table,
                "tidb_search_table",
                "tidb-search-server",
            ) {
                Err(e) => Err(e),
                Ok(table) => {
                    let mut a = "{\"database\":".to_owned();
                    a.append(string_to_json(database.as_str()).as_str());
                    a.append(",\"limit\":");
                    a.append(decimal_text(limit).as_str());
                    a.append(",\"query\":");
                    a.append(string_to_json(query).as_str());
                    a.append(",\"table_name\":");
                    a.append(string_to_json(table.as_str()).as_str());
                    a.append("}");
                    Ok(SearchCall { tool: "search".to_owned(), arguments: a })
                },
            },
        },
    }
}

// ---------------------------------------------------------------------------
// Hits
// ---------------------------------------------------------------------------

/// A hit of a server that gives a title and a content where it has them.
#[derive(Debug, Clone)]
pub struct RawHit {
    pub title: Option<String>,
    pub content: Option<String>,
    /// The score, as its bits.
    pub score: u64,
}

/// The title and the content are there.
pub open spec fn is_complete(h: RawHit) -> bool {
    h.title is Some && h.content is Some
}

/// `r` is the hit `h` of the server. TiDB gives no scores: its hits have 0.
pub open spec fn is_hit(server: SearchServer, h: RawHit, r: KwSearchHit) -> bool {
    r == (KwSearchHit {
        title: h.title->0,
        content: h.content->0,
        score: if server == SearchServer::Tidb {
            0
        } else {
            h.score
        },
    })
}

/// `r` are the hits of the server, in order.
pub open spec fn are_hits(server: SearchServer, found: Seq<RawHit>, r: Seq<KwSearchHit>) -> bool {
    &&& r.len() == found.len()
    &&& forall|i: int| 0 <= i < found.len() ==> is_hit(server, found[i], #[trigger] r[i])
}

/// The hits of a server.
pub fn search_hits(server: SearchServer, found: &Vec<RawHit>) -> (r: Vec<KwSearchHit>)
    requires
        forall|i: int| 0 <= i < found@.len() ==> is_complete(#[trigger] found@[i]),
    ensures
        r@.len() == found@.len(),
        forall|i: int| 0 <= i < found@.len() ==> is_hit(server, found@[i], #[trigger] r@[i]),
        are_hits(server, found@, r@),
{
    let mut r: Vec<KwSearchHit> = Vec::new();
    let mut i: usize = 0;
    while i < found.len()
        invariant
            i <= found@.len(),
            r@.len() == i,
            forall|k: int| 0 <= k < found@.len() ==> is_complete(#[trigger] found@[k]),
            forall|k: int| 0 <= k < i ==> is_hit(server, found@[k], #[trigger] r@[k]),
        decreases found@.len() - i,
    {
        assert(is_complete(found@[i as int]));
        if let Some(title) = &found[i].title {
            if let Some(content) = &found[i].content {
                let score: u64 = match server {
                    SearchServer::Tidb => 0,
                    _ => found[i].score,
                };
                r.push(KwSearchHit { title: title.clone(), content: content.clone(), score });
            }
        }
        i = i + 1;
    }
    r
}

/// What comes of a keyword search: its hits; none where no client offers the tool;
/// otherwise the error, with the request that it belongs to.
pub fn search_outcome(found: Result<Vec<KwSearchHit>, ServerError>, request_id: &str) -> (r: Result<
    Vec<KwSearchHit>,
    ServerError,
>)
    ensures
        match found {
            Ok(v) => r == Ok::<Vec<KwSearchHit>, ServerError>(v),
            Err(ServerError::McpNotFoundClient) => r matches Ok(v) && v@.len() == 0,
            Err(e) => r matches Err(x) && x.is_operation(
                "Failed to call MCP server: "@ + e.words() + " - request_id: "@ + request_id@,
            ),
        },
{
    match found {
        Ok(v) => Ok(v),
        Err(ServerError::McpNotFoundClient) => Ok(Vec::new()),
        Err(e) => {
            let mut m = "Failed to call MCP server: ".to_owned();
            m.append(e.message().as_str());
            m.append(" - request_id: ");
            m.append(request_id);
            Err(ServerError::Operation(m))
        },
    }
}

// ---------------------------------------------------------------------------
// Keywords by the model
// ---------------------------------------------------------------------------

/// The request for keywords and a search with them; `quoted` is the question, quoted.
pub fn search_prompt_for(quoted: &str) -> (r: String)
    ensures
        r@ == SEARCH_PROMPT@ + quoted@,
{
    let mut r = SEARCH_PROMPT.to_owned();
    r.append(quoted);
    r
}

/// What asks for keywords and a search with them.
pub const SEARCH_PROMPT: &'static str =
    "Please extract 3 to 5 keywords from my question, separated by spaces. Then, try to return a tool call that invokes the keyword search tool.\n\nMy question is: ";

/// What asks for keywords.
pub const KEYWORDS_PROMPT: &'static str =
    "You are a multilingual keyword extractor. Your task is to extract the most relevant and concise keywords or key phrases from the given user query. The keywords should satisfying the following requirements:\n- Detect the language of the query automatically.\n- Return 3 to 7 keywords or keyphrases that best represent the query's core intent.\n- Keep the extracted keywords in the **original language** (do not translate).\n- Include **multi-word expressions** if they convey meaningful concepts.\n- The keywords should be separated by spaces.\n- Avoid stop words, filler words, or overly generic terms.\n\n### Input Query\n";

/// The request for keywords and a search with them.
pub fn keyword_search_prompt(question: &str) -> (r: String)
    ensures
        r@ == SEARCH_PROMPT@ + debug_str(question@),
{
    search_prompt_for(str_debug(question).as_str())
}

/// The request for keywords.
pub fn extract_keywords_prompt(text: &str) -> (r: String)
    ensures
        r@ == KEYWORDS_PROMPT@ + debug_str(text@),
{
    let mut r = KEYWORDS_PROMPT.to_owned();
    r.append(str_debug(text).as_str());
    r
}

/// Who asks, which a keyword search has to know.
pub fn require_user(user: &Option<String>) -> (r: Result<String, ServerError>)
    ensures
        match *user {
            Some(u) => r == Ok::<String, ServerError>(u),
            None => r matches Err(e) && e.is_operation("User ID is not found in the request"@),
        },
{
    match user {
        Some(u) => Ok(u.clone()),
        None => Err(ServerError::operation("User ID is not found in the request")),
    }
}

/// `q` asks the model for keywords of the question, and a search with them by these tools.
pub open spec fn is_asking_for_keywords(
    user: Seq<char>,
    question: Seq<char>,
    tools: Seq<ToolSpec>,
    q: ChatRequest,
) -> bool {
    &&& q.messages@.len() == 1
    &&& q.messages@[0].is_user_text(SEARCH_PROMPT@ + debug_str(question))
    &&& crate::pattern::opt_text(q.user) == Some(user)
    &&& q.tools matches Some(v) && v@ == tools
    &&& q.tool_choice == Some(ToolMode::Auto)
}

/// The request that asks the model for keywords and a search with them, on behalf of a
/// user, with the tools of the search server.
pub fn keyword_request(user: &Option<String>, question: &str, tools: Vec<ToolSpec>) -> (r: Result<
    ChatRequest,
    ServerError,
>)
    ensures
        match *user {
            None => r matches Err(e) && e.is_operation("User ID is not found in the request"@),
            Some(u) => r matches Ok(q) && q.model is None && q.messages@.len() == 1
                && q.messages@[0].is_user_text(SEARCH_PROMPT@ + debug_str(question@)) && q.stream
                is None && q.user == Some(u) && q.tools == Some(tools) && q.tool_choice == Some(
                ToolMode::Auto,
            ),
        },
        user matches Some(u) ==> (r matches Ok(q) && is_asking_for_keywords(
            u@,
            question@,
            tools@,
            q,
        )),
{
    match require_user(user) {
        Err(e) => Err(e),
        Ok(u) => {
            let mut messages: Vec<ChatMessage> = Vec::new();
            messages.push(ChatMessage::user(keyword_search_prompt(question)));
            Ok(
                ChatRequest {
                    model: None,
                    messages,
                    stream: None,
                    user: Some(u),
                    tools: Some(tools),
                    tool_choice: Some(ToolMode::Auto),
                },
            )
        },
    }
}

/// A tool is allowed: there is no list of allowed ones, it is empty, or the tool is in it.
pub open spec fn is_allowed(name: Seq<char>, allowed: Option<Vec<String>>) -> bool {
    match allowed {
        None => true,
        Some(v) => v@.len() == 0 || is_listed(v@, name),
    }
}

fn allows(name: &str, allowed: &Option<Vec<String>>) -> (r: bool)
    ensures
        r == is_allowed(name@, *allowed),
{
    match allowed {
        None => true,
        Some(v) => v.len() == 0 || list_has(v, name),
    }
}

/// The tools that are allowed, in order.
pub fn allowed_tools(tools: &Vec<ToolSpec>, allowed: &Option<Vec<String>>) -> (r: Vec<ToolSpec>)
    ensures
        r@ == tools@.filter(|t: ToolSpec| is_allowed(t.name@, *allowed)),
{
    let ghost p = |t: ToolSpec| is_allowed(t.name@, *allowed);
    let mut r: Vec<ToolSpec> = Vec::new();
    let mut i: usize = 0;
    assert(tools@.take(0).filter(p) =~= Seq::empty()) by {
        reveal(Seq::filter);
    }
    while i < tools.len()
        invariant
            i <= tools@.len(),
            p == (|t: ToolSpec| is_allowed(t.name@, *allowed)),
            r@ == tools@.take(i as int).filter(p),
        decreases tools@.len() - i,
    {
        proof {
            assert(tools@.take(i + 1).drop_last() =~= tools@.take(i as int));
            reveal(Seq::filter);
        }
        if allows(tools[i].name.as_str(), allowed) {
            r.push(tools[i].copy());
        }
        i = i + 1;
    }
    assert(tools@.take(tools@.len() as int) =~= tools@);
    r
}

/// Whether the model's answer asks for a tool, by its header.
pub fn requires_tool_call(header: &Option<String>) -> (r: bool)
    requires
        header matches Some(h) ==> h@ == "true"@ || h@ == "false"@,
    ensures
        r == (header matches Some(h) && h@ == "true"@),
{
    match header {
        Some(h) => same_text(h.as_str(), "true"),
        None => false,
    }
}

// ---------------------------------------------------------------------------
// Clients of users
// ---------------------------------------------------------------------------

/// The tools of each user, with the client that offers each.
pub type UserTools = TextMap<TextMap<String>>;

/// The clients of each user, with the name that each peer gives itself.
pub type UserClients = TextMap<TextMap<Option<String>>>;

/// `r` is the client of the user that offers the tool, with its server; or what is
/// missing: the user, the tools, the tool, the clients, the client, or a known server.
pub open spec fn is_user_client(
    user: Option<String>,
    tool: Seq<char>,
    tools: Option<&UserTools>,
    clients: Option<&UserClients>,
    r: Result<(String, SearchServer), ServerError>,
) -> bool {
    match (user, tools) {
        (None, _) => r matches Err(e) && e.is_operation("User ID is not found in the request"@),
        (Some(u), None) => r matches Err(e) && e.is_operation(
            "USER_TO_MCP_TOOLS is empty or not initialized"@,
        ),
        (Some(u), Some(t)) => if !t@.dom().contains(u@) {
            r matches Err(e) && e.is_operation("Not found the user ID in USER_TO_MCP_TOOLS"@)
        } else if !t@[u@]@.dom().contains(tool) {
            r == Err::<(String, SearchServer), ServerError>(ServerError::McpNotFoundClient)
        } else {
            let client = t@[u@]@[tool];
            match clients {
                None => r matches Err(e) && e.is_operation(
                    "USER_TO_MCP_CLIENTS is empty or not initialized"@,
                ),
                Some(c) => if !c@.dom().contains(u@) {
                    r matches Err(e) && e.is_operation(
                        "Not found the user ID in USER_TO_MCP_CLIENTS"@,
                    )
                } else if !c@[u@]@.dom().contains(client@) {
                    r matches Err(e) && e.is_operation(
                        "Not found the MCP client name `"@ + client@ + "` in USER_TO_MCP_CLIENTS"@,
                    )
                } else {
                    exists|s: Result<SearchServer, ServerError>| #[trigger]
                        is_peer(crate::pattern::opt_text(c@[u@]@[client@]), s) && r == match s {
                            Ok(server) => Ok((client, server)),
                            Err(e) => Err(e),
                        }
                },
            }
        },
    }
}

/// The client of the user that offers the tool, with its server.
pub fn find_user_client(
    user: &Option<String>,
    tool: &str,
    tools: Option<&UserTools>,
    clients: Option<&UserClients>,
) -> (r: Result<(String, SearchServer), ServerError>)
    ensures
        is_user_client(*user, tool@, tools, clients, r),
{
    let user = match user {
        None => return Err(ServerError::operation("User ID is not found in the request")),
        Some(u) => u,
    };
    let tools = match tools {
        None => return Err(
            ServerError::operation("USER_TO_MCP_TOOLS is empty or not initialized"),
        ),
        Some(t) => t,
    };
    let own_tools = match tools.get(user.as_str()) {
        None => return Err(ServerError::operation("Not found the user ID in USER_TO_MCP_TOOLS")),
        Some(t) => t,
    };
    let client = match own_tools.get(tool) {
        None => return Err(ServerError::McpNotFoundClient),
        Some(c) => c,
    };
    let clients = match clients {
        None => return Err(
            ServerError::operation("USER_TO_MCP_CLIENTS is empty or not initialized"),
        ),
        Some(c) => c,
    };
    let own_clients = match clients.get(user.as_str()) {
        None => return Err(
            ServerError::operation("Not found the user ID in USER_TO_MCP_CLIENTS"),
        ),
        Some(c) => c,
    };
    match own_clients.get(client.as_str()) {
        None => {
            let mut m = "Not found the MCP client name `".to_owned();
            m.append(client.as_str());
            m.append("` in USER_TO_MCP_CLIENTS");
            Err(ServerError::Operation(m))
        },
        Some(peer) => {
            let s = server_of_peer(peer);
            let ghost g = s;
            assert(is_peer(crate::pattern::opt_text(*peer), g));
            match s {
                Ok(server) => Ok((client.clone(), server)),
                Err(e) => Err(e),
            }
        },
    }
}

/// Forgets the tools and the clients of a user.
pub fn forget_user(tools: &mut UserTools, clients: &mut UserClients, user: &str)
    ensures
        final(tools)@ == old(tools)@.remove(user@),
        final(clients)@ == old(clients)@.remove(user@),
{
    let _ = tools.remove(user);
    let _ = clients.remove(user);
}

/// Ends a keyword search of a user: gives what comes of it, and forgets the tools and the
/// clients of the user where they are done with. `found` is what the search gave, `None`
/// where the model asked for no tool. After hits, and without a tool call, the user's
/// tools and clients are forgotten. After an error they stay, and also where no client
/// offers the tool.
pub fn end_user_search(
    found: Option<Result<Vec<KwSearchHit>, ServerError>>,
    user: &str,
    tools: &mut UserTools,
    clients: &mut UserClients,
    request_id: &str,
) -> (r: Result<Vec<KwSearchHit>, ServerError>)
    ensures
        match found {
            Some(Err(_)) => final(tools)@ == old(tools)@ && final(clients)@ == old(clients)@,
            _ => final(tools)@ == old(tools)@.remove(user@) && final(clients)@ == old(
                clients,
            )@.remove(user@),
        },
        match found {
            None => r matches Ok(v) && v@.len() == 0,
            Some(Ok(hits)) => r == Ok::<Vec<KwSearchHit>, ServerError>(hits),
            Some(Err(ServerError::McpNotFoundClient)) => r matches Ok(v) && v@.len() == 0,
            Some(Err(e)) => r matches Err(x) && x.is_operation(
                "Failed to call MCP server: "@ + e.words() + " - request_id: "@ + request_id@,
            ),
        },
{
    match found {
        None => {
            forget_user(tools, clients, user);
            Ok(Vec::new())
        },
        Some(Ok(hits)) => {
            forget_user(tools, clients, user);
            Ok(hits)
        },
        Some(Err(e)) => search_outcome(Err(e), request_id),
    }
}

// ---------------------------------------------------------------------------
// Vectors
// ---------------------------------------------------------------------------

/// What comes of a vector search: its points, each source once; nothing (`None`) where
/// there are no points; an error where there is no client (`None`) or the call failed.
pub fn vector_hits(found: Option<Result<Vec<FoundPoint>, String>>) -> (r: Result<
    Option<Vec<RagScoredPoint>>,
    ServerError,
>)
    ensures
        match found {
            None => r matches Err(e) && e.is_operation(
                "No point retrieved. No vector search mcp client available"@,
            ),
            Some(Err(m)) => r matches Err(e) && e.is_operation(
                "No point retrieved. Failed to call the search_points tool: "@ + m@,
            ),
            Some(Ok(v)) => exists|points: Seq<RagScoredPoint>| #[trigger]
                told(points) == unique_told(v@) && match r {
                    Ok(Some(p)) => points.len() > 0 && p@ == first_of_each(points),
                    Ok(None) => points.len() == 0,
                    Err(_) => false,
                },
        },
{
    match found {
        None => Err(
            ServerError::operation("No point retrieved. No vector search mcp client available"),
        ),
        Some(Err(m)) => {
            let mut t = "No point retrieved. Failed to call the search_points tool: ".to_owned();
            t.append(m.as_str());
            Err(ServerError::Operation(t))
        },
        Some(Ok(v)) => {
            let points = unique_points(&v);
            assert(told(points@) == unique_told(v@));
            Ok(remove_duplicates(&points))
        },
    }
}

/// The arguments that say which collection of which server is meant.
pub open spec fn collection_arguments(url: Seq<char>, key: Seq<char>, name: Seq<char>) -> Seq<char> {
    (if key.len() == 0 {
        "{"@
    } else {
        "{\"api_key\":"@ + json_string(key) + ","@
    }) + "\"base_url\":"@ + json_string(url) + ",\"name\":"@ + json_string(name)
}

fn collection_head(url: &str, key: &str, name: &str) -> (r: String)
    ensures
        r@ == collection_arguments(url@, key@, name@),
{
    let mut a = "{".to_owned();
    if !key.is_empty() {
        a = "{\"api_key\":".to_owned();
        a.append(string_to_json(key).as_str());
        a.append(",");
    }
    a.append("\"base_url\":");
    a.append(string_to_json(url).as_str());
    a.append(",\"name\":");
    a.append(string_to_json(name).as_str());
    a
}

/// `r` creates a collection of vectors with `dim` dimensions.
pub open spec fn is_creation(url: Seq<char>, key: Seq<char>, name: Seq<char>, dim: nat, r: SearchCall) -> bool {
    &&& r.tool@ == "create_collection"@
    &&& r.arguments@ == collection_arguments(url, key, name) + ",\"size\":"@ + decimal(dim) + "}"@
}

/// The call that creates a collection of vectors with `dim` dimensions. A server
/// without a key is not sent one.
pub fn create_collection_call(url: &str, key: &str, name: &str, dim: usize) -> (r: SearchCall)
    ensures
        r.tool@ == "create_collection"@,
        r.arguments@ == collection_arguments(url@, key@, name@) + ",\"size\":"@ + decimal(dim as nat)
            + "}"@,
        is_creation(url@, key@, name@, dim as nat, r),
{
    let mut a = collection_head(url, key, name);
    a.append(",\"size\":");
    a.append(decimal_text(dim as u64).as_str());
    a.append("}");
    SearchCall { tool: "create_collection".to_owned(), arguments: a }
}

/// What comes of the creation of a collection; `None` where there is no client.
pub fn create_collection_outcome(created: Option<bool>, name: &str) -> (r: Result<(), ServerError>)
    ensures
        match created {
            Some(true) => r is Ok,
            Some(false) => r matches Err(e) && e.is_operation(
                "Failed to create collection `"@ + name@ + "`"@,
            ),
            None => r matches Err(e) && e.is_operation("No vector search mcp client found"@),
        },
{
    match created {
        None => Err(ServerError::operation("No vector search mcp client found")),
        Some(b) => if b {
            Ok(())
        } else {
            let mut m = "Failed to create collection `".to_owned();
            m.append(name);
            m.append("`");
            Err(ServerError::Operation(m))
        },
    }
}

/// The points of embeddings, each with its identifier, its vector in JSON and the
/// chunk that it stands for.
pub open spec fn point_json(index: u64, vector: Seq<char>, chunk: Seq<char>) -> Seq<char> {
    "{\"id\":"@ + decimal(index as nat) + ",\"payload\":{\"source\":"@ + json_string(chunk)
        + "},\"vector\":"@ + vector + "}"@
}

/// The points that are stored, each in JSON.
pub open spec fn points_stored(embeddings: Seq<(u64, String)>, chunks: Seq<String>) -> Seq<Seq<char>> {
    embeddings.map_values(|e: (u64, String)| point_json(e.0, e.1@, chunks[e.0 as int]@))
}

/// `r` stores the embeddings of the chunks.
pub open spec fn is_storing(
    url: Seq<char>,
    key: Seq<char>,
    name: Seq<char>,
    embeddings: Seq<(u64, String)>,
    chunks: Seq<String>,
    r: SearchCall,
) -> bool {
    &&& r.tool@ == "upsert_points"@
    &&& r.arguments@ == collection_arguments(url, key, name) + ",\"points\":["@ + join_text(
        points_stored(embeddings, chunks),
        ","@,
    ) + "]}"@
}

/// The call that stores embeddings: each is its chunk's position and its vector, a
/// JSON array.
pub fn persist_embeddings_call(
    url: &str,
    key: &str,
    name: &str,
    embeddings: &Vec<(u64, String)>,
    chunks: &Vec<String>,
) -> (r: SearchCall)
    requires
        forall|i: int|
            0 <= i < embeddings@.len() ==> (#[trigger] embeddings@[i]).0 < chunks@.len(),
    ensures
        r.tool@ == "upsert_points"@,
        r.arguments@ == collection_arguments(url@, key@, name@) + ",\"points\":["@ + join_text(
            embeddings@.map_values(
                |e: (u64, String)| point_json(e.0, e.1@, chunks@[e.0 as int]@),
            ),
            ","@,
        ) + "]}"@,
        is_storing(url@, key@, name@, embeddings@, chunks@, r),
{
    let ghost f = |e: (u64, String)| point_json(e.0, e.1@, chunks@[e.0 as int]@);
    let n: usize = chunks.len();
    let mut points: Vec<String> = Vec::new();
    let mut i: usize = 0;
    while i < embeddings.len()
        invariant
            i <= embeddings@.len(),
            n == chunks@.len(),
            f == (|e: (u64, String)| point_json(e.0, e.1@, chunks@[e.0 as int]@)),
            forall|k: int|
                0 <= k < embeddings@.len() ==> (#[trigger] embeddings@[k]).0 < chunks@.len(),
            points@.len() == i,
            forall|k: int| 0 <= k < i ==> (#[trigger] points@[k])@ == f(embeddings@[k]),
        decreases embeddings@.len() - i,
    {
        let index: u64 = embeddings[i].0;
        assert(index < chunks@.len());
        let mut p = "{\"id\":".to_owned();
        p.append(decimal_text(index).as_str());
        p.append(",\"payload\":{\"source\":");
        p.append(string_to_json(chunks[index as usize].as_str()).as_str());
        p.append("},\"vector\":");
        p.append(embeddings[i].1.as_str());
        p.append("}");
        points.push(p);
        i = i + 1;
    }
    assert(texts(points@) =~= embeddings@.map_values(f));
    let mut a = collection_head(url, key, name);
    a.append(",\"points\":[");
    a.append(join(&points, ",").as_str());
    a.append("]}");
    SearchCall { tool: "upsert_points".to_owned(), arguments: a }
}

} // verus!
