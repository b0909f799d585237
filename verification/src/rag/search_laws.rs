//! What holds of the calls that searches are made with, and of what they find.

use super::rerank::KwSearchHit;
use super::search::{
    are_hits, client_server, collection_arguments, elastic_arguments, given, is_allowed,
    is_asking_for_keywords, is_creation, is_hit, is_peer, is_search_call, is_storing,
    is_user_client, json_texts, keyword_arguments, missing_field, peer_server, point_json,
    points_stored, tidb_arguments, RawHit, SearchCall, SearchFields, SearchServer, UserClients,
    UserTools, SEARCH_PROMPT,
};
use crate::chat::message::{ChatMessage, ChatRequest, ToolMode, ToolSpec, UserContent};
use crate::debug_text::debug_str;
use crate::error::ServerError;
use crate::json::json_string;
use crate::text::{
    decimal, has_text, lemma_has_end, lemma_has_middle, lemma_has_part, lemma_has_start,
    lemma_text_in_text,
};
use vstd::prelude::*;
use vstd::string::*;

verus! {

// ---------------------------------------------------------------------------
// What a server is asked
// ---------------------------------------------------------------------------

/// A call for a search asks for exactly the question and the number of hits, whatever the
/// server.
pub proof fn law_search_asks_the_question(
    server: SearchServer,
    f: SearchFields,
    query: Seq<char>,
    limit: u64,
    c: SearchCall,
)
    requires
        is_search_call(server, f, query, limit, Ok(c)),
    ensures
        has_text(c.arguments@, "\"query\":"@ + json_string(query)),
        server == SearchServer::Elastic ==> has_text(
            c.arguments@,
            "\"size\":"@ + decimal(limit as nat),
        ) && c.tool@ == "search"@,
        server == SearchServer::Keyword ==> has_text(
            c.arguments@,
            "\"limit\":"@ + decimal(limit as nat),
        ) && c.tool@ == "search_documents"@,
        server == SearchServer::Tidb ==> has_text(
            c.arguments@,
            "\"limit\":"@ + decimal(limit as nat),
        ) && c.tool@ == "search"@,
{
    match server {
        SearchServer::Keyword => lemma_keyword(given(f.kw_search_index)->0, query, limit),
        SearchServer::Elastic => lemma_elastic(
            given(f.es_search_index)->0,
            f.es_search_fields->0@,
            query,
            limit,
        ),
        SearchServer::Tidb => lemma_tidb(
            given(f.tidb_search_database)->0,
            given(f.tidb_search_table)->0,
            query,
            limit,
        ),
    }
}

proof fn lemma_keyword(index: Seq<char>, query: Seq<char>, limit: u64)
    ensures
        has_text(keyword_arguments(index, query, limit), "\"query\":"@ + json_string(query)),
        has_text(keyword_arguments(index, query, limit), "\"limit\":"@ + decimal(limit as nat)),
        has_text(keyword_arguments(index, query, limit), "\"index_name\":"@ + json_string(index)),
{
    reveal_strlit("{\"index_name\":");
    reveal_strlit("\"index_name\":");
    reveal_strlit(",\"limit\":");
    reveal_strlit("\"limit\":");
    reveal_strlit(",\"query\":");
    reveal_strlit("\"query\":");
    reveal_strlit("}");
    let s = keyword_arguments(index, query, limit);
    let (i, n, q) = (json_string(index), decimal(limit as nat), json_string(query));
    assert("{\"index_name\":"@ =~= seq!['{'] + "\"index_name\":"@);
    assert(",\"limit\":"@ =~= seq![','] + "\"limit\":"@);
    assert(",\"query\":"@ =~= seq![','] + "\"query\":"@);
    let b2 = ",\"limit\":"@ + n + ",\"query\":"@ + q + "}"@;
    assert(s =~= seq!['{'] + ("\"index_name\":"@ + i) + b2);
    lemma_has_middle(seq!['{'], "\"index_name\":"@ + i, b2);
    let a = "{\"index_name\":"@ + i + seq![','];
    let b = ",\"query\":"@ + q + "}"@;
    assert(s =~= a + ("\"limit\":"@ + n) + b);
    lemma_has_middle(a, "\"limit\":"@ + n, b);
    let a3 = "{\"index_name\":"@ + i + ",\"limit\":"@ + n + seq![','];
    assert(s =~= a3 + ("\"query\":"@ + q) + "}"@);
    lemma_has_middle(a3, "\"query\":"@ + q, "}"@);
}

proof fn lemma_elastic(index: Seq<char>, fields: Seq<String>, query: Seq<char>, limit: u64)
    ensures
        has_text(elastic_arguments(index, fields, query, limit), "\"query\":"@ + json_string(query)),
        has_text(
            elastic_arguments(index, fields, query, limit),
            "\"size\":"@ + decimal(limit as nat),
        ),
        has_text(elastic_arguments(index, fields, query, limit), "\"index\":"@ + json_string(index)),
        has_text(elastic_arguments(index, fields, query, limit), "\"fields\":"@ + json_texts(fields)),
{
    reveal_strlit("{\"fields\":");
    reveal_strlit("\"fields\":");
    reveal_strlit(",\"index\":");
    reveal_strlit("\"index\":");
    reveal_strlit(",\"query\":");
    reveal_strlit("\"query\":");
    reveal_strlit(",\"size\":");
    reveal_strlit("\"size\":");
    reveal_strlit("}");
    let s = elastic_arguments(index, fields, query, limit);
    let f = json_texts(fields);
    let (i, n, q) = (json_string(index), decimal(limit as nat), json_string(query));
    assert("{\"fields\":"@ =~= seq!['{'] + "\"fields\":"@);
    assert(",\"index\":"@ =~= seq![','] + "\"index\":"@);
    assert(",\"query\":"@ =~= seq![','] + "\"query\":"@);
    assert(",\"size\":"@ =~= seq![','] + "\"size\":"@);
    let b1 = ",\"index\":"@ + i + ",\"query\":"@ + q + ",\"size\":"@ + n + "}"@;
    assert(s =~= seq!['{'] + ("\"fields\":"@ + f) + b1);
    lemma_has_middle(seq!['{'], "\"fields\":"@ + f, b1);
    let a2 = "{\"fields\":"@ + f + seq![','];
    let b2 = ",\"query\":"@ + q + ",\"size\":"@ + n + "}"@;
    assert(s =~= a2 + ("\"index\":"@ + i) + b2);
    lemma_has_middle(a2, "\"index\":"@ + i, b2);
    let a3 = "{\"fields\":"@ + f + ",\"index\":"@ + i + seq![','];
    let b3 = ",\"size\":"@ + n + "}"@;
    assert(s =~= a3 + ("\"query\":"@ + q) + b3);
    lemma_has_middle(a3, "\"query\":"@ + q, b3);
    let a4 = "{\"fields\":"@ + f + ",\"index\":"@ + i + ",\"query\":"@ + q + seq![','];
    assert(s =~= a4 + ("\"size\":"@ + n) + "}"@);
    lemma_has_middle(a4, "\"size\":"@ + n, "}"@);
}

proof fn lemma_tidb(database: Seq<char>, table: Seq<char>, query: Seq<char>, limit: u64)
    ensures
        has_text(tidb_arguments(database, table, query, limit), "\"query\":"@ + json_string(query)),
        has_text(
            tidb_arguments(database, table, query, limit),
            "\"limit\":"@ + decimal(limit as nat),
        ),
        has_text(
            tidb_arguments(database, table, query, limit),
            "\"database\":"@ + json_string(database),
        ),
        has_text(
            tidb_arguments(database, table, query, limit),
            "\"table_name\":"@ + json_string(table),
        ),
{
    reveal_strlit("{\"database\":");
    reveal_strlit("\"database\":");
    reveal_strlit(",\"limit\":");
    reveal_strlit("\"limit\":");
    reveal_strlit(",\"query\":");
    reveal_strlit("\"query\":");
    reveal_strlit(",\"table_name\":");
    reveal_strlit("\"table_name\":");
    reveal_strlit("}");
    let s = tidb_arguments(database, table, query, limit);
    let (d, t) = (json_string(database), json_string(table));
    let (n, q) = (decimal(limit as nat), json_string(query));
    assert("{\"database\":"@ =~= seq!['{'] + "\"database\":"@);
    assert(",\"limit\":"@ =~= seq![','] + "\"limit\":"@);
    assert(",\"query\":"@ =~= seq![','] + "\"query\":"@);
    assert(",\"table_name\":"@ =~= seq![','] + "\"table_name\":"@);
    let b1 = ",\"limit\":"@ + n + ",\"query\":"@ + q + ",\"table_name\":"@ + t + "}"@;
    assert(s =~= seq!['{'] + ("\"database\":"@ + d) + b1);
    lemma_has_middle(seq!['{'], "\"database\":"@ + d, b1);
    let a2 = "{\"database\":"@ + d + seq![','];
    let b2 = ",\"query\":"@ + q + ",\"table_name\":"@ + t + "}"@;
    assert(s =~= a2 + ("\"limit\":"@ + n) + b2);
    lemma_has_middle(a2, "\"limit\":"@ + n, b2);
    let a3 = "{\"database\":"@ + d + ",\"limit\":"@ + n + seq![','];
    let b3 = ",\"table_name\":"@ + t + "}"@;
    assert(s =~= a3 + ("\"query\":"@ + q) + b3);
    lemma_has_middle(a3, "\"query\":"@ + q, b3);
    let a4 = "{\"database\":"@ + d + ",\"limit\":"@ + n + ",\"query\":"@ + q + seq![','];
    assert(s =~= a4 + ("\"table_name\":"@ + t) + "}"@);
    lemma_has_middle(a4, "\"table_name\":"@ + t, "}"@);
}

/// A call for a search says where to search, as the request does.
pub proof fn law_search_says_where(
    server: SearchServer,
    f: SearchFields,
    query: Seq<char>,
    limit: u64,
    c: SearchCall,
)
    requires
        is_search_call(server, f, query, limit, Ok(c)),
    ensures
        server == SearchServer::Keyword ==> (f.kw_search_index matches Some(i) && has_text(
            c.arguments@,
            "\"index_name\":"@ + json_string(i@),
        )),
        server == SearchServer::Elastic ==> (f.es_search_index matches Some(i) && has_text(
            c.arguments@,
            "\"index\":"@ + json_string(i@),
        )) && (f.es_search_fields matches Some(v) && forall|k: int|
            0 <= k < v@.len() ==> has_text(c.arguments@, json_string((#[trigger] v@[k])@))),
        server == SearchServer::Tidb ==> (f.tidb_search_database matches Some(d) && has_text(
            c.arguments@,
            "\"database\":"@ + json_string(d@),
        )) && (f.tidb_search_table matches Some(t) && has_text(
            c.arguments@,
            "\"table_name\":"@ + json_string(t@),
        )),
{
    match server {
        SearchServer::Keyword => lemma_keyword(given(f.kw_search_index)->0, query, limit),
        SearchServer::Elastic => {
            let v = f.es_search_fields->0@;
            lemma_elastic(given(f.es_search_index)->0, v, query, limit);
            assert forall|k: int| 0 <= k < v.len() implies has_text(
                c.arguments@,
                json_string((#[trigger] v[k])@),
            ) by {
                lemma_json_text(v, k);
                lemma_has_end("\"fields\":"@, json_texts(v));
                lemma_text_in_text("\"fields\":"@ + json_texts(v), json_texts(v), json_string(v[k]@));
                lemma_text_in_text(c.arguments@, "\"fields\":"@ + json_texts(v), json_string(v[k]@));
            }
        },
        SearchServer::Tidb => lemma_tidb(
            given(f.tidb_search_database)->0,
            given(f.tidb_search_table)->0,
            query,
            limit,
        ),
    }
}

proof fn lemma_json_text(v: Seq<String>, k: int)
    requires
        0 <= k < v.len(),
    ensures
        has_text(json_texts(v), json_string(v[k]@)),
{
    let parts = v.map_values(|t: String| json_string(t@));
    assert(parts[k] == json_string(v[k]@));
    lemma_has_part(parts, ","@, k);
    lemma_has_middle("["@, crate::text::join_text(parts, ","@), "]"@);
    lemma_text_in_text(json_texts(v), crate::text::join_text(parts, ","@), parts[k]);
}

/// A search is refused exactly where a field that its server needs is missing or empty, and
/// the message names one such field.
pub proof fn law_missing_fields_are_named(
    server: SearchServer,
    f: SearchFields,
    query: Seq<char>,
    limit: u64,
    r: Result<SearchCall, ServerError>,
)
    requires
        is_search_call(server, f, query, limit, r),
    ensures
        server == SearchServer::Keyword ==> (r is Ok <==> (f.kw_search_index matches Some(i)
            && i@.len() > 0)),
        server == SearchServer::Elastic ==> (r is Ok <==> (f.es_search_index matches Some(i)
            && i@.len() > 0) && (f.es_search_fields matches Some(v) && v@.len() > 0)),
        server == SearchServer::Tidb ==> (r is Ok <==> (f.tidb_search_database matches Some(d)
            && d@.len() > 0) && (f.tidb_search_table matches Some(t) && t@.len() > 0)),
        server == SearchServer::Keyword ==> (r matches Err(e) ==> (e matches ServerError::BadRequest(m)
            && has_text(m@, "kw_search_index"@))),
        server == SearchServer::Elastic ==> (r matches Err(e) ==> (e matches ServerError::BadRequest(m)
            && (has_text(m@, "es_search_index"@) || has_text(m@, "es_search_fields"@)))),
        server == SearchServer::Tidb ==> (r matches Err(e) ==> (e matches ServerError::BadRequest(m)
            && (has_text(m@, "tidb_search_database"@) || has_text(m@, "tidb_search_table"@)))),
{
    lemma_missing("kw_search_index"@, "kw-search-server"@);
    lemma_missing("es_search_index"@, "Elasticsearch server"@);
    lemma_missing("es_search_fields"@, "Elasticsearch server"@);
    lemma_missing("tidb_search_database"@, "tidb-search-server"@);
    lemma_missing("tidb_search_table"@, "tidb-search-server"@);
}

proof fn lemma_missing(field: Seq<char>, server: Seq<char>)
    ensures
        has_text(missing_field(field, server), field),
        has_text(missing_field(field, server), server),
{
    let b = "` field in the request. `"@ + field + "` field is required for "@ + server + ". "@;
    assert(missing_field(field, server) =~= "Not found `"@ + field + b);
    lemma_has_middle("Not found `"@, field, b);
    let a = "Not found `"@ + field + "` field in the request. `"@ + field
        + "` field is required for "@;
    lemma_has_middle(a, server, ". "@);
}

// ---------------------------------------------------------------------------
// What a server finds
// ---------------------------------------------------------------------------

/// A hit keeps its title, its content and its score; TiDB gives no scores.
pub proof fn law_hits_keep_their_text(server: SearchServer, h: RawHit, r: KwSearchHit)
    requires
        is_hit(server, h, r),
        h.title is Some,
        h.content is Some,
    ensures
        h.title matches Some(t) && r.title@ == t@,
        h.content matches Some(c) && r.content@ == c@,
        server == SearchServer::Keyword || server == SearchServer::Elastic ==> r.score == h.score,
        server == SearchServer::Tidb ==> r.score == 0,
{
}

/// The three servers are known by the names of their clients, and by the names that they
/// give themselves.
pub proof fn law_servers_are_known_by_name()
    ensures
        client_server("gaia-keyword-search"@) == Some(SearchServer::Keyword),
        client_server("gaia-elastic-search"@) == Some(SearchServer::Elastic),
        client_server("gaia-tidb-search"@) == Some(SearchServer::Tidb),
        peer_server("gaia-kwsearch-mcp-server"@) == Some(SearchServer::Keyword),
        peer_server("gaia-elastic-mcp-server"@) == Some(SearchServer::Elastic),
        peer_server("gaia-tidb-mcp-server"@) == Some(SearchServer::Tidb),
        forall|n: Seq<char>|
            n != "gaia-keyword-search"@ && n != "gaia-elastic-search"@ && n != "gaia-tidb-search"@
                ==> #[trigger] client_server(n) is None,
        forall|n: Seq<char>|
            n != "gaia-kwsearch-mcp-server"@ && n != "gaia-elastic-mcp-server"@ && n
                != "gaia-tidb-mcp-server"@ ==> #[trigger] peer_server(n) is None,
{
    reveal_strlit("gaia-keyword-search");
    reveal_strlit("gaia-elastic-search");
    reveal_strlit("gaia-tidb-search");
    assert("gaia-keyword-search"@[5] != "gaia-elastic-search"@[5]);
    assert("gaia-keyword-search"@[5] != "gaia-tidb-search"@[5]);
    assert("gaia-elastic-search"@[5] != "gaia-tidb-search"@[5]);
    reveal_strlit("gaia-kwsearch-mcp-server");
    reveal_strlit("gaia-elastic-mcp-server");
    reveal_strlit("gaia-tidb-mcp-server");
    assert("gaia-kwsearch-mcp-server"@[5] != "gaia-elastic-mcp-server"@[5]);
    assert("gaia-kwsearch-mcp-server"@[5] != "gaia-tidb-mcp-server"@[5]);
    assert("gaia-elastic-mcp-server"@[5] != "gaia-tidb-mcp-server"@[5]);
}

/// A peer that is not known is refused with its name.
pub proof fn law_unknown_peer_is_named(name: Seq<char>, r: Result<SearchServer, ServerError>)
    requires
        is_peer(Some(name), r),
    ensures
        r is Ok <==> peer_server(name) is Some,
        r matches Ok(s) ==> peer_server(name) == Some(s),
        r matches Err(e) ==> (e matches ServerError::Operation(m) && has_text(m@, name)),
{
    lemma_has_end("Unsupported MCP server: "@, name);
}

/// The client that is found is the one that offers the tool to this very user, and its
/// server is the one that this client of the user says it is.
pub proof fn law_client_offers_the_tool(
    user: Option<String>,
    tool: Seq<char>,
    tools: Option<&UserTools>,
    clients: Option<&UserClients>,
    client: String,
    server: SearchServer,
)
    requires
        is_user_client(user, tool, tools, clients, Ok((client, server))),
    ensures
        user is Some && tools is Some && clients is Some,
        ({
            let u = user->0@;
            let t = tools->0@;
            let c = clients->0@;
            &&& t.dom().contains(u) && t[u]@.dom().contains(tool) && t[u]@[tool] == client
            &&& c.dom().contains(u) && c[u]@.dom().contains(client@)
            &&& c[u]@[client@] matches Some(n) && peer_server(n@) == Some(server)
        }),
{
}

/// With a list of allowed tools, exactly those on it are allowed; without one, and with an
/// empty one, all are.
pub proof fn law_allowed_are_the_listed(name: Seq<char>, allowed: Option<Vec<String>>)
    ensures
        allowed is None ==> is_allowed(name, allowed),
        allowed matches Some(v) ==> v@.len() == 0 ==> is_allowed(name, allowed),
        allowed matches Some(v) ==> v@.len() > 0 ==> (is_allowed(name, allowed) <==> exists|
            i: int,
        |
            0 <= i < v@.len() && (#[trigger] v@[i])@ == name),
{
}

// ---------------------------------------------------------------------------
// What is stored
// ---------------------------------------------------------------------------

/// A collection is meant by the address of its server and its name; a key is sent where
/// there is one.
pub proof fn law_collection_is_named(url: Seq<char>, key: Seq<char>, name: Seq<char>)
    ensures
        has_text(collection_arguments(url, key, name), "\"base_url\":"@ + json_string(url)),
        has_text(collection_arguments(url, key, name), "\"name\":"@ + json_string(name)),
        key.len() > 0 ==> has_text(
            collection_arguments(url, key, name),
            "\"api_key\":"@ + json_string(key),
        ),
        key.len() == 0 ==> collection_arguments(url, key, name) == "{\"base_url\":"@ + json_string(
            url,
        ) + ",\"name\":"@ + json_string(name),
{
    let (u, n, k) = (json_string(url), json_string(name), json_string(key));
    if key.len() == 0 {
        lemma_collection("{"@, u, n);
        reveal_strlit("\"base_url\":");
        reveal_strlit("{\"base_url\":");
        reveal_strlit("{");
        assert("{\"base_url\":"@ =~= "{"@ + "\"base_url\":"@);
    } else {
        let head = "{\"api_key\":"@ + k + ","@;
        lemma_collection(head, u, n);
        lemma_key(k);
        let rest = "\"base_url\":"@ + u + ",\"name\":"@ + n;
        let s = collection_arguments(url, key, name);
        assert(s =~= head + rest);
        lemma_has_start(head, rest);
        lemma_text_in_text(s, head, "\"api_key\":"@ + k);
    }
}

proof fn lemma_collection(head: Seq<char>, u: Seq<char>, n: Seq<char>)
    ensures
        has_text(head + "\"base_url\":"@ + u + ",\"name\":"@ + n, "\"base_url\":"@ + u),
        has_text(head + "\"base_url\":"@ + u + ",\"name\":"@ + n, "\"name\":"@ + n),
{
    reveal_strlit(",\"name\":");
    reveal_strlit("\"name\":");
    let s = head + "\"base_url\":"@ + u + ",\"name\":"@ + n;
    let b1 = ",\"name\":"@ + n;
    assert(",\"name\":"@ =~= seq![','] + "\"name\":"@);
    assert(s =~= head + ("\"base_url\":"@ + u) + b1);
    lemma_has_middle(head, "\"base_url\":"@ + u, b1);
    let a2 = head + "\"base_url\":"@ + u + seq![','];
    assert(s =~= a2 + ("\"name\":"@ + n));
    lemma_has_end(a2, "\"name\":"@ + n);
}

proof fn lemma_key(k: Seq<char>)
    ensures
        has_text("{\"api_key\":"@ + k + ","@, "\"api_key\":"@ + k),
{
    reveal_strlit("{\"api_key\":");
    reveal_strlit("\"api_key\":");
    assert("{\"api_key\":"@ =~= seq!['{'] + "\"api_key\":"@);
    assert("{\"api_key\":"@ + k + ","@ =~= seq!['{'] + ("\"api_key\":"@ + k) + ","@);
    lemma_has_middle(seq!['{'], "\"api_key\":"@ + k, ","@);
}

/// A point is stored under its number, with its vector and with the chunk that it stands
/// for as its source.
pub proof fn law_point_keeps_its_chunk(index: u64, vector: Seq<char>, chunk: Seq<char>)
    ensures
        has_text(point_json(index, vector, chunk), "\"id\":"@ + decimal(index as nat)),
        has_text(point_json(index, vector, chunk), "\"source\":"@ + json_string(chunk)),
        has_text(point_json(index, vector, chunk), "\"vector\":"@ + vector),
{
    reveal_strlit("{\"id\":");
    reveal_strlit("\"id\":");
    reveal_strlit(",\"payload\":{\"source\":");
    reveal_strlit("\"source\":");
    reveal_strlit("},\"vector\":");
    reveal_strlit("\"vector\":");
    let s = point_json(index, vector, chunk);
    let (n, c) = (decimal(index as nat), json_string(chunk));
    assert("{\"id\":"@ =~= seq!['{'] + "\"id\":"@);
    let p = ",\"payload\":{\"source\":"@;
    let p0 = p.take(12);
    assert(p =~= p0 + "\"source\":"@);
    assert("},\"vector\":"@ =~= seq!['}', ','] + "\"vector\":"@);
    let b1 = p + c + "},\"vector\":"@ + vector + "}"@;
    assert(s =~= seq!['{'] + ("\"id\":"@ + n) + b1);
    lemma_has_middle(seq!['{'], "\"id\":"@ + n, b1);
    let a2 = "{\"id\":"@ + n + p0;
    let b2 = "},\"vector\":"@ + vector + "}"@;
    assert(s =~= a2 + ("\"source\":"@ + c) + b2);
    lemma_has_middle(a2, "\"source\":"@ + c, b2);
    let a3 = "{\"id\":"@ + n + p + c + seq!['}', ','];
    assert(s =~= a3 + ("\"vector\":"@ + vector) + "}"@);
    lemma_has_middle(a3, "\"vector\":"@ + vector, "}"@);
}

/// A collection is created under its name, with as many dimensions as its vectors have.
pub proof fn law_collection_is_created(
    url: Seq<char>,
    key: Seq<char>,
    name: Seq<char>,
    dim: nat,
    r: SearchCall,
)
    requires
        is_creation(url, key, name, dim, r),
    ensures
        r.tool@ == "create_collection"@,
        has_text(r.arguments@, "\"name\":"@ + json_string(name)),
        has_text(r.arguments@, "\"base_url\":"@ + json_string(url)),
        has_text(r.arguments@, ",\"size\":"@ + decimal(dim)),
{
    let c = collection_arguments(url, key, name);
    let t = ",\"size\":"@ + decimal(dim);
    law_collection_is_named(url, key, name);
    assert(r.arguments@ =~= c + t + "}"@);
    lemma_has_middle(c, t, "}"@);
    assert(r.arguments@ =~= c + (t + "}"@));
    lemma_has_start(c, t + "}"@);
    lemma_text_in_text(r.arguments@, c, "\"name\":"@ + json_string(name));
    lemma_text_in_text(r.arguments@, c, "\"base_url\":"@ + json_string(url));
}

/// Every embedding is stored: its vector under its number, with the chunk at that number as
/// its source.
pub proof fn law_embeddings_are_stored(
    url: Seq<char>,
    key: Seq<char>,
    name: Seq<char>,
    embeddings: Seq<(u64, String)>,
    chunks: Seq<String>,
    r: SearchCall,
    i: int,
)
    requires
        is_storing(url, key, name, embeddings, chunks, r),
        0 <= i < embeddings.len(),
        embeddings[i].0 < chunks.len(),
    ensures
        r.tool@ == "upsert_points"@,
        has_text(
            r.arguments@,
            "{\"id\":"@ + decimal(embeddings[i].0 as nat) + ",\"payload\":{\"source\":"@
                + json_string(chunks[embeddings[i].0 as int]@) + "},\"vector\":"@ + embeddings[i].1@
                + "}"@,
        ),
        has_text(r.arguments@, "\"name\":"@ + json_string(name)),
{
    let points = points_stored(embeddings, chunks);
    let c = collection_arguments(url, key, name);
    let all = crate::text::join_text(points, ","@);
    let p = point_json(embeddings[i].0, embeddings[i].1@, chunks[embeddings[i].0 as int]@);
    assert(points[i] == p);
    lemma_has_part(points, ","@, i);
    lemma_has_middle(c + ",\"points\":["@, all, "]}"@);
    lemma_text_in_text(r.arguments@, all, p);
    law_collection_is_named(url, key, name);
    let rest = ",\"points\":["@ + all + "]}"@;
    assert(r.arguments@ =~= c + rest);
    lemma_has_start(c, rest);
    lemma_text_in_text(r.arguments@, c, "\"name\":"@ + json_string(name));
}

/// The model is asked for the keywords of the question, in the name of the user, and may
/// call the tools as it sees fit.
pub proof fn law_question_is_asked_for_keywords(
    user: Seq<char>,
    question: Seq<char>,
    tools: Seq<ToolSpec>,
    q: ChatRequest,
)
    requires
        is_asking_for_keywords(user, question, tools, q),
    ensures
        q.messages@.len() == 1,
        q.messages@[0] matches ChatMessage::User { content: UserContent::Text(t), name: None }
            && has_text(t@, debug_str(question)),
        q.user matches Some(u) && u@ == user,
        q.tools matches Some(v) && v@ == tools,
        q.tool_choice == Some(ToolMode::Auto),
{
    lemma_has_end(SEARCH_PROMPT@, debug_str(question));
}

/// Every hit of a server is told, in order, with its title, its content and its score.
pub proof fn law_all_hits_are_told(
    server: SearchServer,
    found: Seq<RawHit>,
    r: Seq<KwSearchHit>,
    i: int,
)
    requires
        are_hits(server, found, r),
        0 <= i < found.len(),
        found[i].title is Some,
        found[i].content is Some,
    ensures
        r.len() == found.len(),
        found[i].title matches Some(t) && r[i].title@ == t@,
        found[i].content matches Some(c) && r[i].content@ == c@,
        !(server is Tidb) ==> r[i].score == found[i].score,
{
    assert(is_hit(server, found[i], r[i]));
}

} // verus!
