use llama_nexus::chat::message::{ChatMessage, ToolMode, ToolSpec, UserContent};
use llama_nexus::error::ServerError;
use llama_nexus::rag::answer::{augment_chat, augment_chat_for};
use llama_nexus::rag::chunks::{checked_chunk_text, chunk_text};
use llama_nexus::rag::merge::{MergeRagContextPolicy, PromptError, RagPromptBuilder};
use llama_nexus::rag::query::{
    chat_collections, context_query, context_window, get_qdrant_configs, query_text, search_filter,
};
use llama_nexus::rag::rerank::{
    calculate_hash, context_text, fused_ids, is_lower, rank, remove_duplicates, rerank,
    unique_points, DataFrom, FoundPoint, KwSearchHit, RagScoredPoint,
};
use llama_nexus::rag::search::{
    allowed_tools, create_collection_call, create_collection_outcome, end_user_search,
    extract_keywords_prompt, find_user_client, forget_user, keyword_request, persist_embeddings_call, requires_tool_call,
    search_call, search_error, search_hits, search_outcome, server_of_client, server_of_peer,
    vector_hits, RawHit, SearchFields, SearchServer,
};
use llama_nexus::text_map::TextMap;
use std::hash::{Hash, Hasher};

fn user(text: &str) -> ChatMessage {
    ChatMessage::user(text.to_string())
}

fn strings(v: &[&str]) -> Vec<String> {
    v.iter().map(|s| s.to_string()).collect()
}

fn text_of(m: &ChatMessage) -> String {
    match m {
        ChatMessage::User { content: UserContent::Text(t), .. } => t.clone(),
        ChatMessage::System { content, .. } => content.clone(),
        other => panic!("{other:?}"),
    }
}

#[test]
fn filters_have_defaults() {
    let f = search_filter(None, None, None);
    assert_eq!(f.limit, 10);
    assert_eq!(f32::from_bits(f.score_threshold), 0.5);
    assert_eq!(f64::from_bits(f.weighted_alpha), 0.5);
    let f = search_filter(Some(3), Some(0.25f32.to_bits()), Some(0.75f64.to_bits()));
    assert_eq!(f.limit, 3);
    assert_eq!(f32::from_bits(f.score_threshold), 0.25);
    assert_eq!(f64::from_bits(f.weighted_alpha), 0.75);
    assert_eq!(context_window(None, 2), 2);
    assert_eq!(context_window(Some(5), 2), 5);
}

#[test]
fn query_is_the_last_user_text() {
    assert_eq!(query_text(&vec![user("a"), user("b")]), Ok("b".to_string()));
    let parts = ChatMessage::User { content: UserContent::Parts(vec![]), name: None };
    assert_eq!(
        query_text(&vec![parts]),
        Err(ServerError::BadRequest(
            "The last message in the request is not a text-only user message".to_string()
        ))
    );
    let none = Err(ServerError::BadRequest(
        "The last message in the request is not a user message".to_string(),
    ));
    assert_eq!(query_text(&vec![user("a"), ChatMessage::system("s".to_string())]), none);
    assert_eq!(query_text(&Vec::new()), none);
}

#[test]
fn context_query_takes_the_last_user_messages() {
    let messages = vec![user("one"), ChatMessage::system("s".to_string()), user("two"), user("three")];
    assert_eq!(context_query(&messages, 1), Ok("three".to_string()));
    assert_eq!(context_query(&messages, 2), Ok("two\nthree".to_string()));
    assert_eq!(context_query(&messages, 9), Ok("one\ntwo\nthree".to_string()));
    let health = vec![user("one"), user("how<server-health><server-health>")];
    assert_eq!(context_query(&health, 5), Ok("how".to_string()));
    let inner = vec![user("one"), user("x<server-health>"), user("two")];
    assert_eq!(context_query(&inner, 5), Ok("one\ntwo".to_string()));
    assert_eq!(
        context_query(&Vec::new(), 1),
        Err(ServerError::BadRequest("Found empty chat messages".to_string()))
    );
    assert_eq!(
        context_query(&vec![ChatMessage::system("s".to_string())], 1),
        Err(ServerError::BadRequest("No user messages found.".to_string()))
    );
}

#[test]
fn collections_come_from_the_request() {
    let c = get_qdrant_configs(&Some(strings(&["a", "b"])), 7, 0.5f32.to_bits()).unwrap();
    assert_eq!(c.len(), 2);
    assert_eq!(c[1].collection_name, "b");
    assert_eq!(c[1].limit, 7);
    assert!(get_qdrant_configs(&Some(vec![]), 7, 0).is_err());
    assert!(get_qdrant_configs(&None, 7, 0).is_err());
    assert_eq!(chat_collections(&Some(strings(&["a"])), 7, 0).unwrap()[0].collection_name, "a");
    let cause = get_qdrant_configs(&None, 7, 0).unwrap_err().message();
    assert_eq!(
        chat_collections(&None, 7, 0).unwrap_err(),
        ServerError::Operation(format!("Failed to get the VectorDB config: {cause}"))
    );
    assert_eq!(
        search_error("e"),
        ServerError::Operation("Failed to call the tool: e".to_string())
    );
}

#[test]
fn hashes_are_those_of_the_standard_hasher() {
    for text in ["", "a", "some longer text", "日本語"] {
        let mut h = std::collections::hash_map::DefaultHasher::new();
        text.hash(&mut h);
        assert_eq!(calculate_hash(text), h.finish());
    }
    assert_ne!(calculate_hash("a"), calculate_hash("b"));
}

#[test]
fn score_bits_are_ordered_as_scores() {
    let scores = [
        f64::NEG_INFINITY, -3.5, -1e-300, -0.0, 0.0, 1e-300, 0.25, 0.5, 1.0, 7.25, f64::INFINITY,
    ];
    for a in scores {
        for b in scores {
            assert_eq!(is_lower(a.to_bits(), b.to_bits()), a < b, "{a} {b}");
        }
    }
}

#[test]
fn ranking_goes_from_high_to_low() {
    let fused: Vec<(u64, u64)> =
        [(1u64, 0.25), (2, 0.75), (3, -1.0), (4, 0.75)].iter().map(|(h, s): &(u64, f64)| (*h, s.to_bits())).collect();
    let order: Vec<u64> = rank(&fused).iter().map(|e| e.0).collect();
    assert_eq!(order, vec![2, 4, 1, 3]);
    let zeros: Vec<(u64, u64)> = vec![(7, (-0.0f64).to_bits()), (8, 0.0f64.to_bits()), (9, (-0.0f64).to_bits())];
    assert_eq!(rank(&zeros), zeros);
}

#[test]
fn reranking_prefers_keyword_hits() {
    let kw = strings(&["shared", "only kw"]);
    let vectors = strings(&["shared", "only vector"]);
    let ids = fused_ids(
        &kw.iter().map(|t| calculate_hash(t)).collect(),
        &vectors.iter().map(|t| calculate_hash(t)).collect(),
    );
    assert_eq!(ids.len(), 3);
    let score = |t: &str| match t {
        "shared" => 0.9f64,
        "only kw" => 0.1,
        _ => 0.5,
    };
    let fused: Vec<(u64, u64)> = ["shared", "only kw", "only vector"]
        .iter()
        .map(|t| (calculate_hash(t), score(t).to_bits()))
        .collect();
    let points = rerank(&fused, &kw, &vectors).unwrap();
    assert_eq!(
        points.iter().map(|p| p.source.as_str()).collect::<Vec<_>>(),
        vec!["shared", "only vector", "only kw"]
    );
    assert_eq!(points[0].from, DataFrom::KeywordSearch);
    assert_eq!(points[1].from, DataFrom::VectorSearch);
    assert_eq!(context_text(&Some(points)), "shared\n\nonly vector\n\nonly kw\n\n");
    assert_eq!(context_text(&None), "No context retrieved");
    assert!(rerank(&vec![], &kw, &vectors).is_none());
}

#[test]
fn context_goes_into_the_chat() {
    let kw = strings(&["fact"]);
    let fused = vec![(calculate_hash("fact"), 1.0f64.to_bits())];
    let mut messages = vec![user("question")];
    augment_chat(&mut messages, &fused, &kw, &vec![], Some(true), MergeRagContextPolicy::SystemMessage)
        .unwrap();
    assert_eq!(messages.len(), 2);
    assert!(text_of(&messages[0]).ends_with("---BEGIN CONTEXT---\n\nfact\n\n---END CONTEXT---"));
    let mut messages = vec![user("question")];
    augment_chat(&mut messages, &vec![], &kw, &vec![], Some(false), MergeRagContextPolicy::SystemMessage)
        .unwrap();
    assert_eq!(messages.len(), 1);
    assert!(text_of(&messages[0]).ends_with(
        "No context retrieved\n\n---END CONTEXT---\n\nThe question is:\nquestion"
    ));
    let policy = MergeRagContextPolicy::LastUserMessage;
    assert_eq!(
        augment_chat(&mut vec![], &fused, &kw, &vec![], Some(true), policy),
        Err(ServerError::BadRequest("Found empty chat messages".to_string()))
    );
    assert_eq!(
        augment_chat(&mut vec![user("q")], &fused, &kw, &vec![], None, policy),
        Err(ServerError::Operation("No chat server available".to_string()))
    );
    let mut bad = vec![ChatMessage::system("s".to_string())];
    assert_eq!(
        augment_chat(&mut bad, &fused, &kw, &vec![], Some(true), policy),
        Err(ServerError::Operation(
            "Bad messages. The last message in the chat request should be a user message."
                .to_string()
        ))
    );
}

#[test]
fn system_message_is_replaced_and_keeps_its_name() {
    let mut messages = vec![
        ChatMessage::System { content: "old".to_string(), name: Some("n".to_string()) },
        user("q"),
    ];
    RagPromptBuilder::build(
        &mut messages,
        &strings(&["ctx  \n"]),
        true,
        MergeRagContextPolicy::SystemMessage,
    )
    .unwrap();
    assert_eq!(messages.len(), 2);
    match &messages[0] {
        ChatMessage::System { content, name } => {
            assert!(content.contains("\n\nctx\n\n---END"));
            assert_eq!(name, &Some("n".to_string()));
        }
        other => panic!("{other:?}"),
    }
    assert!(matches!(
        RagPromptBuilder::build(&mut vec![], &strings(&["c"]), true, MergeRagContextPolicy::SystemMessage),
        Err(PromptError::NoMessages)
    ));
    let e = RagPromptBuilder::build(&mut messages, &vec![], true, MergeRagContextPolicy::SystemMessage)
        .unwrap_err();
    assert_eq!(e.message(), "Failed to build prompt. Reason: No context provided.");
}

#[test]
fn duplicate_sources_are_removed() {
    let p = |s: &str, score: f64| RagScoredPoint {
        source: s.to_string(),
        score: score.to_bits(),
        from: DataFrom::VectorSearch,
    };
    let v = remove_duplicates(&vec![p("a", 1.0), p("b", 0.5), p("a", 0.1)]).unwrap();
    assert_eq!(v.len(), 2);
    assert_eq!(f64::from_bits(v[0].score), 1.0);
    assert!(remove_duplicates(&vec![]).is_none());
    let found = |json: &str, text: Option<&str>| FoundPoint {
        source_json: json.to_string(),
        source: text.map(|t| t.to_string()),
        score: 0,
    };
    let v = unique_points(&vec![
        found("\"x\"", Some("x")),
        found("1", None),
        found("\"x\"", Some("x")),
        found("\"y\"", Some("y")),
    ]);
    assert_eq!(v.iter().map(|p| p.source.as_str()).collect::<Vec<_>>(), vec!["x", "y"]);
}

#[test]
fn vector_searches_end_well_or_not() {
    assert_eq!(
        vector_hits(None).unwrap_err(),
        ServerError::Operation("No point retrieved. No vector search mcp client available".to_string())
    );
    assert_eq!(
        vector_hits(Some(Err("down".to_string()))).unwrap_err(),
        ServerError::Operation(
            "No point retrieved. Failed to call the search_points tool: down".to_string()
        )
    );
    assert!(vector_hits(Some(Ok(vec![]))).unwrap().is_none());
    let p = FoundPoint { source_json: "\"x\"".to_string(), source: Some("x".to_string()), score: 1 };
    assert_eq!(vector_hits(Some(Ok(vec![p]))).unwrap().unwrap()[0].source, "x");
}

#[test]
fn documents_are_cut_into_chunks() {
    let text = "First sentence here. Second sentence follows.\n\nA new paragraph.";
    let chunks = chunk_text(text, "TXT", 25).unwrap();
    assert!(chunks.len() > 1);
    assert!(chunks.iter().all(|c| !c.is_empty() && c.chars().count() <= 25));
    assert_ne!(chunks, vec![text.to_string()]);
    let md = "# Title\n\nSome text under the title.\n\n## More\n\nOther text.";
    let chunks = chunk_text(md, "md", 30).unwrap();
    assert!(chunks.iter().any(|c| c.starts_with("## More")));
    assert!(chunks.iter().all(|c| c.chars().count() <= 30));
    assert_eq!(
        chunk_text(text, "pdf", 25),
        Err(ServerError::Operation(
            "Failed to upload the target file. Only files with 'txt' and 'md' extensions are supported."
                .to_string()
        ))
    );
    assert!(chunk_text(text, "pdf", 0).is_err());
    assert!(matches!(checked_chunk_text(text, "pdf", 0), Some(Err(_))));
    assert!(checked_chunk_text(text, "Md", 0).is_none());
    assert_eq!(checked_chunk_text(text, "txt", 25), Some(chunk_text(text, "txt", 25)));
}

fn fields() -> SearchFields {
    SearchFields {
        kw_search_index: Some("idx".to_string()),
        es_search_index: Some("es".to_string()),
        es_search_fields: Some(strings(&["title", "content"])),
        tidb_search_database: Some("db".to_string()),
        tidb_search_table: Some("tbl".to_string()),
    }
}

#[test]
fn searches_are_called_with_their_arguments() {
    let c = search_call(SearchServer::Keyword, &fields(), "a \"b\"", 5).unwrap();
    assert_eq!(c.tool, "search_documents");
    assert_eq!(c.arguments, "{\"index_name\":\"idx\",\"limit\":5,\"query\":\"a \\\"b\\\"\"}");
    let c = search_call(SearchServer::Elastic, &fields(), "q", 5).unwrap();
    assert_eq!(c.tool, "search");
    assert_eq!(
        c.arguments,
        "{\"fields\":[\"title\",\"content\"],\"index\":\"es\",\"query\":\"q\",\"size\":5}"
    );
    let c = search_call(SearchServer::Tidb, &fields(), "q", 5).unwrap();
    assert_eq!(
        c.arguments,
        "{\"database\":\"db\",\"limit\":5,\"query\":\"q\",\"table_name\":\"tbl\"}"
    );
    assert!(serde_json::from_str::<serde_json::Value>(&c.arguments).is_ok());
}

#[test]
fn searches_need_their_fields() {
    let missing = |f: SearchFields, s: SearchServer| search_call(s, &f, "q", 1).unwrap_err();
    let text = |field: &str, server: &str| {
        ServerError::BadRequest(format!(
            "Not found `{field}` field in the request. `{field}` field is required for {server}. "
        ))
    };
    let mut f = fields();
    f.kw_search_index = Some(String::new());
    assert_eq!(missing(f, SearchServer::Keyword), text("kw_search_index", "kw-search-server"));
    let mut f = fields();
    f.es_search_index = None;
    assert_eq!(missing(f, SearchServer::Elastic), text("es_search_index", "Elasticsearch server"));
    let mut f = fields();
    f.es_search_fields = Some(vec![]);
    assert_eq!(missing(f, SearchServer::Elastic), text("es_search_fields", "Elasticsearch server"));
    let mut f = fields();
    f.tidb_search_database = None;
    assert_eq!(missing(f, SearchServer::Tidb), text("tidb_search_database", "tidb-search-server"));
    let mut f = fields();
    f.tidb_search_table = None;
    assert_eq!(missing(f, SearchServer::Tidb), text("tidb_search_table", "tidb-search-server"));
}

#[test]
fn search_servers_are_known_by_name() {
    assert_eq!(server_of_client("gaia-keyword-search"), Ok(SearchServer::Keyword));
    assert_eq!(server_of_client("gaia-elastic-search"), Ok(SearchServer::Elastic));
    assert_eq!(server_of_client("gaia-tidb-search"), Ok(SearchServer::Tidb));
    assert_eq!(
        server_of_client("x"),
        Err(ServerError::Operation("Unsupported keyword search mcp server: x".to_string()))
    );
    assert_eq!(
        server_of_peer(&Some("gaia-tidb-mcp-server".to_string())),
        Ok(SearchServer::Tidb)
    );
    assert_eq!(
        server_of_peer(&Some("x".to_string())),
        Err(ServerError::Operation("Unsupported MCP server: x".to_string()))
    );
    assert_eq!(
        server_of_peer(&None),
        Err(ServerError::Operation("Failed to get the server info from MCP server".to_string()))
    );
    assert!(SearchServer::Keyword.needs_keywords());
    assert!(!SearchServer::Elastic.needs_keywords());
    assert_eq!(
        SearchServer::Elastic.call_error("e"),
        ServerError::Operation("Failed to call the tool: e".to_string())
    );
    assert_eq!(SearchServer::Tidb.call_error("e"), ServerError::Operation("e".to_string()));
}

#[test]
fn hits_are_read() {
    let raw = vec![RawHit {
        title: Some("t".to_string()),
        content: Some("c".to_string()),
        score: 0.5f64.to_bits(),
    }];
    assert_eq!(search_hits(SearchServer::Elastic, &raw)[0].score, 0.5f64.to_bits());
    assert_eq!(f64::from_bits(search_hits(SearchServer::Tidb, &raw)[0].score), 0.0);
    let hits: Vec<KwSearchHit> = search_hits(SearchServer::Keyword, &raw);
    assert_eq!(search_outcome(Ok(hits), "r").unwrap().len(), 1);
    assert!(search_outcome(Err(ServerError::McpNotFoundClient), "r").unwrap().is_empty());
    assert_eq!(
        search_outcome(Err(ServerError::Operation("x".to_string())), "r1").unwrap_err(),
        ServerError::Operation("Failed to call MCP server: x - request_id: r1".to_string())
    );
}

#[test]
fn keywords_are_asked_for() {
    let tools = vec![ToolSpec { name: "t".to_string(), description: None, parameters: None }];
    let r = keyword_request(&Some("u".to_string()), "say \"hi\"", tools).unwrap();
    assert!(text_of(&r.messages[0]).ends_with("My question is: \"say \\\"hi\\\"\""));
    assert_eq!(r.user, Some("u".to_string()));
    assert!(matches!(r.tool_choice, Some(ToolMode::Auto)));
    assert_eq!(
        keyword_request(&None, "q", vec![]).unwrap_err(),
        ServerError::Operation("User ID is not found in the request".to_string())
    );
    assert!(extract_keywords_prompt("a\tb").ends_with("### Input Query\n\"a\\tb\""));
    assert!(requires_tool_call(&Some("true".to_string())));
    assert!(!requires_tool_call(&Some("false".to_string())));
    assert!(!requires_tool_call(&None));
}

#[test]
fn tools_can_be_allowed() {
    let tool = |n: &str| ToolSpec { name: n.to_string(), description: None, parameters: None };
    let tools = vec![tool("a"), tool("b"), tool("c")];
    let names = |allowed: Option<Vec<String>>| {
        allowed_tools(&tools, &allowed).iter().map(|t| t.name.clone()).collect::<Vec<_>>()
    };
    assert_eq!(names(None), vec!["a", "b", "c"]);
    assert_eq!(names(Some(vec![])), vec!["a", "b", "c"]);
    assert_eq!(names(Some(strings(&["c", "a"]))), vec!["a", "c"]);
}

#[test]
fn clients_of_users_are_found_and_forgotten() {
    let mut tools: TextMap<TextMap<String>> = TextMap::new();
    let mut own = TextMap::new();
    own.insert("search".to_string(), "client".to_string());
    own.insert("lost".to_string(), "gone".to_string());
    tools.insert("u".to_string(), own);
    let mut clients: TextMap<TextMap<Option<String>>> = TextMap::new();
    let mut own = TextMap::new();
    own.insert("client".to_string(), Some("gaia-kwsearch-mcp-server".to_string()));
    clients.insert("u".to_string(), own);
    let u = Some("u".to_string());
    let op = |m: &str| Err(ServerError::Operation(m.to_string()));
    assert_eq!(
        find_user_client(&u, "search", Some(&tools), Some(&clients)),
        Ok(("client".to_string(), SearchServer::Keyword))
    );
    assert_eq!(
        find_user_client(&None, "search", Some(&tools), Some(&clients)),
        op("User ID is not found in the request")
    );
    assert_eq!(
        find_user_client(&u, "search", None, Some(&clients)),
        op("USER_TO_MCP_TOOLS is empty or not initialized")
    );
    assert_eq!(
        find_user_client(&Some("v".to_string()), "search", Some(&tools), Some(&clients)),
        op("Not found the user ID in USER_TO_MCP_TOOLS")
    );
    assert_eq!(
        find_user_client(&u, "other", Some(&tools), Some(&clients)),
        Err(ServerError::McpNotFoundClient)
    );
    assert_eq!(
        find_user_client(&u, "search", Some(&tools), None),
        op("USER_TO_MCP_CLIENTS is empty or not initialized")
    );
    assert_eq!(
        find_user_client(&u, "search", Some(&tools), Some(&TextMap::new())),
        op("Not found the user ID in USER_TO_MCP_CLIENTS")
    );
    assert_eq!(
        find_user_client(&u, "lost", Some(&tools), Some(&clients)),
        op("Not found the MCP client name `gone` in USER_TO_MCP_CLIENTS")
    );
    forget_user(&mut tools, &mut clients, "u");
    assert!(tools.is_empty() && clients.is_empty());
}

#[test]
fn collections_are_created_and_filled() {
    let c = create_collection_call("http://v", "", "col", 3);
    assert_eq!(c.tool, "create_collection");
    assert_eq!(c.arguments, "{\"base_url\":\"http://v\",\"name\":\"col\",\"size\":3}");
    let c = create_collection_call("http://v", "k", "col", 3);
    assert_eq!(
        c.arguments,
        "{\"api_key\":\"k\",\"base_url\":\"http://v\",\"name\":\"col\",\"size\":3}"
    );
    assert!(create_collection_outcome(Some(true), "col").is_ok());
    assert_eq!(
        create_collection_outcome(Some(false), "col"),
        Err(ServerError::Operation("Failed to create collection `col`".to_string()))
    );
    assert_eq!(
        create_collection_outcome(None, "col"),
        Err(ServerError::Operation("No vector search mcp client found".to_string()))
    );
    let c = persist_embeddings_call(
        "u",
        "",
        "col",
        &vec![(1, "[0.5]".to_string()), (0, "[1.0]".to_string())],
        &strings(&["first", "second"]),
    );
    assert_eq!(c.tool, "upsert_points");
    assert_eq!(
        c.arguments,
        "{\"base_url\":\"u\",\"name\":\"col\",\"points\":[{\"id\":1,\"payload\":{\"source\":\"second\"},\"vector\":[0.5]},{\"id\":0,\"payload\":{\"source\":\"first\"},\"vector\":[1.0]}]}"
    );
}

#[test]
fn users_are_forgotten_after_their_search() {
    let hit = KwSearchHit { title: "t".to_string(), content: "c".to_string(), score: 0 };
    let ends: Vec<(Option<Result<Vec<KwSearchHit>, ServerError>>, bool, Option<usize>)> = vec![
        (None, true, Some(0)),
        (Some(Ok(vec![hit])), true, Some(1)),
        (Some(Err(ServerError::McpNotFoundClient)), false, Some(0)),
        (Some(Err(ServerError::McpEmptyContent)), false, None),
    ];
    for (found, forgotten, hits) in ends {
        let mut tools = TextMap::new();
        tools.insert("u".to_string(), TextMap::new());
        tools.insert("v".to_string(), TextMap::new());
        let mut clients = TextMap::new();
        clients.insert("u".to_string(), TextMap::new());
        let r = end_user_search(found, "u", &mut tools, &mut clients, "req");
        assert_eq!(r.ok().map(|v| v.len()), hits);
        assert_eq!(tools.contains_key("u"), !forgotten);
        assert_eq!(clients.contains_key("u"), !forgotten);
        assert!(tools.contains_key("v"));
    }
}

#[test]
fn templates_say_where_the_context_goes() {
    let ask = |template: Option<&str>, messages: &mut Vec<ChatMessage>| {
        augment_chat_for(
            messages,
            &vec![],
            &vec![],
            &vec![],
            template,
            MergeRagContextPolicy::SystemMessage,
        )
    };
    let mut chat = vec![user("q")];
    assert_eq!(ask(Some("ChatML"), &mut chat), Some(Ok(())));
    assert_eq!(chat.len(), 2);
    assert!(matches!(&chat[0], ChatMessage::System { .. }));
    let mut chat = vec![user("q")];
    assert_eq!(ask(Some("MistralInstruct"), &mut chat), Some(Ok(())));
    assert_eq!(chat.len(), 1);
    assert!(text_of(&chat[0]).ends_with("The question is:\nq"));
    let mut chat = vec![user("q")];
    assert_eq!(ask(Some("no such template"), &mut chat), None);
    assert_eq!(text_of(&chat[0]), "q");
    assert_eq!(
        ask(None, &mut chat),
        Some(Err(ServerError::Operation("No chat server available".to_string())))
    );
    assert_eq!(
        ask(Some("no such template"), &mut Vec::new()),
        Some(Err(ServerError::BadRequest("Found empty chat messages".to_string())))
    );
}
