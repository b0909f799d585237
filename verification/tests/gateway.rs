use llama_nexus::clock::Elapsed;
use llama_nexus::error::ServerError;
use llama_nexus::handlers::{
    admit_server, chat_model, collect_models, content_type, conversation_model, history_reply, list_models,
    lists_in_data, models_url, parse_usize, request_id, update_models, verify_server_kind,
    ApiServer, HistoryKind, Model, ModelReply, ServerKind, Service,
};
use llama_nexus::paths::{extension, file_name, join_path};
use llama_nexus::single::to_single;
use llama_nexus::text::{
    contains, decimal_text, find, is_whitespace, join, replace, split, split_whitespace, trim,
    trim_end, trim_end_matches,
};
use llama_nexus::text_map::TextMap;
use llama_nexus::upstream::{authorization, authorization_as_is, authorization_by_key, endpoint_url};

#[test]
fn white_space_is_that_of_unicode() {
    for n in 0..=0x10ffffu32 {
        if let Some(c) = char::from_u32(n) {
            assert_eq!(is_whitespace(c), c.is_whitespace(), "{n:x}");
        }
    }
}

#[test]
fn texts_are_worked_on_as_by_the_standard_library() {
    let texts = ["", " ", "a", "  a b  c ", "aaaa", "aXbXXc", "日本 語\u{3000}x\u{85}", "X", "__a____b__"];
    for s in texts {
        assert_eq!(trim(s), s.trim());
        assert_eq!(trim_end(s), s.trim_end());
        assert_eq!(split_whitespace(s), s.split_whitespace().collect::<Vec<_>>());
        for p in ["a", "aa", "X", "XX", "__", "本"] {
            assert_eq!(contains(s, p), s.contains(p));
            assert_eq!(split(s, p), s.split(p).collect::<Vec<_>>());
            assert_eq!(replace(s, p, "<>"), s.replace(p, "<>"));
            assert_eq!(trim_end_matches(s, p), s.trim_end_matches(p));
            assert_eq!(find(s, p).is_some(), s.find(p).is_some());
        }
    }
    for n in [0u64, 9, 10, 12345, u64::MAX] {
        assert_eq!(decimal_text(n), n.to_string());
    }
    assert_eq!(join(&vec!["a".to_string(), "b".to_string()], ", "), "a, b");
    assert_eq!(join(&vec![], ", "), "");
}

#[test]
fn singles_are_those_of_the_hardware() {
    for n in [0u128, 1, 16_777_215, 16_777_216, 16_777_217, 16_777_219, 33_554_433, 33_554_435, u64::MAX as u128, (1u128 << 60) + 12345] {
        assert_eq!(to_single(n), (n as f32) as u128, "{n}");
    }
}

#[test]
fn maps_hold_what_was_set_last() {
    let mut m: TextMap<u32> = TextMap::new();
    m.insert("a".to_string(), 1);
    m.insert("b".to_string(), 2);
    m.insert("a".to_string(), 3);
    assert_eq!(m.len(), 2);
    assert_eq!(m.get("a"), Some(&3));
    assert_eq!(m.remove("a"), Some(3));
    assert_eq!(m.remove("a"), None);
    assert!(m.contains_key("b"));
    assert_eq!(m.key_at(0), "b");
    assert_eq!(*m.value_at(0), 2);
}

#[test]
fn stretches_of_time() {
    let a = Elapsed { secs: 2, nanos: 5 };
    let b = Elapsed { secs: 1, nanos: 10 };
    assert_eq!(a.saturating_sub(b), Elapsed { secs: 0, nanos: 999_999_995 });
    assert_eq!(b.saturating_sub(a), Elapsed::zero());
    assert_eq!(a.min(b), b);
    assert!(b.is_less(&a) && !a.is_less(&a));
    assert_eq!(Elapsed::from_millis(1500), Elapsed { secs: 1, nanos: 500_000_000 });
}

#[test]
fn requests_go_to_their_server() {
    assert_eq!(endpoint_url("http://s//", "/x"), "http://s/x");
    assert_eq!(Service::Chat.url("http://s/v1"), "http://s/v1/chat/completions");
    assert_eq!(Service::Embeddings.url("s"), "s/embeddings");
    assert_eq!(Service::Transcribe.url("s"), "s/audio/transcriptions");
    assert_eq!(Service::Translate.url("s"), "s/audio/translations");
    assert_eq!(Service::Tts.url("s"), "s/audio/speech");
    assert_eq!(Service::Image.url("s"), "s/images/generations");
    assert!(Service::Tts.passes_headers() && !Service::Translate.passes_headers());
    assert_eq!(
        Service::Tts.missing_error(),
        ServerError::Operation("No tts server available".to_string())
    );
    assert_eq!(
        Service::Chat.unavailable_error("e"),
        ServerError::Operation("Failed to get the chat server: e".to_string())
    );
}

#[test]
fn keys_are_used() {
    let s = |t: &str| Some(t.to_string());
    assert_eq!(authorization(&s("k"), &s("client")), s("Bearer k"));
    assert_eq!(authorization(&s("Bearer k"), &None), s("Bearer k"));
    assert_eq!(authorization(&s(""), &s("client")), s("client"));
    assert_eq!(authorization(&None, &None), None);
    assert_eq!(authorization_by_key(&s(""), &s("client")), s("Bearer "));
    assert_eq!(authorization_by_key(&None, &s("client")), s("client"));
    assert_eq!(authorization_as_is(&s("k"), &s("client")), s("k"));
    assert_eq!(authorization_as_is(&s(""), &s("client")), s("client"));
}

#[test]
fn headers_of_requests() {
    assert_eq!(request_id(Some("r")), "r");
    assert_eq!(request_id(None), "unknown");
    assert_eq!(content_type(Some("application/json")), Ok("application/json".to_string()));
    assert_eq!(
        content_type(None),
        Err(ServerError::Operation("Missing Content-Type header".to_string()))
    );
    assert_eq!(conversation_model(&None), "default");
    assert_eq!(conversation_model(&Some("m".to_string())), "m");
}

fn api() -> ApiServer {
    ApiServer {
        server_id: None,
        chat_model: Some("\"c\"".to_string()),
        embedding_model: None,
        image_model: None,
        tts_model: None,
        translate_model: None,
        transcribe_model: None,
    }
}

fn kind() -> ServerKind {
    ServerKind {
        chat: false,
        embeddings: false,
        image: false,
        tts: false,
        translate: false,
        transcribe: false,
    }
}

#[test]
fn servers_offer_what_they_are_registered_for() {
    let mut k = kind();
    k.chat = true;
    assert!(verify_server_kind(k, &api()).is_ok());
    let check = |k: ServerKind, what: &str| match verify_server_kind(k, &api()) {
        Err(ServerError::Operation(m)) => assert!(m.contains(what), "{m}"),
        other => panic!("{other:?}"),
    };
    check(ServerKind { embeddings: true, ..kind() }, "an embedding server");
    check(ServerKind { image: true, ..kind() }, "an image server");
    check(ServerKind { tts: true, ..kind() }, "a TTS server");
    check(ServerKind { translate: true, ..kind() }, "a translation server");
    check(ServerKind { transcribe: true, ..kind() }, "a transcription server");
    let mut none = api();
    none.chat_model = None;
    assert!(verify_server_kind(k, &none).is_err());
    let mut servers = TextMap::new();
    assert!(admit_server(&mut servers, "s1", k, none).is_err());
    assert!(servers.is_empty());
    admit_server(&mut servers, "s1", k, api()).unwrap();
    assert_eq!(servers.get("s1").unwrap().server_id, Some("s1".to_string()));
    let lists = collect_models(&servers);
    assert_eq!(chat_model(&servers), Some(&"\"c\"".to_string()));
    assert_eq!(chat_model(&TextMap::new()), None);
    assert_eq!(lists.chat, vec!["\"c\""]);
    assert!(lists.tts.is_empty());
}

#[test]
fn models_are_listed() {
    let model = |id: &str| Model {
        id: id.to_string(),
        created: 1,
        object: "model".to_string(),
        owned_by: "me".to_string(),
    };
    let mut models = TextMap::new();
    update_models(&mut models, "a", "u/models", ModelReply::List(vec![model("m1")])).unwrap();
    update_models(
        &mut models,
        "b",
        "u/models",
        ModelReply::Data(Some(vec![("m2".to_string(), 9)])),
    )
    .unwrap();
    let all = list_models(&models);
    assert_eq!(all.len(), 2);
    assert_eq!(all[1].owned_by, "openrouter.ai");
    assert_eq!(all[1].created, 9);
    assert_eq!(
        update_models(&mut models, "b", "u/models", ModelReply::Data(None)),
        Err(ServerError::Operation(
            "Failed to get the models from u/models. Not found `data` field in the response."
                .to_string()
        ))
    );
    assert!(lists_in_data("https://openrouter.ai/api/v1"));
    assert!(!lists_in_data("https://openrouter.ai/api/v1/"));
    assert_eq!(models_url("u"), "u/models");
}

#[test]
fn history_is_answered() {
    let r = history_reply(HistoryKind::Conversation, "c\"1", Some(Ok(("[1]".to_string(), 1))));
    assert_eq!((r.status, r.body.as_str()), (200, "{\"conversation_id\":\"c\\\"1\",\"messages\":[1]}"));
    let r = history_reply(HistoryKind::User, "u", Some(Ok(("[]".to_string(), 0))));
    assert_eq!(r.body, "{\"messages\":[],\"user_id\":\"u\"}");
    let r = history_reply(HistoryKind::Conversations, "u", Some(Ok(("[1,2]".to_string(), 2))));
    assert_eq!(r.body, "{\"conversations\":[1,2],\"total\":2,\"user_id\":\"u\"}");
    let r = history_reply(HistoryKind::Conversation, "c", Some(Err("x".to_string())));
    assert_eq!((r.status, r.body.as_str()), (404, "{\"error\":\"Conversation not found: x\"}"));
    let r = history_reply(HistoryKind::User, "c", Some(Err("x".to_string())));
    assert_eq!((r.status, r.body.as_str()), (500, "{\"error\":\"Failed to retrieve user history: x\"}"));
    let r = history_reply(HistoryKind::Conversations, "c", Some(Err("x".to_string())));
    assert_eq!(r.status, 500);
    let r = history_reply(HistoryKind::User, "c", None);
    assert_eq!((r.status, r.body.as_str()), (503, "{\"error\":\"Memory system is not enabled\"}"));
}

#[test]
fn json_texts_are_those_of_the_library() {
    let mut all = String::new();
    for n in 0..0x300u32 {
        all.push(char::from_u32(n).unwrap());
    }
    let r = history_reply(HistoryKind::User, &all, Some(Ok(("[]".to_string(), 0))));
    let back: serde_json::Value = serde_json::from_str(&r.body).unwrap();
    assert_eq!(back["user_id"], serde_json::Value::String(all.clone()));
    assert!(r.body.ends_with(&format!("{}}}", serde_json::to_string(&all).unwrap())));
}

#[test]
fn numbers_are_read_as_by_the_standard_library() {
    for s in ["", "0", "7", "007", "+7", "-1", "+", "12a", " 1", "18446744073709551615", "18446744073709551616", "99999999999999999999999", "٣"] {
        assert_eq!(parse_usize(s), s.parse::<usize>().ok(), "{s:?}");
    }
}

#[test]
fn paths_are_joined_as_by_the_standard_library() {
    for base in ["", "/", "a", "a/", "/a/b"] {
        for rel in ["x", "/x", "x/y", ""] {
            let expected = std::path::Path::new(base).join(rel);
            assert_eq!(join_path(base, rel), expected.to_str().unwrap(), "{base:?} {rel:?}");
        }
    }
}

#[test]
fn errors_in_words() {
    assert_eq!(ServerError::McpEmptyContent.message(), "The tool returned empty content");
    assert_eq!(ServerError::ReactTimeout(3).message(), "React loop timed out after 3 seconds");
    assert_eq!(
        ServerError::ToolCallRetryExhausted {
            tool_name: "t".to_string(),
            attempts: 3,
            message: "m".to_string(),
        }
        .message(),
        "Tool call 't' failed after 3 attempts: m"
    );
    assert_eq!(ServerError::PlanParseError("x".to_string()).message(), "Failed to parse the plan: x");
    assert_eq!(ServerError::CyclicDependency.message(), "The plan has a cyclic dependency");
    assert_eq!(
        ServerError::TimeBudgetExhausted { elapsed_secs: 9 }.message(),
        "Time budget exhausted after 9 seconds"
    );
}

#[test]
fn files_are_named_as_by_the_standard_library() {
    for path in [
        "", "/", ".", "..", "a", "a.b", ".a", ".a.b", "a.", "a..b", "/x/a.py", "x/..", "x/a.py/",
        "x/a.py/.", "x//a.tar.gz//", "./", "../a.b", "x/.", "...", "日.本",
    ] {
        let p = std::path::Path::new(path);
        assert_eq!(file_name(path), p.file_name().and_then(|n| n.to_str()), "{path:?}");
        assert_eq!(
            extension(path).as_deref(),
            p.extension().and_then(|n| n.to_str()),
            "{path:?}"
        );
    }
}
