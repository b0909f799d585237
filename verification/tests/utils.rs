use llama_nexus::chat::message::{ChatMessage, UserContent};
use llama_nexus::chat::plan::{answer_chunks, gen_chat_id, sse_event};
use llama_nexus::chat::react::answer_words;
use llama_nexus::chat::utils::{
    extract_system_message, extract_user_message, gen_chunks_with_formatting,
};

fn user(text: &str) -> ChatMessage {
    ChatMessage::user(text.to_string())
}

#[test]
fn chunks_join_to_the_text() {
    let texts = [
        "",
        "short",
        "The quick brown fox jumps over the lazy dog.",
        "line one\nline two\n\n  indented\tand tabbed\n",
        "日本語のテキスト と スペース\nと改行",
        "\n\n\n",
        "   leading and trailing   ",
        "averyveryverylongwordwithoutanyspaces and more",
    ];
    for text in texts {
        for size in [0usize, 1, 3, 10, 1000] {
            let chunks = gen_chunks_with_formatting(text, size);
            assert_eq!(chunks.concat(), text, "size {size}");
            assert!(chunks.iter().all(|c| !c.is_empty()));
        }
    }
}

#[test]
fn chunks_do_not_cut_words() {
    assert_eq!(
        gen_chunks_with_formatting("hello wonderful world", 3),
        vec!["hello ", "wonderful ", "world"]
    );
    assert_eq!(gen_chunks_with_formatting("ab cd\nef", 2), vec!["ab ", "cd\n", "ef"]);
    assert_eq!(gen_chunks_with_formatting("a b", 100), vec!["a b"]);
}

#[test]
fn chunk_size_counts_characters() {
    assert_eq!(gen_chunks_with_formatting("日 本 語", 3), vec!["日 本 ", "語"]);
    assert_eq!(gen_chunks_with_formatting("a b c d", 4), vec!["a b c ", "d"]);
    assert_eq!(gen_chunks_with_formatting("α β γ δ", 4), vec!["α β γ ", "δ"]);
}

#[test]
fn answer_pieces_are_numbered() {
    let chunks = answer_chunks("The quick brown fox jumps");
    assert_eq!(chunks.iter().map(|c| c.content.clone()).collect::<String>(), "The quick brown fox jumps");
    for (i, c) in chunks.iter().enumerate() {
        assert_eq!(c.index, i);
        assert_eq!(c.last, i == chunks.len() - 1);
    }
    let words = answer_words("  one two\nthree ");
    assert_eq!(
        words.iter().map(|c| c.content.as_str()).collect::<Vec<_>>(),
        vec!["one", "two", "three"]
    );
    assert!(words[2].last && !words[1].last);
    assert!(answer_chunks("").is_empty());
}

#[test]
fn events_have_their_frame() {
    assert_eq!(sse_event("[DONE]"), "data: [DONE]\n\n");
}

#[test]
fn chat_ids_are_fresh() {
    let a = gen_chat_id();
    let b = gen_chat_id();
    assert!(a.starts_with("chatcmpl-"));
    assert_eq!(a.len(), "chatcmpl-".len() + 36);
    assert_ne!(a, b);
}

#[test]
fn last_user_message_that_says_something_counts() {
    let messages = vec![
        ChatMessage::system("sys".to_string()),
        user("first"),
        user("second"),
        ChatMessage::User { content: UserContent::Parts(vec![None, None]), name: None },
    ];
    assert_eq!(extract_user_message(&messages), Some("second".to_string()));
    assert_eq!(extract_system_message(&messages), Some("sys".to_string()));
    let parts = vec![ChatMessage::User {
        content: UserContent::Parts(vec![Some("{\"a\":1}".to_string()), None, Some("2".to_string())]),
        name: None,
    }];
    assert_eq!(extract_user_message(&parts), Some("{\"a\":1} 2".to_string()));
    assert_eq!(extract_user_message(&Vec::new()), None);
    assert_eq!(extract_system_message(&parts), None);
}
