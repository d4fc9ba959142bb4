use ember::cache::{
    estimate_size, is_expired, normalize_query, query_key, tool_key, tool_response, word_overlap,
    CachedResponse,
};

fn response() -> CachedResponse {
    CachedResponse {
        content: "Hello, world!".to_string(),
        model: "gpt-4".to_string(),
        tokens: 10,
        original_query: "Say hello".to_string(),
        metadata: vec![("k".to_string(), "vv".to_string())],
    }
}

#[test]
fn cache_estimate_size_counts_bytes_and_overhead() {
    assert_eq!(estimate_size(&response()), 13 + 5 + 9 + 3 + 100);
    let mut r = response();
    r.content = "é".to_string();
    r.metadata = Vec::new();
    assert_eq!(estimate_size(&r), 2 + 5 + 9 + 100);
}

#[test]
fn cache_query_key_is_lowercase_and_trimmed() {
    assert_eq!(query_key("  Say HELLO \n"), "say hello");
    assert_eq!(query_key("Say hello"), query_key("say hello"));
}

#[test]
fn cache_normalized_query_joins_words() {
    assert_eq!(normalize_query("  What   is\tTHE capital "), "what is the capital");
    assert_eq!(normalize_query(""), "");
}

#[test]
fn cache_tool_keys_and_responses() {
    assert_eq!(tool_key("shell", "ls -la"), "shell:ls -la");
    let r = tool_response("shell", "ls -la", "file1.txt\nfile2.txt");
    assert_eq!(r.content, "file1.txt\nfile2.txt");
    assert_eq!(r.model, "shell");
    assert_eq!(r.original_query, "ls -la");
    assert_eq!(r.tokens, 0);
    assert!(r.metadata.is_empty());
}

#[test]
fn cache_expiry() {
    assert!(!is_expired(5, None));
    assert!(!is_expired(10, Some(10)));
    assert!(is_expired(11, Some(10)));
}

#[test]
fn cache_word_overlap_counts_distinct_words() {
    assert_eq!(
        word_overlap("What is the capital of France", "what is the capital of france"),
        (6, 6)
    );
    assert_eq!(word_overlap("a b", "b c"), (1, 3));
    assert_eq!(word_overlap("a a A", ""), (0, 1));
    assert_eq!(word_overlap("", ""), (0, 0));
}
