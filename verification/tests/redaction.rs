use magi_api::redaction::{excerpt, redact_key_chars};

#[test]
fn excerpt_redacts_sensitive_json_fields_paths_and_tokens() {
    let excerpt = excerpt(
        r#"{"api_key":"sk-live-secret","message":"failed at /Users/xie/.magi/token with Bearer abcdef","nested":{"password":"hidden"}}"#,
    );

    assert!(excerpt.contains(r#""api_key":"[redacted]""#));
    assert!(excerpt.contains(r#""password":"[redacted]""#));
    assert!(excerpt.contains("[path]"));
    assert!(excerpt.contains("Bearer [redacted]"));
    assert!(!excerpt.contains("sk-live-secret"));
    assert!(!excerpt.contains("/Users/xie"));
    assert!(!excerpt.contains("abcdef"));
    assert!(!excerpt.contains("hidden"));
}

#[test]
fn excerpt_redacts_plain_text_paths_and_tokens_before_truncating() {
    let excerpt = excerpt(
        "provider rejected token sk-test-secret at /private/tmp/magi/config with Authorization: Bearer abcdef",
    );

    assert!(excerpt.contains("sk-[redacted]"));
    assert!(excerpt.contains("[path]"));
    assert!(excerpt.contains("Bearer [redacted]"));
    assert!(!excerpt.contains("sk-test-secret"));
    assert!(!excerpt.contains("/private/tmp"));
    assert!(!excerpt.contains("abcdef"));
}

#[test]
fn excerpt_of_plain_text_is_exact() {
    assert_eq!(
        excerpt("see /tmp/x.log, Bearer tok; sk- and sk-abc_1"),
        "see [path], Bearer [redacted]; sk- and sk-[redacted]"
    );
}

#[test]
fn excerpt_truncates_at_one_hundred_twenty_characters() {
    let long = "é".repeat(130);
    let out = excerpt(&long);
    assert_eq!(out, format!("{}...", "é".repeat(120)));
    assert_eq!(excerpt(&"a".repeat(120)), "a".repeat(120));
}

#[test]
fn excerpt_reprints_json_with_sorted_keys_and_keeps_numbers() {
    assert_eq!(
        excerpt(r#"{"b":1,"Token":"x","a":[2.5,null,true,"/Volumes/d"]}"#),
        r#"{"Token":"[redacted]","a":[2.5,null,true,"[path]"],"b":1}"#
    );
}

#[test]
fn key_redaction_leaves_no_readable_key_and_is_stable() {
    let text: Vec<char> = "token sk-test-secret at sk- and sk-sk-x, xsk-9".chars().collect();
    let once = redact_key_chars(&text);
    let shown: String = once.iter().collect();
    assert_eq!(shown, "token sk-[redacted] at sk- and sk-[redacted], xsk-[redacted]");
    let twice = redact_key_chars(&once);
    assert_eq!(twice, once);
}
