use claude_usage::token::{extract_access_token, token_from_sources};

#[test]
fn top_level_token() {
    assert_eq!(extract_access_token(r#"{"accessToken":"abc"}"#), Some("abc".to_string()));
}

#[test]
fn nested_token() {
    let blob = r#"{"claudeAiOauth":{"accessToken":"tok-1","refreshToken":"r"}}"#;
    assert_eq!(extract_access_token(blob), Some("tok-1".to_string()));
}

#[test]
fn nested_token_first_member_in_key_order() {
    let blob = r#"{"b":{"accessToken":"second"},"a":{"accessToken":"first"}}"#;
    assert_eq!(extract_access_token(blob), Some("first".to_string()));
}

#[test]
fn top_level_token_wins_over_nested() {
    let blob = r#"{"a":{"accessToken":"nested"},"accessToken":"top"}"#;
    assert_eq!(extract_access_token(blob), Some("top".to_string()));
}

#[test]
fn surrounding_space_is_trimmed() {
    let blob = "  \n\t{\"claudeAiOauth\": {\"accessToken\": \"x-y\"}}\n\u{a0}";
    assert_eq!(extract_access_token(blob), Some("x-y".to_string()));
}

#[test]
fn text_fallback_when_not_json() {
    let blob = r#"junk before "accessToken" :   "zzz" and junk after"#;
    assert_eq!(extract_access_token(blob), Some("zzz".to_string()));
}

#[test]
fn text_fallback_when_json_has_no_string_token() {
    let blob = r#"{"accessToken": 5, "note": "x"}"#;
    assert_eq!(extract_access_token(blob), None);
}

#[test]
fn text_fallback_needs_quoted_value() {
    assert_eq!(extract_access_token(r#"oops "accessToken": 42 }"#), None);
    assert_eq!(extract_access_token(r#"oops "accessToken" no colon"#), None);
    assert_eq!(extract_access_token(r#"oops "accessToken": "unterminated"#), None);
}

#[test]
fn blank_blob_has_no_token() {
    assert_eq!(extract_access_token(""), None);
    assert_eq!(extract_access_token(" \n\t "), None);
}

#[test]
fn json_without_token() {
    assert_eq!(extract_access_token(r#"{"a":1,"b":[1,2]}"#), None);
    assert_eq!(extract_access_token("[1, 2, 3]"), None);
}

#[test]
fn keychain_token_comes_first() {
    let k = r#"{"accessToken":"from-keychain"}"#;
    let f = r#"{"accessToken":"from-file"}"#;
    assert_eq!(token_from_sources(Some(k), Some(f)), Some("from-keychain".to_string()));
}

#[test]
fn file_token_when_keychain_has_none() {
    let f = r#"{"claudeAiOauth":{"accessToken":"from-file"}}"#;
    assert_eq!(token_from_sources(Some("nothing here"), Some(f)), Some("from-file".to_string()));
    assert_eq!(token_from_sources(None, Some(f)), Some("from-file".to_string()));
}

#[test]
fn no_sources_no_token() {
    assert_eq!(token_from_sources(None, None), None);
    assert_eq!(token_from_sources(Some("{}"), None), None);
}
