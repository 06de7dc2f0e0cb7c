use tiny_agent_loop::response::{
    context_overflow_from_kind, is_context_overflow_text, join_choice_contents,
};

#[test]
fn context_overflow_is_recognized() {
    let json = r#"{"error":{"code":400,"message":"too long","type":"exceed_context_size_error"}}"#;
    assert_eq!(is_context_overflow_text(json), Some(true));
}

#[test]
fn other_errors_are_not_context_overflow() {
    assert_eq!(
        is_context_overflow_text(r#"{"error":{"type":"rate_limit_exceeded"}}"#),
        Some(false)
    );
    assert_eq!(is_context_overflow_text(r#"{"error":{"code":500}}"#), Some(false));
    assert_eq!(is_context_overflow_text(r#"{"error":"exceed_context_size_error"}"#), Some(false));
    assert_eq!(is_context_overflow_text(r#"{"error":{"type":42}}"#), Some(false));
    assert_eq!(is_context_overflow_text(r#"{"type":"exceed_context_size_error"}"#), Some(false));
    assert_eq!(is_context_overflow_text("[1, 2]"), Some(false));
}

#[test]
fn error_text_that_is_not_json_is_reported() {
    assert_eq!(is_context_overflow_text("not json"), None);
    assert_eq!(is_context_overflow_text(""), None);
}

#[test]
fn choice_contents_are_joined_in_order() {
    let text = join_choice_contents(vec![
        Some("{\"a\":".to_string()),
        Some(" 1}".to_string()),
    ]);
    assert_eq!(text, "{\"a\": 1}");
    assert_eq!(join_choice_contents(vec![]), "");
}

#[test]
fn decision_from_the_read_error_type() {
    assert_eq!(
        context_overflow_from_kind(Some(Some("exceed_context_size_error".to_string()))),
        Some(true)
    );
    assert_eq!(context_overflow_from_kind(Some(Some("other".to_string()))), Some(false));
    assert_eq!(context_overflow_from_kind(Some(None)), Some(false));
    assert_eq!(context_overflow_from_kind(None), None);
}

#[test]
fn error_type_in_an_array_body_is_not_found() {
    assert_eq!(
        is_context_overflow_text(r#"{"error":[{"type":"exceed_context_size_error"}]}"#),
        Some(false)
    );
}
