use tiny_agent_loop::message::{
    get_message_len, Content, ContentPart, Message, ToolCall, UserMessage,
};

fn text(s: &str) -> Content {
    Content::Text(s.to_string())
}

#[test]
fn user_text_length_counts_utf8_bytes() {
    let m = Message::User { content: text("héllo"), name: None };
    assert_eq!(get_message_len(&m), 6);
}

#[test]
fn only_text_parts_are_counted() {
    let m = Message::User {
        content: Content::Parts(vec![
            ContentPart::Text { text: "abc".to_string(), settings: None },
            ContentPart::Other("{\"type\":\"image_url\"}".to_string()),
            ContentPart::Text { text: "de".to_string(), settings: Some("{\"type\":\"ephemeral\"}".to_string()) },
        ]),
        name: Some("bob".to_string()),
    };
    assert_eq!(get_message_len(&m), 5);
}

#[test]
fn assistant_refusal_parts_count_as_empty() {
    let m = Message::Assistant {
        content: Some(Content::Parts(vec![
            ContentPart::Text { text: "ok".to_string(), settings: None },
            ContentPart::Refusal("no way".to_string()),
        ])),
        refusal: None,
        name: None,
        tool_calls: None,
    };
    assert_eq!(get_message_len(&m), 2);
}

#[test]
fn assistant_without_content_is_empty() {
    let m = Message::Assistant {
        content: None,
        refusal: Some("refused".to_string()),
        name: None,
        tool_calls: Some(vec![ToolCall {
            id: "c1".to_string(),
            name: "add".to_string(),
            arguments: "{\"a\":1}".to_string(),
        }]),
    };
    assert_eq!(get_message_len(&m), 0);
}

#[test]
fn function_tool_system_developer_lengths() {
    let f = Message::Function { content: Some("abcd".to_string()), name: "f".to_string() };
    assert_eq!(get_message_len(&f), 4);
    let f_empty = Message::Function { content: None, name: "f".to_string() };
    assert_eq!(get_message_len(&f_empty), 0);
    let t = Message::Tool { content: text("Result: 12"), tool_call_id: "x".to_string() };
    assert_eq!(get_message_len(&t), 10);
    let s = Message::System { content: Content::Parts(vec![]), name: None };
    assert_eq!(get_message_len(&s), 0);
    let d = Message::Developer { content: text("€"), name: None };
    assert_eq!(get_message_len(&d), 3);
}

#[test]
fn user_message_becomes_user_entry() {
    let m = UserMessage::text("hi".to_string()).into_message();
    match m {
        Message::User { content: Content::Text(t), name: None } => assert_eq!(t, "hi"),
        _ => panic!("not a plain user message"),
    }
}

#[test]
fn size_of_parts_adds_up() {
    let p = vec![
        ContentPart::Text { text: "ab".to_string(), settings: None },
        ContentPart::Other("{}".to_string()),
    ];
    let q = vec![ContentPart::Text { text: "ü".to_string(), settings: None }];
    let len = |parts: Vec<ContentPart>| {
        get_message_len(&Message::Tool { content: Content::Parts(parts), tool_call_id: "i".to_string() })
    };
    let both: Vec<ContentPart> = vec![
        ContentPart::Text { text: "ab".to_string(), settings: None },
        ContentPart::Other("{}".to_string()),
        ContentPart::Text { text: "ü".to_string(), settings: None },
    ];
    assert_eq!(len(both), len(p) + len(q));
    let one = vec![ContentPart::Text { text: "xyz".to_string(), settings: None }];
    assert_eq!(len(one), get_message_len(&Message::User { content: text("xyz"), name: None }));
}
