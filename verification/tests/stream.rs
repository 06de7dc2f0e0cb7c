use tiny_agent_loop::message::ToolCall;
use tiny_agent_loop::stream::{apply_tool_call_chunk, ToolCallChunk};

fn chunk(index: u32, id: Option<&str>, name: Option<&str>, args: Option<&str>) -> ToolCallChunk {
    ToolCallChunk {
        index,
        id: id.map(|s| s.to_string()),
        name: name.map(|s| s.to_string()),
        arguments: args.map(|s| s.to_string()),
    }
}

#[test]
fn fragments_concatenate_arguments_in_order() {
    let mut calls: Vec<ToolCall> = Vec::new();
    let mut notices: Vec<String> = Vec::new();
    apply_tool_call_chunk(&mut calls, &chunk(0, Some("call_1"), Some("add"), Some("{\"a\"")), &mut notices);
    apply_tool_call_chunk(&mut calls, &chunk(0, None, None, Some(": 5, ")), &mut notices);
    apply_tool_call_chunk(&mut calls, &chunk(0, None, None, Some("\"b\": 7}")), &mut notices);
    assert_eq!(calls.len(), 1);
    assert_eq!(calls[0].id, "call_1");
    assert_eq!(calls[0].name, "add");
    assert_eq!(calls[0].arguments, "{\"a\": 5, \"b\": 7}");
    assert_eq!(notices, vec!["add", "{\"a\"", ": 5, ", "\"b\": 7}"]);
}

#[test]
fn fragment_for_later_index_pads_with_empty_calls() {
    let mut calls: Vec<ToolCall> = Vec::new();
    let mut notices: Vec<String> = Vec::new();
    apply_tool_call_chunk(&mut calls, &chunk(2, Some("c"), None, None), &mut notices);
    assert_eq!(calls.len(), 3);
    assert_eq!(calls[0].id, "");
    assert_eq!(calls[0].name, "");
    assert_eq!(calls[0].arguments, "");
    assert_eq!(calls[1].id, "");
    assert_eq!(calls[2].id, "c");
    assert!(notices.is_empty());
}

#[test]
fn fragment_touches_only_its_call() {
    let mut calls: Vec<ToolCall> = Vec::new();
    let mut notices: Vec<String> = Vec::new();
    apply_tool_call_chunk(&mut calls, &chunk(0, Some("a"), Some("add"), Some("1")), &mut notices);
    apply_tool_call_chunk(&mut calls, &chunk(1, Some("b"), Some("show"), Some("2")), &mut notices);
    apply_tool_call_chunk(&mut calls, &chunk(1, Some("b2"), Some("show_result"), Some("3")), &mut notices);
    assert_eq!(calls[0].id, "a");
    assert_eq!(calls[0].name, "add");
    assert_eq!(calls[0].arguments, "1");
    assert_eq!(calls[1].id, "b2");
    assert_eq!(calls[1].name, "show_result");
    assert_eq!(calls[1].arguments, "23");
}
