use std::ops::ControlFlow;
use tiny_agent_loop::agent::{Agent, FinishHandler};
use tiny_agent_loop::message::{get_message_len, Content, Message, UserMessage};
use tiny_agent_loop::session::{Next, Session, ToolStep};
use tiny_agent_loop::stream::{FinishReason, StreamChoice, ToolCallChunk};

type TestAgent = Agent<(), i32, fn() -> i32, dyn Fn(&str)>;

fn stop_value() -> i32 {
    7
}

fn agent() -> TestAgent {
    Agent::new("any".to_string(), (), FinishHandler::new(stop_value as fn() -> i32))
}

fn session(prompt: &str) -> Session<TestAgent, (), i32> {
    agent().into_session(prompt)
}

fn user_text(m: &Message) -> Option<String> {
    match m {
        Message::User { content: Content::Text(t), name: None } => Some(t.clone()),
        _ => None,
    }
}

fn tool_chunk(index: u32, id: &str, name: &str, args: &str) -> ToolCallChunk {
    ToolCallChunk {
        index,
        id: Some(id.to_string()),
        name: Some(name.to_string()),
        arguments: Some(args.to_string()),
    }
}

fn names(ns: &[&str]) -> Vec<String> {
    ns.iter().map(|s| s.to_string()).collect()
}

#[test]
fn session_starts_with_the_prompt() {
    let s = session("Sum 5 and 7");
    assert_eq!(s.messages().len(), 1);
    assert_eq!(user_text(&s.messages()[0]).as_deref(), Some("Sum 5 and 7"));
}

#[test]
fn start_session_borrows_the_agent() {
    let mut a = agent();
    {
        let s = a.start_session("first");
        assert_eq!(s.messages().len(), 1);
    }
    let s2 = a.start_session("second");
    assert_eq!(s2.messages().len(), 1);
    assert_eq!(user_text(&s2.messages()[0]).as_deref(), Some("second"));
    let back = s2.into_agent();
    assert_eq!(back.model(), "any");
    assert!(back.content_listener().is_none());
}

#[test]
fn into_session_gives_the_agent_back() {
    let mut s = session("p");
    s.add_message(UserMessage::text("q".to_string()));
    let a = s.into_agent();
    assert_eq!(a.model(), "any");
    let s2 = a.into_session("r");
    assert_eq!(s2.messages().len(), 1);
}

#[test]
fn add_message_appends_a_user_message() {
    let mut s = session("a");
    s.add_message(UserMessage::text("b".to_string()))
        .add_message(UserMessage::text("c".to_string()));
    assert_eq!(s.messages().len(), 3);
    assert_eq!(user_text(&s.messages()[2]).as_deref(), Some("c"));
}

#[test]
fn every_tool_call_is_answered_once_in_order() {
    let mut s = session("compute");
    let choice = StreamChoice {
        content: Some("thinking".to_string()),
        tool_calls: Some(vec![
            tool_chunk(0, "call_a", "add", "{\"a\":5,\"b\":7}"),
            tool_chunk(1, "call_b", "missing", "{}"),
            tool_chunk(2, "call_c", "add", "{\"a\":12,\"b\":2}"),
        ]),
        finish_reason: Some(FinishReason::ToolCalls),
    };
    let out = s.on_choice(choice);
    assert_eq!(out.content.as_deref(), Some("thinking"));
    assert_eq!(out.tool_call_notices.len(), 6);
    assert_eq!(out.next, Next::RunTools);

    let tools = names(&["show_result", "add"]);
    match s.next_tool(&tools) {
        ToolStep::Invoke { tool, arguments } => {
            assert_eq!(tool, 1);
            assert_eq!(arguments, "{\"a\":5,\"b\":7}");
        }
        ToolStep::Done => panic!("expected an invocation"),
    }
    assert_eq!(s.tool_result(ControlFlow::Continue("Result: 12".to_string())), None);
    match s.next_tool(&tools) {
        ToolStep::Invoke { tool, arguments } => {
            assert_eq!(tool, 1);
            assert_eq!(arguments, "{\"a\":12,\"b\":2}");
        }
        ToolStep::Done => panic!("expected an invocation"),
    }
    assert_eq!(s.tool_result(ControlFlow::Continue("Result: 14".to_string())), None);
    assert!(matches!(s.next_tool(&tools), ToolStep::Done));
    s.end_turn();

    let m = s.messages();
    assert_eq!(m.len(), 5);
    match &m[1] {
        Message::Assistant { content: None, tool_calls: Some(calls), .. } => {
            assert_eq!(calls.len(), 3);
            assert_eq!(calls[1].id, "call_b");
            assert_eq!(calls[1].name, "missing");
        }
        _ => panic!("expected the assistant message with the calls"),
    }
    let expected = [
        ("call_a", "Result: 12"),
        ("call_b", "ERROR: Tool not found"),
        ("call_c", "Result: 14"),
    ];
    for (i, (id, text)) in expected.iter().enumerate() {
        match &m[2 + i] {
            Message::Tool { content: Content::Text(t), tool_call_id } => {
                assert_eq!(tool_call_id, id);
                assert_eq!(t, text);
            }
            _ => panic!("expected a tool message"),
        }
    }
}

#[test]
fn tool_break_ends_the_session_with_its_value() {
    let mut s = session("go");
    s.on_choice(StreamChoice {
        content: None,
        tool_calls: Some(vec![tool_chunk(0, "c1", "show_result", "{\"result\":123871312}")]),
        finish_reason: Some(FinishReason::ToolCalls),
    });
    let tools = names(&["add", "show_result"]);
    assert!(matches!(s.next_tool(&tools), ToolStep::Invoke { tool: 1, .. }));
    assert_eq!(s.tool_result(ControlFlow::Break(123871312)), Some(123871312));
}

#[test]
fn turn_without_tool_answers_leaves_history_unchanged() {
    let mut s = session("hello");
    s.on_choice(StreamChoice {
        content: None,
        tool_calls: Some(vec![tool_chunk(0, "c1", "add", "{")]),
        finish_reason: None,
    });
    s.end_turn();
    assert_eq!(s.messages().len(), 1);
}

#[test]
fn stop_asks_the_finish_handler_and_its_message_is_appended() {
    let mut s = session("hello");
    let out = s.on_choice(StreamChoice {
        content: Some("done".to_string()),
        tool_calls: None,
        finish_reason: Some(FinishReason::Stop),
    });
    assert_eq!(out.next, Next::Finish);
    assert!(out.tool_call_notices.is_empty());
    let r = s.finish_result(ControlFlow::Continue(
        "please terminate with the show_result tool".to_string(),
    ));
    assert_eq!(r, None);
    assert_eq!(s.messages().len(), 2);
    assert_eq!(
        user_text(&s.messages()[1]).as_deref(),
        Some("please terminate with the show_result tool")
    );
    assert_eq!(s.finish_result(ControlFlow::Break(3)), Some(3));
    assert_eq!(s.messages().len(), 2);
}

#[test]
fn length_and_content_filter_finish_and_function_call_fails() {
    let mut s = session("x");
    let out = s.on_choice(StreamChoice {
        content: None,
        tool_calls: None,
        finish_reason: Some(FinishReason::Length),
    });
    assert_eq!(out.next, Next::Finish);
    let out = s.on_choice(StreamChoice {
        content: None,
        tool_calls: None,
        finish_reason: Some(FinishReason::ContentFilter),
    });
    assert_eq!(out.next, Next::Finish);
    let out = s.on_choice(StreamChoice {
        content: None,
        tool_calls: None,
        finish_reason: Some(FinishReason::FunctionCall),
    });
    assert_eq!(out.next, Next::Fail(FinishReason::FunctionCall));
    let out = s.on_choice(StreamChoice { content: None, tool_calls: None, finish_reason: None });
    assert_eq!(out.next, Next::Continue);
}

fn ten(c: char) -> String {
    std::iter::repeat(c).take(10).collect()
}

#[test]
fn summary_takes_oldest_messages_up_to_half_and_keeps_three() {
    let mut s = session(&ten('a'));
    for c in ['b', 'c', 'd', 'e'] {
        s.add_message(UserMessage::text(ten(c)));
    }
    let batch = s.take_for_summary("Summarize.".to_string());
    assert_eq!(batch.len(), 3);
    assert_eq!(user_text(&batch[0]).as_deref(), Some(ten('a').as_str()));
    assert_eq!(user_text(&batch[1]).as_deref(), Some(ten('b').as_str()));
    assert_eq!(user_text(&batch[2]).as_deref(), Some("Summarize."));
    assert_eq!(s.messages().len(), 3);
    assert_eq!(user_text(&s.messages()[0]).as_deref(), Some(ten('c').as_str()));

    s.insert_summaries(vec!["first".to_string(), "second".to_string()]);
    assert_eq!(s.messages().len(), 5);
    assert_eq!(user_text(&s.messages()[0]).as_deref(), Some("first"));
    assert_eq!(user_text(&s.messages()[1]).as_deref(), Some("second"));
    assert_eq!(user_text(&s.messages()[2]).as_deref(), Some(ten('c').as_str()));
}

#[test]
fn summary_stops_once_half_of_the_text_is_reached() {
    let big: String = std::iter::repeat('x').take(100).collect();
    let mut s = session(&big);
    for c in ['b', 'c', 'd', 'e'] {
        s.add_message(UserMessage::text(c.to_string()));
    }
    let batch = s.take_for_summary("S".to_string());
    assert_eq!(batch.len(), 2);
    assert_eq!(get_message_len(&batch[0]), 100);
    assert_eq!(s.messages().len(), 4);
}

#[test]
fn summary_of_a_single_message_takes_it() {
    let mut s = session(&ten('z'));
    let batch = s.take_for_summary("S".to_string());
    assert_eq!(batch.len(), 2);
    assert_eq!(s.messages().len(), 0);
}

#[test]
fn summary_of_empty_texts_takes_nothing() {
    let mut s = session("");
    s.add_message(UserMessage::text(String::new()));
    let batch = s.take_for_summary("S".to_string());
    assert_eq!(batch.len(), 1);
    assert_eq!(s.messages().len(), 2);
}

#[test]
fn agent_builders_set_model_and_listeners() {
    let a = agent();
    assert_eq!(a.model(), "any");
    assert!(a.content_listener().is_none());
    assert!(a.tool_call_listener().is_none());
    let a = a.with_content_listener(Box::new(|_s: &str| {}));
    assert!(a.content_listener().is_some());
    assert!(a.tool_call_listener().is_none());
    let a = a.with_tool_call_listener(Box::new(|_s: &str| {}));
    assert!(a.tool_call_listener().is_some());
    assert_eq!(a.model(), "any");
}

#[test]
fn finish_handler_invoke_calls_the_handler() {
    let mut count = 0;
    let mut h: FinishHandler<i32, _> = FinishHandler::from(move || {
        count += 1;
        count
    });
    assert_eq!(h.invoke(), 1);
    assert_eq!(h.invoke(), 2);
}

#[test]
fn reset_turn_drops_the_turn_and_keeps_the_history() {
    let mut s = session("go");
    s.on_choice(StreamChoice {
        content: None,
        tool_calls: Some(vec![tool_chunk(0, "c1", "add", "{\"a\":1}")]),
        finish_reason: Some(FinishReason::ToolCalls),
    });
    let tools = names(&["add"]);
    assert!(matches!(s.next_tool(&tools), ToolStep::Invoke { tool: 0, .. }));
    assert_eq!(s.tool_result(ControlFlow::Break(1)), Some(1));
    s.reset_turn();
    assert_eq!(s.messages().len(), 1);
    assert!(matches!(s.next_tool(&tools), ToolStep::Done));
    s.end_turn();
    assert_eq!(s.messages().len(), 1);
}

#[test]
fn finish_handler_from_wraps_the_closure() {
    let mut h: FinishHandler<i32, _> = FinishHandler::from(|| ControlFlow::<i32, String>::Break(9));
    assert_eq!(h.invoke(), ControlFlow::Break(9));
}
