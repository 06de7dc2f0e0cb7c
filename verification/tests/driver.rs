use std::ops::ControlFlow;
use tiny_agent_loop::agent::{Agent, FinishHandler};
use tiny_agent_loop::driver::{Action, Event, Failure};
use tiny_agent_loop::message::{Content, Message, UserMessage};
use tiny_agent_loop::session::Session;
use tiny_agent_loop::stream::{FinishReason, StreamChoice, ToolCallChunk};

type TestAgent = Agent<(), i32, fn() -> i32, dyn Fn(&str)>;

fn zero() -> i32 {
    0
}

fn session(prompt: &str) -> Session<TestAgent, (), i32> {
    let agent: TestAgent =
        Agent::new("any".to_string(), (), FinishHandler::new(zero as fn() -> i32));
    agent.into_session(prompt)
}

fn names(ns: &[&str]) -> Vec<String> {
    ns.iter().map(|s| s.to_string()).collect()
}

fn call_chunk(index: u32, id: &str, name: &str, args: &str) -> ToolCallChunk {
    ToolCallChunk {
        index,
        id: Some(id.to_string()),
        name: Some(name.to_string()),
        arguments: Some(args.to_string()),
    }
}

#[test]
fn driver_runs_tools_then_requests_again() {
    let mut s = session("Sum 5 and 7.");
    let tools = names(&["add", "show_result"]);
    let out = s.step(
        Event::Choice(StreamChoice {
            content: Some("I'll add.".to_string()),
            tool_calls: Some(vec![
                call_chunk(0, "a", "add", "{\"a\":5,\"b\":7}"),
                call_chunk(1, "b", "nope", "{}"),
            ]),
            finish_reason: Some(FinishReason::ToolCalls),
        }),
        &tools,
    );
    assert_eq!(out.content.as_deref(), Some("I'll add."));
    assert_eq!(out.tool_call_notices.len(), 4);
    match out.action {
        Action::InvokeTool { tool, arguments } => {
            assert_eq!(tool, 0);
            assert_eq!(arguments, "{\"a\":5,\"b\":7}");
        }
        _ => panic!("expected a tool invocation"),
    }
    let out = s.step(Event::ToolAnswer(ControlFlow::Continue("Result: 12".to_string())), &tools);
    assert!(matches!(out.action, Action::Read));
    let out = s.step(Event::StreamEnded, &tools);
    assert!(matches!(out.action, Action::Request));
    let m = s.messages();
    assert_eq!(m.len(), 4);
    match (&m[2], &m[3]) {
        (
            Message::Tool { content: Content::Text(t1), tool_call_id: i1 },
            Message::Tool { content: Content::Text(t2), tool_call_id: i2 },
        ) => {
            assert_eq!((i1.as_str(), t1.as_str()), ("a", "Result: 12"));
            assert_eq!((i2.as_str(), t2.as_str()), ("b", "ERROR: Tool not found"));
        }
        _ => panic!("expected two tool messages"),
    }
}

#[test]
fn driver_returns_on_break_and_finishes_on_stop() {
    let mut s = session("go");
    let tools = names(&["show_result"]);
    let out = s.step(
        Event::Choice(StreamChoice {
            content: None,
            tool_calls: None,
            finish_reason: Some(FinishReason::Stop),
        }),
        &tools,
    );
    assert!(matches!(out.action, Action::InvokeFinish));
    let out = s.step(
        Event::FinishAnswer(ControlFlow::Continue("use show_result".to_string())),
        &tools,
    );
    assert!(matches!(out.action, Action::Read));
    assert_eq!(s.messages().len(), 2);
    let out = s.step(
        Event::Choice(StreamChoice {
            content: None,
            tool_calls: Some(vec![call_chunk(0, "r", "show_result", "{\"result\":14}")]),
            finish_reason: Some(FinishReason::ToolCalls),
        }),
        &tools,
    );
    assert!(matches!(out.action, Action::InvokeTool { tool: 0, .. }));
    let out = s.step(Event::ToolAnswer(ControlFlow::Break(14)), &tools);
    assert!(matches!(out.action, Action::Return(14)));
}

#[test]
fn driver_fails_on_function_call_and_unexpected_errors() {
    let tools = names(&[]);
    let mut s = session("x");
    let out = s.step(
        Event::Choice(StreamChoice {
            content: None,
            tool_calls: None,
            finish_reason: Some(FinishReason::FunctionCall),
        }),
        &tools,
    );
    assert!(matches!(out.action, Action::Fail(Failure::StopReason(FinishReason::FunctionCall))));
    let mut s = session("x");
    let out = s.step(
        Event::ErrorBody { body: "oops".to_string(), summary_request: "S".to_string() },
        &tools,
    );
    assert!(matches!(out.action, Action::Fail(Failure::ErrorBodyNotJson)));
    let mut s = session("x");
    let out = s.step(
        Event::ErrorBody {
            body: r#"{"error":{"type":"server_error"}}"#.to_string(),
            summary_request: "S".to_string(),
        },
        &tools,
    );
    assert!(matches!(out.action, Action::Fail(Failure::UnexpectedError)));
}

#[test]
fn driver_summarizes_on_context_overflow() {
    let tools = names(&[]);
    let mut s = session("0123456789");
    for t in ["a", "b", "c", "d"] {
        s.add_message(UserMessage::text(t.to_string()));
    }
    let out = s.step(
        Event::ErrorBody {
            body: r#"{"error":{"type":"exceed_context_size_error"}}"#.to_string(),
            summary_request: "Summarize.".to_string(),
        },
        &tools,
    );
    match out.action {
        Action::Summarize(batch) => assert_eq!(batch.len(), 2),
        _ => panic!("expected a summary request"),
    }
    assert_eq!(s.messages().len(), 4);
    let out = s.step(Event::Summaries(vec!["summary".to_string()]), &tools);
    assert!(matches!(out.action, Action::Request));
    assert_eq!(s.messages().len(), 5);
}
