use crate::message::{message_lens, messages_view, opt_str_view, user_text, Message, MessageView};
use crate::response::{error_kind_pointer, is_context_overflow_text, overflow_from_kind, spec_json_string_at};
use crate::session::{
    advance, answered, fresh_turn, history_after_turn, next_after, Next, Phase, Session,
    SessionView, ToolStep, ToolStepView,
};
use crate::stream::{apply_chunks, chunks_notices, strs_view, FinishReason, StreamChoice};
use crate::sum::sum;
use crate::summary::is_summary_count;
use core::ops::ControlFlow;
use vstd::prelude::*;

verus! {

/// Why a session ends without a value.
#[derive(Clone, Copy, Debug, PartialEq, Eq, Structural)]
pub enum Failure {
    /// The model stopped with a reason the loop does not handle.
    StopReason(FinishReason),
    /// The API sent an error body that is not JSON.
    ErrorBodyNotJson,
    /// The API sent an error other than an exceeded context window.
    UnexpectedError,
}

/// What the outside world reports to the loop.
pub enum Event<R> {
    /// One streamed choice.
    Choice(StreamChoice),
    /// The answer of the tool that was handed out.
    ToolAnswer(ControlFlow<R, String>),
    /// The answer of the finish handler.
    FinishAnswer(ControlFlow<R, String>),
    /// The stream has no more elements.
    StreamEnded,
    /// The stream failed with an error body that could not be read as a
    /// chunk; `summary_request` is the request to summarize, should the body
    /// report an exceeded context window.
    ErrorBody { body: String, summary_request: String },
    /// The summaries of the messages handed out to be summarized.
    Summaries(Vec<String>),
}

/// What the loop asks the outside world to do next.
pub enum Action<R> {
    /// Send the history to the model and stream its answer.
    Request,
    /// Go on with the next streamed choice or stream element.
    Read,
    /// Invoke tool number `tool` with `arguments`, and report its answer.
    InvokeTool { tool: usize, arguments: String },
    /// Call the finish handler, and report its answer.
    InvokeFinish,
    /// Have these messages summarized, and report the summaries.
    Summarize(Vec<Message>),
    /// The session ends with this value.
    Return(R),
    /// The session ends without a value.
    Fail(Failure),
}

pub enum ActionView<R> {
    Request,
    Read,
    InvokeTool { tool: nat, arguments: Seq<char> },
    InvokeFinish,
    Summarize(Seq<MessageView>),
    Return(R),
    Fail(Failure),
}

impl<R> View for Action<R> {
    type V = ActionView<R>;

    open spec fn view(&self) -> ActionView<R> {
        match self {
            Action::Request => ActionView::Request,
            Action::Read => ActionView::Read,
            Action::InvokeTool { tool, arguments } => ActionView::InvokeTool {
                tool: *tool as nat,
                arguments: arguments@,
            },
            Action::InvokeFinish => ActionView::InvokeFinish,
            Action::Summarize(batch) => ActionView::Summarize(messages_view(batch@)),
            Action::Return(v) => ActionView::Return(*v),
            Action::Fail(f) => ActionView::Fail(*f),
        }
    }
}

/// The outcome of one step: the texts for the listeners and the next action.
pub struct StepOutcome<R> {
    pub content: Option<String>,
    pub tool_call_notices: Vec<String>,
    pub action: Action<R>,
}

/// The state is one the driver can be in: the next call lies within the
/// calls, and while a tool is awaited it is one of them.
pub open spec fn ready(s: SessionView) -> bool {
    &&& s.cursor <= s.tool_calls.len()
    &&& s.phase == Phase::Tools ==> s.cursor < s.tool_calls.len()
}

/// Running the calls on from the current one: hand out the next call of a
/// known tool and wait for it, or, when every call is answered, go on
/// reading.
pub open spec fn run_on<R>(s: SessionView, names: Seq<Seq<char>>) -> (SessionView, ActionView<R>) {
    let (results, cursor, step) = advance(s.tool_calls, s.results, s.cursor, names);
    match step {
        ToolStepView::Invoke { tool, arguments } => (
            SessionView { results, cursor, phase: Phase::Tools, ..s },
            ActionView::InvokeTool { tool, arguments },
        ),
        ToolStepView::Done => (
            SessionView { results, cursor, phase: Phase::Streaming, ..s },
            ActionView::Read,
        ),
    }
}

/// The state `s` with phase `p`.
pub open spec fn in_phase(s: SessionView, p: Phase) -> SessionView {
    SessionView { phase: p, ..s }
}

/// The oldest messages were handed out for summary with `request` after
/// them, the rest stays, and the loop waits for the summaries.
pub open spec fn summarizing<R>(
    old: SessionView,
    request: Seq<char>,
    new: SessionView,
    a: ActionView<R>,
) -> bool {
    match a {
        ActionView::Summarize(batch) => {
            let n = batch.len() - 1;
            &&& batch.len() >= 1
            &&& is_summary_count(message_lens(old.messages), n as nat)
            &&& batch == old.messages.take(n).push(user_text(request))
            &&& new == in_phase(
                SessionView { messages: old.messages.skip(n), ..old },
                Phase::Summarizing,
            )
        },
        _ => false,
    }
}

/// `e` is an event the loop waits for in state `s`.
pub open spec fn expects<R>(s: SessionView, e: Event<R>) -> bool {
    match e {
        Event::Choice(c) => s.phase == Phase::Streaming && forall|j: int|
            0 <= j < c@.tool_calls.len() ==> (#[trigger] c@.tool_calls[j]).index < usize::MAX,
        Event::ToolAnswer(_) => s.phase == Phase::Tools,
        Event::FinishAnswer(_) => s.phase == Phase::Finishing,
        Event::StreamEnded => s.phase == Phase::Streaming,
        Event::ErrorBody { .. } => s.phase == Phase::Streaming && sum(message_lens(s.messages))
            <= usize::MAX,
        Event::Summaries(_) => s.phase == Phase::Summarizing,
    }
}

/// One move of the loop from `old` on event `e` to `new` with action `a`,
/// giving the listeners `content` and `notices`.
pub open spec fn step_spec<R>(
    old: SessionView,
    e: Event<R>,
    names: Seq<Seq<char>>,
    new: SessionView,
    content: Option<Seq<char>>,
    notices: Seq<Seq<char>>,
    a: ActionView<R>,
) -> bool {
    match e {
        Event::Choice(c) => {
            let s1 = SessionView {
                tool_calls: apply_chunks(old.tool_calls, c@.tool_calls),
                ..old
            };
            &&& content == c@.content
            &&& notices == chunks_notices(c@.tool_calls)
            &&& match next_after(c.finish_reason) {
                Next::Continue => new == s1 && a == ActionView::<R>::Read,
                Next::RunTools => (new, a) == run_on::<R>(
                    SessionView { cursor: 0, ..s1 },
                    names,
                ),
                Next::Finish => new == in_phase(s1, Phase::Finishing) && a
                    == ActionView::<R>::InvokeFinish,
                Next::Fail(r) => new == in_phase(s1, Phase::Over) && a == ActionView::<R>::Fail(
                    Failure::StopReason(r),
                ),
            }
        },
        Event::ToolAnswer(flow) => {
            &&& content.is_none() && notices.len() == 0
            &&& match flow {
                ControlFlow::Continue(answer) => (new, a) == run_on::<R>(
                    answered(old, answer@),
                    names,
                ),
                ControlFlow::Break(v) => new == in_phase(old, Phase::Over) && a
                    == ActionView::Return(v),
            }
        },
        Event::FinishAnswer(flow) => {
            &&& content.is_none() && notices.len() == 0
            &&& match flow {
                ControlFlow::Continue(m) => new == in_phase(
                    SessionView { messages: old.messages.push(user_text(m@)), ..old },
                    Phase::Streaming,
                ) && a == ActionView::<R>::Read,
                ControlFlow::Break(v) => new == in_phase(old, Phase::Over) && a
                    == ActionView::Return(v),
            }
        },
        Event::StreamEnded => {
            &&& content.is_none() && notices.len() == 0
            &&& new == fresh_turn(history_after_turn(old))
            &&& a == ActionView::<R>::Request
        },
        Event::ErrorBody { body, summary_request } => {
            &&& content.is_none() && notices.len() == 0
            &&& match overflow_from_kind(spec_json_string_at(body@, error_kind_pointer())) {
                None => new == in_phase(old, Phase::Over) && a == ActionView::<R>::Fail(
                    Failure::ErrorBodyNotJson,
                ),
                Some(false) => new == in_phase(old, Phase::Over) && a == ActionView::<R>::Fail(
                    Failure::UnexpectedError,
                ),
                Some(true) => summarizing(old, summary_request@, new, a),
            }
        },
        Event::Summaries(summaries) => {
            &&& content.is_none() && notices.len() == 0
            &&& new == fresh_turn(
                history_after_turn(
                    SessionView {
                        messages: strs_view(summaries@).map_values(|t: Seq<char>| user_text(t))
                            + old.messages,
                        ..old
                    },
                ),
            )
            &&& a == ActionView::<R>::Request
        },
    }
}

proof fn lemma_advance_bounds(
    calls: Seq<crate::message::ToolCallView>,
    results: Seq<crate::session::ToolOutputView>,
    cursor: nat,
    names: Seq<Seq<char>>,
)
    requires
        cursor <= calls.len(),
    ensures
        advance(calls, results, cursor, names).1 <= calls.len(),
        advance(calls, results, cursor, names).2 is Invoke ==> advance(
            calls,
            results,
            cursor,
            names,
        ).1 < calls.len(),
    decreases calls.len() - cursor,
{
    if cursor < calls.len() {
        match crate::session::find_tool(names, calls[cursor as int].name) {
            Some(_) => {},
            None => {
                lemma_advance_bounds(
                    calls,
                    results.push(crate::session::not_found_output(calls[cursor as int].id)),
                    cursor + 1,
                    names,
                );
            },
        }
    }
}

impl<A, T, R> Session<A, T, R> {
    fn run_on_calls(&mut self, names: &Vec<String>) -> (a: Action<R>)
        requires
            old(self).wf(),
        ensures
            final(self).wf(),
            ready(final(self)@),
            (final(self)@, a@) == run_on::<R>(old(self)@, strs_view(names@)),
            final(self).spec_agent() == old(self).spec_agent(),
    {
        proof {
            lemma_advance_bounds(old(self)@.tool_calls, old(self)@.results, old(self)@.cursor, strs_view(names@));
        }
        match self.next_tool(names) {
            ToolStep::Invoke { tool, arguments } => {
                self.set_phase(Phase::Tools);
                Action::InvokeTool { tool, arguments }
            },
            ToolStep::Done => {
                self.set_phase(Phase::Streaming);
                Action::Read
            },
        }
    }

    /// One move of the agent loop: takes in what the outside world reports
    /// and says what to do next (see `step_spec`).
    pub fn step(&mut self, event: Event<R>, names: &Vec<String>) -> (out: StepOutcome<R>)
        requires
            old(self).wf(),
            ready(old(self)@),
            expects(old(self)@, event),
        ensures
            final(self).wf(),
            ready(final(self)@),
            final(self).spec_agent() == old(self).spec_agent(),
            step_spec(
                old(self)@,
                event,
                strs_view(names@),
                final(self)@,
                opt_str_view(out.content),
                strs_view(out.tool_call_notices@),
                out.action@,
            ),
    {
        let ghost e = event;
        match event {
            Event::Choice(c) => {
                let outcome = self.on_choice(c);
                let action = match outcome.next {
                    Next::Continue => Action::Read,
                    Next::RunTools => self.run_on_calls(names),
                    Next::Finish => {
                        self.set_phase(Phase::Finishing);
                        Action::InvokeFinish
                    },
                    Next::Fail(r) => {
                        self.set_phase(Phase::Over);
                        Action::Fail(Failure::StopReason(r))
                    },
                };
                StepOutcome {
                    content: outcome.content,
                    tool_call_notices: outcome.tool_call_notices,
                    action,
                }
            },
            Event::ToolAnswer(flow) => {
                let action = match flow {
                    ControlFlow::Continue(answer) => {
                        let r = self.tool_result(ControlFlow::Continue(answer));
                        self.run_on_calls(names)
                    },
                    ControlFlow::Break(v) => {
                        self.set_phase(Phase::Over);
                        Action::Return(v)
                    },
                };
                StepOutcome { content: None, tool_call_notices: Vec::new(), action }
            },
            Event::FinishAnswer(flow) => {
                let action = match flow {
                    ControlFlow::Continue(m) => {
                        let r = self.finish_result(ControlFlow::Continue(m));
                        self.set_phase(Phase::Streaming);
                        Action::Read
                    },
                    ControlFlow::Break(v) => {
                        self.set_phase(Phase::Over);
                        Action::Return(v)
                    },
                };
                StepOutcome { content: None, tool_call_notices: Vec::new(), action }
            },
            Event::StreamEnded => {
                self.end_turn();
                StepOutcome { content: None, tool_call_notices: Vec::new(), action: Action::Request }
            },
            Event::ErrorBody { body, summary_request } => {
                let action = match is_context_overflow_text(body.as_str()) {
                    None => {
                        self.set_phase(Phase::Over);
                        Action::Fail(Failure::ErrorBodyNotJson)
                    },
                    Some(false) => {
                        self.set_phase(Phase::Over);
                        Action::Fail(Failure::UnexpectedError)
                    },
                    Some(true) => {
                        let batch = self.take_for_summary(summary_request);
                        self.set_phase(Phase::Summarizing);
                        Action::Summarize(batch)
                    },
                };
                StepOutcome { content: None, tool_call_notices: Vec::new(), action }
            },
            Event::Summaries(summaries) => {
                self.insert_summaries(summaries);
                self.end_turn();
                StepOutcome { content: None, tool_call_notices: Vec::new(), action: Action::Request }
            },
        }
    }
}

} // verus!
