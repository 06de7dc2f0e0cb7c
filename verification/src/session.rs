use crate::message::{
    calls_view, message_lens, messages_view, user_text, Content, ContentView, Message,
    MessageView, ToolCall, ToolCallView, UserMessage,
};
use crate::stream::{
    apply_chunk, apply_chunks, apply_tool_call_chunk, chunks_notices, strs_view, FinishReason,
    StreamChoice, ToolCallChunkView,
};
use crate::sum::sum;
use crate::summary::{is_summary_count, num_to_summarize};
use core::marker::PhantomData;
use core::ops::ControlFlow;
use vstd::prelude::*;

verus! {

/// What a tool answered to one call.
pub struct ToolOutput {
    pub tool_call_id: String,
    pub content: String,
}

pub struct ToolOutputView {
    pub tool_call_id: Seq<char>,
    pub content: Seq<char>,
}

impl View for ToolOutput {
    type V = ToolOutputView;

    open spec fn view(&self) -> ToolOutputView {
        ToolOutputView { tool_call_id: self.tool_call_id@, content: self.content@ }
    }
}

pub open spec fn outputs_view(s: Seq<ToolOutput>) -> Seq<ToolOutputView> {
    s.map_values(|o: ToolOutput| o@)
}

/// The state of a session: the chat history, and the current turn's tool
/// calls, the outputs recorded for them, and the position of the next call
/// to run.
pub struct SessionView {
    pub messages: Seq<MessageView>,
    pub tool_calls: Seq<ToolCallView>,
    pub results: Seq<ToolOutputView>,
    pub cursor: nat,
    pub phase: Phase,
}

/// Where the agent loop stands, as the loop's driver sees it.
#[derive(Clone, Copy, Debug, PartialEq, Eq, Structural)]
pub enum Phase {
    /// Reading the model's streamed answer.
    Streaming,
    /// Waiting for the answer of the tool that was handed out.
    Tools,
    /// Waiting for the answer of the finish handler.
    Finishing,
    /// Waiting for the summaries of the oldest messages.
    Summarizing,
    /// The session has ended, with a value or a failure.
    Over,
}

/// A state with the given history and an empty turn.
pub open spec fn fresh_turn(messages: Seq<MessageView>) -> SessionView {
    SessionView {
        messages,
        tool_calls: Seq::empty(),
        results: Seq::empty(),
        cursor: 0,
        phase: Phase::Streaming,
    }
}

/// What follows a streamed choice.
#[derive(Clone, Copy, Debug, PartialEq, Eq, Structural)]
pub enum Next {
    /// Keep reading the stream.
    Continue,
    /// Run the tool calls assembled so far, from the first one.
    RunTools,
    /// Call the finish handler: the model finished without a tool call.
    Finish,
    /// The model stopped with a legacy function call, which the loop does
    /// not handle.
    Fail(FinishReason),
}

/// What the loop does after a choice that ended with `reason`.
pub open spec fn next_after(reason: Option<FinishReason>) -> Next {
    match reason {
        Some(FinishReason::ToolCalls) => Next::RunTools,
        Some(FinishReason::Stop) => Next::Finish,
        Some(FinishReason::Length) => Next::Finish,
        Some(FinishReason::ContentFilter) => Next::Finish,
        Some(r) => Next::Fail(r),
        None => Next::Continue,
    }
}

/// The outcome of a streamed choice: the text for the content listener,
/// the texts for the tool-call listener, and what to do next.
pub struct ChoiceOutcome {
    pub content: Option<String>,
    pub tool_call_notices: Vec<String>,
    pub next: Next,
}

/// The next step of running the tool calls.
pub enum ToolStep {
    /// Invoke tool number `tool` with `arguments`, then report its answer.
    Invoke { tool: usize, arguments: String },
    /// Every call has been answered.
    Done,
}

pub enum ToolStepView {
    Invoke { tool: nat, arguments: Seq<char> },
    Done,
}

impl View for ToolStep {
    type V = ToolStepView;

    open spec fn view(&self) -> ToolStepView {
        match self {
            ToolStep::Invoke { tool, arguments } => ToolStepView::Invoke {
                tool: *tool as nat,
                arguments: arguments@,
            },
            ToolStep::Done => ToolStepView::Done,
        }
    }
}

/// `k` is the first position of `name` in `names`.
pub open spec fn is_first_match(names: Seq<Seq<char>>, name: Seq<char>, k: int) -> bool {
    &&& 0 <= k < names.len()
    &&& names[k] == name
    &&& forall|j: int| 0 <= j < k ==> names[j] != name
}

/// The first tool with the given name, if any.
pub open spec fn find_tool(names: Seq<Seq<char>>, name: Seq<char>) -> Option<nat> {
    if exists|k: int| is_first_match(names, name, k) {
        Some((choose|k: int| is_first_match(names, name, k)) as nat)
    } else {
        None
    }
}

/// The output recorded for a call of a tool that does not exist.
pub open spec fn not_found_output(id: Seq<char>) -> ToolOutputView {
    ToolOutputView { tool_call_id: id, content: "ERROR: Tool not found"@ }
}

/// Running the calls from `cursor` on: calls of unknown tools get the
/// not-found output and are passed over, until a call of a known tool
/// (which is then invoked) or the end of the calls.
pub open spec fn advance(
    calls: Seq<ToolCallView>,
    results: Seq<ToolOutputView>,
    cursor: nat,
    names: Seq<Seq<char>>,
) -> (Seq<ToolOutputView>, nat, ToolStepView)
    decreases calls.len() - cursor,
{
    if cursor < calls.len() {
        match find_tool(names, calls[cursor as int].name) {
            Some(k) => (
                results,
                cursor,
                ToolStepView::Invoke { tool: k, arguments: calls[cursor as int].arguments },
            ),
            None => advance(
                calls,
                results.push(not_found_output(calls[cursor as int].id)),
                cursor + 1,
                names,
            ),
        }
    } else {
        (results, cursor, ToolStepView::Done)
    }
}

/// The state after the current call was answered with `answer`: the answer
/// is recorded under the call's id and the run moves on to the next call.
pub open spec fn answered(s: SessionView, answer: Seq<char>) -> SessionView {
    SessionView {
        results: s.results.push(
            ToolOutputView { tool_call_id: s.tool_calls[s.cursor as int].id, content: answer },
        ),
        cursor: s.cursor + 1,
        ..s
    }
}

/// The assistant message that records the calls of a turn.
pub open spec fn tool_call_message(calls: Seq<ToolCallView>) -> MessageView {
    MessageView::Assistant { content: None, refusal: None, name: None, tool_calls: Some(calls) }
}

/// The tool message that records one output.
pub open spec fn output_message(o: ToolOutputView) -> MessageView {
    MessageView::Tool { content: ContentView::Text(o.content), tool_call_id: o.tool_call_id }
}

/// The history after a turn: where tools answered, the calls and then each
/// answer, in order, are appended.
pub open spec fn history_after_turn(s: SessionView) -> Seq<MessageView> {
    if s.results.len() == 0 {
        s.messages
    } else {
        s.messages.push(tool_call_message(s.tool_calls)) + s.results.map_values(
            |o: ToolOutputView| output_message(o),
        )
    }
}

/// `after` is the history `before` followed by the assistant message that
/// lists exactly `calls` (ids, names and arguments, in order) and then, for
/// each output in order, a tool message with the output's text under the
/// output's call id.
pub open spec fn turn_recorded(
    before: Seq<MessageView>,
    calls: Seq<ToolCallView>,
    outputs: Seq<ToolOutputView>,
    after: Seq<MessageView>,
) -> bool {
    let n = before.len();
    &&& after.len() == n + 1 + outputs.len()
    &&& forall|i: int| 0 <= i < n ==> #[trigger] after[i] == before[i]
    &&& after[n as int] == MessageView::Assistant {
        content: None,
        refusal: None,
        name: None,
        tool_calls: Some(calls),
    }
    &&& forall|i: int|
        0 <= i < outputs.len() ==> #[trigger] after[n + 1 + i] == MessageView::Tool {
            content: ContentView::Text(outputs[i].content),
            tool_call_id: outputs[i].tool_call_id,
        }
}

/// Where tools answered, a turn leaves the history followed by the
/// assistant message with the turn's calls and one tool message per
/// answer; otherwise it leaves the history as it was.
pub proof fn lemma_history_after_turn_shape(s: SessionView)
    ensures
        s.results.len() == 0 ==> history_after_turn(s) == s.messages,
        s.results.len() > 0 ==> turn_recorded(
            s.messages,
            s.tool_calls,
            s.results,
            history_after_turn(s),
        ),
{
    if s.results.len() > 0 {
        let h = history_after_turn(s);
        let n = s.messages.len();
        assert forall|i: int| 0 <= i < n implies #[trigger] h[i] == s.messages[i] by {}
        assert forall|i: int| 0 <= i < s.results.len() implies #[trigger] h[n + 1 + i]
            == (MessageView::Tool {
            content: ContentView::Text(s.results[i].content),
            tool_call_id: s.results[i].tool_call_id,
        }) by {}
    }
}

/// A chat session of an agent `A`: the history sent to the model and the
/// state of the current turn.
pub struct Session<A, T, R> {
    agent: A,
    messages: Vec<Message>,
    tool_calls: Vec<ToolCall>,
    results: Vec<ToolOutput>,
    cursor: usize,
    phase: Phase,
    _phantom: PhantomData<(R, T)>,
}

impl<A, T, R> View for Session<A, T, R> {
    type V = SessionView;

    closed spec fn view(&self) -> SessionView {
        SessionView {
            messages: messages_view(self.messages@),
            tool_calls: calls_view(self.tool_calls@),
            results: outputs_view(self.results@),
            cursor: self.cursor as nat,
            phase: self.phase,
        }
    }
}

impl<A, T, R> Session<A, T, R> {
    pub closed spec fn spec_agent(&self) -> A {
        self.agent
    }

    /// The next call to run lies within the calls of the turn.
    pub open spec fn wf(&self) -> bool {
        self@.cursor <= self@.tool_calls.len()
    }

    pub(crate) fn new(agent: A, messages: Vec<Message>) -> (s: Self)
        ensures
            s@ == fresh_turn(messages_view(messages@)),
            s.spec_agent() == agent,
            s.wf(),
    {
        let s = Session {
            agent,
            messages,
            tool_calls: Vec::new(),
            results: Vec::new(),
            cursor: 0,
            phase: Phase::Streaming,
            _phantom: PhantomData,
        };
        proof {
            assert(calls_view(s.tool_calls@) =~= Seq::empty());
            assert(outputs_view(s.results@) =~= Seq::empty());
        }
        s
    }

    /// The chat history.
    pub fn messages(&self) -> (m: &Vec<Message>)
        ensures
            messages_view(m@) == self@.messages,
    {
        &self.messages
    }

    pub fn agent(&self) -> (a: &A)
        ensures
            *a == self.spec_agent(),
    {
        &self.agent
    }

    pub fn agent_mut(&mut self) -> (a: &mut A)
        ensures
            *a == old(self).spec_agent(),
            final(self).spec_agent() == *final(a),
            final(self)@ == old(self)@,
    {
        &mut self.agent
    }

    /// Moves the loop to another phase.
    pub(crate) fn set_phase(&mut self, phase: Phase)
        ensures
            final(self)@ == (SessionView { phase, ..old(self)@ }),
            final(self).spec_agent() == old(self).spec_agent(),
    {
        self.phase = phase;
    }

    /// Ends the session, giving back the agent (for a session that borrows
    /// its agent, the borrow).
    pub fn into_agent(self) -> (a: A)
        ensures
            a == self.spec_agent(),
    {
        self.agent
    }

    /// Appends a message from the user to the chat.
    pub fn add_message(&mut self, message: UserMessage) -> (s: &mut Self)
        ensures
            s@ == (SessionView { messages: old(self)@.messages.push(message@), ..old(self)@ }),
            s.spec_agent() == old(self).spec_agent(),
            *final(self) == *final(s),
    {
        self.messages.push(message.into_message());
        proof {
            assert(messages_view(self.messages@) =~= old(self)@.messages.push(message@));
        }
        self
    }

    /// Takes in one streamed choice: its tool-call fragments are folded
    /// into the calls of the turn, and the listeners' texts and the next
    /// step are returned.
    pub fn on_choice(&mut self, choice: StreamChoice) -> (out: ChoiceOutcome)
        requires
            old(self).wf(),
            forall|j: int|
                0 <= j < choice@.tool_calls.len() ==> (#[trigger] choice@.tool_calls[j]).index
                    < usize::MAX,
        ensures
            final(self).wf(),
            final(self)@.messages == old(self)@.messages,
            final(self)@.tool_calls == apply_chunks(old(self)@.tool_calls, choice@.tool_calls),
            final(self)@.results == old(self)@.results,
            final(self)@.phase == old(self)@.phase,
            final(self)@.cursor == if choice.finish_reason == Some(FinishReason::ToolCalls) {
                0
            } else {
                old(self)@.cursor
            },
            final(self).spec_agent() == old(self).spec_agent(),
            crate::message::opt_str_view(out.content) == choice@.content,
            strs_view(out.tool_call_notices@) == chunks_notices(choice@.tool_calls),
            out.next == next_after(choice.finish_reason),
    {
        let ghost chunks = choice@.tool_calls;
        let ghost old_calls = old(self)@.tool_calls;
        let StreamChoice { content, tool_calls, finish_reason } = choice;
        let mut notices: Vec<String> = Vec::new();
        if let Some(chunks_vec) = tool_calls {
            let mut i: usize = 0;
            while i < chunks_vec.len()
                invariant
                    chunks == chunks_vec@.map_values(|c: crate::stream::ToolCallChunk| c@),
                    forall|j: int|
                        0 <= j < chunks.len() ==> (#[trigger] chunks[j]).index < usize::MAX,
                    0 <= i <= chunks_vec.len(),
                    calls_view(self.tool_calls@) == apply_chunks(old_calls, chunks.take(i as int)),
                    strs_view(notices@) == chunks_notices(chunks.take(i as int)),
                    self.cursor <= self.tool_calls@.len(),
                    self.cursor == old(self).cursor,
                    self.messages == old(self).messages,
                    self.results == old(self).results,
                    self.agent == old(self).agent,
                    self.phase == old(self).phase,
                decreases chunks_vec.len() - i,
            {
                proof {
                    assert(chunks.take(i as int + 1).drop_last() =~= chunks.take(i as int));
                    assert(chunks[i as int] == chunks_vec@[i as int]@);
                }
                let ghost before = calls_view(self.tool_calls@);
                apply_tool_call_chunk(&mut self.tool_calls, &chunks_vec[i], &mut notices);
                proof {
                    assert(apply_chunk(before, chunks[i as int]).len() >= before.len());
                    assert(calls_view(self.tool_calls@).len() == self.tool_calls@.len());
                }
                i = i + 1;
            }
            proof {
                assert(chunks.take(i as int) =~= chunks);
            }
        } else {
            proof {
                assert(chunks =~= Seq::<ToolCallChunkView>::empty());
                assert(strs_view(notices@) =~= Seq::empty());
            }
        }
        let next = match finish_reason {
            Some(FinishReason::ToolCalls) => {
                self.cursor = 0;
                Next::RunTools
            },
            Some(FinishReason::Stop) => Next::Finish,
            Some(FinishReason::Length) => Next::Finish,
            Some(FinishReason::ContentFilter) => Next::Finish,
            Some(r) => Next::Fail(r),
            None => Next::Continue,
        };
        ChoiceOutcome { content, tool_call_notices: notices, next }
    }

    /// Runs the calls of the turn on from the next one: calls of tools that
    /// `names` does not hold are answered with an error and passed over;
    /// the first call of a known tool is handed out to be invoked.
    pub fn next_tool(&mut self, names: &Vec<String>) -> (step: ToolStep)
        requires
            old(self).wf(),
        ensures
            final(self).wf(),
            (final(self)@.results, final(self)@.cursor, step@) == advance(
                old(self)@.tool_calls,
                old(self)@.results,
                old(self)@.cursor,
                strs_view(names@),
            ),
            final(self)@.messages == old(self)@.messages,
            final(self)@.tool_calls == old(self)@.tool_calls,
            final(self)@.phase == old(self)@.phase,
            final(self).spec_agent() == old(self).spec_agent(),
            step is Invoke ==> step->tool < names@.len(),
    {
        let ghost calls = old(self)@.tool_calls;
        let ghost nv = strs_view(names@);
        let ghost goal = advance(calls, old(self)@.results, old(self)@.cursor, nv);
        while self.cursor < self.tool_calls.len()
            invariant
                self.cursor <= self.tool_calls@.len(),
                calls == calls_view(self.tool_calls@),
                nv == strs_view(names@),
                goal == advance(calls, self@.results, self@.cursor, nv),
                goal == advance(old(self)@.tool_calls, old(self)@.results, old(self)@.cursor, nv),
                calls == old(self)@.tool_calls,
                self.messages == old(self).messages,
                self.tool_calls == old(self).tool_calls,
                self.agent == old(self).agent,
                self.phase == old(self).phase,
            decreases self.tool_calls@.len() - self.cursor,
        {
            let idx = self.cursor;
            let found = find_tool_index(names, &self.tool_calls[idx].name);
            proof {
                assert(calls[idx as int] == self.tool_calls@[idx as int]@);
            }
            match found {
                Some(k) => {
                    proof {
                        let c = choose|j: int| is_first_match(nv, calls[idx as int].name, j);
                        assert(is_first_match(nv, calls[idx as int].name, c));
                    }
                    let arguments = self.tool_calls[idx].arguments.clone();
                    let step = ToolStep::Invoke { tool: k, arguments };
                    proof {
                        assert(find_tool(nv, calls[idx as int].name) == Some(k as nat));
                        assert(arguments@ == calls[idx as int].arguments);
                        assert(goal == (self@.results, self@.cursor, step@));
                    }
                    return step;
                },
                None => {
                    let output = ToolOutput {
                        tool_call_id: self.tool_calls[idx].id.clone(),
                        content: "ERROR: Tool not found".to_owned(),
                    };
                    let ghost prev = self@.results;
                    self.results.push(output);
                    self.cursor = idx + 1;
                    proof {
                        assert(outputs_view(self.results@) =~= prev.push(output@));
                        assert(output@ == not_found_output(calls[idx as int].id));
                    }
                },
            }
        }
        ToolStep::Done
    }

    /// Takes in what the invoked tool answered: an answer to continue with
    /// is recorded for the current call, which moves the run on to the next
    /// call; a value to stop with ends the session with it.
    pub fn tool_result(&mut self, flow: ControlFlow<R, String>) -> (r: Option<R>)
        requires
            old(self).wf(),
            old(self)@.cursor < old(self)@.tool_calls.len(),
        ensures
            final(self).wf(),
            final(self).spec_agent() == old(self).spec_agent(),
            match flow {
                ControlFlow::Continue(answer) => {
                    &&& r.is_none()
                    &&& final(self)@ == answered(old(self)@, answer@)
                },
                ControlFlow::Break(value) => r == Some(value) && final(self)@ == old(self)@,
            },
    {
        match flow {
            ControlFlow::Continue(answer) => {
                let idx = self.cursor;
                let n = self.tool_calls.len();
                assert(idx < n);
                let output = ToolOutput {
                    tool_call_id: self.tool_calls[idx].id.clone(),
                    content: answer,
                };
                self.results.push(output);
                self.cursor = idx + 1;
                proof {
                    assert(outputs_view(self.results@) =~= old(self)@.results.push(output@));
                }
                None
            },
            ControlFlow::Break(value) => Some(value),
        }
    }

    /// Takes in what the finish handler answered: a message to continue
    /// with is appended to the chat as a user message; a value to stop with
    /// ends the session with it.
    pub fn finish_result(&mut self, flow: ControlFlow<R, String>) -> (r: Option<R>)
        requires
            old(self).wf(),
        ensures
            final(self).wf(),
            final(self).spec_agent() == old(self).spec_agent(),
            match flow {
                ControlFlow::Continue(message) => {
                    &&& r.is_none()
                    &&& final(self)@ == (SessionView {
                        messages: old(self)@.messages.push(user_text(message@)),
                        ..old(self)@
                    })
                },
                ControlFlow::Break(value) => r == Some(value) && final(self)@ == old(self)@,
            },
    {
        match flow {
            ControlFlow::Continue(message) => {
                let m = Message::User { content: Content::Text(message), name: None };
                self.messages.push(m);
                proof {
                    assert(messages_view(self.messages@) =~= old(self)@.messages.push(m@));
                }
                None
            },
            ControlFlow::Break(value) => Some(value),
        }
    }

    /// Ends the turn: where tools answered, the calls and then each answer
    /// are appended to the chat; the next turn starts empty.
    pub fn end_turn(&mut self)
        requires
            old(self).wf(),
        ensures
            final(self).wf(),
            final(self)@ == fresh_turn(history_after_turn(old(self)@)),
            final(self).spec_agent() == old(self).spec_agent(),
            old(self)@.results.len() == 0 ==> final(self)@.messages == old(self)@.messages,
            old(self)@.results.len() > 0 ==> turn_recorded(
                old(self)@.messages,
                old(self)@.tool_calls,
                old(self)@.results,
                final(self)@.messages,
            ),
    {
        proof {
            lemma_history_after_turn_shape(old(self)@);
        }
        let mut calls: Vec<ToolCall> = Vec::new();
        let mut results: Vec<ToolOutput> = Vec::new();
        self.cursor = 0;
        self.phase = Phase::Streaming;
        std::mem::swap(&mut calls, &mut self.tool_calls);
        std::mem::swap(&mut results, &mut self.results);
        if results.len() > 0 {
            let ghost base = messages_view(self.messages@);
            let assistant = Message::Assistant {
                content: None,
                refusal: None,
                name: None,
                tool_calls: Some(calls),
            };
            self.messages.push(assistant);
            let ghost pushed = messages_view(self.messages@);
            proof {
                assert(pushed =~= base.push(tool_call_message(old(self)@.tool_calls)));
            }
            let ghost outs = old(self)@.results;
            let mut i: usize = 0;
            while i < results.len()
                invariant
                    0 <= i <= results.len(),
                    outs == outputs_view(results@),
                    messages_view(self.messages@) == pushed + outs.take(i as int).map_values(
                        |o: ToolOutputView| output_message(o),
                    ),
                    self.tool_calls@.len() == 0,
                    self.results@.len() == 0,
                    self.cursor == 0,
                    self.agent == old(self).agent,
                    self.phase == Phase::Streaming,
                decreases results.len() - i,
            {
                let m = Message::Tool {
                    content: Content::Text(results[i].content.clone()),
                    tool_call_id: results[i].tool_call_id.clone(),
                };
                let ghost prev = messages_view(self.messages@);
                self.messages.push(m);
                proof {
                    assert(m@ == output_message(outs[i as int]));
                    assert(outs.take(i as int + 1).map_values(|o: ToolOutputView| output_message(o))
                        =~= outs.take(i as int).map_values(|o: ToolOutputView| output_message(o)).push(
                        output_message(outs[i as int]),
                    ));
                    assert(messages_view(self.messages@) =~= prev.push(m@));
                }
                i = i + 1;
            }
            proof {
                assert(outs.take(i as int) =~= outs);
            }
        }
        proof {
            assert(calls_view(self.tool_calls@) =~= Seq::empty());
            assert(outputs_view(self.results@) =~= Seq::empty());
        }
    }

    /// Starts a new turn: the calls, answers and position of the current
    /// turn are dropped, the chat history is kept.
    pub fn reset_turn(&mut self)
        ensures
            final(self).wf(),
            final(self)@ == fresh_turn(old(self)@.messages),
            final(self).spec_agent() == old(self).spec_agent(),
    {
        self.cursor = 0;
        self.phase = Phase::Streaming;
        self.tool_calls = Vec::new();
        self.results = Vec::new();
        proof {
            assert(calls_view(self.tool_calls@) =~= Seq::empty());
            assert(outputs_view(self.results@) =~= Seq::empty());
        }
    }

    /// Takes the oldest messages out of the chat to have them summarized
    /// (as many as `is_summary_count` says), and returns them followed by
    /// the request to summarize them.
    pub fn take_for_summary(&mut self, prompt: String) -> (batch: Vec<Message>)
        requires
            old(self).wf(),
            sum(message_lens(old(self)@.messages)) <= usize::MAX,
        ensures
            final(self).wf(),
            batch@.len() >= 1,
            is_summary_count(message_lens(old(self)@.messages), (batch@.len() - 1) as nat),
            messages_view(batch@) == old(self)@.messages.take(batch@.len() - 1).push(
                user_text(prompt@),
            ),
            final(self)@ == (SessionView {
                messages: old(self)@.messages.skip(batch@.len() - 1),
                ..old(self)@
            }),
            final(self).spec_agent() == old(self).spec_agent(),
    {
        let count = num_to_summarize(&self.messages);
        let mut batch = self.messages.split_off(count);
        std::mem::swap(&mut batch, &mut self.messages);
        let m = Message::User { content: Content::Text(prompt), name: None };
        batch.push(m);
        proof {
            assert(messages_view(batch@) =~= old(self)@.messages.take(count as int).push(m@));
            assert(messages_view(self.messages@) =~= old(self)@.messages.skip(count as int));
        }
        batch
    }

    /// Puts the summaries at the front of the chat, as user messages, in
    /// order.
    pub fn insert_summaries(&mut self, summaries: Vec<String>)
        requires
            old(self).wf(),
        ensures
            final(self).wf(),
            final(self)@ == (SessionView {
                messages: strs_view(summaries@).map_values(|t: Seq<char>| user_text(t))
                    + old(self)@.messages,
                ..old(self)@
            }),
            final(self).spec_agent() == old(self).spec_agent(),
    {
        let ghost sv = strs_view(summaries@);
        let ghost base = old(self)@.messages;
        let mut i: usize = 0;
        while i < summaries.len()
            invariant
                0 <= i <= summaries.len(),
                sv == strs_view(summaries@),
                messages_view(self.messages@) == sv.take(i as int).map_values(
                    |t: Seq<char>| user_text(t),
                ) + base,
                self.tool_calls == old(self).tool_calls,
                self.results == old(self).results,
                self.cursor == old(self).cursor,
                self.agent == old(self).agent,
                self.phase == old(self).phase,
            decreases summaries.len() - i,
        {
            let m = Message::User { content: Content::Text(summaries[i].clone()), name: None };
            let ghost prev = self.messages@;
            proof {
                assert(messages_view(prev).len() == prev.len());
            }
            self.messages.insert(i, m);
            proof {
                assert(m@ == user_text(sv[i as int]));
                assert(messages_view(self.messages@) =~= messages_view(prev).insert(i as int, m@));
                assert(sv.take(i as int + 1).map_values(|t: Seq<char>| user_text(t)) =~= sv.take(
                    i as int,
                ).map_values(|t: Seq<char>| user_text(t)).push(user_text(sv[i as int])));
                assert(messages_view(self.messages@) =~= sv.take(i as int + 1).map_values(
                    |t: Seq<char>| user_text(t),
                ) + base);
            }
            i = i + 1;
        }
        proof {
            assert(sv.take(i as int) =~= sv);
        }
    }
}

/// The position of the first tool named `name`, if any.
pub fn find_tool_index(names: &Vec<String>, name: &String) -> (r: Option<usize>)
    ensures
        match r {
            Some(k) => {
                &&& k < names@.len()
                &&& names@[k as int]@ == name@
                &&& forall|j: int| 0 <= j < k ==> names@[j]@ != name@
            },
            None => forall|j: int| 0 <= j < names@.len() ==> names@[j]@ != name@,
        },
        match r {
            Some(k) => find_tool(strs_view(names@), name@) == Some(k as nat),
            None => find_tool(strs_view(names@), name@).is_none(),
        },
{
    let ghost nv = strs_view(names@);
    let mut i: usize = 0;
    while i < names.len()
        invariant
            0 <= i <= names.len(),
            nv == strs_view(names@),
            forall|j: int| 0 <= j < i ==> nv[j] != name@,
            forall|j: int| 0 <= j < i ==> names@[j]@ != name@,
        decreases names.len() - i,
    {
        proof {
            assert(nv[i as int] == names@[i as int]@);
        }
        if names[i] == *name {
            proof {
                assert(is_first_match(nv, name@, i as int));
                let c = choose|k: int| is_first_match(nv, name@, k);
                assert(c == i as int);
            }
            return Some(i);
        }
        i = i + 1;
    }
    proof {
        assert(!exists|k: int| is_first_match(nv, name@, k));
    }
    None
}


} // verus!
