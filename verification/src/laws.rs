use crate::message::{
    content_len, parts_lens, text_len, ContentPartView, ContentView, MessageView, ToolCallView,
};
use crate::session::{
    advance, answered, find_tool, history_after_turn, not_found_output, output_message,
    tool_call_message, is_first_match, SessionView, ToolOutputView, ToolStepView,
};
use crate::stream::{apply_chunk, apply_chunks, pad_calls, strs_view, ToolCallChunkView};
use crate::message::user_text;
use crate::driver::{expects, ready, step_spec, ActionView, Event};
use crate::session::Phase;
use crate::sum::sum;
use core::ops::ControlFlow;
use crate::summary::{is_summary_count, summary_limit};
use vstd::prelude::*;

verus! {

/// How many of the calls name a known tool.
pub open spec fn known_count(calls: Seq<ToolCallView>, names: Seq<Seq<char>>) -> nat
    decreases calls.len(),
{
    if calls.len() == 0 {
        0
    } else {
        (if find_tool(names, calls[0].name).is_some() {
            1nat
        } else {
            0nat
        }) + known_count(calls.drop_first(), names)
    }
}

/// The outputs recorded for `calls` in order: each call of a known tool
/// takes the next of `answers`, each call of an unknown tool the not-found
/// error; every output carries the id of its call.
pub open spec fn expected_outputs(
    calls: Seq<ToolCallView>,
    names: Seq<Seq<char>>,
    answers: Seq<Seq<char>>,
) -> Seq<ToolOutputView>
    decreases calls.len(),
{
    if calls.len() == 0 {
        Seq::empty()
    } else if find_tool(names, calls[0].name).is_some() {
        seq![ToolOutputView { tool_call_id: calls[0].id, content: answers[0] }]
            + expected_outputs(calls.drop_first(), names, answers.drop_first())
    } else {
        seq![not_found_output(calls[0].id)] + expected_outputs(calls.drop_first(), names, answers)
    }
}

/// The tool loop of a turn: step through the calls with `next_tool`, and
/// answer each invoked tool with the next of `answers` through
/// `tool_result`, until `next_tool` reports that every call is answered.
pub open spec fn run_tools(
    s: SessionView,
    names: Seq<Seq<char>>,
    answers: Seq<Seq<char>>,
) -> SessionView
    decreases answers.len(),
{
    let (results, cursor, step) = advance(s.tool_calls, s.results, s.cursor, names);
    let t = SessionView { results, cursor, ..s };
    match step {
        ToolStepView::Invoke { .. } => if answers.len() > 0 {
            run_tools(answered(t, answers[0]), names, answers.drop_first())
        } else {
            t
        },
        ToolStepView::Done => t,
    }
}

proof fn lemma_expected_outputs_shape(
    calls: Seq<ToolCallView>,
    names: Seq<Seq<char>>,
    answers: Seq<Seq<char>>,
)
    ensures
        expected_outputs(calls, names, answers).len() == calls.len(),
        forall|i: int|
            0 <= i < calls.len() ==> (#[trigger] expected_outputs(calls, names, answers)[i]).tool_call_id
                == calls[i].id,
    decreases calls.len(),
{
    if calls.len() > 0 {
        let rest = calls.drop_first();
        if find_tool(names, calls[0].name).is_some() {
            lemma_expected_outputs_shape(rest, names, answers.drop_first());
            let e = expected_outputs(calls, names, answers);
            assert forall|i: int| 0 <= i < calls.len() implies (#[trigger] e[i]).tool_call_id
                == calls[i].id by {
                if i > 0 {
                    assert(e[i] == expected_outputs(rest, names, answers.drop_first())[i - 1]);
                    assert(rest[i - 1] == calls[i]);
                }
            }
        } else {
            lemma_expected_outputs_shape(rest, names, answers);
            let e = expected_outputs(calls, names, answers);
            assert forall|i: int| 0 <= i < calls.len() implies (#[trigger] e[i]).tool_call_id
                == calls[i].id by {
                if i > 0 {
                    assert(e[i] == expected_outputs(rest, names, answers)[i - 1]);
                    assert(rest[i - 1] == calls[i]);
                }
            }
        }
    }
}

/// Running the tool loop from any position answers each remaining call
/// exactly once, in order, under the call's own id: known tools with the
/// given answers, unknown tools with the not-found error.
pub proof fn lemma_tool_loop_answers_each_call(
    s: SessionView,
    names: Seq<Seq<char>>,
    answers: Seq<Seq<char>>,
)
    requires
        s.cursor <= s.tool_calls.len(),
        answers.len() >= known_count(s.tool_calls.skip(s.cursor as int), names),
    ensures
        run_tools(s, names, answers) == (SessionView {
            results: s.results + expected_outputs(
                s.tool_calls.skip(s.cursor as int),
                names,
                answers,
            ),
            cursor: s.tool_calls.len(),
            ..s
        }),
    decreases s.tool_calls.len() - s.cursor,
{
    let calls = s.tool_calls;
    let c = s.cursor;
    let rest = calls.skip(c as int);
    if c == calls.len() {
        assert(rest =~= Seq::<ToolCallView>::empty());
        assert(s.results + expected_outputs(rest, names, answers) =~= s.results);
    } else {
        assert(rest[0] == calls[c as int]);
        assert(rest.drop_first() =~= calls.skip(c as int + 1));
        match find_tool(names, calls[c as int].name) {
            Some(k) => {
                let t = answered(s, answers[0]);
                lemma_tool_loop_answers_each_call(t, names, answers.drop_first());
                assert(s.results + expected_outputs(rest, names, answers) =~= t.results
                    + expected_outputs(calls.skip(c as int + 1), names, answers.drop_first()));
            },
            None => {
                let t = SessionView {
                    results: s.results.push(not_found_output(calls[c as int].id)),
                    cursor: c + 1,
                    ..s
                };
                assert(advance(calls, s.results, c, names) == advance(
                    calls,
                    t.results,
                    t.cursor,
                    names,
                ));
                lemma_tool_loop_answers_each_call(t, names, answers);
                assert(run_tools(s, names, answers) == run_tools(t, names, answers));
                assert(s.results + expected_outputs(rest, names, answers) =~= t.results
                    + expected_outputs(calls.skip(c as int + 1), names, answers));
            },
        }
    }
}

/// When the model called tools in a turn and every known tool answered,
/// the turn leaves the history followed by the assistant message listing
/// the calls, and then, for each call in order, one tool message that
/// carries the call's id.
pub proof fn lemma_turn_answers_every_call_in_history(
    s: SessionView,
    names: Seq<Seq<char>>,
    answers: Seq<Seq<char>>,
)
    requires
        s.cursor == 0,
        s.results.len() == 0,
        s.tool_calls.len() > 0,
        answers.len() >= known_count(s.tool_calls, names),
    ensures
        ({
            let h = history_after_turn(run_tools(s, names, answers));
            let n = s.messages.len();
            &&& h.len() == n + 1 + s.tool_calls.len()
            &&& h.take(n as int) == s.messages
            &&& h[n as int] == tool_call_message(s.tool_calls)
            &&& forall|i: int|
                0 <= i < s.tool_calls.len() ==> (#[trigger] h[n + 1 + i]) == output_message(
                    expected_outputs(s.tool_calls, names, answers)[i],
                )
            &&& forall|i: int|
                0 <= i < s.tool_calls.len() ==> tool_message_id(h[n + 1 + i]) == Some(
                    (#[trigger] s.tool_calls[i]).id,
                )
        }),
{
    assert(s.tool_calls.skip(0) =~= s.tool_calls);
    lemma_tool_loop_answers_each_call(s, names, answers);
    let e = expected_outputs(s.tool_calls, names, answers);
    lemma_expected_outputs_shape(s.tool_calls, names, answers);
    let w = run_tools(s, names, answers);
    assert(w.results =~= e);
    let h = history_after_turn(w);
    let n = s.messages.len();
    assert(h.take(n as int) =~= s.messages);
    assert forall|i: int| 0 <= i < s.tool_calls.len() implies (#[trigger] h[n + 1 + i])
        == output_message(e[i]) by {}
    assert forall|i: int| 0 <= i < s.tool_calls.len() implies tool_message_id(h[n + 1 + i])
        == Some((#[trigger] s.tool_calls[i]).id) by {
        assert(h[n + 1 + i] == output_message(e[i]));
        assert(e[i].tool_call_id == s.tool_calls[i].id);
    }
}

/// The id of the call a tool message answers.
pub open spec fn tool_message_id(m: MessageView) -> Option<Seq<char>> {
    match m {
        MessageView::Tool { tool_call_id, .. } => Some(tool_call_id),
        _ => None,
    }
}

/// The texts of the argument fragments, one after the other.
pub open spec fn chunk_arguments(cs: Seq<ToolCallChunkView>) -> Seq<char>
    decreases cs.len(),
{
    if cs.len() == 0 {
        Seq::empty()
    } else {
        chunk_arguments(cs.drop_last()) + match cs.last().arguments {
            Some(a) => a,
            None => Seq::empty(),
        }
    }
}

/// The arguments of a call streamed in fragments are the concatenation of
/// the fragments' arguments, in the order they arrived.
pub proof fn lemma_fragments_concatenate_arguments(
    calls: Seq<ToolCallView>,
    cs: Seq<ToolCallChunkView>,
    k: nat,
)
    requires
        cs.len() > 0,
        forall|j: int| 0 <= j < cs.len() ==> (#[trigger] cs[j]).index == k,
    ensures
        apply_chunks(calls, cs).len() > k,
        apply_chunks(calls, cs)[k as int].arguments == pad_calls(calls, k)[k as int].arguments
            + chunk_arguments(cs),
    decreases cs.len(),
{
    let prefix = cs.drop_last();
    if prefix.len() == 0 {
        assert(apply_chunks(calls, prefix) == calls);
        assert(chunk_arguments(prefix) =~= Seq::<char>::empty());
        assert(pad_calls(calls, k)[k as int].arguments + Seq::<char>::empty() =~= pad_calls(
            calls,
            k,
        )[k as int].arguments);
    } else {
        lemma_fragments_concatenate_arguments(calls, prefix, k);
        let x = apply_chunks(calls, prefix);
        assert(pad_calls(x, k) == x);
        assert(x[k as int].arguments == pad_calls(calls, k)[k as int].arguments + chunk_arguments(
            prefix,
        ));
        match cs.last().arguments {
            Some(a) => {
                assert(pad_calls(calls, k)[k as int].arguments + chunk_arguments(prefix) + a
                    =~= pad_calls(calls, k)[k as int].arguments + (chunk_arguments(prefix) + a));
            },
            None => {
                assert(chunk_arguments(prefix) + Seq::<char>::empty() =~= chunk_arguments(prefix));
            },
        }
    }
}

/// A fragment changes only the call it is addressed to.
pub proof fn lemma_fragment_touches_one_call(
    calls: Seq<ToolCallView>,
    c: ToolCallChunkView,
    j: int,
)
    requires
        0 <= j < calls.len(),
        j != c.index,
    ensures
        apply_chunk(calls, c)[j] == calls[j],
{
}

/// Summarizing keeps at least the three most recent messages when there
/// are more than three, and the messages it takes, all but the last, hold
/// less than half of the text.
pub proof fn lemma_summary_bounds(lens: Seq<nat>, count: nat)
    requires
        is_summary_count(lens, count),
    ensures
        lens.len() > 3 ==> lens.len() - count >= 3,
        count <= summary_limit(lens.len()),
        count > 0 ==> sum(lens.take(count - 1)) < sum(lens) / 2,
{
    if count > 0 {
        assert(sum(lens.take(count - 1)) < sum(lens) / 2);
    }
}

/// Summarizing takes the smallest prefix that reaches half of the text or
/// the limit: taking a shorter prefix would stop too early.
#[verifier::spinoff_prover]
pub proof fn lemma_summary_count_unique(lens: Seq<nat>, a: nat, b: nat)
    requires
        is_summary_count(lens, a),
        is_summary_count(lens, b),
    ensures
        a == b,
{
    let limit = summary_limit(lens.len());
    let target = sum(lens) / 2;
    if a < b {
        let i = a as int;
        assert(0 <= i < b);
        assert(i < limit && sum(lens.take(i)) < target);
    } else if b < a {
        let i = b as int;
        assert(0 <= i < a);
        assert(i < limit && sum(lens.take(i)) < target);
    }
}

proof fn lemma_sum_concat(a: Seq<nat>, b: Seq<nat>)
    ensures
        sum(a + b) == sum(a) + sum(b),
    decreases b.len(),
{
    if b.len() == 0 {
        assert(a + b =~= a);
    } else {
        assert((a + b).drop_last() =~= a + b.drop_last());
        lemma_sum_concat(a, b.drop_last());
    }
}

/// The text size of a body made of two lists of parts is the sum of their
/// sizes, and a body of one text part has the size of that text.
pub proof fn lemma_content_len_of_parts(
    p: Seq<ContentPartView>,
    q: Seq<ContentPartView>,
    t: Seq<char>,
    settings: Option<Seq<char>>,
)
    ensures
        content_len(ContentView::Parts(p + q)) == content_len(ContentView::Parts(p))
            + content_len(ContentView::Parts(q)),
        content_len(ContentView::Parts(seq![ContentPartView::Text { text: t, settings }]))
            == content_len(ContentView::Text(t)),
        content_len(ContentView::Text(t)) == text_len(t),
{
    assert(parts_lens(p + q) =~= parts_lens(p) + parts_lens(q));
    lemma_sum_concat(parts_lens(p), parts_lens(q));
    let one = seq![ContentPartView::Text { text: t, settings }];
    assert(parts_lens(one) =~= seq![text_len(t)]);
    assert(seq![text_len(t)].drop_last() =~= Seq::<nat>::empty());
    assert(sum(Seq::<nat>::empty()) == 0);
    assert(sum(seq![text_len(t)]) == text_len(t));
}

/// Once the session has ended, the loop expects no further event.
pub proof fn lemma_over_is_final<R>(s: SessionView, e: Event<R>)
    requires
        s.phase == Phase::Over,
    ensures
        !expects(s, e),
{
}

/// An answer that stops, from a tool or from the finish handler, ends the
/// session with that value.
pub proof fn lemma_break_returns<R>(
    old: SessionView,
    e: Event<R>,
    names: Seq<Seq<char>>,
    new: SessionView,
    content: Option<Seq<char>>,
    notices: Seq<Seq<char>>,
    a: ActionView<R>,
    v: R,
)
    requires
        e == Event::<R>::ToolAnswer(ControlFlow::Break(v)) || e == Event::<R>::FinishAnswer(
            ControlFlow::Break(v),
        ),
        step_spec(old, e, names, new, content, notices, a),
    ensures
        a == ActionView::Return(v),
        new.phase == Phase::Over,
        new.messages == old.messages,
{
}

/// A turn only appends to the history.
pub proof fn lemma_turn_appends(s: SessionView)
    ensures
        history_after_turn(s).len() >= s.messages.len(),
        history_after_turn(s).take(s.messages.len() as int) == s.messages,
{
    assert(history_after_turn(s).take(s.messages.len() as int) =~= s.messages);
}

/// If some name in the list is `name`, there is a first such name.
proof fn lemma_first_match_exists(names: Seq<Seq<char>>, name: Seq<char>, j: int)
    requires
        0 <= j < names.len(),
        names[j] == name,
    ensures
        exists|k: int| is_first_match(names, name, k),
    decreases j,
{
    if exists|i: int| 0 <= i < j && names[i] == name {
        let i = choose|i: int| 0 <= i < j && names[i] == name;
        lemma_first_match_exists(names, name, i);
    } else {
        assert(is_first_match(names, name, j));
    }
}

/// The tool found for a name is the first tool of exactly that name, and
/// no tool is found where no tool has that name.
pub proof fn lemma_find_tool_is_first_exact_match(names: Seq<Seq<char>>, name: Seq<char>)
    ensures
        match find_tool(names, name) {
            Some(k) => {
                &&& k < names.len()
                &&& names[k as int] == name
                &&& forall|j: int| 0 <= j < k ==> names[j] != name
            },
            None => forall|j: int| 0 <= j < names.len() ==> names[j] != name,
        },
{
    if exists|k: int| is_first_match(names, name, k) {
        let k = choose|k: int| is_first_match(names, name, k);
        assert(is_first_match(names, name, k));
    } else {
        assert forall|j: int| 0 <= j < names.len() implies names[j] != name by {
            if names[j] == name {
                lemma_first_match_exists(names, name, j);
            }
        }
    }
}

/// Running the calls from `cursor`: every call passed over names no tool
/// and gets the not-found error under its id, earlier outputs stay, and
/// the run stops at the first call of a known tool (handing out that
/// tool, the first of its name, with the call's arguments) or at the end.
pub proof fn lemma_advance_passes_over_unknown_tools_only(
    calls: Seq<ToolCallView>,
    results: Seq<ToolOutputView>,
    cursor: nat,
    names: Seq<Seq<char>>,
)
    requires
        cursor <= calls.len(),
    ensures
        ({
            let (r, c, st) = advance(calls, results, cursor, names);
            &&& cursor <= c <= calls.len()
            &&& r.len() == results.len() + (c - cursor)
            &&& forall|i: int| 0 <= i < results.len() ==> r[i] == results[i]
            &&& forall|i: int|
                cursor <= i < c ==> (forall|j: int|
                    0 <= j < names.len() ==> names[j] != (#[trigger] calls[i]).name) && r[results.len()
                    + (i - cursor)] == (ToolOutputView {
                    tool_call_id: calls[i].id,
                    content: "ERROR: Tool not found"@,
                })
            &&& match st {
                ToolStepView::Invoke { tool, arguments } => {
                    &&& c < calls.len()
                    &&& tool < names.len()
                    &&& names[tool as int] == calls[c as int].name
                    &&& forall|j: int| 0 <= j < tool ==> names[j] != calls[c as int].name
                    &&& arguments == calls[c as int].arguments
                },
                ToolStepView::Done => c == calls.len(),
            }
        }),
    decreases calls.len() - cursor,
{
    if cursor < calls.len() {
        let name = calls[cursor as int].name;
        lemma_find_tool_is_first_exact_match(names, name);
        match find_tool(names, name) {
            Some(k) => {},
            None => {
                let pushed = results.push(not_found_output(calls[cursor as int].id));
                lemma_advance_passes_over_unknown_tools_only(calls, pushed, cursor + 1, names);
                let (r, c, st) = advance(calls, pushed, cursor + 1, names);
                assert(advance(calls, results, cursor, names) == (r, c, st));
                assert(r[results.len() as int] == pushed[results.len() as int]);
                assert forall|i: int| 0 <= i < results.len() implies r[i] == results[i] by {
                    assert(r[i] == pushed[i]);
                }
                assert forall|i: int| cursor <= i < c implies (forall|j: int|
                    0 <= j < names.len() ==> names[j] != (#[trigger] calls[i]).name) && r[results.len()
                    + (i - cursor)] == (ToolOutputView {
                    tool_call_id: calls[i].id,
                    content: "ERROR: Tool not found"@,
                }) by {
                    if i > cursor {
                        assert(pushed.len() + (i - (cursor + 1)) == results.len() + (i - cursor));
                    }
                }
            },
        }
    }
}

/// After a tool answered to go on, the answer is recorded under the id of
/// the call it answers; then every further call of an unknown tool gets
/// the not-found error, and the next call of a known tool is handed out to
/// the first tool of that exact name, with the call's arguments; when no
/// call is left the loop reads on. No call of a known tool is passed over.
pub proof fn lemma_step_tool_answer_hands_out_next_known_call<R>(
    old: SessionView,
    answer: String,
    names: Seq<Seq<char>>,
    new: SessionView,
    content: Option<Seq<char>>,
    notices: Seq<Seq<char>>,
    act: ActionView<R>,
)
    requires
        ready(old),
        old.phase == Phase::Tools,
        step_spec(
            old,
            Event::<R>::ToolAnswer(ControlFlow::Continue(answer)),
            names,
            new,
            content,
            notices,
            act,
        ),
    ensures
        ({
            let calls = old.tool_calls;
            let c0 = old.cursor;
            let n0 = old.results.len();
            &&& new.messages == old.messages
            &&& new.tool_calls == calls
            &&& c0 < new.cursor <= calls.len()
            &&& new.results.len() == n0 + (new.cursor - c0)
            &&& forall|i: int| 0 <= i < n0 ==> new.results[i] == old.results[i]
            &&& new.results[n0 as int] == (ToolOutputView {
                tool_call_id: calls[c0 as int].id,
                content: answer@,
            })
            &&& forall|i: int|
                c0 < i < new.cursor ==> (forall|j: int|
                    0 <= j < names.len() ==> names[j] != (#[trigger] calls[i]).name)
                    && new.results[n0 + (i - c0)] == (ToolOutputView {
                    tool_call_id: calls[i].id,
                    content: "ERROR: Tool not found"@,
                })
            &&& match act {
                ActionView::InvokeTool { tool, arguments } => {
                    &&& new.phase == Phase::Tools
                    &&& new.cursor < calls.len()
                    &&& tool < names.len()
                    &&& names[tool as int] == calls[new.cursor as int].name
                    &&& forall|j: int| 0 <= j < tool ==> names[j] != calls[new.cursor as int].name
                    &&& arguments == calls[new.cursor as int].arguments
                },
                ActionView::Read => new.phase == Phase::Streaming && new.cursor == calls.len(),
                _ => false,
            }
        }),
{
    let s1 = answered(old, answer@);
    lemma_advance_passes_over_unknown_tools_only(s1.tool_calls, s1.results, s1.cursor, names);
    let (r, c, st) = advance(s1.tool_calls, s1.results, s1.cursor, names);
    assert(r[old.results.len() as int] == s1.results[old.results.len() as int]);
    assert forall|i: int| 0 <= i < old.results.len() implies new.results[i] == old.results[i] by {
        assert(r[i] == s1.results[i]);
    }
    assert forall|i: int| old.cursor < i < new.cursor implies (forall|j: int|
        0 <= j < names.len() ==> names[j] != (#[trigger] old.tool_calls[i]).name)
        && new.results[old.results.len() + (i - old.cursor)] == (ToolOutputView {
        tool_call_id: old.tool_calls[i].id,
        content: "ERROR: Tool not found"@,
    }) by {
        assert(s1.results.len() + (i - s1.cursor) == old.results.len() + (i - old.cursor));
    }
}

/// When the model stops to call tools, the calls assembled from the
/// stream are run from the first: calls of unknown tools get the not-found
/// error in order, and the first call of a known tool is handed out to the
/// first tool of that exact name with its arguments; with no such call the
/// loop reads on. Earlier outputs and the history stay as they were.
pub proof fn lemma_step_tool_calls_hands_out_first_known_call<R>(
    old: SessionView,
    choice: crate::stream::StreamChoice,
    names: Seq<Seq<char>>,
    new: SessionView,
    content: Option<Seq<char>>,
    notices: Seq<Seq<char>>,
    act: ActionView<R>,
)
    requires
        choice.finish_reason == Some(crate::stream::FinishReason::ToolCalls),
        step_spec(old, Event::<R>::Choice(choice), names, new, content, notices, act),
    ensures
        ({
            let calls = apply_chunks(old.tool_calls, choice@.tool_calls);
            let n0 = old.results.len();
            &&& new.messages == old.messages
            &&& new.tool_calls == calls
            &&& new.cursor <= calls.len()
            &&& new.results.len() == n0 + new.cursor
            &&& forall|i: int| 0 <= i < n0 ==> new.results[i] == old.results[i]
            &&& forall|i: int|
                0 <= i < new.cursor ==> (forall|j: int|
                    0 <= j < names.len() ==> names[j] != (#[trigger] calls[i]).name)
                    && new.results[n0 + i] == (ToolOutputView {
                    tool_call_id: calls[i].id,
                    content: "ERROR: Tool not found"@,
                })
            &&& match act {
                ActionView::InvokeTool { tool, arguments } => {
                    &&& new.phase == Phase::Tools
                    &&& new.cursor < calls.len()
                    &&& tool < names.len()
                    &&& names[tool as int] == calls[new.cursor as int].name
                    &&& forall|j: int| 0 <= j < tool ==> names[j] != calls[new.cursor as int].name
                    &&& arguments == calls[new.cursor as int].arguments
                },
                ActionView::Read => new.phase == Phase::Streaming && new.cursor == calls.len(),
                _ => false,
            }
        }),
{
    let calls = apply_chunks(old.tool_calls, choice@.tool_calls);
    lemma_advance_passes_over_unknown_tools_only(calls, old.results, 0, names);
    let (r, c, st) = advance(calls, old.results, 0, names);
    assert forall|i: int| 0 <= i < new.cursor implies (forall|j: int|
        0 <= j < names.len() ==> names[j] != (#[trigger] calls[i]).name)
        && new.results[old.results.len() + i] == (ToolOutputView {
        tool_call_id: calls[i].id,
        content: "ERROR: Tool not found"@,
    }) by {
        assert(old.results.len() + (i - 0) == old.results.len() + i);
    }
}

/// When the finish handler answers to go on with a message, that message is
/// appended to the end of the history as a plain user text, and the loop
/// reads on; the turn stays as it was.
pub proof fn lemma_step_finish_answer_appends_message<R>(
    old: SessionView,
    message: String,
    names: Seq<Seq<char>>,
    new: SessionView,
    content: Option<Seq<char>>,
    notices: Seq<Seq<char>>,
    act: ActionView<R>,
)
    requires
        step_spec(
            old,
            Event::<R>::FinishAnswer(ControlFlow::Continue(message)),
            names,
            new,
            content,
            notices,
            act,
        ),
    ensures
        new.messages.len() == old.messages.len() + 1,
        forall|i: int| 0 <= i < old.messages.len() ==> new.messages[i] == old.messages[i],
        new.messages[old.messages.len() as int] == (MessageView::User {
            content: ContentView::Text(message@),
            name: None,
        }),
        new.tool_calls == old.tool_calls,
        new.results == old.results,
        new.phase == Phase::Streaming,
        act == ActionView::<R>::Read,
{
}

/// The summaries go to the front of the history, each as a plain user text
/// and in order, followed by the history that was kept; then the turn is
/// closed and a new request follows.
pub proof fn lemma_step_summaries_go_in_front<R>(
    old: SessionView,
    summaries: Vec<String>,
    names: Seq<Seq<char>>,
    new: SessionView,
    content: Option<Seq<char>>,
    notices: Seq<Seq<char>>,
    act: ActionView<R>,
)
    requires
        step_spec(old, Event::<R>::Summaries(summaries), names, new, content, notices, act),
    ensures
        ({
            let k = summaries@.len();
            &&& new.messages.len() >= k + old.messages.len()
            &&& forall|i: int|
                0 <= i < k ==> new.messages[i] == (MessageView::User {
                    content: ContentView::Text((#[trigger] summaries@[i])@),
                    name: None,
                })
            &&& forall|i: int|
                0 <= i < old.messages.len() ==> new.messages[k + i] == #[trigger] old.messages[i]
            &&& act == ActionView::<R>::Request
            &&& new.tool_calls.len() == 0
            &&& new.results.len() == 0
        }),
{
    let k = summaries@.len();
    let front = strs_view(summaries@).map_values(|t: Seq<char>| user_text(t));
    let mid = SessionView { messages: front + old.messages, ..old };
    lemma_turn_appends(mid);
    let h = history_after_turn(mid);
    assert forall|i: int| 0 <= i < k implies new.messages[i] == (MessageView::User {
        content: ContentView::Text((#[trigger] summaries@[i])@),
        name: None,
    }) by {
        assert(h[i] == h.take((front + old.messages).len() as int)[i]);
        assert((front + old.messages)[i] == front[i]);
    }
    assert forall|i: int| 0 <= i < old.messages.len() implies new.messages[k + i]
        == #[trigger] old.messages[i] by {
        assert(h[k + i] == h.take((front + old.messages).len() as int)[k + i]);
        assert((front + old.messages)[k + i] == old.messages[i]);
    }
}

/// At the end of the stream, where tools answered, the history gets the
/// assistant message that lists exactly the turn's calls (ids, names and
/// arguments, in order) and then, for each answer in order, a tool message
/// with its text under its call's id; otherwise the history stays. A new
/// request follows with an empty turn.
pub proof fn lemma_step_stream_end_records_turn<R>(
    old: SessionView,
    names: Seq<Seq<char>>,
    new: SessionView,
    content: Option<Seq<char>>,
    notices: Seq<Seq<char>>,
    act: ActionView<R>,
)
    requires
        step_spec(old, Event::<R>::StreamEnded, names, new, content, notices, act),
    ensures
        act == ActionView::<R>::Request,
        new.tool_calls.len() == 0,
        new.results.len() == 0,
        old.results.len() == 0 ==> new.messages == old.messages,
        old.results.len() > 0 ==> {
            let n = old.messages.len();
            &&& new.messages.len() == n + 1 + old.results.len()
            &&& forall|i: int| 0 <= i < n ==> new.messages[i] == #[trigger] old.messages[i]
            &&& new.messages[n as int] == (MessageView::Assistant {
                content: None,
                refusal: None,
                name: None,
                tool_calls: Some(old.tool_calls),
            })
            &&& forall|i: int|
                0 <= i < old.results.len() ==> new.messages[n + 1 + i] == (MessageView::Tool {
                    content: ContentView::Text((#[trigger] old.results[i]).content),
                    tool_call_id: old.results[i].tool_call_id,
                })
        },
{
    crate::session::lemma_history_after_turn_shape(old);
    if old.results.len() > 0 {
        let n = old.messages.len();
        assert forall|i: int| 0 <= i < n implies new.messages[i] == #[trigger] old.messages[i] by {}
        assert forall|i: int| 0 <= i < old.results.len() implies new.messages[n + 1 + i]
            == (MessageView::Tool {
            content: ContentView::Text((#[trigger] old.results[i]).content),
            tool_call_id: old.results[i].tool_call_id,
        }) by {}
    }
}

} // verus!
