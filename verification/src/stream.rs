use crate::message::{calls_view, opt_str_view, ToolCall, ToolCallView};
use vstd::prelude::*;
use vstd::string::StringExecFns;

verus! {

/// A streamed fragment of a tool call. Fragments with the same `index`
/// belong to the same call.
pub struct ToolCallChunk {
    pub index: u32,
    pub id: Option<String>,
    pub name: Option<String>,
    pub arguments: Option<String>,
}

pub struct ToolCallChunkView {
    pub index: nat,
    pub id: Option<Seq<char>>,
    pub name: Option<Seq<char>>,
    pub arguments: Option<Seq<char>>,
}

impl View for ToolCallChunk {
    type V = ToolCallChunkView;

    open spec fn view(&self) -> ToolCallChunkView {
        ToolCallChunkView {
            index: self.index as nat,
            id: opt_str_view(self.id),
            name: opt_str_view(self.name),
            arguments: opt_str_view(self.arguments),
        }
    }
}

/// Why the model stopped generating.
#[derive(Clone, Copy, Debug, PartialEq, Eq, Structural)]
pub enum FinishReason {
    Stop,
    Length,
    ToolCalls,
    ContentFilter,
    FunctionCall,
}

/// One choice of a streamed response: new text, new tool-call fragments,
/// and possibly the reason the model stopped.
pub struct StreamChoice {
    pub content: Option<String>,
    pub tool_calls: Option<Vec<ToolCallChunk>>,
    pub finish_reason: Option<FinishReason>,
}

pub struct StreamChoiceView {
    pub content: Option<Seq<char>>,
    pub tool_calls: Seq<ToolCallChunkView>,
    pub finish_reason: Option<FinishReason>,
}

impl View for StreamChoice {
    type V = StreamChoiceView;

    /// A choice without tool-call fragments is viewed as one with none.
    open spec fn view(&self) -> StreamChoiceView {
        StreamChoiceView {
            content: opt_str_view(self.content),
            tool_calls: match self.tool_calls {
                Some(cs) => cs@.map_values(|c: ToolCallChunk| c@),
                None => Seq::empty(),
            },
            finish_reason: self.finish_reason,
        }
    }
}

pub open spec fn strs_view(s: Seq<String>) -> Seq<Seq<char>> {
    s.map_values(|t: String| t@)
}

/// A call of which nothing has arrived yet.
pub open spec fn empty_call() -> ToolCallView {
    ToolCallView { id: Seq::empty(), name: Seq::empty(), arguments: Seq::empty() }
}

/// The calls, extended with empty calls so that position `index` exists.
pub open spec fn pad_calls(calls: Seq<ToolCallView>, index: nat) -> Seq<ToolCallView> {
    if calls.len() <= index {
        calls + Seq::new((index + 1 - calls.len()) as nat, |i: int| empty_call())
    } else {
        calls
    }
}

/// The call at `c.index` after the fragment `c` arrived: a new id or name
/// replaces the old one, new arguments are appended to the old ones.
pub open spec fn merge_chunk(old: ToolCallView, c: ToolCallChunkView) -> ToolCallView {
    ToolCallView {
        id: match c.id {
            Some(id) => id,
            None => old.id,
        },
        name: match c.name {
            Some(n) => n,
            None => old.name,
        },
        arguments: match c.arguments {
            Some(a) => old.arguments + a,
            None => old.arguments,
        },
    }
}

/// The calls after the fragment `c` arrived.
pub open spec fn apply_chunk(calls: Seq<ToolCallView>, c: ToolCallChunkView) -> Seq<ToolCallView> {
    let padded = pad_calls(calls, c.index);
    padded.update(c.index as int, merge_chunk(padded[c.index as int], c))
}

/// The calls after the fragments `cs` arrived, in order.
pub open spec fn apply_chunks(calls: Seq<ToolCallView>, cs: Seq<ToolCallChunkView>) -> Seq<
    ToolCallView,
>
    decreases cs.len(),
{
    if cs.len() == 0 {
        calls
    } else {
        apply_chunk(apply_chunks(calls, cs.drop_last()), cs.last())
    }
}

/// What a fragment reports to the tool-call listener: its name, then its
/// arguments, each where present.
pub open spec fn chunk_notices(c: ToolCallChunkView) -> Seq<Seq<char>> {
    (match c.name {
        Some(n) => seq![n],
        None => Seq::empty(),
    }) + (match c.arguments {
        Some(a) => seq![a],
        None => Seq::empty(),
    })
}

pub open spec fn chunks_notices(cs: Seq<ToolCallChunkView>) -> Seq<Seq<char>>
    decreases cs.len(),
{
    if cs.len() == 0 {
        Seq::empty()
    } else {
        chunks_notices(cs.drop_last()) + chunk_notices(cs.last())
    }
}

/// Folds one streamed fragment into the calls assembled so far, and appends
/// what it reports to the tool-call listener to `notices`.
pub fn apply_tool_call_chunk(
    calls: &mut Vec<ToolCall>,
    chunk: &ToolCallChunk,
    notices: &mut Vec<String>,
)
    requires
        (chunk.index as int) < usize::MAX,
    ensures
        calls_view(final(calls)@) == apply_chunk(calls_view(old(calls)@), chunk@),
        strs_view(final(notices)@) == strs_view(old(notices)@) + chunk_notices(chunk@),
{
    let index = chunk.index as usize;
    let ghost old_calls = calls_view(calls@);
    let ghost padded = pad_calls(old_calls, index as nat);
    while calls.len() <= index
        invariant
            index < usize::MAX,
            old_calls.len() <= calls.len(),
            calls.len() > old_calls.len() ==> calls.len() <= index + 1,
            padded == pad_calls(old_calls, index as nat),
            padded.len() >= calls.len(),
            forall|i: int| 0 <= i < calls.len() ==> #[trigger] calls_view(calls@)[i] == padded[i],
        decreases index + 1 - calls.len(),
    {
        let empty = ToolCall { id: String::new(), name: String::new(), arguments: String::new() };
        let ghost before = calls@;
        calls.push(empty);
        proof {
            assert(calls@ == before.push(empty));
            assert forall|i: int| 0 <= i < calls.len() implies #[trigger] calls_view(calls@)[i]
                == padded[i] by {
                if i < before.len() {
                    assert(calls@[i] == before[i]);
                    assert(calls_view(before)[i] == padded[i]);
                } else {
                    assert(calls_view(calls@)[i] == empty@);
                }
            }
        }
    }
    proof {
        assert(calls_view(calls@) =~= padded);
    }
    if let Some(id) = &chunk.id {
        calls[index].id = id.clone();
    }
    if let Some(name) = &chunk.name {
        notices.push(name.clone());
        calls[index].name = name.clone();
    }
    if let Some(arguments) = &chunk.arguments {
        calls[index].arguments.append(arguments.as_str());
        notices.push(arguments.clone());
    }
    proof {
        assert(calls_view(calls@) =~= apply_chunk(old_calls, chunk@));
        assert(strs_view(notices@) =~= strs_view(old(notices)@) + chunk_notices(chunk@));
    }
}

} // verus!
