use crate::message::opt_str_view;
use vstd::prelude::*;
use vstd::string::StringExecFns;

verus! {

/// The error type that reports an exceeded context window.
pub open spec fn context_overflow_kind() -> Seq<char> {
    "exceed_context_size_error"@
}

/// Where a JSON error body holds its error type, as a JSON pointer: the
/// `type` member of the `error` member.
pub open spec fn error_kind_pointer() -> Seq<char> {
    "/error/type"@
}

/// What `serde_json` finds in a text at a JSON pointer: `None` where the
/// text is not JSON; otherwise the string at the pointer, or `None` where
/// nothing is there or what is there is not a string.
pub uninterp spec fn spec_json_string_at(json: Seq<char>, pointer: Seq<char>) -> Option<
    Option<Seq<char>>,
>;

pub open spec fn opt_opt_str_view(k: Option<Option<String>>) -> Option<Option<Seq<char>>> {
    match k {
        Some(k) => Some(opt_str_view(k)),
        None => None,
    }
}

/// Parses `json` with `serde_json::from_str` into a `serde_json::Value`,
/// looks `pointer` up with `Value::pointer`, and reads what is there with
/// `Value::as_str`. The contract claims only that the result is the named
/// reading of the two texts; which texts `serde_json` accepts as JSON is
/// not stated.
#[verifier::external_body]
fn json_string_at(json: &str, pointer: &str) -> (r: Option<Option<String>>)
    ensures
        opt_opt_str_view(r) == spec_json_string_at(json@, pointer@),
{
    let value: serde_json::Value = match serde_json::from_str(json) {
        Ok(v) => v,
        Err(_) => return None,
    };
    match value.pointer(pointer) {
        Some(found) => match found.as_str() {
            Some(text) => Some(Some(text.to_string())),
            None => Some(None),
        },
        None => Some(None),
    }
}

/// Whether an error body whose error type reads as `kind` reports an
/// exceeded context window: `None` where the body is not JSON, else whether
/// the type is present and is the overflow type.
pub open spec fn overflow_from_kind(kind: Option<Option<Seq<char>>>) -> Option<bool> {
    match kind {
        None => None,
        Some(k) => Some(k == Some(context_overflow_kind())),
    }
}

/// Decides from the error type read out of an error body (see
/// `overflow_from_kind`).
pub fn context_overflow_from_kind(kind: Option<Option<String>>) -> (r: Option<bool>)
    ensures
        r == overflow_from_kind(opt_opt_str_view(kind)),
{
    match kind {
        None => None,
        Some(Some(kind)) => Some(kind == "exceed_context_size_error".to_owned()),
        Some(None) => Some(false),
    }
}

/// Whether the text of an error body reports that the context window was
/// exceeded: `None` where the text is not JSON, else whether its error type
/// is the overflow type. Only an overflow leads to summarizing; any other
/// error ends the loop.
pub fn is_context_overflow_text(json: &str) -> (r: Option<bool>)
    ensures
        r == overflow_from_kind(spec_json_string_at(json@, error_kind_pointer())),
{
    let kind = json_string_at(json, "/error/type");
    context_overflow_from_kind(kind)
}

/// The texts, one after the other.
pub open spec fn concat_texts(texts: Seq<Seq<char>>) -> Seq<char>
    decreases texts.len(),
{
    if texts.len() == 0 {
        Seq::empty()
    } else {
        concat_texts(texts.drop_last()) + texts.last()
    }
}

/// The text of a complete answer: the contents of its choices, one after
/// the other. Every choice must carry content.
pub fn join_choice_contents(contents: Vec<Option<String>>) -> (text: String)
    requires
        forall|i: int| 0 <= i < contents@.len() ==> (#[trigger] contents@[i]).is_some(),
    ensures
        text@ == concat_texts(contents@.map_values(|c: Option<String>| c.unwrap()@)),
{
    let ghost texts = contents@.map_values(|c: Option<String>| c.unwrap()@);
    let mut text = String::new();
    let mut i: usize = 0;
    while i < contents.len()
        invariant
            0 <= i <= contents@.len(),
            texts == contents@.map_values(|c: Option<String>| c.unwrap()@),
            forall|j: int| 0 <= j < contents@.len() ==> (#[trigger] contents@[j]).is_some(),
            text@ == concat_texts(texts.take(i as int)),
        decreases contents.len() - i,
    {
        proof {
            assert(texts.take(i as int + 1).drop_last() =~= texts.take(i as int));
        }
        match &contents[i] {
            Some(t) => {
                text.append(t.as_str());
            },
            None => {},
        }
        i = i + 1;
    }
    proof {
        assert(texts.take(i as int) =~= texts);
    }
    text
}

} // verus!
