use crate::sum::{lemma_sum_prefix_le, lemma_sum_take_next, sum};
use vstd::prelude::*;
use vstd::utf8::encode_utf8;

verus! {

/// One part of a multi-part message body.
pub enum ContentPart {
    /// Text, with its serialized cache settings where it has any.
    Text { text: String, settings: Option<String> },
    /// A refusal written by the assistant.
    Refusal(String),
    /// A part that carries no text (an image, audio or a file), kept in its
    /// serialized JSON form.
    Other(String),
}

/// The body of a message: one text, or a list of parts.
pub enum Content {
    Text(String),
    Parts(Vec<ContentPart>),
}

/// A function call requested by the model.
pub struct ToolCall {
    pub id: String,
    pub name: String,
    pub arguments: String,
}

/// A message of the chat history, by the role of its author.
pub enum Message {
    Developer { content: Content, name: Option<String> },
    System { content: Content, name: Option<String> },
    User { content: Content, name: Option<String> },
    Assistant {
        content: Option<Content>,
        refusal: Option<String>,
        name: Option<String>,
        tool_calls: Option<Vec<ToolCall>>,
    },
    Tool { content: Content, tool_call_id: String },
    Function { content: Option<String>, name: String },
}

/// A message written by the user, as it is added to a session.
pub struct UserMessage {
    pub content: Content,
    pub name: Option<String>,
}

pub enum ContentPartView {
    Text { text: Seq<char>, settings: Option<Seq<char>> },
    Refusal(Seq<char>),
    Other(Seq<char>),
}

pub enum ContentView {
    Text(Seq<char>),
    Parts(Seq<ContentPartView>),
}

pub struct ToolCallView {
    pub id: Seq<char>,
    pub name: Seq<char>,
    pub arguments: Seq<char>,
}

pub enum MessageView {
    Developer { content: ContentView, name: Option<Seq<char>> },
    System { content: ContentView, name: Option<Seq<char>> },
    User { content: ContentView, name: Option<Seq<char>> },
    Assistant {
        content: Option<ContentView>,
        refusal: Option<Seq<char>>,
        name: Option<Seq<char>>,
        tool_calls: Option<Seq<ToolCallView>>,
    },
    Tool { content: ContentView, tool_call_id: Seq<char> },
    Function { content: Option<Seq<char>>, name: Seq<char> },
}

pub open spec fn opt_str_view(s: Option<String>) -> Option<Seq<char>> {
    match s {
        Some(t) => Some(t@),
        None => None,
    }
}

impl View for ContentPart {
    type V = ContentPartView;

    open spec fn view(&self) -> ContentPartView {
        match self {
            ContentPart::Text { text, settings } => ContentPartView::Text {
                text: text@,
                settings: opt_str_view(*settings),
            },
            ContentPart::Refusal(t) => ContentPartView::Refusal(t@),
            ContentPart::Other(t) => ContentPartView::Other(t@),
        }
    }
}

impl View for Content {
    type V = ContentView;

    open spec fn view(&self) -> ContentView {
        match self {
            Content::Text(t) => ContentView::Text(t@),
            Content::Parts(ps) => ContentView::Parts(ps@.map_values(|p: ContentPart| p@)),
        }
    }
}

impl View for ToolCall {
    type V = ToolCallView;

    open spec fn view(&self) -> ToolCallView {
        ToolCallView { id: self.id@, name: self.name@, arguments: self.arguments@ }
    }
}

pub open spec fn calls_view(calls: Seq<ToolCall>) -> Seq<ToolCallView> {
    calls.map_values(|c: ToolCall| c@)
}

pub open spec fn opt_content_view(c: Option<Content>) -> Option<ContentView> {
    match c {
        Some(c) => Some(c@),
        None => None,
    }
}

impl View for Message {
    type V = MessageView;

    open spec fn view(&self) -> MessageView {
        match self {
            Message::Developer { content, name } => MessageView::Developer {
                content: content@,
                name: opt_str_view(*name),
            },
            Message::System { content, name } => MessageView::System {
                content: content@,
                name: opt_str_view(*name),
            },
            Message::User { content, name } => MessageView::User {
                content: content@,
                name: opt_str_view(*name),
            },
            Message::Assistant { content, refusal, name, tool_calls } => MessageView::Assistant {
                content: opt_content_view(*content),
                refusal: opt_str_view(*refusal),
                name: opt_str_view(*name),
                tool_calls: match tool_calls {
                    Some(calls) => Some(calls_view(calls@)),
                    None => None,
                },
            },
            Message::Tool { content, tool_call_id } => MessageView::Tool {
                content: content@,
                tool_call_id: tool_call_id@,
            },
            Message::Function { content, name } => MessageView::Function {
                content: opt_str_view(*content),
                name: name@,
            },
        }
    }
}

pub open spec fn messages_view(ms: Seq<Message>) -> Seq<MessageView> {
    ms.map_values(|m: Message| m@)
}

impl View for UserMessage {
    type V = MessageView;

    /// A user message is viewed as the history entry it becomes.
    open spec fn view(&self) -> MessageView {
        MessageView::User { content: self.content@, name: opt_str_view(self.name) }
    }
}

/// The history entry of a plain text message from the user.
pub open spec fn user_text(t: Seq<char>) -> MessageView {
    MessageView::User { content: ContentView::Text(t), name: None }
}

/// The length of a text: the number of bytes of its UTF-8 encoding.
pub open spec fn text_len(t: Seq<char>) -> nat {
    encode_utf8(t).len()
}

/// Only text parts count; refusals and non-text parts count as empty.
pub open spec fn part_len(p: ContentPartView) -> nat {
    match p {
        ContentPartView::Text { text, .. } => text_len(text),
        _ => 0,
    }
}

/// The sizes of the parts, in order.
pub open spec fn parts_lens(ps: Seq<ContentPartView>) -> Seq<nat> {
    ps.map_values(|p: ContentPartView| part_len(p))
}

pub open spec fn content_len(c: ContentView) -> nat {
    match c {
        ContentView::Text(t) => text_len(t),
        ContentView::Parts(ps) => sum(parts_lens(ps)),
    }
}

/// The size of a message, as used to decide how much of the history to
/// summarize: the UTF-8 length of the text it carries.
pub open spec fn message_len(m: MessageView) -> nat {
    match m {
        MessageView::Developer { content, .. } => content_len(content),
        MessageView::System { content, .. } => content_len(content),
        MessageView::User { content, .. } => content_len(content),
        MessageView::Assistant { content, .. } => match content {
            Some(c) => content_len(c),
            None => 0,
        },
        MessageView::Tool { content, .. } => content_len(content),
        MessageView::Function { content, .. } => match content {
            Some(t) => text_len(t),
            None => 0,
        },
    }
}

/// The message sizes of a history, in order.
pub open spec fn message_lens(ms: Seq<MessageView>) -> Seq<nat> {
    ms.map_values(|m: MessageView| message_len(m))
}

/// The UTF-8 length of a string.
pub fn text_length(t: &String) -> (n: usize)
    requires
        text_len(t@) <= usize::MAX,
    ensures
        n == text_len(t@),
{
    t.as_str().len()
}

/// The text length of a message body.
pub fn content_length(c: &Content) -> (n: usize)
    requires
        content_len(c@) <= usize::MAX,
    ensures
        n == content_len(c@),
{
    match c {
        Content::Text(t) => text_length(t),
        Content::Parts(ps) => {
            let ghost lens = parts_lens(ps@.map_values(|p: ContentPart| p@));
            let mut total: usize = 0;
            let mut i: usize = 0;
            while i < ps.len()
                invariant
                    0 <= i <= ps.len(),
                    lens.len() == ps.len(),
                    lens == parts_lens(ps@.map_values(|p: ContentPart| p@)),
                    sum(lens) <= usize::MAX,
                    total == sum(lens.take(i as int)),
                decreases ps.len() - i,
            {
                proof {
                    lemma_sum_take_next(lens, i as int);
                    lemma_sum_prefix_le(lens, i as int + 1);
                }
                let n: usize = match &ps[i] {
                    ContentPart::Text { text, .. } => text_length(text),
                    _ => 0,
                };
                assert(lens[i as int] == n);
                total = total + n;
                i = i + 1;
            }
            proof {
                assert(lens.take(i as int) =~= lens);
            }
            total
        },
    }
}

/// The text length of a message, as counted when the history is trimmed.
pub fn get_message_len(m: &Message) -> (n: usize)
    requires
        message_len(m@) <= usize::MAX,
    ensures
        n == message_len(m@),
{
    match m {
        Message::Developer { content, .. } => content_length(content),
        Message::System { content, .. } => content_length(content),
        Message::User { content, .. } => content_length(content),
        Message::Assistant { content, .. } => match content {
            Some(c) => content_length(c),
            None => 0,
        },
        Message::Tool { content, .. } => content_length(content),
        Message::Function { content, .. } => match content {
            Some(t) => text_length(t),
            None => 0,
        },
    }
}

impl UserMessage {
    /// A user message holding one text and no participant name.
    pub fn text(t: String) -> (m: UserMessage)
        ensures
            m@ == user_text(t@),
    {
        UserMessage { content: Content::Text(t), name: None }
    }

    /// The history entry that this message becomes.
    pub fn into_message(self) -> (m: Message)
        ensures
            m@ == self@,
    {
        Message::User { content: self.content, name: self.name }
    }
}

impl ToolCall {
    /// A copy of the call.
    pub fn duplicate(&self) -> (c: ToolCall)
        ensures
            c@ == self@,
    {
        ToolCall { id: self.id.clone(), name: self.name.clone(), arguments: self.arguments.clone() }
    }
}

} // verus!
