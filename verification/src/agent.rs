use crate::message::{user_text, messages_view, Content, Message};
use crate::session::{Session, fresh_turn};
use core::marker::PhantomData;
use vstd::prelude::*;

verus! {

/// What to do when the model stops without calling a tool. The handler `H`
/// is called with no argument; what it yields decides whether the session
/// ends with a value of type `R` or goes on with a further user message.
pub struct FinishHandler<R, H> {
    finish: H,
    _result: PhantomData<R>,
}

impl<R, H> FinishHandler<R, H> {
    pub closed spec fn spec_handler(&self) -> H {
        self.finish
    }

    /// The handler wrapping `finish`.
    pub closed spec fn spec_wrap(finish: H) -> Self {
        FinishHandler { finish, _result: PhantomData }
    }

    /// Wraps a handler.
    pub fn new(finish: H) -> (h: Self)
        ensures
            h == Self::spec_wrap(finish),
            h.spec_handler() == finish,
    {
        FinishHandler { finish, _result: PhantomData }
    }

    /// The wrapped handler, to be called.
    pub fn handler_mut(&mut self) -> (h: &mut H)
        ensures
            *h == old(self).spec_handler(),
            final(self).spec_handler() == *final(h),
    {
        &mut self.finish
    }
}

impl<R, H> FinishHandler<R, H> {
    /// Calls the handler, giving what it yields (in the agent loop, a
    /// future whose output decides how the session goes on).
    pub fn invoke<Fut>(&mut self) -> (fut: Fut) where H: FnMut() -> Fut
        requires
            call_requires(old(self).spec_handler(), ()),
        ensures
            call_ensures(old(self).spec_handler(), (), fut),
    {
        (self.finish)()
    }
}

impl<R, H> From<H> for FinishHandler<R, H> {
    fn from(finish: H) -> (h: Self)
        ensures
            h.spec_handler() == finish,
    {
        FinishHandler { finish, _result: PhantomData }
    }
}

impl<R, H> vstd::std_specs::convert::FromSpecImpl<H> for FinishHandler<R, H> {
    open spec fn obeys_from_spec() -> bool {
        true
    }

    open spec fn from_spec(v: H) -> Self {
        FinishHandler::spec_wrap(v)
    }
}

/// An agent: a model name, the tools `T` it may call, optional listeners of
/// type `L` for streamed text and for streamed tool-call fragments, and the
/// handler `H` that decides what happens when the model stops without a
/// tool call. `R` is the type of the value a session ends with.
pub struct Agent<T, R, H, L: ?Sized> {
    tools: T,
    listen_content: Option<Box<L>>,
    listen_tool_call: Option<Box<L>>,
    finish: FinishHandler<R, H>,
    model: String,
}

impl<T, R, H, L: ?Sized> Agent<T, R, H, L> {
    pub closed spec fn spec_tools(&self) -> T {
        self.tools
    }

    pub closed spec fn spec_model(&self) -> Seq<char> {
        self.model@
    }

    pub closed spec fn spec_content_listener(&self) -> Option<Box<L>> {
        self.listen_content
    }

    pub closed spec fn spec_tool_call_listener(&self) -> Option<Box<L>> {
        self.listen_tool_call
    }

    pub closed spec fn spec_finish(&self) -> FinishHandler<R, H> {
        self.finish
    }

    /// Creates a new agent with the provided `tools` and no listeners.
    ///
    /// `finish` is invoked when the model finishes without a tool call.
    pub fn new(model: String, tools: T, finish: FinishHandler<R, H>) -> (a: Self)
        ensures
            a.spec_model() == model@,
            a.spec_tools() == tools,
            a.spec_finish() == finish,
            a.spec_content_listener().is_none(),
            a.spec_tool_call_listener().is_none(),
    {
        Agent {
            tools,
            finish,
            listen_content: None,
            listen_tool_call: None,
            model,
        }
    }

    /// Adds a listener that is given streamed message content.
    pub fn with_content_listener(self, listener: Box<L>) -> (a: Self)
        ensures
            a.spec_content_listener() == Some(listener),
            a.spec_tool_call_listener() == self.spec_tool_call_listener(),
            a.spec_model() == self.spec_model(),
            a.spec_tools() == self.spec_tools(),
            a.spec_finish() == self.spec_finish(),
    {
        Agent { listen_content: Some(listener), ..self }
    }

    /// Adds a listener that is given streamed tool-call names and arguments.
    pub fn with_tool_call_listener(self, listener: Box<L>) -> (a: Self)
        ensures
            a.spec_tool_call_listener() == Some(listener),
            a.spec_content_listener() == self.spec_content_listener(),
            a.spec_model() == self.spec_model(),
            a.spec_tools() == self.spec_tools(),
            a.spec_finish() == self.spec_finish(),
    {
        Agent { listen_tool_call: Some(listener), ..self }
    }

    /// Starts a chat session with the provided prompt, borrowing the agent
    /// so that it can be used again afterwards.
    pub fn start_session<'agent>(&'agent mut self, prompt: &str) -> (s: Session<
        &'agent mut Agent<T, R, H, L>,
        T,
        R,
    >)
        ensures
            s@ == fresh_turn(seq![user_text(prompt@)]),
            *s.spec_agent() == *old(self),
            *final(self) == *final(s.spec_agent()),
    {
        let message = Message::User { content: Content::Text(prompt.to_owned()), name: None };
        let mut messages = Vec::new();
        messages.push(message);
        proof {
            assert(messages_view(messages@) =~= seq![user_text(prompt@)]);
        }
        Session::new(self, messages)
    }

    /// Starts a chat session with the provided prompt, consuming the agent.
    pub fn into_session(self, prompt: &str) -> (s: Session<Agent<T, R, H, L>, T, R>)
        ensures
            s@ == fresh_turn(seq![user_text(prompt@)]),
            s.spec_agent() == self,
    {
        let message = Message::User { content: Content::Text(prompt.to_owned()), name: None };
        let mut messages = Vec::new();
        messages.push(message);
        proof {
            assert(messages_view(messages@) =~= seq![user_text(prompt@)]);
        }
        Session::new(self, messages)
    }

    /// The model name.
    pub fn model(&self) -> (m: &String)
        ensures
            m@ == self.spec_model(),
    {
        &self.model
    }

    pub fn tools(&self) -> (t: &T)
        ensures
            *t == self.spec_tools(),
    {
        &self.tools
    }

    pub fn tools_mut(&mut self) -> (t: &mut T)
        ensures
            *t == old(self).spec_tools(),
            final(self).spec_tools() == *final(t),
            final(self).spec_model() == old(self).spec_model(),
            final(self).spec_finish() == old(self).spec_finish(),
            final(self).spec_content_listener() == old(self).spec_content_listener(),
            final(self).spec_tool_call_listener() == old(self).spec_tool_call_listener(),
    {
        &mut self.tools
    }

    pub fn finish_mut(&mut self) -> (f: &mut FinishHandler<R, H>)
        ensures
            *f == old(self).spec_finish(),
            final(self).spec_finish() == *final(f),
            final(self).spec_model() == old(self).spec_model(),
            final(self).spec_tools() == old(self).spec_tools(),
            final(self).spec_content_listener() == old(self).spec_content_listener(),
            final(self).spec_tool_call_listener() == old(self).spec_tool_call_listener(),
    {
        &mut self.finish
    }

    pub fn content_listener(&self) -> (l: &Option<Box<L>>)
        ensures
            *l == self.spec_content_listener(),
    {
        &self.listen_content
    }

    pub fn tool_call_listener(&self) -> (l: &Option<Box<L>>)
        ensures
            *l == self.spec_tool_call_listener(),
    {
        &self.listen_tool_call
    }
}

impl<T, R, H, L: ?Sized> AsMut<Agent<T, R, H, L>> for Agent<T, R, H, L> {
    fn as_mut(&mut self) -> (a: &mut Agent<T, R, H, L>)
        ensures
            *a == *old(self),
            *final(self) == *final(a),
    {
        self
    }
}

} // verus!
