//! A verified core for a small LLM agent loop: the chat history model, the
//! assembly of streamed tool calls, the per-turn tool dispatch state machine,
//! and the choice of messages to summarize when the context window overflows.

pub mod sum;
pub mod message;
pub mod stream;
pub mod summary;
pub mod agent;
pub mod session;
pub mod response;
pub mod laws;
pub mod driver;
