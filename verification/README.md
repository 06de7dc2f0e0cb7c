# tiny_agent_loop

A small agent loop for OpenAI-compatible chat APIs, split in two:

- `src/` is the verified core (Verus). It holds the chat history model and
  the decisions of the loop:
  - `message`: messages, their text size (UTF-8 bytes of their text parts);
  - `stream`: folding streamed tool-call fragments into complete calls;
  - `session`: the per-turn state machine — what follows a streamed choice,
    which tool to invoke next (unknown tools are answered with an error),
    recording tool and finish-handler answers, closing a turn, and taking
    the oldest messages out for summarization;
  - `driver`: the whole loop as one step function from the session and an
    event (a streamed choice, a tool or finish-handler answer, the end of
    the stream, an error body, summaries) to the next action (request,
    read on, invoke a tool, call the finish handler, summarize, return,
    fail);
  - `summary`: how many of the oldest messages are summarized;
  - `agent`: the agent (model, tools, listeners, finish handler) and the
    start of sessions;
  - `response`: recognizing a context-overflow error from the text of an
    error body (read with `serde_json`), joining the text of a
    complete answer;
  - `laws`: properties of the loop as a whole, proved over the contracts.
- `app/` is plain Rust around it: the `Tool`/`Tools` traits and `tool()`,
  JSON schemas, the HTTP client, the I/O side of the loop, which performs
  each action of `driver` and reports its outcome (`SessionExt::run`,
  `AgentExt::run`, `one_shot`), and the conversions to and from the API's
  types.
