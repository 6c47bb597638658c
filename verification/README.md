# qwen_gateway

A gateway that offers an OpenAI-style chat API in front of an upstream that
speaks its own server-sent events. The decisions it makes are a library that is
verified with Verus; the rest is plumbing around it.

- `src/upstream` reads the upstream's events: deltas, reasoning and errors.
- `src/execution` turns them into the events of a completion, counts tokens,
  keeps the statistics of a request, and writes the chunks that clients read.
- `src/toolcall` has the names that tools go by upstream.
- `src/api` has what the administration endpoints decide and answer.
- `src/json`, `src/text`, `src/number`, `src/tally` and `src/views` are what
  these are written in.
- `app` has the HTTP handlers and the stream of a completion.

JSON text is read and printed by `serde_json`, and tokens are counted by
`tiktoken-rs`. The library says of them only what their doc comments in
`src/json/codec.rs` and `src/execution/tokens.rs` state; the same goes for the
string functions of the standard library in `src/text.rs`.
