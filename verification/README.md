# rig-agent

The core of a runtime for language-model agents, written in Verus. A run is a
state machine that asks for the next thing to do (call the model, run tools,
take in queued user messages, stop) and is told what came of it.

- `src/` is the verified library. Each type has a mathematical view, and every
  contract is stated over these views. What holds over several calls is stated
  by the proof functions whose names begin with `law_`.
- `app/` is ordinary Rust around it: awaiting the model, running tools and
  hooks, telemetry, and what goes over the wire.
- `tests/` runs the library on concrete values.

Good places to start reading: `src/run.rs` (the state machine of a run),
`src/driver.rs` (the loop round it), `src/assembler.rs` (how a streamed turn is
put together), `src/conversation.rs` (what the history may look like) and
`src/hook.rs` (how hooks decide on tool calls).

What is believed without proof stands in `src/json.rs`, `src/params.rs` and
`src/strings.rs`: calls into `serde_json` and into std's string functions.
