# agent_web

The core of a multi-agent chat web service, written in Verus: the agent
registry and its sessions, intent routing through an orchestrator agent, web
search planning and result parsing, server-sent-event framing, the context
window and history compaction strategies, and the decisions of a chat turn.
Each public function states its behaviour in `requires` / `ensures` and is
proved by Verus.

Layout:

- `src/` — the verified library. `laws.rs` holds the properties that relate
  several functions (compaction keeps recent messages, a saved key is read back,
  and so on).
- `tests/` — tests of the library on concrete values.
- `app/` — the HTTP server, the model and search clients, file persistence and
  the chat loop that performs the actions the library decides on.
