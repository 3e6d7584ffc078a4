# execlaw_server

The decisions of an agent server, written in Rust and verified with Verus.

`src/` is the library. It holds no I/O: what a handler or a loop has to decide is
a function, or a small machine that says what to ask next and takes the answer.

- `auth_rate_limit`: the sliding window of login attempts.
- `approval_token`, `approvals`, `approval_flow`: contacts that wait for the
  controller, the signed tokens that answer them, and the trust that follows.
- `send`, `real_turn`, `runner_turn`, `dispatch`, `turn_support`: the way of a
  message through the gates, the runtimes of a turn, and what is committed.
- `chat_history`, `tool_catalog`: what a model sees and which tools it is offered.
- `threads`, `transports`, `attachment_api`: the transcript, its channels, files.
- `backend_spec`, `backend_supervisor`: managed inference backends.
- `agents_admin`, `agent_supervisor`: always-on agents.
- `bundled_plugins`: plugins that ship with the server.
- `chat_types`, `api`, `json`, `text`, `platform`: shared types and the few calls
  into the outside, each behind a contract.

Laws that span several functions are public proof functions beside them.

`app/` is the server around the library: HTTP handlers, background loops, files,
and the traits through which storage, plugins, containers and models are reached.
Where `EXECLAW_APPROVAL_TOKEN_REQUIRED` is set, an approval is answered only with
its token.

`tests/` runs the library on concrete values.
