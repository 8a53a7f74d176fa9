# agent_core

The core of a tool-using language-model agent, written and proved in Verus.

- `src/` is the library. It does no I/O: it decides what is sent to a backend, how the answer is
  read, what a turn of the conversation does next, and what is stored and reported. Each function
  states in its contract what it returns.
  - `json`, `text`, `types`, `config`: the vocabulary.
  - `backend`: the requests of each provider, the parsers of their streamed answers, cutting
    bytes into pieces, asking again after failures, and choosing a backend for a role.
  - `agent`: the conversation, a turn as a state machine, tools, sub-agents and compaction.
  - `agent::laws` and `backend::laws`, and the `law_` functions elsewhere: what holds beyond a
    single call.
- `tests/` runs the library on concrete values.
- `app/` is ordinary Rust around the library: HTTP, authentication, sessions, tools and the task
  that drives a turn.
