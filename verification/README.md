# freeq_server

An IRC server with AT Protocol authentication, agent assistance, and audio/video sessions, written
with [Verus](https://github.com/verus-lang/verus): what the server does with a message, a channel, a
session or a stored row is stated in contracts and proved.

## Layout

- `src/` — the verified library.
  - `irc`, `text`, `time`, `json`, `crypto`, `containers` — messages, text, and the few outside
    functions the rest builds on.
  - `server` — the state of the server and the effects that a command has.
  - `connection/` — one module per group of commands. Each handler takes the state and returns the
    new state and a list of effects; `laws` holds what is true of all of them.
  - `db` — what is stored and how it is read back, with encryption at rest.
  - `agent_assist/` — the diagnostic tools for agents, the routing of free-form requests, and the
    disclosure rules.
  - `av`, `av_artifacts`, `av_bridge`, `av_media` — audio/video sessions.
  - `config`, `manifest` — settings.
- `tests/` — tests of the library on concrete values.
- `app/` — sockets, HTTP routes, SQLite, and the model provider around the library.

## Reading the contracts

Every type has a mathematical content (`deep_view`), and every handler a specification `*_spec` that
maps the content of the state before to that after, with the effects in order. What comes from
outside (the time, new IDs, database rows, what plugins decide) is an argument. Laws are public proof
functions whose names start with `law_`.
