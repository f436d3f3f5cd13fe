# coding_tools

A self-hosted, multi-workspace MCP gateway with a browser admin console,
written as a Verus-verified library (`src/`) and a thin program around it
(`app/`).

## Layout

- `src/` — the verified library. Every decision the gateway makes is a
  function with a `requires`/`ensures` contract, and the properties that
  span several functions are stated as public `law_*` proof functions.
  - `gateway_state`, `gateway_server`, `listener`, `gateway_service`: the
    workspace registry, session bindings, JSON-RPC routing and replies,
    listener authentication and endpoints.
  - `exposure`, `cloudflare`, `net`, `health`: public origin validation,
    managed exposure plans, `cloudflared` output watching, health reports.
  - `admin`, `web`, `rpc`: administrator account and sessions, static web
    paths, the management commands.
  - `history`, `search`, `activity`: archive paging and validation, search
    ranking and snippets, the activity log.
  - `settings`, `headless`, `systemd`, `platform`, `table`, `text`: settings
    records, command-line decisions, the user-level systemd unit, the
    configuration directory, a string-keyed table and text utilities.
- `app/` — the `coding-tools` program: argument handling, the data file,
  the HTTP listeners (axum), child processes and other I/O. It converts
  between JSON/std types and the library's types and calls the library for
  every decision.
- `tests/` — tests of the library on concrete values.

Outside crates the library calls (argon2, uuid, sha2, the `url` parser
re-exported by reqwest) are reached only through small trusted wrappers
whose contracts are documented next to them.
