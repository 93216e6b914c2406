# mini_agent

The core of a desktop chat agent (conversations with an LLM provider, a few
native tools, and user approval before file-system changes), written in
Verus so that its decisions carry proved contracts.

## Layout

- `src/` – the verified library.
  - `turn.rs` – one agent turn as a state machine: completions, tool calls,
    the pause for approval, repeated identical calls answered with a steering
    message instead of running again, the final (or step-limit fallback)
    reply split into deltas.
  - `llm/` – provider wire formats: request bodies, response parsing,
    endpoints, retries (`minimax.rs`, `request.rs`), and the streamed
    (server-sent events) response decoder (`sse.rs`).
  - `tools/` – the tool registry (each tool with what runs it), the check of
    the relative paths file tools may touch (`paths.rs`: as std's `Path` reads
    them on the running platform, and by `/` on every platform), and the tools: `create_directory` and
    `write_file` (approval only), `get_time`, `web_search` (result parsing and
    formatting), `fetch_url` (URL and address checks against internal hosts,
    redirects, size limit, summary) with the IP literal grammar in `ip.rs`.
  - `approval.rs` – approving or rejecting a stored request.
  - `db.rs`, `agent.rs`, `commands.rs` – records, seeded providers, settings,
    model selection and the configuration commands.
  - `json.rs`, `text.rs`, `chunks.rs` – JSON values, text helpers, reply
    chunking.
- `app/` – ordinary Rust around the library: SQLite storage, HTTP, DNS, the
  file system, environment variables, and the command entry points.
- `tests/` – tests of the library.
