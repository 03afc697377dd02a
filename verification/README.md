# cherrypick

Local pull requests, an AI coding assistant and external-texture bookkeeping
for a Git client, with the logic verified by Verus.

## Layout

- `src/` — the verified library.
  - `pr/` — local pull requests: records and their status rules, merge
    sessions, branch watching decisions, the cached branch-diff service and
    repository identity.
  - `agent/` — the assistant: messages, context budgeting, API keys, skills,
    the built-in tools' rules and outputs, the decisions of a turn, the
    provider's event stream and MCP requests.
  - `texture.rs` — caller-owned frame buffers: dirty-rectangle accumulation
    per renderer, generations and upload planning.
  - `preview.rs`, `ui_state.rs`, `views.rs`, `branches.rs`, `staging.rs`,
    `selection_controls.rs`, `prompts.rs` — what the panels show and decide:
    the create-PR form, list and detail labels, branch ordering, the staging
    lists, the selection-controls menu and prompt answers.
  - `text.rs`, `paths.rs` — text and path helpers with their specifications.
- `app/` — the input and output around the library: SQLite stores, Git
  access through `git2`, the file watcher, the provider's HTTP stream, MCP
  server processes, tool execution on disk, and the thread-shared texture
  buffer.
- `tests/` — tests of the library.
