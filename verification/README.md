# Cmdex core

Cmdex is a terminal UI for managing Codex agents. This crate holds its
logic as a verified library, and the input and output around it.

- `src/`: the library, written in Verus. Every verified function carries a
  contract (`requires` / `ensures`) over mathematical models (`Seq`,
  views of the types), and laws that relate several operations are
  stated as public proof functions (`law_*`, `lemma_*_reads_back`,
  `lemma_utf16_round_trip`).
  - `text`: character-level string operations and their specifications.
  - `chat`, `chat_input`, `chat_state`, `chat_settings`, `session`, `keys`,
    `labels`, `model_picker`: the chat tab: commands typed in the input,
    the transcript and how server events change it, the queue of
    messages, model settings and the model picker.
  - `chat_submit`, `chat_events`, `key_dispatch`: what submitting the
    chat input or a shell command does, what the results of chat work do
    to an agent's chat, and what a key action does to the navigation
    state.
  - `chat_markdown`: messages laid out as styled lines from their
    Markdown, the transcript that the chat shows, and how far it scrolls.
  - `effect_outcomes`: how a chat turn gets its thread, and the messages
    reported when background work comes back.
  - `app_state`, `app_shell`, `geometry`, `layout`: navigation, tabs,
    the agents sidebar, the layout arithmetic of the terminal and the
    areas cut by its layout solver.
  - `shell`: the shell tab: the output parser and the sessions.
  - `fs_events`, `workspace_events`: which file-system events refresh the
    workspace, the watchers of the workspaces and the refreshes in flight.
  - `workspace_input`: where the keys of the Workspace and Git Diff tabs
    go, and which git operation runs.
  - `lsp_protocol`, `lsp_framing`, `lsp_document`, `lsp_session`,
    `lsp_inbox`, `lsp_runtimes`, `hover_markdown`: the language-server
    client, the messages kept while a response is awaited, and the
    runtimes of the servers with the commands that wait for them.
  - `codex`: the types and notifications of the Codex app server.
- `app/`: ordinary Rust around the library: reading the Codex
  configuration, the JSON forms of the library's types, the
  language-server session over a child process, terminal events, and
  the drawing of styled lines.
- `tests/`: tests of the library on concrete values.
