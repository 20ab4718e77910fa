//! Cmdex, a terminal UI for Codex agents: the logic of its chat, shell,
//! navigation and language-server features, with its behaviour stated in
//! contracts and proved.
pub mod text;
pub mod geometry;
pub mod layout;
pub mod codex;
pub mod chat;
pub mod chat_input;
pub mod chat_state;
pub mod chat_settings;
pub mod session;
pub mod labels;
pub mod keys;
pub mod chat_submit;
pub mod chat_events;
pub mod key_dispatch;
pub mod model_picker;
pub mod app_state;
pub mod app_shell;
pub mod shell;
pub mod hover_markdown;
pub mod chat_markdown;
pub mod lsp_protocol;
pub mod lsp_framing;
pub mod lsp_document;
pub mod lsp_session;
pub mod lsp_runtimes;
pub mod lsp_inbox;
pub mod workspace_input;
pub mod workspace_events;
pub mod fs_events;
pub mod effect_outcomes;
