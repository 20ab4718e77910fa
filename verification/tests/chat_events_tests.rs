use cmdex::app_shell::AppShell;
use cmdex::chat_events::{AgentChat, ChatEvent};
use cmdex::chat_settings::{ChatDefaults, ChatSettings};
use cmdex::codex::{HistoryEntry, HistoryEntryKind, ModelInfo, ThreadInfo, WorkspaceSession};
use cmdex::session::{ChatLog, ChatThread, MessageRole};

fn defaults() -> ChatDefaults {
    ChatDefaults {
        model: Some("gpt-5.4".to_string()),
        reasoning_effort: Some("high".to_string()),
        label: "gpt-5.4 · high".to_string(),
    }
}

fn agent() -> AgentChat {
    AgentChat {
        thread: ChatThread::new(),
        log: ChatLog::new(),
        settings: ChatSettings::new(&defaults()),
        status: None,
    }
}

#[test]
fn a_ready_thread_is_loaded_and_gives_its_settings() {
    let mut chat = agent();
    let mut shell = AppShell::new(1, "/tmp".to_string());
    let thread = ThreadInfo {
        id: "t-1".to_string(),
        model: Some("gpt-5.5".to_string()),
        reasoning_effort: None,
    };
    assert_eq!(chat.handle_chat_event(&mut shell, 0, &defaults(), ChatEvent::ThreadReady(thread)), None);
    assert_eq!(chat.thread.thread_id.as_deref(), Some("t-1"));
    assert!(chat.thread.loaded);
    assert_eq!(chat.settings.model.as_deref(), Some("gpt-5.5"));
}

#[test]
fn turns_and_failures_update_the_chat_and_statuses() {
    let mut chat = agent();
    let mut shell = AppShell::new(1, "/tmp".to_string());
    chat.handle_chat_event(&mut shell, 0, &defaults(), ChatEvent::TurnStarted("turn-1".to_string()));
    assert!(chat.log.thinking);
    assert_eq!(chat.log.active_turn_id.as_deref(), Some("turn-1"));
    let status = chat.handle_chat_event(&mut shell, 0, &defaults(), ChatEvent::SubmissionFailed("offline".to_string()));
    assert_eq!(status.as_deref(), Some("offline"));
    assert_eq!(chat.status.as_deref(), Some("offline"));
    assert!(!chat.log.thinking);
    assert_eq!(chat.log.active_turn_id, None);
    assert_eq!(chat.log.messages.last().map(|m| (m.role, m.text.as_str())), Some((MessageRole::System, "offline")));
    let status = chat.handle_chat_event(&mut shell, 0, &defaults(), ChatEvent::ModelCommandResult("Model set".to_string()));
    assert_eq!(status.as_deref(), Some("Model command finished"));
    assert_eq!(chat.status.as_deref(), Some("Model command finished"));
    let status = chat.handle_chat_event(&mut shell, 0, &defaults(), ChatEvent::TurnInterruptFailed("nope".to_string()));
    assert_eq!(status.as_deref(), Some("nope"));
    assert_eq!(chat.log.messages.len(), 3);
}

#[test]
fn a_stored_session_and_an_empty_model_list_are_taken_in() {
    let mut chat = agent();
    let mut shell = AppShell::new(1, "/tmp".to_string());
    let session = WorkspaceSession {
        thread: ThreadInfo { id: "old".to_string(), model: None, reasoning_effort: None },
        entries: vec![HistoryEntry { kind: HistoryEntryKind::Assistant, text: "before".to_string() }],
    };
    assert_eq!(chat.handle_chat_event(&mut shell, 0, &defaults(), ChatEvent::SessionLoaded(Some(session))), None);
    assert_eq!(chat.thread.thread_id.as_deref(), Some("old"));
    assert!(!chat.thread.loaded);
    assert_eq!(chat.log.messages.len(), 1);
    let models: Vec<ModelInfo> = Vec::new();
    let status = chat.handle_chat_event(&mut shell, 0, &defaults(), ChatEvent::ModelListLoaded(models));
    assert_eq!(status.as_deref(), Some("No models available"));
    assert_eq!(chat.status.as_deref(), Some("Select a model"));
    assert_eq!(chat.log.messages.len(), 2);
}
