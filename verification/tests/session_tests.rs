use cmdex::chat::{ChatCommand, ModelCommand};
use cmdex::chat_state::ChatQueue;
use cmdex::effect_outcomes::{turn_start, TurnStart};
use cmdex::keys::{chat_submission, ChatSubmission};
use cmdex::codex::{
    format_jsonrpc_error, notification_kind, thread_status_changed, turn_completed, HistoryEntry,
    HistoryEntryKind, NotificationKind, ServerEvent, ThreadInfo, ThreadItem, WorkspaceSession,
};
use cmdex::session::{
    agent_for_thread, event_status, event_thread, ChatLog, ChatMessage, ChatThread, MessageRole,
    MessageStore, hydrate_latest_sessions,
    SessionLoader,
};

fn texts(messages: &[ChatMessage]) -> Vec<&str> {
    messages.iter().map(|message| message.text.as_str()).collect()
}

#[test]
fn queued_chat_messages_can_be_iterated_and_canceled() {
    let mut queue = ChatQueue::new();
    queue.enqueue("primeira mensagem".to_string());
    queue.enqueue("segunda mensagem".to_string());
    queue.enqueue("terceira mensagem".to_string());
    assert_eq!(queue.count(), 3);
    assert_eq!(queue.selected_index(), Some(0));

    queue.select_next();
    assert_eq!(queue.selected_index(), Some(1));

    queue.select_next();
    assert_eq!(queue.selected_index(), Some(2));

    assert_eq!(queue.cancel_selected(), Some("terceira mensagem".to_string()));

    assert_eq!(queue.count(), 2);
    assert_eq!(queue.selected_index(), Some(1));
    let remaining: Vec<&str> = (0..queue.count())
        .map(|index| queue.message(index).as_str())
        .collect();
    assert_eq!(remaining, vec!["primeira mensagem", "segunda mensagem"]);
}

#[test]
fn queue_selection_wraps_and_pops_in_order() {
    let mut queue = ChatQueue::new();
    assert_eq!(queue.selected_index(), None);
    assert_eq!(queue.pop_next(), None);
    queue.enqueue("a".to_string());
    queue.enqueue("b".to_string());
    queue.select_previous();
    assert_eq!(queue.selected_index(), Some(1));
    queue.select_next();
    assert_eq!(queue.selected_index(), Some(0));
    assert_eq!(queue.pop_next(), Some("a".to_string()));
    assert_eq!(queue.pop_next(), Some("b".to_string()));
    assert!(!queue.has_queued());
}

#[test]
fn turn_events_track_active_turn_and_interruption_status() {
    let mut log = ChatLog::new();

    log.apply_server_event(ServerEvent::TurnStarted {
        thread_id: "thread-1".to_string(),
        turn_id: "turn-1".to_string(),
    });

    assert_eq!(log.active_turn_id.as_deref(), Some("turn-1"));
    assert!(log.thinking);

    let status = log.apply_server_event(ServerEvent::TurnCompleted {
        thread_id: "thread-1".to_string(),
        turn_id: "turn-1".to_string(),
        interrupted: true,
    });

    assert_eq!(log.active_turn_id, None);
    assert!(!log.thinking);
    assert_eq!(status.as_deref(), Some("Response canceled"));
}

#[test]
fn streamed_agent_message_is_assembled_and_completed() {
    let mut log = ChatLog::new();
    log.apply_server_event(ServerEvent::ItemStarted {
        thread_id: "t".to_string(),
        item: ThreadItem::AgentMessage {
            id: "item-1".to_string(),
            text: "Hel".to_string(),
        },
    });
    assert_eq!(log.streaming_item_id.as_deref(), Some("item-1"));
    log.apply_server_event(ServerEvent::AgentMessageDelta {
        thread_id: "t".to_string(),
        item_id: "item-1".to_string(),
        delta: "lo".to_string(),
    });
    assert_eq!(texts(&log.messages), vec!["Hello"]);
    log.apply_server_event(ServerEvent::ItemCompleted {
        thread_id: "t".to_string(),
        item: ThreadItem::AgentMessage {
            id: "item-1".to_string(),
            text: "Hello!".to_string(),
        },
    });
    assert_eq!(texts(&log.messages), vec!["Hello!"]);
    assert_eq!(log.messages[0].role, MessageRole::Assistant);
    assert_eq!(log.streaming_item_id, None);

    log.apply_server_event(ServerEvent::AgentMessageDelta {
        thread_id: "t".to_string(),
        item_id: "item-2".to_string(),
        delta: "new".to_string(),
    });
    assert_eq!(texts(&log.messages), vec!["Hello!", "new"]);
    assert_eq!(log.messages[1].item_id.as_deref(), Some("item-2"));
}

#[test]
fn upsert_replaces_text_of_existing_item_and_keeps_role() {
    let mut messages = vec![
        ChatMessage::new(MessageRole::User, "hi".to_string(), None),
        ChatMessage::new(MessageRole::Event, "old".to_string(), Some("x".to_string())),
    ];
    MessageStore::upsert(&mut messages, MessageRole::Assistant, "x", "new".to_string());
    assert_eq!(texts(&messages), vec!["hi", "new"]);
    assert_eq!(messages[1].role, MessageRole::Event);
    assert_eq!(MessageStore::find(&messages, "x"), Some(1));

    MessageStore::upsert(&mut messages, MessageRole::Assistant, "y", "added".to_string());
    assert_eq!(texts(&messages), vec!["hi", "new", "added"]);
    assert_eq!(messages[2].role, MessageRole::Assistant);
    assert_eq!(MessageStore::find(&messages, "y"), Some(2));
    assert_eq!(MessageStore::find(&messages, "z"), None);
}

#[test]
fn turn_completion_of_another_turn_keeps_active_turn() {
    let mut log = ChatLog::new();
    log.active_turn_id = Some("turn-2".to_string());
    log.thinking = true;
    let status = log.apply_server_event(ServerEvent::TurnCompleted {
        thread_id: "t".to_string(),
        turn_id: "turn-1".to_string(),
        interrupted: false,
    });
    assert_eq!(status, None);
    assert_eq!(log.active_turn_id.as_deref(), Some("turn-2"));
    assert!(!log.thinking);
}

#[test]
fn session_messages_map_history_roles() {
    let session = WorkspaceSession {
        thread: ThreadInfo {
            id: "thread-9".to_string(),
            model: None,
            reasoning_effort: None,
        },
        entries: vec![
            HistoryEntry {
                kind: HistoryEntryKind::User,
                text: "question".to_string(),
            },
            HistoryEntry {
                kind: HistoryEntryKind::Assistant,
                text: "answer".to_string(),
            },
            HistoryEntry {
                kind: HistoryEntryKind::Event,
                text: "ran tests".to_string(),
            },
        ],
    };
    let (thread_id, messages) = SessionLoader::session_messages(session);
    assert_eq!(thread_id, "thread-9");
    assert_eq!(texts(&messages), vec!["question", "answer", "ran tests"]);
    assert_eq!(messages[0].role, MessageRole::User);
    assert_eq!(messages[1].role, MessageRole::Assistant);
    assert_eq!(messages[2].role, MessageRole::Event);
    assert!(messages.iter().all(|message| message.item_id.is_none()));
}

#[test]
fn events_are_routed_to_the_agent_of_their_thread() {
    let threads = vec![None, Some("a".to_string()), Some("b".to_string())];
    assert_eq!(agent_for_thread(&threads, &"b".to_string()), Some(2));
    assert_eq!(agent_for_thread(&threads, &"c".to_string()), None);

    let warning = ServerEvent::Warning("careful".to_string());
    assert_eq!(event_thread(&warning), None);
    assert_eq!(event_status(&warning), Some("careful".to_string()));
    let started = ServerEvent::TurnStarted {
        thread_id: "a".to_string(),
        turn_id: "t".to_string(),
    };
    assert_eq!(event_thread(&started), Some("a".to_string()));
    assert_eq!(event_status(&started), None);
}

#[test]
fn notifications_are_recognized_by_method() {
    assert_eq!(
        notification_kind("thread/status/changed"),
        Some(NotificationKind::ThreadStatusChanged)
    );
    assert_eq!(
        notification_kind("item/agentMessage/delta"),
        Some(NotificationKind::AgentMessageDelta)
    );
    assert_eq!(notification_kind("error"), Some(NotificationKind::Error));
    assert_eq!(notification_kind("thread/started"), None);

    assert!(matches!(
        thread_status_changed("t".to_string(), "active"),
        ServerEvent::ThreadStatusChanged { active: true, .. }
    ));
    assert!(matches!(
        thread_status_changed("t".to_string(), "idle"),
        ServerEvent::ThreadStatusChanged { active: false, .. }
    ));
    assert!(matches!(
        turn_completed("t".to_string(), "u".to_string(), "interrupted"),
        ServerEvent::TurnCompleted { interrupted: true, .. }
    ));
    assert!(matches!(
        turn_completed("t".to_string(), "u".to_string(), "completed"),
        ServerEvent::TurnCompleted { interrupted: false, .. }
    ));
}

#[test]
fn jsonrpc_errors_show_message_and_code() {
    assert_eq!(
        format_jsonrpc_error(Some(-32601), Some("Method not found")),
        "Method not found (code -32601)"
    );
    assert_eq!(format_jsonrpc_error(None, None), "unknown error (code 0)");
    assert_eq!(
        format_jsonrpc_error(Some(i64::MIN), Some("x")),
        "x (code -9223372036854775808)"
    );
}

#[test]
fn chat_codex_commands_enqueue_effects_without_spawning_runtime_work() {
    let mut log = ChatLog::new();

    match chat_submission("hello", true, log.thinking || log.shell_running) {
        ChatSubmission::Send(text) => {
            assert_eq!(text, "hello");
            log.send_user_message(text);
        }
        other => panic!("unexpected submission {other:?}"),
    }
    assert!(log.thinking);
    assert_eq!(turn_start(None, false), TurnStart::StartThread);

    assert_eq!(
        chat_submission("/model", true, log.thinking || log.shell_running),
        ChatSubmission::Command(ChatCommand::Model(ModelCommand::List))
    );
}

#[test]
fn chat_shell_submission_enqueues_effect_without_spawning_runtime_work() {
    let mut log = ChatLog::new();

    match chat_submission("> printf hello", true, false) {
        ChatSubmission::Shell(command) => {
            assert_eq!(command, "printf hello");
            assert!(log.start_shell_command(&command));
        }
        other => panic!("unexpected submission {other:?}"),
    }
    assert!(log.shell_running);
    assert_eq!(log.messages.last().map(|m| m.text.as_str()), Some("> printf hello"));
}

fn stored_session(id: &str) -> WorkspaceSession {
    WorkspaceSession {
        thread: ThreadInfo { id: id.to_string(), model: None, reasoning_effort: None },
        entries: vec![HistoryEntry { kind: HistoryEntryKind::User, text: "earlier".to_string() }],
    }
}

#[test]
fn stored_session_restores_an_empty_chat_only() {
    let mut thread = ChatThread::new();
    let mut log = ChatLog::new();
    assert!(thread.restore_session(&mut log, Some(stored_session("t-1"))));
    assert_eq!(thread.thread_id.as_deref(), Some("t-1"));
    assert!(!thread.loaded);
    assert_eq!(texts(&log.messages), vec!["earlier"]);
    assert_eq!(turn_start(thread.thread_id.clone(), thread.loaded), TurnStart::ResumeThread("t-1".to_string()));

    assert!(!thread.restore_session(&mut log, Some(stored_session("t-2"))));
    assert_eq!(thread.thread_id.as_deref(), Some("t-1"));

    let mut fresh = ChatThread::new();
    let mut busy = ChatLog::new();
    busy.push_system_message("hello".to_string());
    assert!(!fresh.restore_session(&mut busy, Some(stored_session("t-3"))));
    assert!(fresh.thread_id.is_none());
    assert!(!fresh.restore_session(&mut ChatLog::new(), None));

    thread.thread_ready("t-1".to_string());
    assert!(thread.loaded);
    assert_eq!(turn_start(thread.thread_id.clone(), thread.loaded), TurnStart::StartTurn("t-1".to_string()));
}

#[test]
fn every_agent_gets_its_latest_session_at_start_up() {
    let mut chats = vec![
        (ChatThread::new(), ChatLog::new()),
        (ChatThread::new(), ChatLog::new()),
        (ChatThread::new(), ChatLog::new()),
    ];
    let results: Vec<Result<Option<WorkspaceSession>, String>> =
        vec![Ok(Some(stored_session("a"))), Ok(None), Ok(Some(stored_session("c")))];
    assert_eq!(hydrate_latest_sessions(&mut chats, results), Ok(()));
    assert_eq!(chats[0].0.thread_id.as_deref(), Some("a"));
    assert_eq!(texts(&chats[0].1.messages), vec!["earlier"]);
    assert_eq!(chats[1].0.thread_id, None);
    assert!(chats[1].1.messages.is_empty());
    assert_eq!(chats[2].0.thread_id.as_deref(), Some("c"));
    assert!(!chats[2].0.loaded);
}

#[test]
fn loading_sessions_stops_at_the_first_failure() {
    let mut chats = vec![
        (ChatThread::new(), ChatLog::new()),
        (ChatThread::new(), ChatLog::new()),
        (ChatThread::new(), ChatLog::new()),
    ];
    chats[0].1.push_system_message("kept until replaced".to_string());
    let results: Vec<Result<Option<WorkspaceSession>, String>> =
        vec![Ok(Some(stored_session("a"))), Err("offline".to_string()), Ok(Some(stored_session("c")))];
    assert_eq!(hydrate_latest_sessions(&mut chats, results), Err("offline".to_string()));
    assert_eq!(chats[0].0.thread_id.as_deref(), Some("a"));
    assert_eq!(texts(&chats[0].1.messages), vec!["earlier"]);
    assert_eq!(chats[1].0.thread_id, None);
    assert_eq!(chats[2].0.thread_id, None);
}
