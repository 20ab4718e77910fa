use cmdex::codex::{ModelInfo, ModelPager};
use cmdex::labels::{git_mutation_status, git_remote_status, GitRemoteAction};
use cmdex::app_state::{
    has_active_animation, next_spinner_index, tick_interval_millis, AgentActivity, AppTab,
    FAST_TICK_MILLIS, IDLE_TICK_MILLIS, WORKSPACE_TICK_MILLIS,
};
use cmdex::effect_outcomes::{
    copy_outcome, interrupt_failure, model_list_failure, session_load_failure, paste_outcome, shell_failure_output,
    first_turn_call, turn_start, turn_step, EffectQueue, TurnCall, TurnRequest, TurnStart, TurnStep,
};
use cmdex::shell::ShellTabState;

fn idle() -> AgentActivity {
    AgentActivity { chat_busy: false, lsp_starting: false, shell_busy: false, git_busy: false }
}

#[test]
fn turn_start_resumes_unloaded_threads() {
    assert_eq!(
        turn_start(Some("t1".to_string()), false),
        TurnStart::ResumeThread("t1".to_string())
    );
    assert_eq!(
        turn_start(Some("t1".to_string()), true),
        TurnStart::StartTurn("t1".to_string())
    );
    assert_eq!(turn_start(None, false), TurnStart::StartThread);
    assert_eq!(turn_start(None, true), TurnStart::StartThread);
}

#[test]
fn failure_messages_name_the_error() {
    assert_eq!(
        shell_failure_output("no such file\n"),
        "```text\nno such file\n```\n\nExit code: unavailable"
    );
    assert_eq!(model_list_failure("offline"), "Unable to load available models.\n\noffline");
    assert_eq!(interrupt_failure("gone"), "Failed to cancel response: gone");
}

#[test]
fn clipboard_outcomes() {
    assert_eq!(copy_outcome(Ok(())), None);
    assert_eq!(copy_outcome(Err("busy".to_string())), Some("Copy failed: busy".to_string()));
    assert_eq!(paste_outcome(Ok("x".to_string())), (Some("x".to_string()), None));
    assert_eq!(
        paste_outcome(Ok(String::new())),
        (None, Some("Clipboard is empty".to_string()))
    );
    assert_eq!(
        paste_outcome(Err("denied".to_string())),
        (None, Some("Paste failed: denied".to_string()))
    );
}

#[test]
fn spinner_turns_only_for_what_the_tab_shows() {
    let chat = AgentActivity { chat_busy: true, ..idle() };
    assert!(has_active_animation(AppTab::Chat, Some(chat)));
    assert!(!has_active_animation(AppTab::Shell, Some(chat)));
    assert!(!has_active_animation(AppTab::Chat, None));
    let lsp = AgentActivity { lsp_starting: true, ..idle() };
    assert_eq!(tick_interval_millis(AppTab::Workspace, Some(lsp)), FAST_TICK_MILLIS);
    assert_eq!(tick_interval_millis(AppTab::Workspace, Some(idle())), WORKSPACE_TICK_MILLIS);
    assert_eq!(tick_interval_millis(AppTab::GitDiff, Some(idle())), IDLE_TICK_MILLIS);
    let git = AgentActivity { git_busy: true, ..idle() };
    assert_eq!(tick_interval_millis(AppTab::GitDiff, Some(git)), 80);
}

#[test]
fn spinner_index_wraps_after_eight_frames() {
    assert_eq!(next_spinner_index(0), 1);
    assert_eq!(next_spinner_index(7), 0);
    assert_eq!(next_spinner_index(usize::MAX), (usize::MAX % 8 + 1) % 8);
}

#[test]
fn shell_tab_is_busy_while_a_session_starts() {
    let mut tab = ShellTabState::new();
    assert!(!tab.any_busy());
    tab.create_session("/tmp");
    assert!(tab.any_busy());
    tab.sessions[0].mark_ready();
    assert!(!tab.any_busy());
}

#[test]
fn git_results_set_the_status() {
    assert_eq!(git_remote_status(GitRemoteAction::Push, true, "ok".to_string()), "Git push finished");
    assert_eq!(git_remote_status(GitRemoteAction::Pull, true, "ok".to_string()), "Git pull finished");
    assert_eq!(git_remote_status(GitRemoteAction::Pull, false, "rejected".to_string()), "rejected");
    assert_eq!(git_mutation_status(true, "x".to_string()), "Git operation finished");
    assert_eq!(git_mutation_status(false, "conflict".to_string()), "conflict");
}

fn listed(id: &str) -> ModelInfo {
    ModelInfo {
        id: id.to_string(),
        model: id.to_string(),
        display_name: id.to_string(),
        is_default: false,
        supported_reasoning_efforts: Vec::new(),
        default_reasoning_effort: None,
    }
}

#[test]
fn model_pages_are_read_until_no_cursor_is_left() {
    let mut pager = ModelPager::new();
    assert!(pager.cursor.is_none());
    assert!(pager.add_page(vec![listed("a"), listed("b")], Some("next".to_string())));
    assert_eq!(pager.cursor.as_deref(), Some("next"));
    assert!(!pager.add_page(vec![listed("c")], None));
    let ids: Vec<&str> = pager.models.iter().map(|m| m.id.as_str()).collect();
    assert_eq!(ids, vec!["a", "b", "c"]);
}

#[test]
fn a_session_that_cannot_be_loaded_is_reported() {
    assert_eq!(
        session_load_failure("no such thread"),
        "Failed to load the latest workspace session: no such thread"
    );
}

#[test]
fn effects_are_taken_in_the_order_they_were_asked_for() {
    let mut queue: EffectQueue<&str> = EffectQueue::new();
    queue.enqueue_effect("refresh workspace");
    queue.enqueue_effect("run git mutation");
    assert_eq!(queue.len(), 2);
    assert_eq!(queue.take_effects(), vec!["refresh workspace", "run git mutation"]);
    assert_eq!(queue.len(), 0);
    assert!(queue.take_effects().is_empty());
}

#[test]
fn a_turn_opens_its_thread_then_starts() {
    let req = TurnRequest {
        text: "hello".to_string(),
        existing_thread: None,
        thread_loaded: false,
        model: Some("gpt-5.5".to_string()),
        effort: Some("high".to_string()),
        workspace: "/tmp/project".to_string(),
    };
    let first = first_turn_call(&req);
    assert_eq!(
        first,
        TurnCall::StartThread { workspace: "/tmp/project".to_string(), model: Some("gpt-5.5".to_string()) }
    );
    let next = turn_step(&req, &first, Ok("thread-1".to_string()));
    let start = TurnCall::StartTurn {
        thread_id: "thread-1".to_string(),
        text: "hello".to_string(),
        model: Some("gpt-5.5".to_string()),
        effort: Some("high".to_string()),
    };
    assert_eq!(next, TurnStep::Next(start.clone()));
    assert_eq!(turn_step(&req, &start, Ok("turn-9".to_string())), TurnStep::Started("turn-9".to_string()));
    assert_eq!(turn_step(&req, &start, Err("busy".to_string())), TurnStep::Failed("busy".to_string()));
    let resume = TurnRequest { existing_thread: Some("thread-1".to_string()), ..req.clone() };
    assert_eq!(
        first_turn_call(&resume),
        TurnCall::ResumeThread { thread_id: "thread-1".to_string(), model: Some("gpt-5.5".to_string()) }
    );
    assert_eq!(turn_step(&resume, &first_turn_call(&resume), Err("gone".to_string())), TurnStep::Failed("gone".to_string()));
    let loaded = TurnRequest { thread_loaded: true, ..resume.clone() };
    assert_eq!(first_turn_call(&loaded), TurnCall::StartTurn {
        thread_id: "thread-1".to_string(),
        text: "hello".to_string(),
        model: Some("gpt-5.5".to_string()),
        effort: Some("high".to_string()),
    });
    assert_eq!(turn_start(Some("t".to_string()), true), TurnStart::StartTurn("t".to_string()));
}
