use cmdex::app_state::AppTab;
use cmdex::chat::{ChatCommand, ModelCommand};
use cmdex::chat_settings::{format_model_list_message, ChatDefaults, ChatSettings};
use cmdex::codex::ModelInfo;
use cmdex::geometry::{label_pair_hit, pad_preview_lines, preview_padding, LabelHit, PreviewLine, Rect};
use cmdex::hover_markdown::{hover_blocks_from_events, parse_hover_blocks, HoverBlock, MdEvent};
use cmdex::keys::{
    chat_submission, key_action, queue_key_action, queue_status, ChatSubmission, KeyAction,
    KeyCode, KeyPress, QueueKeyAction,
};
use cmdex::lsp_session::{
    request_step, response_error_is_retryable, response_error_message, route_message,
    unsupported_request_message, MessageRoute, RequestStep,
};

fn key(code: KeyCode) -> KeyPress {
    KeyPress {
        code,
        ctrl: false,
        alt: false,
        shift: false,
    }
}

fn ctrl(code: KeyCode) -> KeyPress {
    KeyPress {
        ctrl: true,
        ..key(code)
    }
}

fn alt(code: KeyCode) -> KeyPress {
    KeyPress {
        alt: true,
        ..key(code)
    }
}

fn code(language: Option<&str>, text: &str) -> HoverBlock {
    HoverBlock::Code {
        language: language.map(str::to_string),
        text: text.to_string(),
    }
}

fn text(value: &str) -> HoverBlock {
    HoverBlock::Text(value.to_string())
}

#[test]
fn hover_blocks_split_fenced_code_from_text() {
    let blocks = parse_hover_blocks("```rust\nfn greet()\n```\n\nReturns a greeting");
    assert_eq!(
        blocks,
        vec![code(Some("rust"), "fn greet()"), text("Returns a greeting")]
    );
}

#[test]
fn hover_blocks_keep_indented_code_without_language() {
    let blocks = parse_hover_blocks("Example:\n\n    fn greet(name: &str) -> String\n");
    assert_eq!(
        blocks,
        vec![text("Example:"), code(None, "fn greet(name: &str) -> String")]
    );
}

#[test]
fn hover_blocks_render_list_items_and_paragraphs() {
    let blocks = parse_hover_blocks("First paragraph.\n\n- one\n- two\n\nLast");
    assert_eq!(
        blocks,
        vec![text("First paragraph.\n\n- one\n- two\nLast")]
    );
}

#[test]
fn hover_blocks_of_blank_text_are_empty() {
    assert!(parse_hover_blocks("   \n\n").is_empty());
}

#[test]
fn hover_blocks_from_events_close_open_code_blocks() {
    let events = vec![
        MdEvent::Text("intro".to_string()),
        MdEvent::EndParagraph,
        MdEvent::StartCodeBlock(Some("  python ".to_string())),
        MdEvent::Text("print(1)\n\n".to_string()),
    ];
    assert_eq!(
        hover_blocks_from_events(&events),
        vec![text("intro"), code(Some("python"), "print(1)")]
    );

    let events = vec![
        MdEvent::TaskListMarker(true),
        MdEvent::Text("done".to_string()),
        MdEvent::EndTableCell,
        MdEvent::SoftBreak,
        MdEvent::SoftBreak,
        MdEvent::SoftBreak,
        MdEvent::Text("  next  ".to_string()),
    ];
    assert_eq!(hover_blocks_from_events(&events), vec![text("[x] done\nnext")]);
}

#[test]
fn keys_map_to_application_actions() {
    assert_eq!(
        key_action(ctrl(KeyCode::Char('q')), AppTab::Chat, false),
        KeyAction::Quit
    );
    assert_eq!(
        key_action(alt(KeyCode::Char('r')), AppTab::Shell, false),
        KeyAction::Restart
    );
    assert_eq!(
        key_action(ctrl(KeyCode::Left), AppTab::Chat, false),
        KeyAction::ShowTab(AppTab::GitDiff)
    );
    assert_eq!(
        key_action(ctrl(KeyCode::Right), AppTab::GitDiff, false),
        KeyAction::ShowTab(AppTab::Chat)
    );
    assert_eq!(
        key_action(key(KeyCode::Right), AppTab::Chat, false),
        KeyAction::ShowTab(AppTab::Workspace)
    );
    let shift_enter = KeyPress {
        shift: true,
        ..key(KeyCode::Enter)
    };
    assert_eq!(
        key_action(shift_enter, AppTab::Chat, false),
        KeyAction::InsertNewline
    );
    assert_eq!(
        key_action(key(KeyCode::Enter), AppTab::Chat, true),
        KeyAction::SubmitAgent
    );
    assert_eq!(
        key_action(key(KeyCode::Enter), AppTab::Shell, false),
        KeyAction::SubmitShell
    );
    assert_eq!(
        key_action(key(KeyCode::Esc), AppTab::Chat, true),
        KeyAction::CancelAddAgent
    );
    assert_eq!(
        key_action(key(KeyCode::Esc), AppTab::Chat, false),
        KeyAction::InterruptTurn
    );
    assert_eq!(
        key_action(key(KeyCode::PageUp), AppTab::Chat, false),
        KeyAction::ScrollChatUp
    );
    assert_eq!(
        key_action(key(KeyCode::PageUp), AppTab::Workspace, false),
        KeyAction::ScrollContentUp
    );
    assert_eq!(
        key_action(key(KeyCode::F(5)), AppTab::Workspace, false),
        KeyAction::RefreshTab
    );
    assert_eq!(
        key_action(key(KeyCode::Char('a')), AppTab::Chat, false),
        KeyAction::Type('a')
    );
    assert_eq!(
        key_action(ctrl(KeyCode::Char('a')), AppTab::Chat, false),
        KeyAction::Ignore
    );
}

#[test]
fn queue_keys_need_alt() {
    assert_eq!(
        queue_key_action(alt(KeyCode::Up)),
        Some(QueueKeyAction::SelectPrevious)
    );
    assert_eq!(
        queue_key_action(alt(KeyCode::Char('x'))),
        Some(QueueKeyAction::CancelSelected)
    );
    assert_eq!(
        queue_key_action(alt(KeyCode::Delete)),
        Some(QueueKeyAction::CancelSelected)
    );
    assert_eq!(queue_key_action(key(KeyCode::Up)), None);
    assert_eq!(queue_status(0), "Queue is empty");
    assert_eq!(queue_status(2), "2 queued message(s) remaining");
}

#[test]
fn chat_submissions_are_classified() {
    assert_eq!(
        chat_submission("/model", true, false),
        ChatSubmission::Command(ChatCommand::Model(ModelCommand::List))
    );
    assert_eq!(
        chat_submission("> ls", true, true),
        ChatSubmission::Shell("ls".to_string())
    );
    assert_eq!(chat_submission("   ", true, false), ChatSubmission::Nothing);
    assert_eq!(chat_submission("hi", false, false), ChatSubmission::NoAgent);
    assert_eq!(
        chat_submission("  hi  ", true, true),
        ChatSubmission::Enqueue("hi".to_string())
    );
    assert_eq!(
        chat_submission("  hi  ", true, false),
        ChatSubmission::Send("hi".to_string())
    );
}

fn defaults() -> ChatDefaults {
    ChatDefaults {
        model: Some("gpt-5.4".to_string()),
        reasoning_effort: Some("high".to_string()),
        label: "gpt-5.4 · high".to_string(),
    }
}

#[test]
fn model_commands_change_chat_settings() {
    let defaults = defaults();
    let mut settings = ChatSettings::new(&defaults);
    assert_eq!(settings.label, "gpt-5.4 · high");
    assert!(!settings.explicit);

    let message = settings.change(None, Some("low".to_string()), &defaults);
    assert_eq!(settings.model.as_deref(), Some("gpt-5.4"));
    assert_eq!(settings.reasoning_effort.as_deref(), Some("low"));
    assert_eq!(settings.label, "gpt-5.4 · low");
    assert_eq!(message, "Model set to `gpt-5.4 · low`.");

    settings.thread_ready(Some("gpt-5.5".to_string()), None, &defaults);
    assert_eq!(settings.model.as_deref(), Some("gpt-5.4"));
    assert_eq!(settings.label, "gpt-5.4 · low");

    let message = settings.reset_to_default(&defaults);
    assert_eq!(message, "Model set to `gpt-5.4 · high`.");
    assert!(!settings.explicit);

    settings.thread_ready(Some("gpt-5.5".to_string()), None, &defaults);
    assert_eq!(settings.model.as_deref(), Some("gpt-5.5"));
    assert_eq!(settings.reasoning_effort, None);
    assert_eq!(settings.label, "gpt-5.5");
}

#[test]
fn model_list_message_lists_models_and_help() {
    assert_eq!(
        format_model_list_message("default", &Vec::new()),
        "Current model: `default`\n\nNo visible models were returned by the app server."
    );
    let models = vec![ModelInfo {
        id: "gpt-5.5-id".to_string(),
        model: "gpt-5.5".to_string(),
        display_name: "GPT-5.5".to_string(),
        is_default: true,
        supported_reasoning_efforts: Vec::new(),
        default_reasoning_effort: None,
    }];
    let message = format_model_list_message("gpt-5.4", &models);
    assert!(message.starts_with("Current model: `gpt-5.4`\n\nAvailable models:\n"));
    assert!(message.contains("- `gpt-5.5` [gpt-5.5-id] - GPT-5.5 (default)\n\n"));
    assert!(message.ends_with("Use `/model default` to go back to the configured default."));
}

#[test]
fn lsp_messages_are_routed() {
    assert_eq!(
        route_message(Some("workspace/configuration".to_string()), true, Some(3)),
        MessageRoute::RejectRequest {
            method: "workspace/configuration".to_string()
        }
    );
    assert_eq!(
        route_message(Some("window/logMessage".to_string()), false, None),
        MessageRoute::Notification {
            method: "window/logMessage".to_string()
        }
    );
    assert_eq!(
        route_message(None, true, Some(7)),
        MessageRoute::Response { id: 7 }
    );
    assert_eq!(route_message(None, false, None), MessageRoute::Ignore);
    assert_eq!(
        unsupported_request_message("x/y"),
        "Unsupported server request: x/y"
    );
}

#[test]
fn content_modified_errors_are_retried_once() {
    assert!(response_error_is_retryable(Some(-32801), None));
    assert!(response_error_is_retryable(None, Some("Content Modified")));
    assert!(!response_error_is_retryable(Some(-32600), Some("bad")));
    assert_eq!(response_error_message(None), "unknown LSP error");
    assert_eq!(request_step(0, false, None, None), RequestStep::Succeed);
    assert_eq!(request_step(0, true, Some(-32801), None), RequestStep::Retry);
    assert_eq!(
        request_step(1, true, Some(-32801), Some("content modified")),
        RequestStep::Fail("content modified".to_string())
    );
}

#[test]
fn sidebar_label_pairs_are_hit_by_clicks() {
    let area = Rect::new(0, 0, 30, 3);
    assert_eq!(
        label_pair_hit(area, "Files", "Search", 1, 1),
        Some(LabelHit::First)
    );
    assert_eq!(
        label_pair_hit(area, "Files", "Search", 9, 1),
        Some(LabelHit::Second)
    );
    assert_eq!(label_pair_hit(area, "Files", "Search", 7, 1), None);
    assert_eq!(label_pair_hit(area, "Files", "Search", 1, 2), None);
}

#[test]
fn preview_padding_fills_changed_rows_to_viewport_width() {
    let changed = PreviewLine { spans: vec![("abc".to_string(), "red")], width: 3, fill: Some("red") };
    let context = PreviewLine { spans: vec![("xy".to_string(), "plain")], width: 2, fill: None };
    let padded = pad_preview_lines(vec![changed, context], 5);

    let text: String = padded[0].spans.iter().map(|(t, _)| t.as_str()).collect();
    assert_eq!(text, "abc  ");
    assert_eq!(padded[0].width, 5);
    assert_eq!(padded[1].width, 2);
}

#[test]
fn preview_padding_counts_fill_to_the_viewport_width() {
    assert_eq!(3 + preview_padding(3, 5, true), 5);
    assert_eq!(2 + preview_padding(2, 5, false), 2);
    assert_eq!(preview_padding(0, 5, true), 5);
    assert_eq!(preview_padding(10, 5, true), 0);
    assert_eq!(preview_padding(7, 0, true), 0);
    let empty = PreviewLine { spans: Vec::new(), width: 0, fill: Some(1u8) };
    let padded = pad_preview_lines(vec![empty], 4);
    assert_eq!(padded[0].spans, vec![("    ".to_string(), 1u8)]);
    assert_eq!(padded[0].width, 4);
}

#[test]
fn hover_blocks_never_end_in_blank_space() {
    let blocks = parse_hover_blocks("  intro  \n\n\n```rust\nfn f()\n\n```\n\n  \n");
    assert!(!blocks.is_empty());
    for block in &blocks {
        match block {
            HoverBlock::Text(text) => {
                assert!(!text.is_empty());
                assert!(!text.ends_with(char::is_whitespace));
            }
            HoverBlock::Code { text, .. } => {
                assert!(!text.is_empty());
                assert!(!text.ends_with('\n') && !text.ends_with('\r'));
            }
        }
    }
}
