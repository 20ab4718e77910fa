use cmdex::app_shell::{next_tab, previous_tab, AddAgentField, AppShell};
use cmdex::app_state::{
    selected_tab_index, tab_from_click, tabs_rect, AppExit, AppOutcome, AppTab, ScrollAxis,
    ScrollDebounce, ScrollDirection,
};
use cmdex::codex::{ModelInfo, ModelReasoningEffort};
use cmdex::geometry::{hover_popover_area, list_offset, popover_area, Rect};
use cmdex::labels::{effort_label, queue_popover_lines, remote_button_label, GitRemoteAction};
use cmdex::model_picker::{
    model_picker_step, ModelPickerAction, ModelPickerState, ModelPickerView, PickerKey,
    PickerNotice,
};
use cmdex::session::ChatLog;
use cmdex::shell::spinner_frame;

const MS: u64 = 1_000_000;

fn model(id: &str, display_name: &str, is_default: bool, efforts: &[&str]) -> ModelInfo {
    ModelInfo {
        id: id.to_string(),
        model: id.to_string(),
        display_name: display_name.to_string(),
        is_default,
        supported_reasoning_efforts: efforts
            .iter()
            .map(|effort| ModelReasoningEffort {
                reasoning_effort: effort.to_string(),
                description: None,
            })
            .collect(),
        default_reasoning_effort: None,
    }
}

fn shell_with_agent() -> AppShell {
    let mut shell = AppShell::new(1, "/tmp".to_string());
    shell.current_agent = Some(0);
    shell.chat_sidebar_index = 1;
    shell
}

#[test]
fn remote_button_label_shows_spinner_only_for_active_action() {
    assert_eq!(
        remote_button_label("Push", Some(GitRemoteAction::Push), GitRemoteAction::Push, 2),
        format!("{} Push", spinner_frame(2))
    );
    assert_eq!(
        remote_button_label("Pull", Some(GitRemoteAction::Push), GitRemoteAction::Pull, 2),
        "Pull"
    );
}

#[test]
fn spinner_frame_two_is_the_third_braille_frame() {
    assert_eq!(spinner_frame(2), '⠹');
    assert_eq!(spinner_frame(10), '⠹');
}

#[test]
fn top_navigation_clicks_ignore_cmdex_prefix_and_hit_tabs() {
    let area = Rect::new(0, 0, 50, 3);
    let tabs = tabs_rect(area);

    assert_eq!(tab_from_click(area, 1, 1), None);
    assert_eq!(tab_from_click(area, tabs.x, tabs.y), Some(AppTab::Chat));

    let workspace_x = tabs.x.saturating_add("Chat".chars().count() as u16 + 3);
    assert_eq!(
        tab_from_click(area, workspace_x, tabs.y),
        Some(AppTab::Workspace)
    );
}

#[test]
fn app_outcome_carries_restart_exit() {
    assert_eq!(
        AppOutcome::Exit(AppExit::Restart).exit(),
        Some(AppExit::Restart)
    );
}

#[test]
fn app_outcome_redraw_only_for_redraw() {
    assert!(AppOutcome::Redraw.needs_redraw());
    assert!(!AppOutcome::Handled.needs_redraw());
    assert_eq!(AppOutcome::Handled.exit(), None);
}

#[test]
fn workspace_editor_hover_popover_stays_inside_viewport() {
    let code_area = Rect::new(10, 5, 40, 12);

    let popup = hover_popover_area(code_area, 47, 15, 20, 6);

    assert_eq!(popup, Rect::new(28, 10, 20, 6));
}

#[test]
fn shell_tab_index_sits_between_workspace_and_git_diff() {
    assert_eq!(selected_tab_index(AppTab::Workspace), 1);
    assert_eq!(selected_tab_index(AppTab::Shell), 2);
    assert_eq!(selected_tab_index(AppTab::GitDiff), 3);
}

#[test]
fn tab_cycle_wraps_in_both_directions() {
    let mut tab = AppTab::Chat;
    for _ in 0..4 {
        let next = next_tab(tab);
        assert_ne!(next, tab);
        assert_eq!(previous_tab(next), tab);
        tab = next;
    }
    assert_eq!(tab, AppTab::Chat);
    assert_eq!(next_tab(AppTab::GitDiff), AppTab::Chat);
    assert_eq!(previous_tab(AppTab::Chat), AppTab::GitDiff);
}

#[test]
fn debounces_repeated_mouse_scroll_events() {
    let mut debounce = ScrollDebounce::new();
    let now = 1_000 * MS;

    assert!(debounce.should_handle(ScrollAxis::Vertical, ScrollDirection::Down, now));
    assert!(!debounce.should_handle(ScrollAxis::Vertical, ScrollDirection::Down, now + 10 * MS));
    assert!(debounce.should_handle(ScrollAxis::Vertical, ScrollDirection::Down, now + 25 * MS));

    let mut other_direction = ScrollDebounce::new();
    assert!(other_direction.should_handle(ScrollAxis::Vertical, ScrollDirection::Down, now));
    assert!(other_direction.should_handle(ScrollAxis::Vertical, ScrollDirection::Up, now + 10 * MS));
}

#[test]
fn chat_and_workspace_share_same_mouse_scroll_debounce() {
    let mut chat = ScrollDebounce::new();
    let mut workspace = ScrollDebounce::new();
    let now = 1_000 * MS;

    assert!(chat.should_handle(ScrollAxis::Vertical, ScrollDirection::Down, now));
    assert!(!chat.should_handle(ScrollAxis::Vertical, ScrollDirection::Down, now + 10 * MS));
    assert!(chat.should_handle(ScrollAxis::Vertical, ScrollDirection::Down, now + 25 * MS));

    assert!(workspace.should_handle(ScrollAxis::Vertical, ScrollDirection::Down, now));
    assert!(!workspace.should_handle(ScrollAxis::Vertical, ScrollDirection::Down, now + 10 * MS));
    assert!(workspace.should_handle(ScrollAxis::Vertical, ScrollDirection::Down, now + 25 * MS));
}

#[test]
fn horizontal_mouse_scroll_uses_independent_debounce_axis() {
    let mut debounce = ScrollDebounce::new();
    let now = 1_000 * MS;

    assert!(debounce.should_handle(ScrollAxis::Vertical, ScrollDirection::Down, now));
    assert!(debounce.should_handle(ScrollAxis::Horizontal, ScrollDirection::Down, now + 10 * MS));
    assert!(!debounce.should_handle(ScrollAxis::Horizontal, ScrollDirection::Down, now + 15 * MS));
}

#[test]
fn new_shell_selects_first_agent() {
    let shell = AppShell::new(2, "/home".to_string());
    assert_eq!(shell.current_tab, AppTab::Chat);
    assert_eq!(shell.current_agent, Some(0));
    assert_eq!(shell.chat_sidebar_index, 1);
    assert!(!shell.add_agent_selected());

    let empty = AppShell::new(0, "/home".to_string());
    assert_eq!(empty.current_agent, None);
    assert!(empty.add_agent_selected());
    assert_eq!(empty.add_form.workspace, "/home");
}

#[test]
fn agents_sidebar_selection_is_clamped() {
    let mut shell = AppShell::new(2, "/home".to_string());
    shell.move_agent_selection_down(2);
    assert_eq!(shell.chat_sidebar_index, 2);
    assert_eq!(shell.current_agent, Some(1));
    shell.move_agent_selection_down(2);
    assert_eq!(shell.chat_sidebar_index, 2);
    shell.select_agent_index(9, 2);
    assert_eq!(shell.chat_sidebar_index, 2);
    shell.move_agent_selection_up(2);
    shell.move_agent_selection_up(2);
    assert_eq!(shell.chat_sidebar_index, 0);
    assert_eq!(shell.current_agent, Some(0));
    assert!(shell.add_agent_selected());
}

#[test]
fn agents_sidebar_click_selects_row_under_pointer() {
    let mut shell = AppShell::new(3, "/home".to_string());
    let list = Rect::new(0, 0, 20, 10);
    shell.handle_agents_sidebar_click(5, 3, list, 3);
    assert_eq!(shell.chat_sidebar_index, 2);
    assert_eq!(shell.current_agent, Some(1));
    shell.handle_agents_sidebar_click(5, 8, list, 3);
    assert_eq!(shell.chat_sidebar_index, 3);
    shell.handle_agents_sidebar_click(30, 3, list, 3);
    assert_eq!(shell.chat_sidebar_index, 3);
}

#[test]
fn add_agent_form_edits_the_active_field() {
    let mut shell = AppShell::new(0, "/tmp".to_string());
    shell.add_form.error = Some("bad".to_string());
    shell.add_form.push_char('a');
    assert_eq!(shell.add_form.error, None);
    assert_eq!(shell.add_form.name, "a");
    shell.add_form.switch_field();
    assert_eq!(shell.add_form.active_field, AddAgentField::Workspace);
    shell.add_form.pop_char();
    assert_eq!(shell.add_form.workspace, "/tm");
    shell.cancel_add_agent("/home".to_string(), 0);
    assert_eq!(shell.add_form.name, "");
    assert_eq!(shell.add_form.workspace, "/home");
    shell.agent_added(1, "/home".to_string());
    assert_eq!(shell.current_agent, Some(0));
    assert_eq!(shell.chat_sidebar_index, 1);
}

#[test]
fn changing_tab_closes_model_picker() {
    let mut shell = shell_with_agent();
    assert!(shell.open_model_picker(0, vec![model("gpt-5.4", "GPT-5.4", true, &[])], None));
    assert!(!shell.set_tab(AppTab::Chat));
    assert!(shell.model_picker.is_some());
    assert!(shell.set_tab(AppTab::Shell));
    assert!(shell.model_picker.is_none());
}

#[test]
fn model_list_opens_picker_with_current_model_selected() {
    let mut shell = shell_with_agent();
    let current = "gpt-5.5".to_string();
    let mut log = ChatLog::new();

    let (agent_status, status) = shell.model_list_loaded(
        &mut log,
        0,
        vec![
            model("gpt-5.4", "GPT-5.4", true, &[]),
            model("gpt-5.5", "GPT-5.5", false, &[]),
        ],
        Some(&current),
        "gpt-5.5",
    );

    let picker = shell.model_picker.as_ref().expect("model picker");
    assert_eq!(picker.selected, 1);
    assert_eq!(picker.models.len(), 2);
    assert!(matches!(picker.view, ModelPickerView::Models));
    assert_eq!(agent_status, "Select a model");
    assert_eq!(
        status.as_deref(),
        Some("Use Up/Down to select a model, Enter to apply, or Esc to cancel")
    );
    assert!(log.messages.is_empty());
}

#[test]
fn empty_model_list_is_reported_in_the_chat() {
    let mut shell = shell_with_agent();
    let mut log = ChatLog::new();
    let (agent_status, status) = shell.model_list_loaded(&mut log, 0, Vec::new(), None, "default");
    assert_eq!(agent_status, "Select a model");
    assert_eq!(status.as_deref(), Some("No models available"));
    assert!(shell.model_picker.is_none());
    assert_eq!(log.messages.len(), 1);
    assert!(log.messages[0].text.starts_with("Current model: `default`"));
}

#[test]
fn model_list_falls_back_to_default_model() {
    let mut shell = shell_with_agent();
    assert!(shell.open_model_picker(
        0,
        vec![
            model("gpt-5.4", "GPT-5.4", false, &[]),
            model("gpt-5.5", "GPT-5.5", true, &[]),
        ],
        None,
    ));
    assert_eq!(shell.model_picker.as_ref().unwrap().selected, 1);
    assert!(!shell.open_model_picker(1, vec![model("x", "X", true, &[])], None));
    assert!(!shell.open_model_picker(0, Vec::new(), None));
}

#[test]
fn model_picker_keyboard_navigation_returns_selected_model() {
    let mut shell = shell_with_agent();
    shell.model_picker = Some(ModelPickerState {
        agent_index: 0,
        models: vec![
            ModelInfo {
                id: "gpt-5.4".to_string(),
                model: "gpt-5.4".to_string(),
                display_name: "GPT-5.4".to_string(),
                is_default: true,
                supported_reasoning_efforts: Vec::new(),
                default_reasoning_effort: None,
            },
            ModelInfo {
                id: "gpt-5.5".to_string(),
                model: "gpt-5.5".to_string(),
                display_name: "GPT-5.5".to_string(),
                is_default: false,
                supported_reasoning_efforts: Vec::new(),
                default_reasoning_effort: None,
            },
        ],
        selected: 0,
        view: ModelPickerView::Models,
    });

    assert_eq!(
        shell.handle_model_picker_key(PickerKey::Down, None).0,
        ModelPickerAction::Handled
    );
    assert_eq!(
        shell.handle_model_picker_key(PickerKey::Enter, None).0,
        ModelPickerAction::Apply {
            agent_index: 0,
            model: "gpt-5.5".to_string(),
            effort: None,
        }
    );
    assert!(shell.model_picker.is_none());
}

#[test]
fn model_picker_selects_effort_supported_by_selected_model() {
    let mut shell = shell_with_agent();
    let current_effort = "low".to_string();
    shell.model_picker = Some(ModelPickerState {
        agent_index: 0,
        models: vec![ModelInfo {
            id: "gpt-5.5".to_string(),
            model: "gpt-5.5".to_string(),
            display_name: "GPT-5.5".to_string(),
            is_default: true,
            supported_reasoning_efforts: vec![
                ModelReasoningEffort {
                    reasoning_effort: "low".to_string(),
                    description: Some("Fast".to_string()),
                },
                ModelReasoningEffort {
                    reasoning_effort: "high".to_string(),
                    description: Some("Deep".to_string()),
                },
            ],
            default_reasoning_effort: Some("high".to_string()),
        }],
        selected: 0,
        view: ModelPickerView::Models,
    });

    let (action, notice) = shell.handle_model_picker_key(PickerKey::Enter, Some(&current_effort));
    assert_eq!(action, ModelPickerAction::Handled);
    assert_eq!(notice, PickerNotice::SelectEffort);
    assert!(matches!(
        shell.model_picker.as_ref().map(|picker| &picker.view),
        Some(ModelPickerView::Efforts {
            model_index: 0,
            selected: 0
        })
    ));
    let picker = shell.model_picker.as_ref().unwrap();
    assert_eq!(
        effort_label(&picker.models[0].supported_reasoning_efforts[0]),
        "low - Fast"
    );

    assert_eq!(
        shell
            .handle_model_picker_key(PickerKey::Down, Some(&current_effort))
            .0,
        ModelPickerAction::Handled
    );
    assert_eq!(
        shell
            .handle_model_picker_key(PickerKey::Enter, Some(&current_effort))
            .0,
        ModelPickerAction::Apply {
            agent_index: 0,
            model: "gpt-5.5".to_string(),
            effort: Some("high".to_string()),
        }
    );
    assert!(shell.model_picker.is_none());
}

#[test]
fn model_picker_escape_steps_back_then_cancels() {
    let picker = ModelPickerState {
        agent_index: 0,
        models: vec![model("m", "M", true, &["low", "high"])],
        selected: 0,
        view: ModelPickerView::Efforts {
            model_index: 0,
            selected: 1,
        },
    };
    let (next, action, notice) = model_picker_step(picker, PickerKey::Esc, None);
    assert_eq!(action, ModelPickerAction::Handled);
    assert_eq!(notice, PickerNotice::SelectModel);
    let next = next.expect("picker stays open");
    assert_eq!(next.view, ModelPickerView::Models);
    assert_eq!(
        notice.status_message(),
        Some("Select a model".to_string())
    );

    let (closed, action, notice) = model_picker_step(next, PickerKey::Esc, None);
    assert!(closed.is_none());
    assert_eq!(action, ModelPickerAction::Handled);
    assert_eq!(
        notice.status_message(),
        Some("Model selection canceled".to_string())
    );
}

#[test]
fn model_picker_is_not_open_on_other_tabs() {
    let mut shell = shell_with_agent();
    assert_eq!(
        shell.handle_model_picker_key(PickerKey::Enter, None),
        (ModelPickerAction::NotOpen, PickerNotice::Unchanged)
    );
    assert!(shell.open_model_picker(0, vec![model("m", "M", true, &[])], None));
    shell.current_tab = AppTab::Shell;
    assert_eq!(
        shell.handle_model_picker_key(PickerKey::Enter, None).0,
        ModelPickerAction::NotOpen
    );
    assert!(shell.model_picker.is_some());
}

#[test]
fn model_picker_uses_default_effort_when_current_is_missing() {
    let mut m = model("m", "M", true, &["low", "medium", "high"]);
    m.default_reasoning_effort = Some("medium".to_string());
    let picker = ModelPickerState {
        agent_index: 3,
        models: vec![m],
        selected: 0,
        view: ModelPickerView::Models,
    };
    let unknown = "xhigh".to_string();
    let (next, _, _) = model_picker_step(picker, PickerKey::Enter, Some(&unknown));
    assert_eq!(
        next.unwrap().view,
        ModelPickerView::Efforts {
            model_index: 0,
            selected: 1
        }
    );
}

#[test]
fn model_picker_renders_model_names() {
    let picker = ModelPickerState {
        agent_index: 0,
        models: vec![ModelInfo {
            id: "gpt-5.5".to_string(),
            model: "gpt-5.5".to_string(),
            display_name: "GPT-5.5".to_string(),
            is_default: true,
            supported_reasoning_efforts: Vec::new(),
            default_reasoning_effort: None,
        }],
        selected: 0,
        view: ModelPickerView::Models,
    };

    let display = picker.display().expect("picker shows its models");
    assert_eq!(display.title, "Select model");
    let area = Rect::new(0, 20, 80, 4);
    let visible = display.labels.len().min(7);
    let start = list_offset(display.selected, display.labels.len(), visible);
    let popup_width = area.width.saturating_sub(2).min(72).max(1);
    let popup = popover_area(area, popup_width, visible);
    let lines = queue_popover_lines(&display.labels, display.selected, start, visible, popup.width);
    assert_eq!(lines.len(), 1);
    assert!(lines[0].0.contains("gpt-5.5"));
    assert!(lines[0].0.contains("GPT-5.5"));
    assert!(lines[0].1);
}

#[test]
fn model_picker_effort_list_shows_the_model_efforts() {
    let picker = ModelPickerState {
        agent_index: 0,
        models: vec![model("m", "M", true, &["low", "high"])],
        selected: 0,
        view: ModelPickerView::Efforts { model_index: 0, selected: 1 },
    };
    let display = picker.display().expect("efforts");
    assert_eq!(display.title, "Select effort");
    assert_eq!(display.selected, 1);
    assert_eq!(display.labels, vec!["low".to_string(), "high".to_string()]);

    let empty = ModelPickerState { agent_index: 0, models: Vec::new(), selected: 0, view: ModelPickerView::Models };
    assert!(empty.display().is_none());
}
