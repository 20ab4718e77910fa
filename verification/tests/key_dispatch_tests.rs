use cmdex::app_shell::{AddAgentField, AppShell};
use cmdex::app_state::AppTab;
use cmdex::chat_state::ChatScroll;
use cmdex::key_dispatch::{apply_key_action, scroll_chat, KeyFollowUp};
use cmdex::keys::KeyAction;

#[test]
fn typing_in_the_chat_fills_its_input() {
    let mut shell = AppShell::new(2, "/tmp".to_string());
    let mut input = String::new();
    assert_eq!(apply_key_action(&mut shell, &mut input, KeyAction::Type('h'), 2, "/tmp".to_string()), KeyFollowUp::Done);
    assert_eq!(apply_key_action(&mut shell, &mut input, KeyAction::Type('i'), 2, "/tmp".to_string()), KeyFollowUp::Done);
    assert_eq!(apply_key_action(&mut shell, &mut input, KeyAction::InsertNewline, 2, "/tmp".to_string()), KeyFollowUp::Done);
    assert_eq!(input, "hi\n");
    apply_key_action(&mut shell, &mut input, KeyAction::Backspace, 2, "/tmp".to_string());
    assert_eq!(input, "hi");
    assert_eq!(apply_key_action(&mut shell, &mut input, KeyAction::SubmitChat, 2, "/tmp".to_string()), KeyFollowUp::SubmitChat);
}

#[test]
fn arrows_move_through_agents_and_tabs_refresh_when_shown() {
    let mut shell = AppShell::new(2, "/tmp".to_string());
    let mut input = String::new();
    apply_key_action(&mut shell, &mut input, KeyAction::MoveDown, 2, "/tmp".to_string());
    assert_eq!(shell.chat_sidebar_index, 2);
    assert_eq!(shell.current_agent, Some(1));
    assert_eq!(
        apply_key_action(&mut shell, &mut input, KeyAction::ShowTab(AppTab::Workspace), 2, "/tmp".to_string()),
        KeyFollowUp::Refresh(AppTab::Workspace)
    );
    assert_eq!(shell.current_tab, AppTab::Workspace);
    assert_eq!(
        apply_key_action(&mut shell, &mut input, KeyAction::MoveUp, 2, "/tmp".to_string()),
        KeyFollowUp::MoveTabSelection { tab: AppTab::Workspace, up: true }
    );
    assert_eq!(
        apply_key_action(&mut shell, &mut input, KeyAction::ShowTab(AppTab::Shell), 2, "/tmp".to_string()),
        KeyFollowUp::OpenShellTab
    );
    assert_eq!(shell.current_tab, AppTab::Workspace);
    assert_eq!(
        apply_key_action(&mut shell, &mut input, KeyAction::Type('x'), 2, "/tmp".to_string()),
        KeyFollowUp::TabText('x')
    );
    assert_eq!(
        apply_key_action(&mut shell, &mut input, KeyAction::RefreshTab, 2, "/tmp".to_string()),
        KeyFollowUp::Refresh(AppTab::Workspace)
    );
    assert!(input.is_empty());
}

#[test]
fn the_add_agent_form_takes_typing_tab_and_esc() {
    let mut shell = AppShell::new(1, "/home".to_string());
    let mut input = String::new();
    apply_key_action(&mut shell, &mut input, KeyAction::MoveUp, 1, "/home".to_string());
    assert_eq!(shell.chat_sidebar_index, 0);
    apply_key_action(&mut shell, &mut input, KeyAction::Type('a'), 1, "/home".to_string());
    assert_eq!(shell.add_form.name, "a");
    apply_key_action(&mut shell, &mut input, KeyAction::SwitchAddAgentField, 1, "/home".to_string());
    assert_eq!(shell.add_form.active_field, AddAgentField::Workspace);
    apply_key_action(&mut shell, &mut input, KeyAction::Backspace, 1, "/home".to_string());
    assert_eq!(shell.add_form.workspace, "/hom");
    apply_key_action(&mut shell, &mut input, KeyAction::CancelAddAgent, 1, "/home".to_string());
    assert_eq!(shell.add_form.name, "");
    assert_eq!(shell.add_form.workspace, "/home");
    assert_eq!(shell.chat_sidebar_index, 1);
    assert!(input.is_empty());
    assert_eq!(apply_key_action(&mut shell, &mut input, KeyAction::Quit, 1, "/home".to_string()), KeyFollowUp::Quit);
}

#[test]
fn page_keys_scroll_the_chat_by_four_rows_within_its_range() {
    let mut shell = AppShell::new(1, "/tmp".to_string());
    let mut input = String::new();
    assert_eq!(
        apply_key_action(&mut shell, &mut input, KeyAction::ScrollChatUp, 1, "/tmp".to_string()),
        KeyFollowUp::ScrollChat { up: true }
    );
    let mut scroll = ChatScroll::new();
    scroll_chat(&mut scroll, true, 10);
    assert_eq!(scroll.scroll, 6);
    assert!(!scroll.follow_output);
    scroll_chat(&mut scroll, true, 10);
    scroll_chat(&mut scroll, true, 10);
    assert_eq!(scroll.scroll, 0);
    scroll_chat(&mut scroll, false, 10);
    assert_eq!(scroll.scroll, 4);
    scroll_chat(&mut scroll, false, 10);
    scroll_chat(&mut scroll, false, 10);
    assert_eq!(scroll.scroll, 10);
    assert!(scroll.follow_output);
}
