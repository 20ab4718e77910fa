use cmdex::keys::{KeyCode, KeyPress};
use cmdex::labels::EditorMode;
use cmdex::workspace_events::{
    open_editor_after_scan, WorkspaceEffect, WorkspaceEvent, WorkspaceWatch,
};
use cmdex::workspace_input::{
    git_diff_key_command, git_operation_step, search_key_command, workspace_key_route,
    CompletionKeyCommand, DiffSection, EditorKeyContext, GitDiffKeyCommand, GitOperation,
    GitOperationStep, SearchKeyCommand, TreeKeyCommand, WorkspaceKeyContext, WorkspaceKeyRoute,
};

fn key(code: KeyCode) -> KeyPress {
    KeyPress { code, ctrl: false, alt: false, shift: false }
}

fn ctrl(code: KeyCode) -> KeyPress {
    KeyPress { code, ctrl: true, alt: false, shift: false }
}

fn editor(mode: EditorMode) -> Option<EditorKeyContext> {
    Some(EditorKeyContext { mode, completion_visible: false, shortcuts_open: false })
}

fn context(sidebar_focused: bool, search_tab: bool, editor: Option<EditorKeyContext>) -> WorkspaceKeyContext {
    WorkspaceKeyContext { active: true, sidebar_focused, search_tab, editor }
}

#[test]
fn git_mutations_are_enqueued_instead_of_running_in_the_input_handler() {
    let command = git_diff_key_command(ctrl(KeyCode::Char('s')), DiffSection::Changes);
    assert_eq!(command, Some(GitDiffKeyCommand::Run(GitOperation::Stage)));
    let step = git_operation_step(GitOperation::Stage, Some(0), Ok("file.rs".to_string()), Ok(()));
    assert_eq!(step, GitOperationStep::Run { agent_index: 0, mutation: "file.rs".to_string() });
}

#[test]
fn git_diff_keys_choose_operations_and_sections() {
    assert_eq!(
        git_diff_key_command(ctrl(KeyCode::Char('u')), DiffSection::Changes),
        Some(GitDiffKeyCommand::Run(GitOperation::Unstage))
    );
    assert_eq!(
        git_diff_key_command(ctrl(KeyCode::Char('d')), DiffSection::Changes),
        Some(GitDiffKeyCommand::Run(GitOperation::Discard))
    );
    assert_eq!(
        git_diff_key_command(key(KeyCode::Enter), DiffSection::Staged),
        Some(GitDiffKeyCommand::Run(GitOperation::Commit))
    );
    assert_eq!(
        git_diff_key_command(key(KeyCode::Tab), DiffSection::Changes),
        Some(GitDiffKeyCommand::ShowSection(DiffSection::Staged))
    );
    assert_eq!(
        git_diff_key_command(key(KeyCode::Tab), DiffSection::Staged),
        Some(GitDiffKeyCommand::ShowSection(DiffSection::Changes))
    );
    assert_eq!(
        git_diff_key_command(key(KeyCode::Left), DiffSection::Staged),
        Some(GitDiffKeyCommand::ShowSection(DiffSection::Changes))
    );
    assert_eq!(
        git_diff_key_command(key(KeyCode::Right), DiffSection::Changes),
        Some(GitDiffKeyCommand::ShowSection(DiffSection::Staged))
    );
    assert_eq!(git_diff_key_command(ctrl(KeyCode::Left), DiffSection::Changes), None);
    assert_eq!(git_diff_key_command(key(KeyCode::Char('s')), DiffSection::Changes), None);
}

#[test]
fn git_operations_need_an_agent_and_report_refusals() {
    let none: GitOperationStep<String> =
        git_operation_step(GitOperation::Commit, None, Ok("m".to_string()), Ok(()));
    assert_eq!(none, GitOperationStep::NoAgent("Add an agent before committing changes.".to_string()));
    let staged: GitOperationStep<String> =
        git_operation_step(GitOperation::Stage, None, Ok("m".to_string()), Ok(()));
    assert_eq!(staged, GitOperationStep::NoAgent("Add an agent before staging changes.".to_string()));
    let refused: GitOperationStep<String> =
        git_operation_step(GitOperation::Commit, Some(1), Err("Commit message is empty".to_string()), Ok(()));
    assert_eq!(refused, GitOperationStep::Refused("Commit message is empty".to_string()));
    let busy: GitOperationStep<String> =
        git_operation_step(GitOperation::Discard, Some(1), Ok("x".to_string()), Err("busy".to_string()));
    assert_eq!(busy, GitOperationStep::Refused("busy".to_string()));
}

#[test]
fn search_box_keys_edit_the_query_and_move_through_results() {
    assert_eq!(search_key_command(key(KeyCode::Esc)), Some(SearchKeyCommand::ShowFiles));
    assert_eq!(search_key_command(key(KeyCode::Up)), Some(SearchKeyCommand::SelectPrevious));
    assert_eq!(search_key_command(key(KeyCode::Down)), Some(SearchKeyCommand::SelectNext));
    assert_eq!(search_key_command(key(KeyCode::Enter)), Some(SearchKeyCommand::OpenSelected));
    assert_eq!(search_key_command(key(KeyCode::Backspace)), Some(SearchKeyCommand::DeleteChar));
    assert_eq!(search_key_command(key(KeyCode::Char('n'))), Some(SearchKeyCommand::TypeChar('n')));
    assert_eq!(search_key_command(ctrl(KeyCode::Char('n'))), None);
    assert_eq!(search_key_command(key(KeyCode::Tab)), None);
}

#[test]
fn typing_goes_to_the_search_box_only_while_the_sidebar_has_the_keys() {
    let searching = context(true, true, editor(EditorMode::Insert));
    assert_eq!(
        workspace_key_route(searching, key(KeyCode::Char('!'))),
        WorkspaceKeyRoute::Search(SearchKeyCommand::TypeChar('!'))
    );
    let editing = context(false, true, editor(EditorMode::Insert));
    assert_eq!(workspace_key_route(editing, key(KeyCode::Char('!'))), WorkspaceKeyRoute::Editor);
}

#[test]
fn arrow_keys_move_the_tree_or_the_editor_by_focus() {
    let tree = context(true, false, editor(EditorMode::Normal));
    assert_eq!(
        workspace_key_route(tree, key(KeyCode::Down)),
        WorkspaceKeyRoute::Tree(TreeKeyCommand::SelectNext)
    );
    assert_eq!(
        workspace_key_route(tree, key(KeyCode::Enter)),
        WorkspaceKeyRoute::Tree(TreeKeyCommand::ToggleOrOpen)
    );
    assert_eq!(workspace_key_route(tree, key(KeyCode::Char('x'))), WorkspaceKeyRoute::Unhandled);
    let code = context(false, false, editor(EditorMode::Normal));
    assert_eq!(workspace_key_route(code, key(KeyCode::Down)), WorkspaceKeyRoute::Editor);
    assert_eq!(workspace_key_route(code, key(KeyCode::Tab)), WorkspaceKeyRoute::ToggleFocus);
    let inserting = context(false, false, editor(EditorMode::Insert));
    assert_eq!(workspace_key_route(inserting, key(KeyCode::Tab)), WorkspaceKeyRoute::Editor);
}

#[test]
fn without_an_open_file_only_enter_is_taken() {
    let browsing = context(true, false, None);
    assert_eq!(workspace_key_route(browsing, key(KeyCode::Enter)), WorkspaceKeyRoute::OpenSelectedEntry);
    assert_eq!(workspace_key_route(browsing, key(KeyCode::Up)), WorkspaceKeyRoute::Unhandled);
    let inactive = WorkspaceKeyContext { active: false, ..browsing };
    assert_eq!(workspace_key_route(inactive, key(KeyCode::Enter)), WorkspaceKeyRoute::Unhandled);
}

#[test]
fn shortcuts_popup_and_completion_take_their_keys() {
    let code = context(false, false, editor(EditorMode::Normal));
    assert_eq!(workspace_key_route(code, ctrl(KeyCode::Char('h'))), WorkspaceKeyRoute::ToggleShortcuts);
    let popup = context(
        false,
        false,
        Some(EditorKeyContext { mode: EditorMode::Normal, completion_visible: false, shortcuts_open: true }),
    );
    assert_eq!(workspace_key_route(popup, key(KeyCode::Esc)), WorkspaceKeyRoute::CloseShortcuts);
    assert_eq!(workspace_key_route(popup, key(KeyCode::Char('j'))), WorkspaceKeyRoute::Swallow);
    let completing = context(
        false,
        false,
        Some(EditorKeyContext { mode: EditorMode::Insert, completion_visible: true, shortcuts_open: false }),
    );
    assert_eq!(
        workspace_key_route(completing, key(KeyCode::Tab)),
        WorkspaceKeyRoute::Completion(CompletionKeyCommand::Apply)
    );
    assert_eq!(
        workspace_key_route(completing, key(KeyCode::Up)),
        WorkspaceKeyRoute::Completion(CompletionKeyCommand::SelectPrevious)
    );
    assert_eq!(
        workspace_key_route(completing, key(KeyCode::Char('a'))),
        WorkspaceKeyRoute::DismissCompletionThenEditor
    );
}

#[test]
fn workspace_tree_refreshes_once_per_change_until_the_scan_finishes() {
    let mut watch: WorkspaceWatch<u8> = WorkspaceWatch::new(2);
    assert_eq!(
        watch.handle_workspace_event(WorkspaceEvent::FilesystemChanged { agent_index: 0 }),
        WorkspaceEffect::RefreshWorkspace(0)
    );
    assert!(watch.is_refreshing(0));
    assert_eq!(
        watch.handle_workspace_event(WorkspaceEvent::FilesystemChanged { agent_index: 0 }),
        WorkspaceEffect::Nothing
    );
    assert_eq!(
        watch.handle_workspace_event(WorkspaceEvent::EntriesLoaded { agent_index: 0, error: None }),
        WorkspaceEffect::ApplyEntries(0)
    );
    assert!(!watch.is_refreshing(0));
    assert_eq!(
        watch.handle_workspace_event(WorkspaceEvent::FilesystemChanged { agent_index: 0 }),
        WorkspaceEffect::RefreshWorkspace(0)
    );
    assert_eq!(
        watch.handle_workspace_event(WorkspaceEvent::FilesystemChanged { agent_index: 5 }),
        WorkspaceEffect::Nothing
    );
    assert_eq!(
        watch.handle_workspace_event(WorkspaceEvent::EntriesLoaded {
            agent_index: 0,
            error: Some("scan failed".to_string()),
        }),
        WorkspaceEffect::ShowWorkspaceError { agent_index: 0, message: "scan failed".to_string() }
    );
}

#[test]
fn a_new_watcher_replaces_and_stops_the_previous_one() {
    let mut watch: WorkspaceWatch<u8> = WorkspaceWatch::new(1);
    assert_eq!(
        watch.handle_workspace_event(WorkspaceEvent::WatcherReady { agent_index: 0, stop: 1 }),
        WorkspaceEffect::Nothing
    );
    assert_eq!(
        watch.handle_workspace_event(WorkspaceEvent::WatcherReady { agent_index: 0, stop: 2 }),
        WorkspaceEffect::StopWatcher(1)
    );
    assert_eq!(watch.watchers.len(), 1);
    assert_eq!(watch.watchers.get(&0), Some(&2));
    assert_eq!(
        watch.handle_workspace_event(WorkspaceEvent::WatcherReady { agent_index: 3, stop: 9 }),
        WorkspaceEffect::StopWatcher(9)
    );
    assert_eq!(
        watch.handle_workspace_event(WorkspaceEvent::WatcherFailed {
            agent_index: 0,
            message: "watch failed".to_string(),
        }),
        WorkspaceEffect::ReportWatcherError { agent_index: 0, message: "watch failed".to_string() }
    );
    assert!(watch.watchers.is_empty());
}

#[test]
fn loaded_files_go_to_the_editor_or_preview() {
    let mut watch: WorkspaceWatch<u8> = WorkspaceWatch::new(1);
    assert_eq!(
        watch.handle_workspace_event(WorkspaceEvent::EditorLoaded { agent_index: 0, loaded: true, error: None }),
        WorkspaceEffect::ApplyEditor(0)
    );
    assert_eq!(
        watch.handle_workspace_event(WorkspaceEvent::EditorLoaded {
            agent_index: 0,
            loaded: false,
            error: Some("unreadable".to_string()),
        }),
        WorkspaceEffect::EditorLoadFailed { agent_index: 0, message: "unreadable".to_string() }
    );
    assert_eq!(
        watch.handle_workspace_event(WorkspaceEvent::PreviewLoaded { agent_index: 0, error: None }),
        WorkspaceEffect::ApplyPreview(0)
    );
    assert_eq!(open_editor_after_scan(Ok(true), false), (true, None));
    assert_eq!(open_editor_after_scan(Ok(true), true), (false, None));
    assert_eq!(open_editor_after_scan(Err("bad".to_string()), false), (false, Some("bad".to_string())));
}

use cmdex::app_state::AppTab;
use cmdex::workspace_events::TabRefresh;

#[test]
fn refreshing_a_tab_scans_the_workspace_or_reads_git_status() {
    let mut watch: WorkspaceWatch<u8> = WorkspaceWatch::new(2);
    assert_eq!(watch.refresh_tab(AppTab::Workspace, Some(1)), TabRefresh::Workspace(1));
    assert!(watch.is_refreshing(1));
    assert_eq!(
        watch.handle_workspace_event(WorkspaceEvent::FilesystemChanged { agent_index: 1 }),
        WorkspaceEffect::Nothing
    );
    assert_eq!(watch.refresh_tab(AppTab::Workspace, Some(1)), TabRefresh::Workspace(1));
    assert_eq!(watch.refresh_tab(AppTab::GitDiff, Some(0)), TabRefresh::GitDiff(0));
    assert!(!watch.is_refreshing(0));
    assert_eq!(watch.refresh_tab(AppTab::Chat, Some(0)), TabRefresh::Nothing);
    assert_eq!(watch.refresh_tab(AppTab::Shell, Some(0)), TabRefresh::Nothing);
    assert_eq!(watch.refresh_tab(AppTab::Workspace, None), TabRefresh::Nothing);
    assert_eq!(watch.refresh_tab(AppTab::GitDiff, Some(7)), TabRefresh::Nothing);
}

use cmdex::geometry::Rect;
use cmdex::layout::{git_diff_layout, workspace_sidebar_layout, WorkspaceSidebarTab};
use cmdex::workspace_input::{git_diff_click, sidebar_click, GitDiffClick, SidebarClick};

#[test]
fn clicks_on_the_git_diff_tab_run_its_buttons() {
    let layout = git_diff_layout(Rect::new(0, 0, 100, 30));
    let on = |r: Rect| (r.x + r.width / 2, r.y + r.height / 2);
    let click = |(c, r): (u16, u16), active| {
        git_diff_click(layout, "Changes (2)", "Staged (0)", active, true, c, r)
    };
    assert_eq!(click(on(layout.stage_button), DiffSection::Changes), GitDiffClick::Run(GitOperation::Stage));
    assert_eq!(click(on(layout.stage_button), DiffSection::Staged), GitDiffClick::Run(GitOperation::Unstage));
    assert_eq!(click(on(layout.discard_button), DiffSection::Changes), GitDiffClick::Run(GitOperation::Discard));
    assert_eq!(click(on(layout.push_button), DiffSection::Changes), GitDiffClick::Push);
    assert_eq!(click(on(layout.pull_button), DiffSection::Changes), GitDiffClick::Pull);
    assert_eq!(click(on(layout.commit_input), DiffSection::Changes), GitDiffClick::Taken);
    assert_eq!(click(on(layout.preview), DiffSection::Changes), GitDiffClick::Taken);
    let tabs = layout.sections;
    assert_eq!(click((tabs.x + 2, tabs.y + 1), DiffSection::Staged), GitDiffClick::ShowSection(DiffSection::Changes));
    assert_eq!(click((tabs.x + 16, tabs.y + 1), DiffSection::Changes), GitDiffClick::ShowSection(DiffSection::Staged));
    assert_eq!(
        git_diff_click(layout, "Changes (2)", "Staged (0)", DiffSection::Changes, false, 80, 26),
        GitDiffClick::Unhandled
    );
}

#[test]
fn clicks_on_the_workspace_sidebar_switch_tabs_and_pick_rows() {
    let files = workspace_sidebar_layout(Rect::new(0, 0, 40, 20), WorkspaceSidebarTab::Files);
    assert_eq!(
        sidebar_click(files, WorkspaceSidebarTab::Files, 0, 10, 2, 1),
        SidebarClick::ShowTab(WorkspaceSidebarTab::Files)
    );
    assert_eq!(
        sidebar_click(files, WorkspaceSidebarTab::Files, 0, 10, 10, 1),
        SidebarClick::ShowTab(WorkspaceSidebarTab::Search)
    );
    let first_row = files.content.y + 1;
    assert_eq!(
        sidebar_click(files, WorkspaceSidebarTab::Files, 0, 10, 5, first_row + 2),
        SidebarClick::SelectFile(2)
    );
    assert_eq!(sidebar_click(files, WorkspaceSidebarTab::Files, 0, 0, 5, first_row + 2), SidebarClick::Nothing);
    let search = workspace_sidebar_layout(Rect::new(0, 0, 40, 20), WorkspaceSidebarTab::Search);
    let input = search.input.unwrap();
    assert_eq!(
        sidebar_click(search, WorkspaceSidebarTab::Search, 0, 3, 5, input.y + 1),
        SidebarClick::Focus
    );
    assert_eq!(
        sidebar_click(search, WorkspaceSidebarTab::Search, 0, 3, 5, search.content.y + 1),
        SidebarClick::OpenSearchResult(0)
    );
}
