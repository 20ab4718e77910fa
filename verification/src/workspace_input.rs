//! Where the keys of the Workspace and Git Diff tabs go: the search box of
//! the sidebar, the file tree, the completion popover, the shortcuts popup
//! or the editor; and which git operation a key of the Git Diff tab runs.
use vstd::prelude::*;
use crate::keys::{KeyCode, KeyPress};
use crate::labels::EditorMode;
use crate::geometry::{clicked_list_row, clicked_row_spec, contains_sat, label_pair_hit, label_pair_spec, rect_contains, LabelHit, Rect};
use crate::layout::{GitDiffLayout, WorkspaceSidebarLayout, WorkspaceSidebarTab};

verus! {

/// What a key does in the search box of the workspace sidebar.
#[derive(Debug, Clone, Copy, PartialEq, Eq, Structural)]
pub enum SearchKeyCommand {
    /// Leave the search for the file tree, with the sidebar focused.
    ShowFiles,
    /// Select the result above.
    SelectPrevious,
    /// Select the result below.
    SelectNext,
    /// Open the selected result in the editor, at its match.
    OpenSelected,
    /// Delete the last character of the query.
    DeleteChar,
    /// Add a character to the query.
    TypeChar(char),
}

/// The search box's keys: `Esc` goes back to the files, `Up`/`Down` move
/// through the results, `Enter` opens one, `Backspace` deletes and other
/// characters typed without `Ctrl` extend the query; the other keys are
/// not the search box's.
pub open spec fn search_key_spec(key: KeyPress) -> Option<SearchKeyCommand> {
    match key.code {
        KeyCode::Esc => Some(SearchKeyCommand::ShowFiles),
        KeyCode::Up => Some(SearchKeyCommand::SelectPrevious),
        KeyCode::Down => Some(SearchKeyCommand::SelectNext),
        KeyCode::Enter => Some(SearchKeyCommand::OpenSelected),
        KeyCode::Backspace => Some(SearchKeyCommand::DeleteChar),
        KeyCode::Char(c) => if key.ctrl {
            None
        } else {
            Some(SearchKeyCommand::TypeChar(c))
        },
        _ => None,
    }
}

/// What a key does in the search box (see `search_key_spec`).
pub fn search_key_command(key: KeyPress) -> (r: Option<SearchKeyCommand>)
    ensures
        r == search_key_spec(key),
{
    match key.code {
        KeyCode::Esc => Some(SearchKeyCommand::ShowFiles),
        KeyCode::Up => Some(SearchKeyCommand::SelectPrevious),
        KeyCode::Down => Some(SearchKeyCommand::SelectNext),
        KeyCode::Enter => Some(SearchKeyCommand::OpenSelected),
        KeyCode::Backspace => Some(SearchKeyCommand::DeleteChar),
        KeyCode::Char(c) => if key.ctrl {
            None
        } else {
            Some(SearchKeyCommand::TypeChar(c))
        },
        _ => None,
    }
}

/// What a key does in the file tree of the sidebar.
#[derive(Debug, Clone, Copy, PartialEq, Eq, Structural)]
pub enum TreeKeyCommand {
    /// Select the entry above (the tree may then ask for the newly
    /// selected file to be opened).
    SelectPrevious,
    /// Select the entry below (likewise).
    SelectNext,
    /// Expand or collapse the selected directory, or open the selected file.
    ToggleOrOpen,
    /// Nothing happens, but the key is taken.
    Stay,
}

/// The file tree's keys while an editor is open: `Up`/`Down` move the
/// selection, `Enter` expands, collapses or opens, `Esc` is taken; the
/// other keys are not the tree's.
pub open spec fn tree_key_spec(key: KeyPress) -> Option<TreeKeyCommand> {
    match key.code {
        KeyCode::Up => Some(TreeKeyCommand::SelectPrevious),
        KeyCode::Down => Some(TreeKeyCommand::SelectNext),
        KeyCode::Enter => Some(TreeKeyCommand::ToggleOrOpen),
        KeyCode::Esc => Some(TreeKeyCommand::Stay),
        _ => None,
    }
}

/// What a key does in the completion popover of the editor.
#[derive(Debug, Clone, Copy, PartialEq, Eq, Structural)]
pub enum CompletionKeyCommand {
    /// Close the popover.
    Dismiss,
    /// Select the suggestion above.
    SelectPrevious,
    /// Select the suggestion below.
    SelectNext,
    /// Insert the selected suggestion.
    Apply,
}

/// The popover's keys: `Esc` closes it, `Up`/`Down` move through the
/// suggestions, `Enter` or `Tab` insert one; any other key closes it and
/// goes on to the editor.
pub open spec fn completion_key_spec(key: KeyPress) -> Option<CompletionKeyCommand> {
    match key.code {
        KeyCode::Esc => Some(CompletionKeyCommand::Dismiss),
        KeyCode::Up => Some(CompletionKeyCommand::SelectPrevious),
        KeyCode::Down => Some(CompletionKeyCommand::SelectNext),
        KeyCode::Enter => Some(CompletionKeyCommand::Apply),
        KeyCode::Tab => Some(CompletionKeyCommand::Apply),
        _ => None,
    }
}

/// What the Workspace tab shows, as far as the keys care.
#[derive(Debug, Clone, Copy, PartialEq, Eq, Structural)]
pub struct WorkspaceKeyContext {
    /// The Workspace tab is shown and an agent is selected.
    pub active: bool,
    /// The sidebar has the keys (else the editor has them).
    pub sidebar_focused: bool,
    /// The sidebar shows the search rather than the file tree.
    pub search_tab: bool,
    /// The open editor, if a file is open.
    pub editor: Option<EditorKeyContext>,
}

/// What the open editor shows, as far as the keys care.
#[derive(Debug, Clone, Copy, PartialEq, Eq, Structural)]
pub struct EditorKeyContext {
    pub mode: EditorMode,
    pub completion_visible: bool,
    pub shortcuts_open: bool,
}

/// Where a key of the Workspace tab goes.
#[derive(Debug, Clone, Copy, PartialEq, Eq, Structural)]
pub enum WorkspaceKeyRoute {
    /// Not the Workspace tab's key.
    Unhandled,
    /// The search box takes it.
    Search(SearchKeyCommand),
    /// With no file open, `Enter` expands or collapses the selected
    /// directory, or opens the selected file.
    OpenSelectedEntry,
    /// `Tab` moves the keys between the sidebar and the editor.
    ToggleFocus,
    /// `Ctrl+H` shows or hides the shortcuts popup (closing the hover and
    /// completion popovers).
    ToggleShortcuts,
    /// `Esc` closes the shortcuts popup.
    CloseShortcuts,
    /// The shortcuts popup is open and takes the key, doing nothing.
    Swallow,
    /// The file tree takes it.
    Tree(TreeKeyCommand),
    /// The completion popover takes it.
    Completion(CompletionKeyCommand),
    /// The completion popover closes, and the editor's key map decides.
    DismissCompletionThenEditor,
    /// The editor's key map decides.
    Editor,
}

/// Where a key of the Workspace tab goes, in the order the checks are
/// made: outside the tab nothing; the search box, when it has the keys,
/// takes its own keys; with no file open only `Enter` is taken; `Tab` in
/// the normal or visual mode with no completion shown moves the focus;
/// `Ctrl+H` toggles the shortcuts popup, which, while open, takes every key
/// (`Esc` closes it); then the file tree, when it has the keys, takes its
/// own; then the completion popover, when shown; the rest goes to the
/// editor.
pub open spec fn workspace_key_spec(ctx: WorkspaceKeyContext, key: KeyPress) -> WorkspaceKeyRoute {
    if !ctx.active {
        WorkspaceKeyRoute::Unhandled
    } else if ctx.sidebar_focused && ctx.search_tab && search_key_spec(key) is Some {
        WorkspaceKeyRoute::Search(search_key_spec(key)->0)
    } else {
        match ctx.editor {
            None => if key.code == KeyCode::Enter {
                WorkspaceKeyRoute::OpenSelectedEntry
            } else {
                WorkspaceKeyRoute::Unhandled
            },
            Some(e) => if key.code == KeyCode::Tab && !e.completion_visible && (e.mode
                == EditorMode::Normal || e.mode == EditorMode::Visual) {
                WorkspaceKeyRoute::ToggleFocus
            } else if key.ctrl && key.code == KeyCode::Char('h') {
                WorkspaceKeyRoute::ToggleShortcuts
            } else if e.shortcuts_open {
                if key.code == KeyCode::Esc {
                    WorkspaceKeyRoute::CloseShortcuts
                } else {
                    WorkspaceKeyRoute::Swallow
                }
            } else if ctx.sidebar_focused {
                match tree_key_spec(key) {
                    Some(t) => WorkspaceKeyRoute::Tree(t),
                    None => WorkspaceKeyRoute::Unhandled,
                }
            } else if e.completion_visible {
                match completion_key_spec(key) {
                    Some(c) => WorkspaceKeyRoute::Completion(c),
                    None => WorkspaceKeyRoute::DismissCompletionThenEditor,
                }
            } else {
                WorkspaceKeyRoute::Editor
            },
        }
    }
}

fn tree_key_command(key: KeyPress) -> (r: Option<TreeKeyCommand>)
    ensures
        r == tree_key_spec(key),
{
    match key.code {
        KeyCode::Up => Some(TreeKeyCommand::SelectPrevious),
        KeyCode::Down => Some(TreeKeyCommand::SelectNext),
        KeyCode::Enter => Some(TreeKeyCommand::ToggleOrOpen),
        KeyCode::Esc => Some(TreeKeyCommand::Stay),
        _ => None,
    }
}

fn completion_key_command(key: KeyPress) -> (r: Option<CompletionKeyCommand>)
    ensures
        r == completion_key_spec(key),
{
    match key.code {
        KeyCode::Esc => Some(CompletionKeyCommand::Dismiss),
        KeyCode::Up => Some(CompletionKeyCommand::SelectPrevious),
        KeyCode::Down => Some(CompletionKeyCommand::SelectNext),
        KeyCode::Enter => Some(CompletionKeyCommand::Apply),
        KeyCode::Tab => Some(CompletionKeyCommand::Apply),
        _ => None,
    }
}

/// Where a key of the Workspace tab goes (see `workspace_key_spec`).
pub fn workspace_key_route(ctx: WorkspaceKeyContext, key: KeyPress) -> (r: WorkspaceKeyRoute)
    ensures
        r == workspace_key_spec(ctx, key),
{
    if !ctx.active {
        return WorkspaceKeyRoute::Unhandled;
    }
    if ctx.sidebar_focused && ctx.search_tab {
        if let Some(command) = search_key_command(key) {
            return WorkspaceKeyRoute::Search(command);
        }
    }
    match ctx.editor {
        None => if key.code == KeyCode::Enter {
            WorkspaceKeyRoute::OpenSelectedEntry
        } else {
            WorkspaceKeyRoute::Unhandled
        },
        Some(e) => {
            let plain_mode = e.mode == EditorMode::Normal || e.mode == EditorMode::Visual;
            if key.code == KeyCode::Tab && !e.completion_visible && plain_mode {
                WorkspaceKeyRoute::ToggleFocus
            } else if key.ctrl && key.code == KeyCode::Char('h') {
                WorkspaceKeyRoute::ToggleShortcuts
            } else if e.shortcuts_open {
                if key.code == KeyCode::Esc {
                    WorkspaceKeyRoute::CloseShortcuts
                } else {
                    WorkspaceKeyRoute::Swallow
                }
            } else if ctx.sidebar_focused {
                match tree_key_command(key) {
                    Some(t) => WorkspaceKeyRoute::Tree(t),
                    None => WorkspaceKeyRoute::Unhandled,
                }
            } else if e.completion_visible {
                match completion_key_command(key) {
                    Some(c) => WorkspaceKeyRoute::Completion(c),
                    None => WorkspaceKeyRoute::DismissCompletionThenEditor,
                }
            } else {
                WorkspaceKeyRoute::Editor
            }
        },
    }
}

/// The two lists of the Git Diff tab.
#[derive(Debug, Clone, Copy, PartialEq, Eq, Structural)]
pub enum DiffSection {
    Changes,
    Staged,
}

/// A git operation of the Git Diff tab.
#[derive(Debug, Clone, Copy, PartialEq, Eq, Structural)]
pub enum GitOperation {
    Stage,
    Unstage,
    Discard,
    Commit,
}

/// What a key does in the Git Diff tab.
#[derive(Debug, Clone, Copy, PartialEq, Eq, Structural)]
pub enum GitDiffKeyCommand {
    /// Run a git operation.
    Run(GitOperation),
    /// Show a list, and refresh the tab.
    ShowSection(DiffSection),
}

/// The Git Diff tab's keys: `Ctrl+S` stages, `Ctrl+U` unstages, `Ctrl+D`
/// discards, `Left` shows the changes and `Right` the staged files (both
/// without `Ctrl`), `Tab` shows the other list, `Enter` commits; the other
/// keys are not the tab's.
pub open spec fn git_diff_key_spec(key: KeyPress, active: DiffSection) -> Option<GitDiffKeyCommand> {
    match key.code {
        KeyCode::Char(c) => if key.ctrl && c == 's' {
            Some(GitDiffKeyCommand::Run(GitOperation::Stage))
        } else if key.ctrl && c == 'u' {
            Some(GitDiffKeyCommand::Run(GitOperation::Unstage))
        } else if key.ctrl && c == 'd' {
            Some(GitDiffKeyCommand::Run(GitOperation::Discard))
        } else {
            None
        },
        KeyCode::Left => if key.ctrl {
            None
        } else {
            Some(GitDiffKeyCommand::ShowSection(DiffSection::Changes))
        },
        KeyCode::Right => if key.ctrl {
            None
        } else {
            Some(GitDiffKeyCommand::ShowSection(DiffSection::Staged))
        },
        KeyCode::Tab => Some(
            GitDiffKeyCommand::ShowSection(
                if active == DiffSection::Changes {
                    DiffSection::Staged
                } else {
                    DiffSection::Changes
                },
            ),
        ),
        KeyCode::Enter => Some(GitDiffKeyCommand::Run(GitOperation::Commit)),
        _ => None,
    }
}

/// What a key does in the Git Diff tab (see `git_diff_key_spec`).
pub fn git_diff_key_command(key: KeyPress, active: DiffSection) -> (r: Option<GitDiffKeyCommand>)
    ensures
        r == git_diff_key_spec(key, active),
{
    match key.code {
        KeyCode::Char(c) => if key.ctrl && c == 's' {
            Some(GitDiffKeyCommand::Run(GitOperation::Stage))
        } else if key.ctrl && c == 'u' {
            Some(GitDiffKeyCommand::Run(GitOperation::Unstage))
        } else if key.ctrl && c == 'd' {
            Some(GitDiffKeyCommand::Run(GitOperation::Discard))
        } else {
            None
        },
        KeyCode::Left => if key.ctrl {
            None
        } else {
            Some(GitDiffKeyCommand::ShowSection(DiffSection::Changes))
        },
        KeyCode::Right => if key.ctrl {
            None
        } else {
            Some(GitDiffKeyCommand::ShowSection(DiffSection::Staged))
        },
        KeyCode::Tab => {
            let next = match active {
                DiffSection::Changes => DiffSection::Staged,
                DiffSection::Staged => DiffSection::Changes,
            };
            Some(GitDiffKeyCommand::ShowSection(next))
        },
        KeyCode::Enter => Some(GitDiffKeyCommand::Run(GitOperation::Commit)),
        _ => None,
    }
}

/// What a git operation says when no agent is selected.
pub open spec fn no_agent_message_spec(op: GitOperation) -> Seq<char> {
    match op {
        GitOperation::Stage => "Add an agent before staging changes."@,
        GitOperation::Unstage => "Add an agent before unstaging changes."@,
        GitOperation::Discard => "Add an agent before discarding changes."@,
        GitOperation::Commit => "Add an agent before committing changes."@,
    }
}

/// What becomes of a git operation of the Git Diff tab.
#[derive(Debug, Clone, PartialEq, Eq)]
pub enum GitOperationStep<M> {
    /// No agent is selected: the application shows this status.
    NoAgent(String),
    /// The operation could not be prepared or begun: the tab shows this error.
    Refused(String),
    /// The operation runs in the background for the agent.
    Run { agent_index: usize, mutation: M },
}

/// What becomes of a git operation: with no agent the status says so;
/// else the prepared operation (`prepared`, the tab's answer for the
/// agent) runs unless preparing it failed or another operation is still
/// running (`begun`), whose errors the tab shows.
pub fn git_operation_step<M>(
    op: GitOperation,
    agent: Option<usize>,
    prepared: Result<M, String>,
    begun: Result<(), String>,
) -> (r: GitOperationStep<M>)
    ensures
        match agent {
            None => r matches GitOperationStep::NoAgent(m) && m@ == no_agent_message_spec(op),
            Some(a) => match prepared {
                Err(e) => r == GitOperationStep::<M>::Refused(e),
                Ok(mutation) => match begun {
                    Err(e) => r == GitOperationStep::<M>::Refused(e),
                    Ok(_) => r == GitOperationStep::Run { agent_index: a, mutation },
                },
            },
        },
{
    match agent {
        None => {
            let message = match op {
                GitOperation::Stage => "Add an agent before staging changes.",
                GitOperation::Unstage => "Add an agent before unstaging changes.",
                GitOperation::Discard => "Add an agent before discarding changes.",
                GitOperation::Commit => "Add an agent before committing changes.",
            };
            GitOperationStep::NoAgent(message.to_string())
        },
        Some(agent_index) => match prepared {
            Err(e) => GitOperationStep::Refused(e),
            Ok(mutation) => match begun {
                Err(e) => GitOperationStep::Refused(e),
                Ok(_) => GitOperationStep::Run { agent_index, mutation },
            },
        },
    }
}

/// What a click on the Git Diff tab does.
#[derive(Debug, Clone, Copy, PartialEq, Eq, Structural)]
pub enum GitDiffClick {
    /// Not the tab's click (or no agent is selected).
    Unhandled,
    /// Show a list, and refresh the tab.
    ShowSection(DiffSection),
    /// Run a git operation.
    Run(GitOperation),
    /// Push to the remote.
    Push,
    /// Pull from the remote.
    Pull,
    /// The click falls on the commit input or the preview: taken, nothing
    /// else happens.
    Taken,
}

/// Where a click on the Git Diff tab laid out as `layout` goes, in the
/// order the checks are made: the section tabs (labelled `changes_label`
/// and `staged_label`), the push button, the stage button (which unstages
/// on the staged list), the discard button, the pull button, then the
/// commit input and the preview.
pub open spec fn git_diff_click_spec(
    layout: GitDiffLayout,
    changes_label: Seq<char>,
    staged_label: Seq<char>,
    active: DiffSection,
    has_agent: bool,
    column: u16,
    row: u16,
) -> GitDiffClick {
    let c = column as int;
    let r = row as int;
    if !has_agent {
        GitDiffClick::Unhandled
    } else {
        match label_pair_spec(layout.sections, changes_label.len() as u16, staged_label.len() as u16, column, row) {
            Some(LabelHit::First) => GitDiffClick::ShowSection(DiffSection::Changes),
            Some(LabelHit::Second) => GitDiffClick::ShowSection(DiffSection::Staged),
            None => if contains_sat(layout.push_button, c, r) {
                GitDiffClick::Push
            } else if contains_sat(layout.stage_button, c, r) {
                GitDiffClick::Run(
                    if active == DiffSection::Changes {
                        GitOperation::Stage
                    } else {
                        GitOperation::Unstage
                    },
                )
            } else if contains_sat(layout.discard_button, c, r) {
                GitDiffClick::Run(GitOperation::Discard)
            } else if contains_sat(layout.pull_button, c, r) {
                GitDiffClick::Pull
            } else if contains_sat(layout.commit_input, c, r) || contains_sat(layout.preview, c, r) {
                GitDiffClick::Taken
            } else {
                GitDiffClick::Unhandled
            },
        }
    }
}

/// Where a click on the Git Diff tab goes (see `git_diff_click_spec`).
pub fn git_diff_click(
    layout: GitDiffLayout,
    changes_label: &str,
    staged_label: &str,
    active: DiffSection,
    has_agent: bool,
    column: u16,
    row: u16,
) -> (r: GitDiffClick)
    ensures
        r == git_diff_click_spec(layout, changes_label@, staged_label@, active, has_agent, column, row),
{
    if !has_agent {
        return GitDiffClick::Unhandled;
    }
    match label_pair_hit(layout.sections, changes_label, staged_label, column, row) {
        Some(LabelHit::First) => return GitDiffClick::ShowSection(DiffSection::Changes),
        Some(LabelHit::Second) => return GitDiffClick::ShowSection(DiffSection::Staged),
        None => {},
    }
    if rect_contains(layout.push_button, column, row) {
        GitDiffClick::Push
    } else if rect_contains(layout.stage_button, column, row) {
        match active {
            DiffSection::Changes => GitDiffClick::Run(GitOperation::Stage),
            DiffSection::Staged => GitDiffClick::Run(GitOperation::Unstage),
        }
    } else if rect_contains(layout.discard_button, column, row) {
        GitDiffClick::Run(GitOperation::Discard)
    } else if rect_contains(layout.pull_button, column, row) {
        GitDiffClick::Pull
    } else if rect_contains(layout.commit_input, column, row) || rect_contains(layout.preview, column, row) {
        GitDiffClick::Taken
    } else {
        GitDiffClick::Unhandled
    }
}

/// What a click on the workspace sidebar does.
#[derive(Debug, Clone, Copy, PartialEq, Eq, Structural)]
pub enum SidebarClick {
    /// Nothing happens.
    Nothing,
    /// Show this tab of the sidebar, with the sidebar focused.
    ShowTab(WorkspaceSidebarTab),
    /// Focus the sidebar (a click on the search input).
    Focus,
    /// Focus the sidebar and select this row of the file tree.
    SelectFile(usize),
    /// Focus the sidebar, select this search result and open it.
    OpenSearchResult(usize),
}

/// Where a click on the workspace sidebar laid out as `layout` goes: its
/// tab labels (`Files`, `Search`) switch the tab; on the files tab a click
/// on the list selects the row under it (of `total` rows, scrolled so that
/// `selected` shows); on the search tab a click on the input focuses the
/// sidebar and one on the results selects and opens the result under it.
pub open spec fn sidebar_click_spec(
    layout: WorkspaceSidebarLayout,
    tab: WorkspaceSidebarTab,
    selected: usize,
    total: usize,
    column: u16,
    row: u16,
) -> SidebarClick {
    match label_pair_spec(layout.tabs, 5, 6, column, row) {
        Some(LabelHit::First) => SidebarClick::ShowTab(WorkspaceSidebarTab::Files),
        Some(LabelHit::Second) => SidebarClick::ShowTab(WorkspaceSidebarTab::Search),
        None => if tab == WorkspaceSidebarTab::Search && (layout.input matches Some(i) && contains_sat(
            i,
            column as int,
            row as int,
        )) {
            SidebarClick::Focus
        } else {
            match clicked_row_spec(layout.content, column, row, selected, total) {
                Some(k) => if tab == WorkspaceSidebarTab::Files {
                    SidebarClick::SelectFile(k as usize)
                } else {
                    SidebarClick::OpenSearchResult(k as usize)
                },
                None => SidebarClick::Nothing,
            }
        },
    }
}

/// Where a click on the workspace sidebar goes (see `sidebar_click_spec`).
pub fn sidebar_click(
    layout: WorkspaceSidebarLayout,
    tab: WorkspaceSidebarTab,
    selected: usize,
    total: usize,
    column: u16,
    row: u16,
) -> (r: SidebarClick)
    requires
        layout.content.wf(),
    ensures
        r == sidebar_click_spec(layout, tab, selected, total, column, row),
{
    proof {
        reveal_strlit("Files");
        reveal_strlit("Search");
    }
    match label_pair_hit(layout.tabs, "Files", "Search", column, row) {
        Some(LabelHit::First) => return SidebarClick::ShowTab(WorkspaceSidebarTab::Files),
        Some(LabelHit::Second) => return SidebarClick::ShowTab(WorkspaceSidebarTab::Search),
        None => {},
    }
    if tab == WorkspaceSidebarTab::Search {
        if let Some(input) = layout.input {
            if rect_contains(input, column, row) {
                return SidebarClick::Focus;
            }
        }
    }
    match clicked_list_row(layout.content, column, row, selected, total) {
        Some(k) => if tab == WorkspaceSidebarTab::Files {
            SidebarClick::SelectFile(k)
        } else {
            SidebarClick::OpenSearchResult(k)
        },
        None => SidebarClick::Nothing,
    }
}

} // verus!
