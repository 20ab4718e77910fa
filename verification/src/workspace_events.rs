//! The file-system watchers of the agents' workspaces and the refreshes of
//! their file trees: which watcher stays, when a refresh is started, and
//! what a finished scan or load does.
use vstd::prelude::*;
use std::collections::{HashMap, HashSet};
use crate::app_state::AppTab;

verus! {

broadcast use vstd::std_specs::hash::group_hash_axioms;

/// The watchers and refreshes of the workspaces of `agent_count` agents:
/// for each agent at most one watcher (its stop handle `W`) and at most
/// one refresh of its file tree in flight.
#[derive(Debug)]
pub struct WorkspaceWatch<W> {
    pub agent_count: usize,
    pub watchers: HashMap<usize, W>,
    pub refreshing: HashSet<usize>,
}

/// What the workspace side reports.
#[derive(Debug)]
pub enum WorkspaceEvent<W> {
    /// A watcher of the agent's workspace runs; `stop` stops it.
    WatcherReady { agent_index: usize, stop: W },
    /// The watcher could not be started.
    WatcherFailed { agent_index: usize, message: String },
    /// The watcher reported an error.
    WatcherError { agent_index: usize, message: String },
    /// Something changed in the agent's workspace.
    FilesystemChanged { agent_index: usize },
    /// A scan of the agent's file tree finished, or failed with `error`.
    EntriesLoaded { agent_index: usize, error: Option<String> },
    /// A file was read for the editor (`loaded`), or failed with `error`.
    EditorLoaded { agent_index: usize, loaded: bool, error: Option<String> },
    /// A file was read for the preview, or failed with `error`.
    PreviewLoaded { agent_index: usize, error: Option<String> },
}

/// What the application does after a workspace event.
#[derive(Debug, PartialEq, Eq)]
pub enum WorkspaceEffect<W> {
    Nothing,
    /// Stop this watcher.
    StopWatcher(W),
    /// Show the error in the agent's workspace, when the agent exists, and
    /// as the application status.
    ReportWatcherError { agent_index: usize, message: String },
    /// Scan the agent's file tree again.
    RefreshWorkspace(usize),
    /// Show the error in the agent's workspace.
    ShowWorkspaceError { agent_index: usize, message: String },
    /// Take the scanned entries into the agent's file tree (opening the
    /// selected file when the tree changed and no file is open).
    ApplyEntries(usize),
    /// Open the loaded file in the agent's editor.
    ApplyEditor(usize),
    /// The editor's load is over: show the error in the agent's workspace.
    EditorLoadFailed { agent_index: usize, message: String },
    /// Show the loaded file in the agent's preview.
    ApplyPreview(usize),
}

/// What showing a tab again (or `F5`) refreshes.
#[derive(Debug, Clone, Copy, PartialEq, Eq, Structural)]
pub enum TabRefresh {
    Nothing,
    /// Scan the agent's file tree.
    Workspace(usize),
    /// Read the agent's git status again.
    GitDiff(usize),
}

/// A file-system change starts a refresh of an existing agent's file tree
/// only when none is in flight for it.
pub open spec fn starts_refresh(refreshing: Set<usize>, agent_count: nat, agent: usize) -> bool {
    agent < agent_count && !refreshing.contains(agent)
}

impl<W> WorkspaceWatch<W> {
    /// The agents whose file tree is being refreshed.
    pub open spec fn in_flight(&self) -> Set<usize> {
        self.refreshing@
    }

    /// The agents with a watcher, and each one's stop handle.
    pub open spec fn watched(&self) -> Map<usize, W> {
        self.watchers@
    }

    /// No watcher and no refresh, for `agent_count` agents.
    pub fn new(agent_count: usize) -> (r: Self)
        ensures
            r.agent_count == agent_count,
            r.watched() == Map::<usize, W>::empty(),
            r.in_flight() == Set::<usize>::empty(),
    {
        WorkspaceWatch { agent_count, watchers: HashMap::new(), refreshing: HashSet::new() }
    }

    /// Whether a refresh of the agent's file tree is in flight.
    pub fn is_refreshing(&self, agent: usize) -> (r: bool)
        ensures
            r == self.in_flight().contains(agent),
    {
        self.refreshing.contains(&agent)
    }

    /// Starts a refresh of the agent's file tree unless one is in flight
    /// or there is no such agent; says whether it did.
    pub fn request_refresh(&mut self, agent: usize) -> (r: bool)
        ensures
            r == starts_refresh(old(self).in_flight(), old(self).agent_count as nat, agent),
            final(self).in_flight() == if r {
                old(self).in_flight().insert(agent)
            } else {
                old(self).in_flight()
            },
            final(self).agent_count == old(self).agent_count,
            final(self).watched() == old(self).watched(),
    {
        if agent >= self.agent_count || self.refreshing.contains(&agent) {
            return false;
        }
        self.refreshing.insert(agent);
        true
    }

    /// What refreshing the shown tab does: the Workspace and Git Diff tabs
    /// refresh the selected agent's file tree or git status (the file tree
    /// counting as being refreshed from then on); the other tabs, or no
    /// selected agent, refresh nothing.
    pub fn refresh_tab(&mut self, tab: AppTab, current_agent: Option<usize>) -> (r: TabRefresh)
        ensures
            final(self).agent_count == old(self).agent_count,
            final(self).watched() == old(self).watched(),
            r == (match current_agent {
                Some(a) => if a >= old(self).agent_count {
                    TabRefresh::Nothing
                } else if tab == AppTab::Workspace {
                    TabRefresh::Workspace(a)
                } else if tab == AppTab::GitDiff {
                    TabRefresh::GitDiff(a)
                } else {
                    TabRefresh::Nothing
                },
                None => TabRefresh::Nothing,
            }),
            final(self).in_flight() == (if r is Workspace {
                old(self).in_flight().insert(r->Workspace_0)
            } else {
                old(self).in_flight()
            }),
    {
        let agent = match current_agent {
            Some(a) => a,
            None => return TabRefresh::Nothing,
        };
        if agent >= self.agent_count {
            return TabRefresh::Nothing;
        }
        match tab {
            AppTab::Workspace => {
                if self.is_refreshing(agent) {
                    assert(old(self).in_flight().insert(agent) =~= old(self).in_flight());
                } else {
                    let _ = self.request_refresh(agent);
                }
                TabRefresh::Workspace(agent)
            },
            AppTab::GitDiff => TabRefresh::GitDiff(agent),
            _ => TabRefresh::Nothing,
        }
    }

    /// What a workspace event does: a watcher of an unknown agent is
    /// stopped, and a new watcher replaces (and stops) the agent's
    /// previous one; a failed watcher is forgotten and, like a watcher's
    /// error, reported; a file-system change starts a refresh only when
    /// none is in flight for the agent; a finished scan ends the refresh in
    /// flight and, for an existing agent, shows its error or takes its
    /// entries; a loaded file goes to the editor or the preview, and a
    /// failed load shows its error.
    pub fn handle_workspace_event(&mut self, event: WorkspaceEvent<W>) -> (r: WorkspaceEffect<W>)
        ensures
            final(self).agent_count == old(self).agent_count,
            match event {
                WorkspaceEvent::WatcherReady { agent_index, stop } => {
                    &&& final(self).in_flight() == old(self).in_flight()
                    &&& if agent_index >= old(self).agent_count {
                        &&& r == WorkspaceEffect::StopWatcher(stop)
                        &&& final(self).watched() == old(self).watched()
                    } else {
                        &&& final(self).watched() == old(self).watched().insert(agent_index, stop)
                        &&& r == if old(self).watched().contains_key(agent_index) {
                            WorkspaceEffect::StopWatcher(old(self).watched()[agent_index])
                        } else {
                            WorkspaceEffect::Nothing
                        }
                    }
                },
                WorkspaceEvent::WatcherFailed { agent_index, message } => {
                    &&& r == WorkspaceEffect::<W>::ReportWatcherError { agent_index, message }
                    &&& final(self).watched() == old(self).watched().remove(agent_index)
                    &&& final(self).in_flight() == old(self).in_flight()
                },
                WorkspaceEvent::WatcherError { agent_index, message } => {
                    &&& r == WorkspaceEffect::<W>::ReportWatcherError { agent_index, message }
                    &&& final(self).watched() == old(self).watched()
                    &&& final(self).in_flight() == old(self).in_flight()
                },
                WorkspaceEvent::FilesystemChanged { agent_index } => {
                    let starts = starts_refresh(
                        old(self).in_flight(),
                        old(self).agent_count as nat,
                        agent_index,
                    );
                    &&& r == if starts {
                        WorkspaceEffect::<W>::RefreshWorkspace(agent_index)
                    } else {
                        WorkspaceEffect::<W>::Nothing
                    }
                    &&& final(self).in_flight() == if starts {
                        old(self).in_flight().insert(agent_index)
                    } else {
                        old(self).in_flight()
                    }
                    &&& final(self).watched() == old(self).watched()
                },
                WorkspaceEvent::EntriesLoaded { agent_index, error } => {
                    &&& final(self).in_flight() == old(self).in_flight().remove(agent_index)
                    &&& final(self).watched() == old(self).watched()
                    &&& r == if agent_index >= old(self).agent_count {
                        WorkspaceEffect::<W>::Nothing
                    } else {
                        match error {
                            Some(message) => WorkspaceEffect::<W>::ShowWorkspaceError {
                                agent_index,
                                message,
                            },
                            None => WorkspaceEffect::<W>::ApplyEntries(agent_index),
                        }
                    }
                },
                WorkspaceEvent::EditorLoaded { agent_index, loaded, error } => {
                    &&& final(self).in_flight() == old(self).in_flight()
                    &&& final(self).watched() == old(self).watched()
                    &&& r == if agent_index >= old(self).agent_count {
                        WorkspaceEffect::<W>::Nothing
                    } else {
                        match error {
                            Some(message) => WorkspaceEffect::<W>::EditorLoadFailed {
                                agent_index,
                                message,
                            },
                            None => if loaded {
                                WorkspaceEffect::<W>::ApplyEditor(agent_index)
                            } else {
                                WorkspaceEffect::<W>::Nothing
                            },
                        }
                    }
                },
                WorkspaceEvent::PreviewLoaded { agent_index, error } => {
                    &&& final(self).in_flight() == old(self).in_flight()
                    &&& final(self).watched() == old(self).watched()
                    &&& r == if agent_index >= old(self).agent_count {
                        WorkspaceEffect::<W>::Nothing
                    } else {
                        match error {
                            Some(message) => WorkspaceEffect::<W>::ShowWorkspaceError {
                                agent_index,
                                message,
                            },
                            None => WorkspaceEffect::<W>::ApplyPreview(agent_index),
                        }
                    }
                },
            },
    {
        match event {
            WorkspaceEvent::WatcherReady { agent_index, stop } => {
                if agent_index >= self.agent_count {
                    return WorkspaceEffect::StopWatcher(stop);
                }
                match self.watchers.insert(agent_index, stop) {
                    Some(previous) => WorkspaceEffect::StopWatcher(previous),
                    None => WorkspaceEffect::Nothing,
                }
            },
            WorkspaceEvent::WatcherFailed { agent_index, message } => {
                let _ = self.watchers.remove(&agent_index);
                WorkspaceEffect::ReportWatcherError { agent_index, message }
            },
            WorkspaceEvent::WatcherError { agent_index, message } => {
                WorkspaceEffect::ReportWatcherError { agent_index, message }
            },
            WorkspaceEvent::FilesystemChanged { agent_index } => {
                if self.request_refresh(agent_index) {
                    WorkspaceEffect::RefreshWorkspace(agent_index)
                } else {
                    WorkspaceEffect::Nothing
                }
            },
            WorkspaceEvent::EntriesLoaded { agent_index, error } => {
                let _ = self.refreshing.remove(&agent_index);
                if agent_index >= self.agent_count {
                    return WorkspaceEffect::Nothing;
                }
                match error {
                    Some(message) => WorkspaceEffect::ShowWorkspaceError { agent_index, message },
                    None => WorkspaceEffect::ApplyEntries(agent_index),
                }
            },
            WorkspaceEvent::EditorLoaded { agent_index, loaded, error } => {
                if agent_index >= self.agent_count {
                    return WorkspaceEffect::Nothing;
                }
                match error {
                    Some(message) => WorkspaceEffect::EditorLoadFailed { agent_index, message },
                    None => if loaded {
                        WorkspaceEffect::ApplyEditor(agent_index)
                    } else {
                        WorkspaceEffect::Nothing
                    },
                }
            },
            WorkspaceEvent::PreviewLoaded { agent_index, error } => {
                if agent_index >= self.agent_count {
                    return WorkspaceEffect::Nothing;
                }
                match error {
                    Some(message) => WorkspaceEffect::ShowWorkspaceError { agent_index, message },
                    None => WorkspaceEffect::ApplyPreview(agent_index),
                }
            },
        }
    }
}

/// Whether a scan that finished opens the selected file: when it changed
/// the tree and no file is open; an error in taking the entries is shown
/// instead.
pub fn open_editor_after_scan(applied: Result<bool, String>, editor_open: bool) -> (r: (
    bool,
    Option<String>,
))
    ensures
        r == (match applied {
            Ok(changed) => (changed && !editor_open, None::<String>),
            Err(e) => (false, Some(e)),
        }),
{
    match applied {
        Ok(changed) => (changed && !editor_open, None),
        Err(e) => (false, Some(e)),
    }
}

/// At most one refresh of a file tree is in flight: a second file-system
/// change before the first scan finishes starts nothing, and once the scan
/// has finished the next change starts a refresh again.
pub proof fn law_one_refresh_in_flight(refreshing: Set<usize>, agent_count: nat, agent: usize)
    requires
        agent < agent_count,
        !refreshing.contains(agent),
    ensures
        starts_refresh(refreshing, agent_count, agent),
        !starts_refresh(refreshing.insert(agent), agent_count, agent),
        starts_refresh(refreshing.insert(agent).remove(agent), agent_count, agent),
{
}

} // verus!
