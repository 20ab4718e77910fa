//! The navigation state of the application: the tab shown, the agent
//! selected in the agents sidebar, the form that adds an agent and the
//! model picker.
use vstd::prelude::*;
use crate::app_state::AppTab;
use crate::chat_settings::{format_model_list_message, model_list_message_spec};
use crate::codex::ModelInfo;
use crate::session::{fresh_message, ChatLog, MessageRole};
use crate::chat::opt_view;
use crate::geometry::{inner_of, inner_rect, list_offset, rect_contains, Rect};
use crate::model_picker::{
    model_picker_step, open_model_picker, opt_string, picker_step, initial_model_index,
    ModelPickerAction, ModelPickerState, ModelPickerView, PickerKey, PickerNotice,
};
use crate::text::{pop_char, push_char};

verus! {

/// The next tab to the right (`Right`), wrapping around.
pub open spec fn next_tab_spec(tab: AppTab) -> AppTab {
    match tab {
        AppTab::Chat => AppTab::Workspace,
        AppTab::Workspace => AppTab::Shell,
        AppTab::Shell => AppTab::GitDiff,
        AppTab::GitDiff => AppTab::Chat,
    }
}

/// The next tab to the left (`Left`), wrapping around.
pub open spec fn previous_tab_spec(tab: AppTab) -> AppTab {
    match tab {
        AppTab::Chat => AppTab::GitDiff,
        AppTab::Workspace => AppTab::Chat,
        AppTab::Shell => AppTab::Workspace,
        AppTab::GitDiff => AppTab::Shell,
    }
}

/// The tab that `Right` shows.
pub fn next_tab(tab: AppTab) -> (r: AppTab)
    ensures
        r == next_tab_spec(tab),
{
    match tab {
        AppTab::Chat => AppTab::Workspace,
        AppTab::Workspace => AppTab::Shell,
        AppTab::Shell => AppTab::GitDiff,
        AppTab::GitDiff => AppTab::Chat,
    }
}

/// The tab that `Left` shows.
pub fn previous_tab(tab: AppTab) -> (r: AppTab)
    ensures
        r == previous_tab_spec(tab),
{
    match tab {
        AppTab::Chat => AppTab::GitDiff,
        AppTab::Workspace => AppTab::Chat,
        AppTab::Shell => AppTab::Workspace,
        AppTab::GitDiff => AppTab::Shell,
    }
}

/// `Left` undoes `Right` and the other way round, and four steps
/// in one direction come back to the tab they started from.
pub proof fn law_tab_cycle(tab: AppTab)
    ensures
        previous_tab_spec(next_tab_spec(tab)) == tab,
        next_tab_spec(previous_tab_spec(tab)) == tab,
        next_tab_spec(next_tab_spec(next_tab_spec(next_tab_spec(tab)))) == tab,
        next_tab_spec(tab) != tab,
{
}

/// The field of the add-agent form that takes the typed characters.
#[derive(Debug, Clone, Copy, PartialEq, Eq, Structural)]
pub enum AddAgentField {
    Name,
    Workspace,
}

/// The form that adds an agent: its name and workspace, the field being
/// edited and the error of the last attempt to save it.
#[derive(Debug, Clone)]
pub struct AddAgentForm {
    pub name: String,
    pub workspace: String,
    pub active_field: AddAgentField,
    pub error: Option<String>,
}

impl AddAgentForm {
    /// An empty form whose workspace starts at `workspace` (the application
    /// passes the current directory).
    pub fn new(workspace: String) -> (r: AddAgentForm)
        ensures
            r.name@ == Seq::<char>::empty(),
            r.workspace@ == workspace@,
            r.active_field == AddAgentField::Name,
            r.error is None,
    {
        AddAgentForm { name: String::new(), workspace, active_field: AddAgentField::Name, error: None }
    }

    /// `Tab`: the other field takes the typed characters.
    pub fn switch_field(&mut self)
        ensures
            final(self).active_field != old(self).active_field,
            final(self).name == old(self).name,
            final(self).workspace == old(self).workspace,
            final(self).error == old(self).error,
    {
        self.active_field = match self.active_field {
            AddAgentField::Name => AddAgentField::Workspace,
            AddAgentField::Workspace => AddAgentField::Name,
        };
    }

    /// A typed character: appended to the active field; the error goes.
    pub fn push_char(&mut self, c: char)
        ensures
            final(self).active_field == old(self).active_field,
            final(self).error is None,
            old(self).active_field == AddAgentField::Name ==> final(self).name@ == old(self).name@.push(c)
                && final(self).workspace@ == old(self).workspace@,
            old(self).active_field == AddAgentField::Workspace ==> final(self).workspace@ == old(
                self,
            ).workspace@.push(c) && final(self).name@ == old(self).name@,
    {
        self.error = None;
        match self.active_field {
            AddAgentField::Name => push_char(&mut self.name, c),
            AddAgentField::Workspace => push_char(&mut self.workspace, c),
        }
    }

    /// `Backspace`: the last character of the active field goes.
    pub fn pop_char(&mut self)
        ensures
            final(self).active_field == old(self).active_field,
            final(self).error == old(self).error,
            old(self).active_field == AddAgentField::Name ==> final(self).name@ == drop_last_char(
                old(self).name@,
            ) && final(self).workspace@ == old(self).workspace@,
            old(self).active_field == AddAgentField::Workspace ==> final(self).workspace@
                == drop_last_char(old(self).workspace@) && final(self).name@ == old(self).name@,
    {
        match self.active_field {
            AddAgentField::Name => {
                pop_char(&mut self.name);
            },
            AddAgentField::Workspace => {
                pop_char(&mut self.workspace);
            },
        }
    }
}

/// A text without its last character (an empty text stays empty).
pub open spec fn drop_last_char(s: Seq<char>) -> Seq<char> {
    if s.len() == 0 {
        s
    } else {
        s.drop_last()
    }
}

/// The navigation state of the application.
#[derive(Debug)]
pub struct AppShell {
    pub current_tab: AppTab,
    pub current_agent: Option<usize>,
    /// The selected row of the agents sidebar: 0 is `+ Add agent`, `i + 1`
    /// is agent `i`.
    pub chat_sidebar_index: usize,
    pub model_picker: Option<ModelPickerState>,
    pub add_form: AddAgentForm,
}

impl AppShell {
    /// The selections point at one of `agent_count` agents, and an open
    /// model picker is well formed.
    pub open spec fn wf(&self, agent_count: nat) -> bool {
        &&& self.chat_sidebar_index <= agent_count
        &&& self.current_agent matches Some(i) ==> i < agent_count
        &&& self.model_picker matches Some(p) ==> p.wf()
    }

    /// The shell of an application with `agent_count` agents: the chat tab,
    /// the first agent selected if there is one, the add-agent form empty.
    pub fn new(agent_count: usize, workspace: String) -> (r: AppShell)
        ensures
            r.wf(agent_count as nat),
            r.current_tab == AppTab::Chat,
            r.current_agent == (if agent_count == 0 { None } else { Some(0usize) }),
            r.chat_sidebar_index == (if agent_count == 0 { 0usize } else { 1usize }),
            r.model_picker is None,
            r.add_form.name@ == Seq::<char>::empty(),
            r.add_form.workspace@ == workspace@,
            r.add_form.active_field == AddAgentField::Name,
            r.add_form.error is None,
    {
        let current_agent = if agent_count == 0 { None } else { Some(0) };
        let chat_sidebar_index = if agent_count == 0 { 0 } else { 1 };
        AppShell {
            current_tab: AppTab::Chat,
            current_agent,
            chat_sidebar_index,
            model_picker: None,
            add_form: AddAgentForm::new(workspace),
        }
    }

    /// Whether the chat tab shows the add-agent form.
    pub fn add_agent_selected(&self) -> (r: bool)
        ensures
            r == (self.current_tab == AppTab::Chat && self.chat_sidebar_index == 0),
    {
        self.current_tab == AppTab::Chat && self.chat_sidebar_index == 0
    }

    /// Shows `tab`. Changing the tab closes the model picker; the result
    /// says whether the tab changed (the new tab is then refreshed).
    pub fn set_tab(&mut self, tab: AppTab) -> (changed: bool)
        ensures
            changed == (old(self).current_tab != tab),
            final(self).current_tab == tab,
            changed ==> final(self).model_picker is None,
            !changed ==> final(self).model_picker == old(self).model_picker,
            final(self).current_agent == old(self).current_agent,
            final(self).chat_sidebar_index == old(self).chat_sidebar_index,
            final(self).add_form == old(self).add_form,
    {
        if self.current_tab != tab {
            self.model_picker = None;
            self.current_tab = tab;
            true
        } else {
            false
        }
    }

    /// Selects row `index` of the agents sidebar, clamped to the last row.
    /// A row of an agent makes that agent current and clears the form's
    /// error; the `+ Add agent` row keeps the current agent.
    pub fn select_agent_index(&mut self, index: usize, agent_count: usize)
        requires
            old(self).wf(agent_count as nat),
        ensures
            final(self).wf(agent_count as nat),
            final(self).chat_sidebar_index == (if index < agent_count { index } else { agent_count }),
            final(self).chat_sidebar_index > 0 ==> final(self).current_agent == Some(
                (final(self).chat_sidebar_index - 1) as usize,
            ) && final(self).add_form.error is None,
            final(self).chat_sidebar_index == 0 ==> final(self).current_agent == old(
                self,
            ).current_agent && final(self).add_form.error == old(self).add_form.error,
            final(self).current_tab == old(self).current_tab,
            final(self).model_picker == old(self).model_picker,
            final(self).add_form.name == old(self).add_form.name,
            final(self).add_form.workspace == old(self).add_form.workspace,
            final(self).add_form.active_field == old(self).add_form.active_field,
    {
        self.chat_sidebar_index = if index < agent_count { index } else { agent_count };
        if self.chat_sidebar_index > 0 {
            self.current_agent = Some(self.chat_sidebar_index - 1);
            self.add_form.error = None;
        }
    }

    /// `Up` in the chat tab: the row above in the agents sidebar.
    pub fn move_agent_selection_up(&mut self, agent_count: usize)
        requires
            old(self).wf(agent_count as nat),
        ensures
            final(self).wf(agent_count as nat),
            final(self).chat_sidebar_index == (if old(self).chat_sidebar_index > 0 {
                old(self).chat_sidebar_index - 1
            } else {
                0
            }),
            final(self).chat_sidebar_index > 0 ==> final(self).current_agent == Some(
                (final(self).chat_sidebar_index - 1) as usize,
            ),
            final(self).chat_sidebar_index == 0 ==> final(self).current_agent == old(
                self,
            ).current_agent,
    {
        let index = if self.chat_sidebar_index > 0 { self.chat_sidebar_index - 1 } else { 0 };
        self.select_agent_index(index, agent_count);
    }

    /// `Down` in the chat tab: the row below in the agents sidebar, up to
    /// the last agent.
    pub fn move_agent_selection_down(&mut self, agent_count: usize)
        requires
            old(self).wf(agent_count as nat),
        ensures
            final(self).wf(agent_count as nat),
            final(self).chat_sidebar_index == (if old(self).chat_sidebar_index < agent_count {
                old(self).chat_sidebar_index + 1
            } else {
                agent_count as int
            }),
            final(self).chat_sidebar_index > 0 ==> final(self).current_agent == Some(
                (final(self).chat_sidebar_index - 1) as usize,
            ),
            final(self).chat_sidebar_index == 0 ==> final(self).current_agent == old(
                self,
            ).current_agent,
    {
        let index = if self.chat_sidebar_index < agent_count {
            self.chat_sidebar_index + 1
        } else {
            agent_count
        };
        self.select_agent_index(index, agent_count);
    }

    /// A click on the agents sidebar list `sidebar_list`: the row under the
    /// pointer is selected, counting the rows the list has scrolled by; a
    /// click outside the list's inside changes nothing.
    pub fn handle_agents_sidebar_click(&mut self, column: u16, row: u16, sidebar_list: Rect, agent_count: usize)
        requires
            old(self).wf(agent_count as nat),
            agent_count < usize::MAX,
            sidebar_list.wf(),
        ensures
            final(self).wf(agent_count as nat),
            ({
                let inner = inner_of(sidebar_list);
                let total = agent_count + 1;
                let visible = inner.height as int;
                let offset = if total <= visible || visible == 0 {
                    0
                } else if old(self).chat_sidebar_index + 1 >= visible {
                    old(self).chat_sidebar_index + 1 - visible
                } else {
                    0
                };
                let index = offset + (row - inner.y);
                if inner.height == 0 || !inner.contains_cell(column as int, row as int) {
                    *final(self) == *old(self)
                } else {
                    final(self).chat_sidebar_index == (if index < agent_count {
                        index
                    } else {
                        agent_count as int
                    })
                }
            }),
            final(self).chat_sidebar_index > 0 && final(self).chat_sidebar_index != old(
                self,
            ).chat_sidebar_index ==> final(self).current_agent == Some(
                (final(self).chat_sidebar_index - 1) as usize,
            ),
    {
        let inner = inner_rect(sidebar_list);
        if inner.height == 0 || !rect_contains(inner, column, row) {
            return;
        }
        let visible_row = (row - inner.y) as usize;
        let total = agent_count + 1;
        let offset = list_offset(self.chat_sidebar_index, total, inner.height as usize);
        let index = if offset + visible_row < total - 1 { offset + visible_row } else { total - 1 };
        self.select_agent_index(index, agent_count);
    }

    /// `Esc` on the add-agent form: the form is emptied (its workspace back
    /// at `workspace`) and, when there are agents, the sidebar goes back to
    /// the current agent's row.
    pub fn cancel_add_agent(&mut self, workspace: String, agent_count: usize)
        requires
            old(self).wf(agent_count as nat),
        ensures
            final(self).wf(agent_count as nat),
            final(self).add_form.name@ == Seq::<char>::empty(),
            final(self).add_form.workspace@ == workspace@,
            final(self).add_form.active_field == AddAgentField::Name,
            final(self).add_form.error is None,
            final(self).chat_sidebar_index == (if agent_count == 0 {
                old(self).chat_sidebar_index as int
            } else {
                match old(self).current_agent {
                    Some(i) => i + 1,
                    None => 0,
                }
            }),
            final(self).current_agent == old(self).current_agent,
            final(self).current_tab == old(self).current_tab,
    {
        self.add_form = AddAgentForm::new(workspace);
        if agent_count > 0 {
            self.chat_sidebar_index = match self.current_agent {
                Some(i) => i + 1,
                None => 0,
            };
        }
    }

    /// After the form's agent was saved as the last of `agent_count`
    /// agents: that agent is current and selected, and the form is emptied.
    pub fn agent_added(&mut self, agent_count: usize, workspace: String)
        requires
            0 < agent_count,
            old(self).model_picker matches Some(p) ==> p.wf(),
        ensures
            final(self).wf(agent_count as nat),
            final(self).current_agent == Some((agent_count - 1) as usize),
            final(self).chat_sidebar_index == agent_count,
            final(self).add_form.name@ == Seq::<char>::empty(),
            final(self).add_form.workspace@ == workspace@,
            final(self).add_form.active_field == AddAgentField::Name,
            final(self).add_form.error is None,
            final(self).current_tab == old(self).current_tab,
    {
        self.current_agent = Some(agent_count - 1);
        self.chat_sidebar_index = agent_count;
        self.add_form = AddAgentForm::new(workspace);
    }

    /// A loaded model list for `agent_index` opens the picker when that
    /// agent is current and the list is not empty; the result says whether
    /// it opened.
    pub fn open_model_picker(
        &mut self,
        agent_index: usize,
        models: Vec<ModelInfo>,
        current_model: Option<&String>,
    ) -> (opened: bool)
        requires
            old(self).model_picker matches Some(p) ==> p.wf(),
        ensures
            opened == (old(self).current_agent == Some(agent_index) && models@.len() > 0),
            opened ==> (final(self).model_picker matches Some(p) && p.agent_index == agent_index
                && p.models@ == models@ && p.view == ModelPickerView::Models && initial_model_index(
                models@,
                opt_string(current_model),
                p.selected as int,
            )),
            !opened ==> final(self).model_picker == old(self).model_picker,
            final(self).model_picker matches Some(p) ==> p.wf(),
            final(self).current_tab == old(self).current_tab,
            final(self).current_agent == old(self).current_agent,
            final(self).chat_sidebar_index == old(self).chat_sidebar_index,
    {
        match self.current_agent {
            Some(i) => {
                if i != agent_index {
                    return false;
                }
            },
            None => {
                return false;
            },
        }
        match open_model_picker(agent_index, models, current_model) {
            Some(picker) => {
                self.model_picker = Some(picker);
                true
            },
            None => false,
        }
    }

    /// A model list arrived for agent `agent_index`, whose chat is `log`
    /// and whose model label is `current_label`. The agent's status becomes
    /// `Select a model`. An empty list is reported in the chat and the
    /// status line says no models are available; otherwise the picker opens
    /// for the current agent (see `open_model_picker`) and the status line
    /// tells how to use it. The result holds the agent's status and the
    /// application's status line, if it changes.
    pub fn model_list_loaded(
        &mut self,
        log: &mut ChatLog,
        agent_index: usize,
        models: Vec<ModelInfo>,
        current_model: Option<&String>,
        current_label: &str,
    ) -> (r: (String, Option<String>))
        requires
            old(self).model_picker matches Some(p) ==> p.wf(),
        ensures
            r.0@ == "Select a model"@,
            models@.len() == 0 ==> {
                &&& opt_view(r.1) == Some("No models available"@)
                &&& final(log)@.0 == old(log)@.0.push(
                    fresh_message(MessageRole::System, model_list_message_spec(current_label@, models@), None::<Seq<char>>),
                )
                &&& final(self).model_picker == old(self).model_picker
            },
            models@.len() > 0 ==> {
                &&& final(log)@ == old(log)@
                &&& if old(self).current_agent == Some(agent_index) {
                    &&& opt_view(r.1) == Some("Use Up/Down to select a model, Enter to apply, or Esc to cancel"@)
                    &&& final(self).model_picker matches Some(p) && p.agent_index == agent_index
                        && p.models@ == models@ && p.view == ModelPickerView::Models
                        && initial_model_index(models@, opt_string(current_model), p.selected as int)
                } else {
                    r.1 is None && final(self).model_picker == old(self).model_picker
                }
            },
            final(log)@.1 == old(log)@.1,
            final(log)@.2 == old(log)@.2,
            final(log)@.3 == old(log)@.3,
            final(log).shell_running == old(log).shell_running,
            final(self).model_picker matches Some(p) ==> p.wf(),
            final(self).current_tab == old(self).current_tab,
            final(self).current_agent == old(self).current_agent,
            final(self).chat_sidebar_index == old(self).chat_sidebar_index,
    {
        let agent_status = "Select a model".to_owned();
        if models.len() == 0 {
            let message = format_model_list_message(current_label, &models);
            log.push_system_message(message);
            return (agent_status, Some("No models available".to_owned()));
        }
        let opened = self.open_model_picker(agent_index, models, current_model);
        if opened {
            (agent_status, Some("Use Up/Down to select a model, Enter to apply, or Esc to cancel".to_owned()))
        } else {
            (agent_status, None)
        }
    }

    /// A key while the chat tab may show the model picker. With no picker
    /// open, or on another tab, the key is not the picker's (`NotOpen`);
    /// otherwise the picker takes it as `model_picker_step` says, and stays
    /// open unless it closed. `current_effort` is the reasoning effort of
    /// the picker's agent.
    pub fn handle_model_picker_key(&mut self, key: PickerKey, current_effort: Option<&String>) -> (r: (
        ModelPickerAction,
        PickerNotice,
    ))
        requires
            old(self).model_picker matches Some(p) ==> p.wf(),
        ensures
            final(self).model_picker matches Some(p) ==> p.wf(),
            final(self).current_tab == old(self).current_tab,
            final(self).current_agent == old(self).current_agent,
            final(self).chat_sidebar_index == old(self).chat_sidebar_index,
            (old(self).current_tab != AppTab::Chat || old(self).model_picker is None) ==> {
                &&& r.0 == ModelPickerAction::NotOpen
                &&& r.1 == PickerNotice::Unchanged
                &&& final(self).model_picker == old(self).model_picker
            },
            (old(self).current_tab == AppTab::Chat && old(self).model_picker is Some) ==> picker_step(
                old(self).model_picker->0,
                key,
                opt_string(current_effort),
                final(self).model_picker,
                r.0,
                r.1,
            ),
    {
        if self.current_tab != AppTab::Chat {
            return (ModelPickerAction::NotOpen, PickerNotice::Unchanged);
        }
        match self.model_picker.take() {
            None => (ModelPickerAction::NotOpen, PickerNotice::Unchanged),
            Some(picker) => {
                let (next, action, notice) = model_picker_step(picker, key, current_effort);
                self.model_picker = next;
                (action, notice)
            },
        }
    }
}

/// The application's runtime: it runs the event loop that drives the
/// shell around the library.
#[derive(Debug, Clone, Copy)]
pub struct AppRuntime;

} // verus!
