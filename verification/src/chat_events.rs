//! What the results of an agent's chat work (threads opened, turns
//! started, model lists, stored sessions, failures) do to its chat and to
//! the application's status line.
use vstd::prelude::*;
use crate::app_shell::AppShell;
use crate::chat::opt_view;
use crate::chat_settings::{model_list_message_spec, settings_label, ChatDefaults, ChatSettings};
use crate::codex::{ModelInfo, ThreadInfo, WorkspaceSession};
use crate::model_picker::{initial_model_index, ModelPickerView};
use crate::session::{fresh_message, history_messages, restores, ChatLog, ChatThread, MessageRole};

verus! {

/// An agent's chat: its thread, its transcript, its model settings and the
/// agent's status.
#[derive(Debug)]
pub struct AgentChat {
    pub thread: ChatThread,
    pub log: ChatLog,
    pub settings: ChatSettings,
    pub status: Option<String>,
}

/// A result of chat work for one agent.
#[derive(Debug)]
pub enum ChatEvent {
    /// The agent's thread was started or resumed.
    ThreadReady(ThreadInfo),
    /// A `/model` command finished with this message.
    ModelCommandResult(String),
    /// The list of models arrived.
    ModelListLoaded(Vec<ModelInfo>),
    /// The agent's latest stored session, if one was found.
    SessionLoaded(Option<WorkspaceSession>),
    /// Sending to the agent failed with this message.
    SubmissionFailed(String),
    /// The agent's turn started with this id.
    TurnStarted(String),
    /// Canceling the running turn failed with this message.
    TurnInterruptFailed(String),
}

/// The log's fields other than the messages stay as they were.
pub open spec fn same_state(a: ChatLog, b: ChatLog) -> bool {
    a@.1 == b@.1 && a@.2 == b@.2 && a@.3 == b@.3 && a.shell_running == b.shell_running
}

impl AgentChat {
    /// Applies a result of chat work for agent `agent_index` (this chat),
    /// with the application's navigation `shell` and default model settings
    /// `defaults`; returns the application's new status line, if it
    /// changes:
    /// - a ready thread becomes the chat's loaded thread and, unless the
    ///   user chose them, its model settings become the chat's;
    /// - a finished `/model` command is reported in the chat and in both
    ///   statuses;
    /// - a model list is handled as `AppShell::model_list_loaded` says;
    /// - a stored session is restored as `ChatThread::restore_session` says;
    /// - a failed submission stops the chat's waiting and is reported in
    ///   the chat and in both statuses;
    /// - a started turn is recorded, and the chat thinks;
    /// - a failed cancel is reported in the chat and in both statuses.
    pub fn handle_chat_event(
        &mut self,
        shell: &mut AppShell,
        agent_index: usize,
        defaults: &ChatDefaults,
        event: ChatEvent,
    ) -> (r: Option<String>)
        requires
            old(shell).model_picker matches Some(p) ==> p.wf(),
        ensures
            final(shell).model_picker matches Some(p) ==> p.wf(),
            final(shell).current_tab == old(shell).current_tab,
            final(shell).current_agent == old(shell).current_agent,
            final(shell).chat_sidebar_index == old(shell).chat_sidebar_index,
            match event {
                ChatEvent::ThreadReady(t) => {
                    &&& r is None
                    &&& opt_view(final(self).thread.thread_id) == Some(t.id@)
                    &&& final(self).thread.loaded
                    &&& !old(self).settings.explicit ==> opt_view(final(self).settings.model)
                        == opt_view(t.model) && opt_view(final(self).settings.reasoning_effort)
                        == opt_view(t.reasoning_effort)
                    &&& old(self).settings.explicit ==> opt_view(final(self).settings.model)
                        == opt_view(old(self).settings.model) && opt_view(
                        final(self).settings.reasoning_effort,
                    ) == opt_view(old(self).settings.reasoning_effort)
                    &&& final(self).settings.explicit == old(self).settings.explicit
                    &&& final(self).settings.label@ == settings_label(
                        opt_view(final(self).settings.model),
                        opt_view(final(self).settings.reasoning_effort),
                        *defaults,
                    )
                    &&& final(self).log@ == old(self).log@ && same_state(final(self).log, old(self).log)
                    &&& final(self).status == old(self).status
                },
                ChatEvent::ModelCommandResult(m) => {
                    &&& opt_view(r) == Some("Model command finished"@)
                    &&& opt_view(final(self).status) == Some("Model command finished"@)
                    &&& final(self).log@.0 == old(self).log@.0.push(
                        fresh_message(MessageRole::System, m@, None::<Seq<char>>),
                    )
                    &&& same_state(final(self).log, old(self).log)
                    &&& final(self).thread == old(self).thread
                },
                ChatEvent::ModelListLoaded(models) => {
                    &&& opt_view(final(self).status) == Some("Select a model"@)
                    &&& same_state(final(self).log, old(self).log)
                    &&& final(self).thread == old(self).thread
                    &&& models@.len() == 0 ==> {
                        &&& opt_view(r) == Some("No models available"@)
                        &&& final(self).log@.0 == old(self).log@.0.push(
                            fresh_message(
                                MessageRole::System,
                                model_list_message_spec(old(self).settings.label@, models@),
                                None::<Seq<char>>,
                            ),
                        )
                        &&& final(shell).model_picker == old(shell).model_picker
                    }
                    &&& models@.len() > 0 ==> {
                        &&& final(self).log@ == old(self).log@
                        &&& if old(shell).current_agent == Some(agent_index) {
                            &&& opt_view(r) == Some(
                                "Use Up/Down to select a model, Enter to apply, or Esc to cancel"@,
                            )
                            &&& final(shell).model_picker matches Some(p) && p.agent_index == agent_index
                                && p.models@ == models@ && p.view == ModelPickerView::Models
                                && initial_model_index(
                                models@,
                                opt_view(old(self).settings.model),
                                p.selected as int,
                            )
                        } else {
                            r is None && final(shell).model_picker == old(shell).model_picker
                        }
                    }
                },
                ChatEvent::SessionLoaded(session) => {
                    &&& r is None
                    &&& final(self).status == old(self).status
                    &&& if restores(old(self).thread, old(self).log, session) {
                        let s = session->0;
                        &&& opt_view(final(self).thread.thread_id) == Some(s.thread.id@)
                        &&& !final(self).thread.loaded
                        &&& final(self).log@.0 == history_messages(s.entries@)
                        &&& same_state(final(self).log, old(self).log)
                    } else {
                        &&& final(self).thread == old(self).thread
                        &&& final(self).log@ == old(self).log@
                        &&& same_state(final(self).log, old(self).log)
                    }
                },
                ChatEvent::SubmissionFailed(m) => {
                    &&& opt_view(r) == Some(m@)
                    &&& opt_view(final(self).status) == Some(m@)
                    &&& final(self).log@ == (
                        old(self).log@.0.push(fresh_message(MessageRole::System, m@, None::<Seq<char>>)),
                        false,
                        None::<Seq<char>>,
                        None::<Seq<char>>,
                    )
                    &&& !final(self).log.shell_running
                    &&& final(self).thread == old(self).thread
                },
                ChatEvent::TurnStarted(turn) => {
                    &&& r is None
                    &&& final(self).log@ == (old(self).log@.0, true, Some(turn@), old(self).log@.3)
                    &&& final(self).log.shell_running == old(self).log.shell_running
                    &&& final(self).status == old(self).status
                    &&& final(self).thread == old(self).thread
                },
                ChatEvent::TurnInterruptFailed(m) => {
                    &&& opt_view(r) == Some(m@)
                    &&& opt_view(final(self).status) == Some(m@)
                    &&& final(self).log@.0 == old(self).log@.0.push(
                        fresh_message(MessageRole::System, m@, None::<Seq<char>>),
                    )
                    &&& same_state(final(self).log, old(self).log)
                    &&& final(self).thread == old(self).thread
                },
            },
    {
        match event {
            ChatEvent::ThreadReady(t) => {
                self.settings.thread_ready(t.model, t.reasoning_effort, defaults);
                self.thread.thread_ready(t.id);
                None
            },
            ChatEvent::ModelCommandResult(message) => {
                self.status = Some("Model command finished".to_string());
                self.log.push_system_message(message);
                Some("Model command finished".to_string())
            },
            ChatEvent::ModelListLoaded(models) => {
                let (agent_status, app_status) = shell.model_list_loaded(
                    &mut self.log,
                    agent_index,
                    models,
                    self.settings.model.as_ref(),
                    self.settings.label.as_str(),
                );
                self.status = Some(agent_status);
                app_status
            },
            ChatEvent::SessionLoaded(session) => {
                let _ = self.thread.restore_session(&mut self.log, session);
                None
            },
            ChatEvent::SubmissionFailed(message) => {
                self.status = Some(message.clone());
                let shown = message.clone();
                self.log.submission_failed(message);
                Some(shown)
            },
            ChatEvent::TurnStarted(turn) => {
                self.log.active_turn_id = Some(turn);
                self.log.thinking = true;
                None
            },
            ChatEvent::TurnInterruptFailed(message) => {
                self.status = Some(message.clone());
                let shown = message.clone();
                self.log.push_system_message(message);
                Some(shown)
            },
        }
    }
}

} // verus!
