//! What a key that no panel took does to the application: the navigation
//! state and the chat input change here, and what belongs to a tab's own
//! state (its selection, its input, a submission) is handed on.
use vstd::prelude::*;
use crate::app_shell::{drop_last_char, AddAgentField, AppShell};
use crate::app_state::AppTab;
use crate::keys::KeyAction;
use crate::text::{pop_char, push_char};
use crate::chat_state::ChatScroll;

verus! {

/// What remains to be done after a key action was applied to the
/// navigation state.
#[derive(Debug, Clone, Copy, PartialEq, Eq, Structural)]
pub enum KeyFollowUp {
    /// Nothing more.
    Done,
    Quit,
    Restart,
    /// Open the shell tab and start a session in it.
    OpenShellSession,
    /// Open the shell tab (starting a session when it has none).
    OpenShellTab,
    /// Refresh this tab.
    Refresh(AppTab),
    /// Move the selection of this tab (up or down).
    MoveTabSelection { tab: AppTab, up: bool },
    /// Scroll the chat transcript.
    ScrollChat { up: bool },
    /// Scroll the content of the tab shown.
    ScrollContent { up: bool },
    /// Cancel the chat's running turn.
    InterruptTurn,
    /// Save the agent of the add-agent form.
    SubmitAgent,
    /// Submit the chat input.
    SubmitChat,
    /// Run the shell tab's input.
    SubmitShell,
    /// Type this character into the tab shown.
    TabText(char),
    /// Delete the last character typed into the tab shown.
    TabBackspace,
}

/// What is handed on after `action`, on tab `tab` with the add-agent form
/// shown or not (`form`).
pub open spec fn follow_up_spec(action: KeyAction, tab: AppTab, form: bool) -> KeyFollowUp {
    match action {
        KeyAction::Quit => KeyFollowUp::Quit,
        KeyAction::Restart => KeyFollowUp::Restart,
        KeyAction::NewShellSession => KeyFollowUp::OpenShellSession,
        KeyAction::ShowTab(t) => if t == AppTab::Shell && tab != AppTab::Shell {
            KeyFollowUp::OpenShellTab
        } else if t != tab {
            KeyFollowUp::Refresh(t)
        } else {
            KeyFollowUp::Done
        },
        KeyAction::MoveUp => if tab == AppTab::Chat {
            KeyFollowUp::Done
        } else {
            KeyFollowUp::MoveTabSelection { tab, up: true }
        },
        KeyAction::MoveDown => if tab == AppTab::Chat {
            KeyFollowUp::Done
        } else {
            KeyFollowUp::MoveTabSelection { tab, up: false }
        },
        KeyAction::ScrollChatUp => KeyFollowUp::ScrollChat { up: true },
        KeyAction::ScrollChatDown => KeyFollowUp::ScrollChat { up: false },
        KeyAction::ScrollContentUp => KeyFollowUp::ScrollContent { up: true },
        KeyAction::ScrollContentDown => KeyFollowUp::ScrollContent { up: false },
        KeyAction::RefreshTab => KeyFollowUp::Refresh(tab),
        KeyAction::InterruptTurn => KeyFollowUp::InterruptTurn,
        KeyAction::SubmitAgent => KeyFollowUp::SubmitAgent,
        KeyAction::SubmitChat => KeyFollowUp::SubmitChat,
        KeyAction::SubmitShell => KeyFollowUp::SubmitShell,
        KeyAction::Backspace => if form || tab == AppTab::Chat {
            KeyFollowUp::Done
        } else {
            KeyFollowUp::TabBackspace
        },
        KeyAction::Type(c) => if form || tab == AppTab::Chat {
            KeyFollowUp::Done
        } else {
            KeyFollowUp::TabText(c)
        },
        _ => KeyFollowUp::Done,
    }
}

/// Applies a key action (what `key_action` decided) with `agent_count`
/// agents, the add-agent form starting over at `workspace`: a tab is shown
/// (the shell tab is opened by the caller), `Up`/`Down` on the chat tab
/// move through the agents, `Esc` and `Tab` act on the add-agent form, and
/// typed characters and `Backspace` go to the form when it is shown and to
/// the chat input on the chat tab; everything else is handed on (see
/// `follow_up_spec`) and leaves the state as it was.
pub fn apply_key_action(
    shell: &mut AppShell,
    chat_input: &mut String,
    action: KeyAction,
    agent_count: usize,
    workspace: String,
) -> (r: KeyFollowUp)
    requires
        old(shell).wf(agent_count as nat),
    ensures
        final(shell).wf(agent_count as nat),
        r == follow_up_spec(
            action,
            old(shell).current_tab,
            old(shell).current_tab == AppTab::Chat && old(shell).chat_sidebar_index == 0,
        ),
        ({
            let tab = old(shell).current_tab;
            let form = tab == AppTab::Chat && old(shell).chat_sidebar_index == 0;
            match action {
                KeyAction::ShowTab(t) => {
                    &&& !(t == AppTab::Shell && tab != AppTab::Shell) ==> final(shell).current_tab == t
                    &&& (t == AppTab::Shell && tab != AppTab::Shell) ==> final(shell).current_tab == tab
                    &&& final(shell).current_tab != tab ==> final(shell).model_picker is None
                    &&& final(shell).current_agent == old(shell).current_agent
                    &&& final(shell).chat_sidebar_index == old(shell).chat_sidebar_index
                    &&& final(chat_input)@ == old(chat_input)@
                },
                KeyAction::InsertNewline => {
                    &&& final(chat_input)@ == old(chat_input)@.push('\n')
                    &&& *final(shell) == *old(shell)
                },
                KeyAction::MoveUp => tab == AppTab::Chat ==> {
                    &&& final(shell).chat_sidebar_index == (if old(shell).chat_sidebar_index > 0 {
                        old(shell).chat_sidebar_index - 1
                    } else {
                        0
                    })
                    &&& final(shell).chat_sidebar_index > 0 ==> final(shell).current_agent == Some(
                        (final(shell).chat_sidebar_index - 1) as usize,
                    )
                    &&& final(shell).chat_sidebar_index == 0 ==> final(shell).current_agent == old(shell).current_agent
                },
                KeyAction::MoveDown => tab == AppTab::Chat ==> {
                    &&& final(shell).chat_sidebar_index == (if old(shell).chat_sidebar_index
                        < agent_count {
                        old(shell).chat_sidebar_index + 1
                    } else {
                        agent_count as int
                    })
                    &&& final(shell).chat_sidebar_index > 0 ==> final(shell).current_agent == Some(
                        (final(shell).chat_sidebar_index - 1) as usize,
                    )
                    &&& final(shell).chat_sidebar_index == 0 ==> final(shell).current_agent == old(shell).current_agent
                },
                KeyAction::CancelAddAgent => {
                    &&& final(shell).add_form.name@ == Seq::<char>::empty()
                    &&& final(shell).add_form.workspace@ == workspace@
                    &&& final(shell).add_form.active_field == AddAgentField::Name
                    &&& final(shell).add_form.error is None
                    &&& final(shell).current_agent == old(shell).current_agent
                    &&& final(shell).chat_sidebar_index == (if agent_count == 0 {
                        old(shell).chat_sidebar_index as int
                    } else {
                        match old(shell).current_agent {
                            Some(i) => i + 1,
                            None => 0,
                        }
                    })
                },
                KeyAction::SwitchAddAgentField => {
                    &&& final(shell).add_form.active_field != old(shell).add_form.active_field
                    &&& final(shell).add_form.name == old(shell).add_form.name
                    &&& final(shell).add_form.workspace == old(shell).add_form.workspace
                },
                KeyAction::Backspace => if form {
                    &&& old(shell).add_form.active_field == AddAgentField::Name ==> final(shell).add_form.name@ == drop_last_char(old(shell).add_form.name@)
                        && final(shell).add_form.workspace@ == old(shell).add_form.workspace@
                    &&& old(shell).add_form.active_field == AddAgentField::Workspace ==> final(shell).add_form.workspace@ == drop_last_char(old(shell).add_form.workspace@)
                        && final(shell).add_form.name@ == old(shell).add_form.name@
                    &&& final(chat_input)@ == old(chat_input)@
                } else if tab == AppTab::Chat {
                    &&& final(chat_input)@ == drop_last_char(old(chat_input)@)
                    &&& *final(shell) == *old(shell)
                } else {
                    &&& final(chat_input)@ == old(chat_input)@
                    &&& *final(shell) == *old(shell)
                },
                KeyAction::Type(c) => if form {
                    &&& final(shell).add_form.error is None
                    &&& old(shell).add_form.active_field == AddAgentField::Name ==> final(shell).add_form.name@ == old(shell).add_form.name@.push(c) && final(shell).add_form.workspace@ == old(shell).add_form.workspace@
                    &&& old(shell).add_form.active_field == AddAgentField::Workspace ==> final(shell).add_form.workspace@ == old(shell).add_form.workspace@.push(c) && final(shell).add_form.name@ == old(shell).add_form.name@
                    &&& final(chat_input)@ == old(chat_input)@
                } else if tab == AppTab::Chat {
                    &&& final(chat_input)@ == old(chat_input)@.push(c)
                    &&& *final(shell) == *old(shell)
                } else {
                    &&& final(chat_input)@ == old(chat_input)@
                    &&& *final(shell) == *old(shell)
                },
                _ => {
                    &&& *final(shell) == *old(shell)
                    &&& final(chat_input)@ == old(chat_input)@
                },
            }
        }),
{
    let tab = shell.current_tab;
    let form = shell.add_agent_selected();
    match action {
        KeyAction::Quit => KeyFollowUp::Quit,
        KeyAction::Restart => KeyFollowUp::Restart,
        KeyAction::NewShellSession => KeyFollowUp::OpenShellSession,
        KeyAction::ShowTab(t) => {
            if t == AppTab::Shell && tab != AppTab::Shell {
                KeyFollowUp::OpenShellTab
            } else if shell.set_tab(t) {
                KeyFollowUp::Refresh(t)
            } else {
                KeyFollowUp::Done
            }
        },
        KeyAction::InsertNewline => {
            push_char(chat_input, '\n');
            KeyFollowUp::Done
        },
        KeyAction::MoveUp => {
            if tab == AppTab::Chat {
                shell.move_agent_selection_up(agent_count);
                KeyFollowUp::Done
            } else {
                KeyFollowUp::MoveTabSelection { tab, up: true }
            }
        },
        KeyAction::MoveDown => {
            if tab == AppTab::Chat {
                shell.move_agent_selection_down(agent_count);
                KeyFollowUp::Done
            } else {
                KeyFollowUp::MoveTabSelection { tab, up: false }
            }
        },
        KeyAction::ScrollChatUp => KeyFollowUp::ScrollChat { up: true },
        KeyAction::ScrollChatDown => KeyFollowUp::ScrollChat { up: false },
        KeyAction::ScrollContentUp => KeyFollowUp::ScrollContent { up: true },
        KeyAction::ScrollContentDown => KeyFollowUp::ScrollContent { up: false },
        KeyAction::RefreshTab => KeyFollowUp::Refresh(tab),
        KeyAction::CancelAddAgent => {
            shell.cancel_add_agent(workspace, agent_count);
            KeyFollowUp::Done
        },
        KeyAction::InterruptTurn => KeyFollowUp::InterruptTurn,
        KeyAction::SwitchAddAgentField => {
            shell.add_form.switch_field();
            KeyFollowUp::Done
        },
        KeyAction::SubmitAgent => KeyFollowUp::SubmitAgent,
        KeyAction::SubmitChat => KeyFollowUp::SubmitChat,
        KeyAction::SubmitShell => KeyFollowUp::SubmitShell,
        KeyAction::Backspace => {
            if form {
                shell.add_form.pop_char();
                KeyFollowUp::Done
            } else if tab == AppTab::Chat {
                let _ = pop_char(chat_input);
                KeyFollowUp::Done
            } else {
                KeyFollowUp::TabBackspace
            }
        },
        KeyAction::Type(c) => {
            if form {
                shell.add_form.push_char(c);
                KeyFollowUp::Done
            } else if tab == AppTab::Chat {
                push_char(chat_input, c);
                KeyFollowUp::Done
            } else {
                KeyFollowUp::TabText(c)
            }
        },
        KeyAction::Ignore => KeyFollowUp::Done,
    }
}

/// How many rows `PageUp` and `PageDown` scroll.
pub const CONTENT_SCROLL_STEP: u16 = 4;

/// Applies a chat scroll handed on by `apply_key_action` (`PageUp` when
/// `up`, else `PageDown`) to the chat's scroll state, where `max_scroll`
/// rows of the transcript can be scrolled: from the offset shown, up or
/// down by `CONTENT_SCROLL_STEP` rows, kept between the top and the
/// bottom; output is followed again exactly at the bottom.
pub fn scroll_chat(scroll: &mut ChatScroll, up: bool, max_scroll: u16)
    ensures
        ({
            let p = old(scroll).shown(max_scroll);
            if up {
                final(scroll).scroll == p.saturating_sub(CONTENT_SCROLL_STEP)
            } else {
                final(scroll).scroll == (if p + CONTENT_SCROLL_STEP < max_scroll {
                    p + CONTENT_SCROLL_STEP
                } else {
                    max_scroll as int
                })
            }
        }),
        final(scroll).scroll <= max_scroll,
        final(scroll).follow_output == (final(scroll).scroll == max_scroll),
{
    if up {
        scroll.scroll_up(max_scroll, CONTENT_SCROLL_STEP);
    } else {
        scroll.scroll_down(max_scroll, CONTENT_SCROLL_STEP);
    }
}

} // verus!
