//! What the keyboard asks of the application: the keys that no panel took,
//! the keys of the queue of chat messages, and what submitting the chat
//! input does.
use vstd::prelude::*;
use crate::app_shell::{next_tab, next_tab_spec, previous_tab, previous_tab_spec};
use crate::app_state::AppTab;
use crate::chat::{
    chat_command_from_input, chat_command_spec, shell_command_from_input, shell_command_spec,
    ChatCommand,
};
use crate::text::{chars_of, string_of_range, trim, trim_range};
use crate::text::decimal_chars;
use crate::text::{decimal, push_all, push_str};

verus! {

/// A key of the keyboard.
#[derive(Debug, Clone, Copy, PartialEq, Eq, Structural)]
pub enum KeyCode {
    Char(char),
    Enter,
    Esc,
    Tab,
    Backspace,
    Delete,
    Up,
    Down,
    Left,
    Right,
    PageUp,
    PageDown,
    Home,
    End,
    F(u8),
    Other,
}

/// A key press with its modifiers.
#[derive(Debug, Clone, Copy, PartialEq, Eq, Structural)]
pub struct KeyPress {
    pub code: KeyCode,
    pub ctrl: bool,
    pub alt: bool,
    pub shift: bool,
}

/// What the application does with a key that no panel took.
#[derive(Debug, Clone, Copy, PartialEq, Eq, Structural)]
pub enum KeyAction {
    Quit,
    Restart,
    NewShellSession,
    ShowTab(AppTab),
    InsertNewline,
    MoveUp,
    MoveDown,
    ScrollChatUp,
    ScrollChatDown,
    ScrollContentUp,
    ScrollContentDown,
    RefreshTab,
    CancelAddAgent,
    InterruptTurn,
    SwitchAddAgentField,
    SubmitAgent,
    SubmitChat,
    SubmitShell,
    Backspace,
    Type(char),
    Ignore,
}

/// The key bindings of the application, in the order they are tried:
/// `Ctrl+Q` and `Ctrl+C` quit, `Alt+R` restarts, `Ctrl+T` opens a shell
/// session, `Left`/`Right` (with or without `Ctrl`) change the tab, `Shift+Enter` in the
/// chat adds a line, arrows move the selection, page keys scroll (the chat
/// transcript in the chat), `F5` refreshes, `Esc` leaves the add-agent form
/// or interrupts the chat's turn, `Tab` switches the form's field, `Enter`
/// submits the form, the chat or the shell, `Backspace` deletes, and other
/// characters typed without `Ctrl` are input.
pub open spec fn key_action_spec(key: KeyPress, tab: AppTab, add_agent_selected: bool) -> KeyAction {
    let chat = tab == AppTab::Chat && !add_agent_selected;
    match key.code {
        KeyCode::Char(c) => if c == 'q' && key.ctrl {
            KeyAction::Quit
        } else if c == 'r' && key.alt {
            KeyAction::Restart
        } else if c == 'c' && key.ctrl {
            KeyAction::Quit
        } else if c == 't' && key.ctrl {
            KeyAction::NewShellSession
        } else if !key.ctrl {
            KeyAction::Type(c)
        } else {
            KeyAction::Ignore
        },
        KeyCode::Left => KeyAction::ShowTab(previous_tab_spec(tab)),
        KeyCode::Right => KeyAction::ShowTab(next_tab_spec(tab)),
        KeyCode::Enter => if chat && key.shift {
            KeyAction::InsertNewline
        } else if add_agent_selected {
            KeyAction::SubmitAgent
        } else if tab == AppTab::Chat {
            KeyAction::SubmitChat
        } else if tab == AppTab::Shell {
            KeyAction::SubmitShell
        } else {
            KeyAction::Ignore
        },
        KeyCode::Up => KeyAction::MoveUp,
        KeyCode::Down => KeyAction::MoveDown,
        KeyCode::PageUp => if chat {
            KeyAction::ScrollChatUp
        } else {
            KeyAction::ScrollContentUp
        },
        KeyCode::PageDown => if chat {
            KeyAction::ScrollChatDown
        } else {
            KeyAction::ScrollContentDown
        },
        KeyCode::F(n) => if n == 5 {
            KeyAction::RefreshTab
        } else {
            KeyAction::Ignore
        },
        KeyCode::Esc => if add_agent_selected {
            KeyAction::CancelAddAgent
        } else if tab == AppTab::Chat {
            KeyAction::InterruptTurn
        } else {
            KeyAction::Ignore
        },
        KeyCode::Tab => if add_agent_selected {
            KeyAction::SwitchAddAgentField
        } else {
            KeyAction::Ignore
        },
        KeyCode::Backspace => KeyAction::Backspace,
        _ => KeyAction::Ignore,
    }
}

/// What the application does with a key that no panel took (see
/// `key_action_spec`).
pub fn key_action(key: KeyPress, tab: AppTab, add_agent_selected: bool) -> (r: KeyAction)
    ensures
        r == key_action_spec(key, tab, add_agent_selected),
{
    let chat = tab == AppTab::Chat && !add_agent_selected;
    match key.code {
        KeyCode::Char(c) => {
            if c == 'q' && key.ctrl {
                KeyAction::Quit
            } else if c == 'r' && key.alt {
                KeyAction::Restart
            } else if c == 'c' && key.ctrl {
                KeyAction::Quit
            } else if c == 't' && key.ctrl {
                KeyAction::NewShellSession
            } else if !key.ctrl {
                KeyAction::Type(c)
            } else {
                KeyAction::Ignore
            }
        },
        KeyCode::Left => KeyAction::ShowTab(previous_tab(tab)),
        KeyCode::Right => KeyAction::ShowTab(next_tab(tab)),
        KeyCode::Enter => {
            if chat && key.shift {
                KeyAction::InsertNewline
            } else if add_agent_selected {
                KeyAction::SubmitAgent
            } else if tab == AppTab::Chat {
                KeyAction::SubmitChat
            } else if tab == AppTab::Shell {
                KeyAction::SubmitShell
            } else {
                KeyAction::Ignore
            }
        },
        KeyCode::Up => KeyAction::MoveUp,
        KeyCode::Down => KeyAction::MoveDown,
        KeyCode::PageUp => if chat {
            KeyAction::ScrollChatUp
        } else {
            KeyAction::ScrollContentUp
        },
        KeyCode::PageDown => if chat {
            KeyAction::ScrollChatDown
        } else {
            KeyAction::ScrollContentDown
        },
        KeyCode::F(n) => if n == 5 {
            KeyAction::RefreshTab
        } else {
            KeyAction::Ignore
        },
        KeyCode::Esc => {
            if add_agent_selected {
                KeyAction::CancelAddAgent
            } else if tab == AppTab::Chat {
                KeyAction::InterruptTurn
            } else {
                KeyAction::Ignore
            }
        },
        KeyCode::Tab => if add_agent_selected {
            KeyAction::SwitchAddAgentField
        } else {
            KeyAction::Ignore
        },
        KeyCode::Backspace => KeyAction::Backspace,
        _ => KeyAction::Ignore,
    }
}

/// What a key does to the queue of chat messages.
#[derive(Debug, Clone, Copy, PartialEq, Eq, Structural)]
pub enum QueueKeyAction {
    SelectPrevious,
    SelectNext,
    CancelSelected,
}

/// The queue keys: `Alt+Up` and `Alt+Down` move the selection;
/// `Alt+Backspace`, `Alt+Delete` and `Alt+X` cancel the selected message.
/// They apply in the chat of an agent while messages are queued.
pub open spec fn queue_key_spec(key: KeyPress) -> Option<QueueKeyAction> {
    if !key.alt {
        None
    } else {
        match key.code {
            KeyCode::Up => Some(QueueKeyAction::SelectPrevious),
            KeyCode::Down => Some(QueueKeyAction::SelectNext),
            KeyCode::Backspace => Some(QueueKeyAction::CancelSelected),
            KeyCode::Delete => Some(QueueKeyAction::CancelSelected),
            KeyCode::Char(c) => if c == 'x' {
                Some(QueueKeyAction::CancelSelected)
            } else {
                None
            },
            _ => None,
        }
    }
}

/// What a key does to the queue of chat messages, if anything (see
/// `queue_key_spec`).
pub fn queue_key_action(key: KeyPress) -> (r: Option<QueueKeyAction>)
    ensures
        r == queue_key_spec(key),
{
    if !key.alt {
        return None;
    }
    match key.code {
        KeyCode::Up => Some(QueueKeyAction::SelectPrevious),
        KeyCode::Down => Some(QueueKeyAction::SelectNext),
        KeyCode::Backspace | KeyCode::Delete => Some(QueueKeyAction::CancelSelected),
        KeyCode::Char(c) => if c == 'x' {
            Some(QueueKeyAction::CancelSelected)
        } else {
            None
        },
        _ => None,
    }
}

/// The agent status after a queued message was canceled.
pub open spec fn queue_status_spec(remaining: nat) -> Seq<char> {
    if remaining == 0 {
        "Queue is empty"@
    } else {
        decimal(remaining) + " queued message(s) remaining"@
    }
}

/// The agent status after a queued message was canceled, with `remaining`
/// messages left.
pub fn queue_status(remaining: usize) -> (r: String)
    ensures
        r@ == queue_status_spec(remaining as nat),
{
    let mut r = String::new();
    if remaining == 0 {
        push_str(&mut r, "Queue is empty");
    } else {
        let digits = decimal_chars(remaining as u64);
        push_all(&mut r, &digits);
        push_str(&mut r, " queued message(s) remaining");
    }
    r
}

/// What submitting the chat input does.
#[derive(Debug, PartialEq, Eq)]
pub enum ChatSubmission {
    /// A `/model` command.
    Command(ChatCommand),
    /// A shell command (`> command`).
    Shell(String),
    /// Nothing: the input is blank.
    Nothing,
    /// No agent is selected to send to.
    NoAgent,
    /// The agent is busy: the trimmed message waits in the queue.
    Enqueue(String),
    /// The trimmed message goes to the agent.
    Send(String),
}

/// What submitting `input` does: a chat command, else a shell command,
/// else nothing for blank input, else a message for the selected agent,
/// queued while that agent is busy.
pub open spec fn submission_spec(input: Seq<char>, has_agent: bool, busy: bool) -> (u8, Seq<char>) {
    if chat_command_spec(input) is Some {
        (0, Seq::empty())
    } else if shell_command_spec(input) is Some {
        (1, shell_command_spec(input)->0)
    } else if trim(input).len() == 0 {
        (2, Seq::empty())
    } else if !has_agent {
        (3, Seq::empty())
    } else if busy {
        (4, trim(input))
    } else {
        (5, trim(input))
    }
}

impl ChatSubmission {
    /// The submission as a tag and the text it carries.
    pub open spec fn tag(&self) -> (u8, Seq<char>) {
        match self {
            ChatSubmission::Command(_) => (0, Seq::empty()),
            ChatSubmission::Shell(s) => (1, s@),
            ChatSubmission::Nothing => (2, Seq::empty()),
            ChatSubmission::NoAgent => (3, Seq::empty()),
            ChatSubmission::Enqueue(s) => (4, s@),
            ChatSubmission::Send(s) => (5, s@),
        }
    }
}

/// What submitting the chat input does (see `submission_spec`); a command
/// is the one `chat_command_from_input` reads.
pub fn chat_submission(input: &str, has_agent: bool, busy: bool) -> (r: ChatSubmission)
    ensures
        r.tag() == submission_spec(input@, has_agent, busy),
        r matches ChatSubmission::Command(ChatCommand::Model(m)) ==> m@ == chat_command_spec(input@)->0,
{
    if let Some(command) = chat_command_from_input(input) {
        return ChatSubmission::Command(command);
    }
    if let Some(command) = shell_command_from_input(input) {
        return ChatSubmission::Shell(command);
    }
    let v = chars_of(input);
    let (a, b) = trim_range(&v, 0, v.len());
    assert(v@.subrange(0, v@.len() as int) =~= v@);
    if a == b {
        return ChatSubmission::Nothing;
    }
    if !has_agent {
        return ChatSubmission::NoAgent;
    }
    let text = string_of_range(&v, a, b);
    if busy {
        ChatSubmission::Enqueue(text)
    } else {
        ChatSubmission::Send(text)
    }
}

} // verus!
