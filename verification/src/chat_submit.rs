//! What submitting the chat input does to the input, the agent's chat and
//! its queue of messages, and when a queued message goes out.
use vstd::prelude::*;
use crate::chat::ChatCommand;
use crate::chat_state::ChatQueue;
use crate::keys::{chat_submission, submission_spec, ChatSubmission};
use crate::session::{fresh_message, ChatLog, MessageRole};
use crate::text::{decimal, decimal_chars, push_all, push_str};

verus! {

/// What the application does after the chat input was submitted.
#[derive(Debug, PartialEq, Eq)]
pub enum SubmitEffect {
    /// Run this `/model` command.
    RunCommand(ChatCommand),
    /// Run this shell command.
    RunShell(String),
    /// Nothing: the input is blank.
    Nothing,
    /// No agent is selected: the application shows this status.
    NoAgent(String),
    /// The agent is busy and the message waits: the agent's status and the
    /// application's status.
    Queued { agent_status: String, app_status: String },
    /// The message went to the agent (its status cleared): start a turn
    /// with it.
    StartTurn(String),
}

/// The agent's status when `n` messages wait.
pub open spec fn queued_agent_status(n: nat) -> Seq<char> {
    decimal(n) + " queued message(s)"@
}

/// The application's status when `n` messages wait.
pub open spec fn queued_app_status(n: nat) -> Seq<char> {
    "Queued "@ + decimal(n) + " message(s)"@
}

/// Submits the chat input for the selected agent (`has_agent`), whose chat
/// is `log` and queue `queue`: a command or a shell command is handed on
/// and a blank input does nothing, all leaving everything as it is; with
/// no agent the status says so; while the agent thinks or runs a shell
/// command the trimmed message joins its queue; otherwise it goes to the
/// agent, which then thinks. A message that is queued or sent empties the
/// input.
pub fn submit_chat_input(input: &mut String, has_agent: bool, log: &mut ChatLog, queue: &mut ChatQueue) -> (r:
    SubmitEffect)
    requires
        old(queue).inv(),
        old(queue).view().len() + 1 < u64::MAX,
    ensures
        final(queue).inv(),
        ({
            let s = submission_spec(old(input)@, has_agent, old(log).thinking || old(log).shell_running);
            let text = s.1;
            if s.0 == 0 {
                &&& r is RunCommand
                &&& final(input)@ == old(input)@ && *final(log) == *old(log)
                &&& final(queue).view() == old(queue).view()
            } else if s.0 == 1 {
                &&& r matches SubmitEffect::RunShell(c) && c@ == text
                &&& final(input)@ == old(input)@ && *final(log) == *old(log)
                &&& final(queue).view() == old(queue).view()
            } else if s.0 == 2 {
                &&& r is Nothing
                &&& final(input)@ == old(input)@ && *final(log) == *old(log)
                &&& final(queue).view() == old(queue).view()
            } else if s.0 == 3 {
                &&& r matches SubmitEffect::NoAgent(m) && m@ == "Add an agent before sending messages."@
                &&& final(input)@ == old(input)@ && *final(log) == *old(log)
                &&& final(queue).view() == old(queue).view()
            } else if s.0 == 4 {
                let n = old(queue).view().len() + 1;
                &&& r matches SubmitEffect::Queued { agent_status, app_status } && agent_status@
                    == queued_agent_status(n) && app_status@ == queued_app_status(n)
                &&& final(queue).view() == old(queue).view().push(text)
                &&& final(input)@ == Seq::<char>::empty()
                &&& *final(log) == *old(log)
            } else {
                &&& r matches SubmitEffect::StartTurn(m) && m@ == text
                &&& final(input)@ == Seq::<char>::empty()
                &&& final(log)@.0 == old(log)@.0.push(fresh_message(MessageRole::User, text, None))
                &&& final(log).thinking
                &&& final(log).shell_running == old(log).shell_running
                &&& final(log)@.2 == old(log)@.2 && final(log)@.3 == old(log)@.3
                &&& final(queue).view() == old(queue).view()
            }
        }),
{
    let busy = log.thinking || log.shell_running;
    match chat_submission(input.as_str(), has_agent, busy) {
        ChatSubmission::Command(command) => SubmitEffect::RunCommand(command),
        ChatSubmission::Shell(command) => SubmitEffect::RunShell(command),
        ChatSubmission::Nothing => SubmitEffect::Nothing,
        ChatSubmission::NoAgent => SubmitEffect::NoAgent("Add an agent before sending messages.".to_string()),
        ChatSubmission::Enqueue(text) => {
            queue.enqueue(text);
            let n = queue.count();
            let digits = decimal_chars(n as u64);
            let mut agent_status = String::new();
            push_all(&mut agent_status, &digits);
            push_str(&mut agent_status, " queued message(s)");
            let mut app_status = "Queued ".to_string();
            push_all(&mut app_status, &digits);
            push_str(&mut app_status, " message(s)");
            *input = String::new();
            SubmitEffect::Queued { agent_status, app_status }
        },
        ChatSubmission::Send(text) => {
            *input = String::new();
            let sent = text.clone();
            log.send_user_message(text);
            SubmitEffect::StartTurn(sent)
        },
    }
}

/// Sends the first queued message of an agent whose chat is idle (not
/// thinking, not running a shell command, no turn running): it goes to the
/// agent, which then thinks; the text is returned to start a turn with.
/// A busy chat, or an empty queue, sends nothing.
pub fn dispatch_queued(log: &mut ChatLog, queue: &mut ChatQueue) -> (r: Option<String>)
    requires
        old(queue).inv(),
    ensures
        final(queue).inv(),
        ({
            let idle = !old(log).thinking && !old(log).shell_running && old(log)@.2 is None;
            if idle && old(queue).view().len() > 0 {
                let text = old(queue).view()[0];
                &&& r matches Some(m) && m@ == text
                &&& final(queue).view() == old(queue).view().drop_first()
                &&& final(log)@.0 == old(log)@.0.push(fresh_message(MessageRole::User, text, None))
                &&& final(log).thinking
                &&& final(log).shell_running == old(log).shell_running
                &&& final(log)@.2 == old(log)@.2 && final(log)@.3 == old(log)@.3
            } else {
                &&& r is None
                &&& *final(log) == *old(log)
                &&& final(queue).view() == old(queue).view()
            }
        }),
{
    if log.thinking || log.shell_running || log.active_turn_id.is_some() || !queue.has_queued() {
        return None;
    }
    match queue.pop_next() {
        Some(text) => {
            let sent = text.clone();
            log.send_user_message(text);
            Some(sent)
        },
        None => None,
    }
}

/// What submitting a shell command typed in the chat does.
#[derive(Debug, PartialEq, Eq)]
pub enum ShellSubmit {
    /// The command could not start: the application shows this status.
    Refused(String),
    /// The command started (its agent's status cleared): run it in the
    /// agent's workspace.
    Run(String),
}

/// Submits the shell command `command` typed in the chat for the selected
/// agent (`has_agent`), whose chat is `log`: with no agent, or while the
/// chat thinks or runs a command, the status says why nothing happens;
/// otherwise the chat shows `> command`, runs it, and the input empties.
pub fn submit_shell_command(input: &mut String, has_agent: bool, log: &mut ChatLog, command: String) -> (r:
    ShellSubmit)
    ensures
        !has_agent ==> (r matches ShellSubmit::Refused(m) && m@ == "Add an agent before running shell commands."@)
            && final(input)@ == old(input)@ && *final(log) == *old(log),
        has_agent && (old(log).thinking || old(log).shell_running) ==> (r matches ShellSubmit::Refused(m)
            && m@ == "Wait for the current response to finish."@) && final(input)@ == old(input)@
            && final(log)@ == old(log)@ && final(log).shell_running == old(log).shell_running,
        has_agent && !(old(log).thinking || old(log).shell_running) ==> {
            &&& r matches ShellSubmit::Run(c) && c@ == command@
            &&& final(input)@ == Seq::<char>::empty()
            &&& final(log)@.0 == old(log)@.0.push(
                fresh_message(MessageRole::Shell, "> "@ + command@, None::<Seq<char>>),
            )
            &&& final(log).shell_running
            &&& final(log).thinking == old(log).thinking
            &&& final(log)@.2 == old(log)@.2 && final(log)@.3 == old(log)@.3
        },
{
    if !has_agent {
        return ShellSubmit::Refused("Add an agent before running shell commands.".to_string());
    }
    if log.start_shell_command(command.as_str()) {
        *input = String::new();
        ShellSubmit::Run(command)
    } else {
        ShellSubmit::Refused("Wait for the current response to finish.".to_string())
    }
}

} // verus!
