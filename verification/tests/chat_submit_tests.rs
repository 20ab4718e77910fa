use cmdex::chat_state::ChatQueue;
use cmdex::chat_submit::{dispatch_queued, submit_chat_input, submit_shell_command, ShellSubmit, SubmitEffect};
use cmdex::session::{ChatLog, MessageRole};

#[test]
fn enter_sends_a_chat_message_to_an_idle_agent() {
    let mut input = "  hello there  ".to_string();
    let mut log = ChatLog::new();
    let mut queue = ChatQueue::new();
    let effect = submit_chat_input(&mut input, true, &mut log, &mut queue);
    assert_eq!(effect, SubmitEffect::StartTurn("hello there".to_string()));
    assert!(input.is_empty());
    assert!(log.thinking);
    assert_eq!(log.messages.len(), 1);
    assert_eq!(log.messages[0].role, MessageRole::User);
    assert_eq!(log.messages[0].text, "hello there");
}

#[test]
fn messages_for_a_busy_agent_wait_in_its_queue_and_go_out_when_it_is_idle() {
    let mut log = ChatLog::new();
    let mut queue = ChatQueue::new();
    let mut input = "first".to_string();
    submit_chat_input(&mut input, true, &mut log, &mut queue);
    let mut input = "second".to_string();
    let effect = submit_chat_input(&mut input, true, &mut log, &mut queue);
    assert_eq!(
        effect,
        SubmitEffect::Queued {
            agent_status: "1 queued message(s)".to_string(),
            app_status: "Queued 1 message(s)".to_string(),
        }
    );
    assert!(input.is_empty());
    assert_eq!(log.messages.len(), 1);
    assert_eq!(dispatch_queued(&mut log, &mut queue), None);
    log.thinking = false;
    assert_eq!(dispatch_queued(&mut log, &mut queue), Some("second".to_string()));
    assert_eq!(log.messages.len(), 2);
    assert!(log.thinking);
    assert_eq!(queue.count(), 0);
}

#[test]
fn blank_input_commands_and_missing_agents_leave_the_input() {
    let mut log = ChatLog::new();
    let mut queue = ChatQueue::new();
    let mut blank = "   ".to_string();
    assert_eq!(submit_chat_input(&mut blank, true, &mut log, &mut queue), SubmitEffect::Nothing);
    assert_eq!(blank, "   ");
    let mut text = "hi".to_string();
    assert_eq!(
        submit_chat_input(&mut text, false, &mut log, &mut queue),
        SubmitEffect::NoAgent("Add an agent before sending messages.".to_string())
    );
    assert_eq!(text, "hi");
    let mut shell = "> ls".to_string();
    assert_eq!(submit_chat_input(&mut shell, true, &mut log, &mut queue), SubmitEffect::RunShell("ls".to_string()));
    let mut command = "/model".to_string();
    assert!(matches!(submit_chat_input(&mut command, true, &mut log, &mut queue), SubmitEffect::RunCommand(_)));
    assert!(log.messages.is_empty());
}

#[test]
fn a_shell_command_runs_only_for_an_idle_agent() {
    let mut log = ChatLog::new();
    let mut input = "> ls".to_string();
    assert_eq!(
        submit_shell_command(&mut input, false, &mut log, "ls".to_string()),
        ShellSubmit::Refused("Add an agent before running shell commands.".to_string())
    );
    assert_eq!(submit_shell_command(&mut input, true, &mut log, "ls".to_string()), ShellSubmit::Run("ls".to_string()));
    assert!(input.is_empty());
    assert!(log.shell_running);
    assert_eq!(log.messages[0].text, "> ls");
    let mut again = "> pwd".to_string();
    assert_eq!(
        submit_shell_command(&mut again, true, &mut log, "pwd".to_string()),
        ShellSubmit::Refused("Wait for the current response to finish.".to_string())
    );
    assert_eq!(again, "> pwd");
    assert_eq!(log.finish_shell_command("ok".to_string(), true), "Shell command finished");
    assert!(!log.shell_running);
}
