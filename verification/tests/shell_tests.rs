use cmdex::geometry::Rect;
use cmdex::shell::{
    prompt_text, CommandStart, SessionEvent, ShellLineKind, ShellOutputParser, ShellOutputRecord,
    ShellSessionState, ShellSidebarClick, ShellSubmit, ShellTabState,
};

fn line(text: &str) -> ShellOutputRecord {
    ShellOutputRecord::Line(text.to_string())
}

#[test]
fn shell_output_parser_splits_lines_and_detects_sentinels() {
    let mut parser = ShellOutputParser::new();
    assert_eq!(parser.push("__CMDEX_READY__\r\nhel"), vec![ShellOutputRecord::Ready]);
    assert_eq!(parser.push("lo\nworld __CMDEX_DONE__: 3\n"), vec![
        line("hello"),
        line("world "),
        ShellOutputRecord::CommandFinished(3),
    ]);
    assert_eq!(parser.push("tail"), Vec::new());
    assert_eq!(parser.finish(), vec![line("tail")]);
}

#[test]
fn shell_output_parser_drops_escapes_and_control_characters() {
    let mut parser = ShellOutputParser::new();
    assert_eq!(
        parser.push("\u{1b}[31mred\u{1b}[0m\tab\u{7}c\u{8}d\n"),
        vec![line("red abd")]
    );
    assert_eq!(
        parser.push("\u{1b}]0;title\u{7}x__CMDEX_DONE__:oops\n"),
        vec![line("x"), ShellOutputRecord::CommandFinished(-1)]
    );
}

#[test]
fn shell_output_parser_keeps_carriage_return_segments() {
    let mut parser = ShellOutputParser::new();
    assert_eq!(parser.push("a\rb\r\n"), vec![line("a"), line("b")]);
}

#[test]
fn shell_sidebar_labels_include_new_session_action() {
    let mut tab = ShellTabState::new();
    assert_eq!(tab.sidebar_labels(0), vec!["+ New session".to_string()]);

    let session_id = tab.create_session("/tmp/project");
    assert!(tab.apply_session_event(SessionEvent::Ready { session_id }));

    let labels = tab.sidebar_labels(0);
    assert_eq!(labels[0], "+ New session");
    assert_eq!(labels[1], "Session 1");
}

#[test]
fn shell_session_exit_event_removes_session_from_sidebar() {
    let mut tab = ShellTabState::new();
    let session_id = tab.create_session("/tmp/project");
    tab.type_char('l');

    let exit = SessionEvent::Exited { session_id, message: "Shell exited".to_string() };
    assert_eq!(exit.status().as_deref(), Some("Shell exited"));
    assert!(tab.apply_session_event(exit));

    assert_eq!(tab.sidebar_labels(0), vec!["+ New session".to_string()]);
    assert_eq!(tab.input, "");
    assert!(!tab.apply_session_event(SessionEvent::Ready { session_id }));
}

#[test]
fn new_session_starts_with_a_note() {
    let session = ShellSessionState::new(4, "~/proj");
    assert_eq!(session.title, "Session 4");
    assert_eq!(session.lines[0].text, "Session started in ~/proj");
    assert_eq!(session.lines[1].kind, ShellLineKind::Blank);
    assert!(session.label(1).starts_with('⠛'));
}

#[test]
fn shell_commands_run_in_the_selected_ready_session() {
    let mut tab = ShellTabState::new();
    assert_eq!(tab.command_to_submit(), ShellSubmit::NoSession);
    let id = tab.create_session("/w");
    for c in "  ls -la ".chars() {
        tab.type_char(c);
    }
    let submit = tab.command_to_submit();
    assert_eq!(
        submit,
        ShellSubmit::Command {
            session_id: id,
            command: "ls -la".to_string()
        }
    );
    assert_eq!(tab.begin_command(id, "ls -la"), CommandStart::Starting);
    tab.apply_session_event(SessionEvent::Ready { session_id: id });
    assert_eq!(
        tab.begin_command(id, "ls -la"),
        CommandStart::Started {
            payload: "ls -la\n".to_string()
        }
    );
    assert_eq!(tab.input, "");
    assert_eq!(tab.sessions[0].lines.last().unwrap().text, "$ ls -la");
    assert_eq!(tab.begin_command(id, "pwd"), CommandStart::Busy);
    assert_eq!(tab.begin_command(id + 1, "pwd"), CommandStart::Missing);

    tab.apply_session_event(SessionEvent::Output {
        session_id: id,
        line: "oops".to_string(),
        stderr: true,
    });
    tab.apply_session_event(SessionEvent::CommandFinished {
        session_id: id,
        exit_code: 2,
    });
    let session = &tab.sessions[0];
    assert!(!session.running);
    let n = session.lines.len();
    assert_eq!(session.lines[n - 2].kind, ShellLineKind::Stderr);
    assert_eq!(session.lines[n - 1].text, "[exit 2]");
    assert_eq!(tab.command_to_submit(), ShellSubmit::Blank);
}

#[test]
fn shell_sidebar_clicks_select_sessions() {
    let mut tab = ShellTabState::new();
    tab.create_session("/a");
    tab.create_session("/b");
    let list = Rect::new(0, 0, 20, 8);
    assert_eq!(
        tab.handle_sidebar_click(3, 1, list),
        Some(ShellSidebarClick::NewSession)
    );
    assert_eq!(
        tab.handle_sidebar_click(3, 2, list),
        Some(ShellSidebarClick::Session(0))
    );
    assert_eq!(tab.selected, 0);
    assert_eq!(
        tab.handle_sidebar_click(3, 6, list),
        Some(ShellSidebarClick::Session(1))
    );
    assert_eq!(tab.handle_sidebar_click(30, 2, list), None);
}

#[test]
fn shell_selection_and_scrolling() {
    let mut tab = ShellTabState::new();
    tab.create_session("/a");
    tab.create_session("/b");
    assert_eq!(tab.selected_index(), 1);
    tab.move_up();
    assert_eq!(tab.selected_index(), 0);
    tab.move_up();
    assert_eq!(tab.selected_index(), 0);
    tab.move_down();
    tab.move_down();
    assert_eq!(tab.selected_index(), 1);
    tab.scroll_selected(5, false);
    assert_eq!(tab.sessions[1].scroll, 5);
    tab.scroll_selected(9, true);
    assert_eq!(tab.sessions[1].scroll, 0);
    tab.erase_char();
    assert_eq!(tab.sessions[1].scroll, u16::MAX);
    let removed = tab.remove_session_by_id(1).unwrap();
    assert_eq!(removed.id, 1);
    assert_eq!(tab.selected_index(), 0);
}

#[test]
fn idle_sessions_show_a_prompt_under_their_transcript() {
    let mut session = ShellSessionState::new(1, "/tmp");
    let starting = session.display_lines("ls");
    assert_eq!(starting.len(), session.lines.len());

    session.mark_ready();
    let idle = session.display_lines("ls");
    assert_eq!(idle.len(), session.lines.len() + 1);
    assert_eq!(idle.last().map(|l| l.kind), Some(ShellLineKind::Prompt));
    assert_eq!(idle.last().map(|l| l.text.as_str()), Some("ls"));
    assert_eq!(prompt_text("ls"), "$ ls");

    session.append_command("ls");
    let running = session.display_lines("");
    assert_eq!(running.last().map(|l| l.kind), Some(ShellLineKind::Command));
}

#[test]
fn selected_session_follows_the_selection() {
    let mut tab = ShellTabState::new();
    assert!(tab.selected_session().is_none());
    let first = tab.create_session("/tmp");
    let second = tab.create_session("/tmp");
    assert_eq!(tab.selected_session().map(|s| s.id), Some(second));
    tab.select(0);
    assert_eq!(tab.selected_session().map(|s| s.id), Some(first));
}
