use cmdex::chat::{
    chat_command_from_input, format_chat_model_label, format_shell_output,
    parse_codex_model_from_config, parse_codex_reasoning_effort_from_config,
    resolve_chat_model_label, shell_command_from_input, truncate_shell_text, ChatCommand,
    ModelCommand,
};
use cmdex::chat_input::{height_for_main_area, wrapped_chat_input_lines};
use cmdex::geometry::Rect;

#[test]
fn app_shell_command_is_detected_from_chat_input() {
    assert_eq!(
        shell_command_from_input("> cargo test"),
        Some("cargo test".to_string())
    );
    assert_eq!(
        shell_command_from_input(">   ls -la"),
        Some("ls -la".to_string())
    );
    assert_eq!(shell_command_from_input("hello > world"), None);
    assert_eq!(shell_command_from_input(">"), None);
}

#[test]
fn app_shell_output_is_formatted_for_chat() {
    let output = format_shell_output("ls", "file.txt\n", "", Some(0), true);

    assert!(output.contains("Command: `ls`"));
    assert!(output.contains("```text"));
    assert!(output.contains("file.txt"));
    assert!(output.contains("Exit code: 0 (ok)"));
}

#[test]
fn chat_input_wraps_into_multiple_lines() {
    assert_eq!(
        wrapped_chat_input_lines("abcdef", 4),
        vec!["abcd".to_string(), "ef".to_string()]
    );
    assert_eq!(
        wrapped_chat_input_lines("ab\ncd", 4),
        vec!["ab".to_string(), "cd".to_string()]
    );
}

#[test]
fn chat_input_height_grows_with_wrapped_content() {
    let main_area = Rect::new(0, 0, 10, 20);

    assert_eq!(height_for_main_area("short", main_area), 3);
    assert_eq!(height_for_main_area("abcdefghijk", main_area), 4);
}

#[test]
fn parses_codex_model_from_top_level_config() {
    let config = r#"
model = "gpt-5.4"
model_reasoning_effort = "xhigh"

[projects."/tmp/example"]
trust_level = "trusted"
"#;

    assert_eq!(
        parse_codex_model_from_config(config),
        Some("gpt-5.4".to_string())
    );
    assert_eq!(
        parse_codex_reasoning_effort_from_config(config),
        Some("xhigh".to_string())
    );
}

#[test]
fn ignores_non_top_level_model_keys() {
    let config = r#"
[profiles.fast]
model = "gpt-5.5-mini"
"#;

    assert_eq!(parse_codex_model_from_config(config), None);
    assert_eq!(parse_codex_reasoning_effort_from_config(config), None);
}

#[test]
fn builds_chat_model_label_with_reasoning_effort() {
    let config = r#"
model = "gpt-5.4"
model_reasoning_effort = "xhigh"
"#;

    let model = parse_codex_model_from_config(config).unwrap();
    let effort = parse_codex_reasoning_effort_from_config(config).unwrap();

    assert_eq!(format!("{model} · {effort}"), "gpt-5.4 · xhigh");
}

#[test]
fn tests_shell_output_is_formatted_for_chat() {
    let output = format_shell_output("ls", "file.txt\n", "", Some(0), true);

    assert!(output.contains("Command: `ls`"));
    assert!(output.contains("```text"));
    assert!(output.contains("file.txt"));
    assert!(output.contains("Exit code: 0 (ok)"));
}

#[test]
fn tests_chat_shell_command_is_detected_from_chat_input() {
    assert_eq!(
        shell_command_from_input("> cargo test"),
        Some("cargo test".to_string())
    );
    assert_eq!(
        shell_command_from_input(">   ls -la"),
        Some("ls -la".to_string())
    );
    assert_eq!(shell_command_from_input("hello > world"), None);
    assert_eq!(shell_command_from_input(">"), None);
}

#[test]
fn model_command_is_detected_from_chat_input() {
    assert_eq!(
        chat_command_from_input("/model"),
        Some(ChatCommand::Model(ModelCommand::List))
    );
    assert_eq!(
        chat_command_from_input("/model gpt-5.5"),
        Some(ChatCommand::Model(ModelCommand::Change {
            model: Some("gpt-5.5".to_string()),
            effort: None,
        }))
    );
    assert_eq!(
        chat_command_from_input("/model high"),
        Some(ChatCommand::Model(ModelCommand::Change {
            model: None,
            effort: Some("high".to_string()),
        }))
    );
    assert_eq!(
        chat_command_from_input("  /model default  "),
        Some(ChatCommand::Model(ModelCommand::ResetDefault))
    );
    assert_eq!(chat_command_from_input("/modelx"), None);
}

#[test]
fn parses_only_top_level_codex_model_configuration() {
    let config = r#"
model = "gpt-5.4"
model_reasoning_effort = "xhigh"

[projects."/tmp/example"]
trust_level = "trusted"
"#;

    assert_eq!(
        parse_codex_model_from_config(config),
        Some("gpt-5.4".to_string())
    );
    assert_eq!(
        parse_codex_reasoning_effort_from_config(config),
        Some("xhigh".to_string())
    );

    let nested = r#"
[profiles.fast]
model = "gpt-5.5-mini"
"#;
    assert_eq!(parse_codex_model_from_config(nested), None);
    assert_eq!(parse_codex_reasoning_effort_from_config(nested), None);
}

#[test]
fn formats_chat_model_label_with_reasoning_effort() {
    assert_eq!(
        format_chat_model_label("gpt-5.4", Some("xhigh")),
        "gpt-5.4 · xhigh"
    );
    assert_eq!(
        resolve_chat_model_label(None, Some("high"), Some("gpt-5.4"), "default"),
        "gpt-5.4 · high"
    );
    assert_eq!(
        resolve_chat_model_label(None, None, Some("gpt-5.4"), "default"),
        "default"
    );
}

#[test]
fn model_command_takes_model_and_effort_together() {
    assert_eq!(
        chat_command_from_input("/model gpt-5.5 low"),
        Some(ChatCommand::Model(ModelCommand::Change {
            model: Some("gpt-5.5".to_string()),
            effort: Some("low".to_string()),
        }))
    );
    assert_eq!(chat_command_from_input("hello"), None);
}

#[test]
fn shell_output_reports_failures_and_stderr() {
    let output = format_shell_output("false", "", "boom\n", Some(1), false);
    assert!(output.contains("Command: `false`"));
    assert!(output.contains("boom"));
    assert!(output.contains("Exit code: 1 (failed)"));
}

#[test]
fn long_shell_output_is_truncated() {
    let long = "x".repeat(70_000);
    let truncated = truncate_shell_text(&long);
    assert!(truncated.ends_with("\n[truncated]"));
    assert_eq!(truncated.chars().count(), 64_000 + "\n[truncated]".len());
    assert_eq!(truncate_shell_text("short\n\n"), "short");
}

#[test]
fn chat_input_wraps_empty_input_to_one_line() {
    let lines = wrapped_chat_input_lines("", 4);
    assert_eq!(lines.len(), 1);
}
