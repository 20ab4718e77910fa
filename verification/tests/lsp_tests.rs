use cmdex::labels::{editor_status, lsp_loading_label, EditorMode};
use cmdex::lsp_document::{DocumentNotification, DocumentSync, DocumentSyncError};
use cmdex::lsp_session::{
    completion_status, definition_lookup_failed, definition_step, notification_status,
    send_failure_message, DefinitionStep, LspRequestKind,
};
use cmdex::lsp_framing::{frame_header, FrameError, HeaderReader, HeaderStep};
use cmdex::lsp_protocol::{
    char_column_from_utf16, definition_location, definition_path, definition_position,
    hover_contents_to_text, normalize_completion_snippet, normalize_newlines,
    parse_completion_items, summarize_hover_text, utf16_column, CompletionItem,
    CompletionTextEdit, DefinitionCandidate, DefinitionError, EditorPosition, HoverContents,
    LspPosition, LspRange,
};

fn range(start: (usize, usize), end: (usize, usize)) -> LspRange {
    LspRange {
        start: LspPosition {
            line: start.0,
            character: start.1,
        },
        end: LspPosition {
            line: end.0,
            character: end.1,
        },
    }
}

#[test]
fn lsp_hover_summary_preserves_line_breaks_and_strips_code_fences() {
    let hover = "```rust\nfn greet()\n```\n\nReturns a greeting";

    assert_eq!(
        summarize_hover_text(hover).as_deref(),
        Some("```rust\nfn greet()\n```\n\nReturns a greeting")
    );
}

#[test]
fn lsp_hover_summary_preserves_indented_code_blocks() {
    let hover = "Example:\n\n    fn greet(name: &str) -> String\n";

    assert_eq!(
        summarize_hover_text(hover).as_deref(),
        Some("Example:\n\n    fn greet(name: &str) -> String")
    );
}

#[test]
fn lsp_hover_summary_of_blank_text_is_none() {
    assert_eq!(summarize_hover_text("  \n\n "), None);
}

#[test]
fn lsp_utf16_columns_round_trip_through_unicode_text() {
    let source = "a😀b\n";
    let position = EditorPosition { row: 0, col: 2 };

    let utf16 = utf16_column(source, position);

    assert_eq!(utf16, 3);
    assert_eq!(char_column_from_utf16(source, 0, utf16), 2);
}

#[test]
fn lsp_hover_parses_marked_string_objects() {
    let hover = HoverContents::Marked {
        language: Some("rust".to_string()),
        value: "fn greet()".to_string(),
    };

    assert_eq!(
        hover_contents_to_text(&hover).as_deref(),
        Some("```rust\nfn greet()\n```")
    );
}

#[test]
fn lsp_hover_parses_hover_arrays() {
    let hover = HoverContents::Many(vec![
        HoverContents::Marked {
            language: None,
            value: "fn greet()".to_string(),
        },
        HoverContents::Text("Returns a greeting".to_string()),
    ]);

    assert_eq!(
        hover_contents_to_text(&hover).as_deref(),
        Some("fn greet()\n\nReturns a greeting")
    );
}

#[test]
fn lsp_completion_parses_text_edits_and_snippets() {
    let items = vec![CompletionItem {
        label: "greet".to_string(),
        detail: Some("fn(&str) -> String".to_string()),
        preselect: true,
        insert_text_format: Some(2),
        insert_text: None,
        text_edit: Some(CompletionTextEdit::Range {
            range: range((0, 1), (0, 4)),
            new_text: "greet(${1:name})$0".to_string(),
        }),
    }];

    let items = parse_completion_items(&items, "agre\n", EditorPosition { row: 0, col: 4 });

    assert_eq!(items.len(), 1);
    assert_eq!(items[0].label, "greet");
    assert_eq!(items[0].detail.as_deref(), Some("fn(&str) -> String"));
    assert_eq!(items[0].insert_text, "greet(name)");
    assert_eq!(items[0].replace_start, EditorPosition { row: 0, col: 1 });
    assert_eq!(items[0].replace_end, EditorPosition { row: 0, col: 4 });
    assert!(items[0].preselected);
}

#[test]
fn completion_snippets_keep_placeholder_text() {
    assert_eq!(normalize_completion_snippet("greet(${1:name})$0"), "greet(name)");
    assert_eq!(normalize_completion_snippet("a$1b${2}c"), "abc");
    assert_eq!(normalize_completion_snippet("cost \\$5"), "cost $5");
}

#[test]
fn lsp_definition_parser_converts_utf16_offsets_into_editor_columns() {
    let candidates = vec![DefinitionCandidate::Location {
        uri: "file:///tmp/cmdex-definition.rs".to_string(),
        range: range((0, 3), (0, 4)),
    }];

    let location = definition_location(&candidates).expect("location");

    assert_eq!(
        definition_path(&location),
        Ok("/tmp/cmdex-definition.rs".to_string())
    );
    assert_eq!(
        definition_position(&location, "a😀b\n"),
        EditorPosition { row: 0, col: 2 }
    );
}

#[test]
fn definition_links_use_their_selection_range() {
    let candidates = vec![DefinitionCandidate::Link {
        target_uri: "file:///tmp/x.rs".to_string(),
        target_selection_range: range((2, 5), (2, 7)),
    }];
    let location = definition_location(&candidates).expect("location");
    assert_eq!(location.line, 2);
    assert_eq!(location.character, 5);
    assert!(definition_location(&Vec::new()).is_none());
}

#[test]
fn definition_paths_reject_non_file_uris() {
    let candidates = vec![DefinitionCandidate::Location {
        uri: "https://example.com/x.rs".to_string(),
        range: range((0, 0), (0, 0)),
    }];
    let location = definition_location(&candidates).unwrap();
    assert_eq!(definition_path(&location), Err(DefinitionError::NotLocalFile));

    let candidates = vec![DefinitionCandidate::Location {
        uri: "not a uri".to_string(),
        range: range((0, 0), (0, 0)),
    }];
    let location = definition_location(&candidates).unwrap();
    assert_eq!(definition_path(&location), Err(DefinitionError::InvalidUri));
}

#[test]
fn opens_document_once_and_only_emits_changes_when_source_changes() {
    let mut sync = DocumentSync::new();
    let path = "/tmp/main.rs";

    let open = sync
        .notification_for("rust", path, "fn main() {}")
        .unwrap()
        .unwrap();
    assert!(matches!(open, DocumentNotification::Open { version: 1, .. }));

    assert!(sync
        .notification_for("rust", path, "fn main() {}")
        .unwrap()
        .is_none());

    let change = sync
        .notification_for("rust", path, "fn main() { println!(); }")
        .unwrap()
        .unwrap();
    assert!(matches!(change, DocumentNotification::Change { version: 2, .. }));
}

#[test]
fn document_notifications_carry_file_uri_and_text() {
    let mut sync = DocumentSync::new();
    let open = sync
        .notification_for("rust", "/tmp/lib.rs", "x")
        .unwrap()
        .unwrap();
    assert_eq!(
        open,
        DocumentNotification::Open {
            uri: "file:///tmp/lib.rs".to_string(),
            language_id: "rust".to_string(),
            version: 1,
            text: "x".to_string(),
        }
    );
    assert_eq!(sync.version_of("/tmp/lib.rs"), Some(1));
    assert_eq!(
        sync.notification_for("rust", "relative.rs", "x"),
        Err(DocumentSyncError::InvalidPath)
    );
    sync.clear();
    assert_eq!(sync.version_of("/tmp/lib.rs"), None);
}

#[test]
fn document_uris_are_percent_encoded_file_urls() {
    let mut sync = DocumentSync::new();
    let open = sync
        .notification_for("rust", "/tmp/a b.rs", "")
        .unwrap()
        .unwrap();
    assert!(matches!(
        open,
        DocumentNotification::Open { ref uri, .. } if uri == "file:///tmp/a%20b.rs"
    ));
}

#[test]
fn frame_header_reads_back_through_header_reader() {
    let header = frame_header(42);
    assert_eq!(header, "Content-Length: 42\r\n\r\n");

    let mut reader = HeaderReader::new();
    assert_eq!(reader.feed_line("Content-Length: 42\r\n"), HeaderStep::Continue);
    assert_eq!(
        reader.feed_line("Content-Type: application/json\r\n"),
        HeaderStep::Continue
    );
    assert_eq!(reader.feed_line("\r\n"), HeaderStep::Body(42));
}

#[test]
fn header_reader_reports_each_framing_error() {
    let mut reader = HeaderReader::new();
    assert_eq!(
        reader.feed_line(""),
        HeaderStep::Failed(FrameError::StreamClosed)
    );
    let mut reader = HeaderReader::new();
    assert_eq!(
        reader.feed_line("\r\n"),
        HeaderStep::Failed(FrameError::MissingContentLength)
    );
    let mut reader = HeaderReader::new();
    assert_eq!(
        reader.feed_line("content-length: abc\r\n"),
        HeaderStep::Failed(FrameError::InvalidContentLength)
    );
}

#[test]
fn newlines_are_normalized() {
    assert_eq!(normalize_newlines("a\r\nb\rc\n"), "a\nb\nc\n");
}

#[test]
fn definition_answers_are_reported_or_opened() {
    assert_eq!(
        definition_step(Some("boom".to_string()), true, true),
        DefinitionStep::Report("boom".to_string())
    );
    assert_eq!(
        definition_step(None, false, true),
        DefinitionStep::Report("Definition not found".to_string())
    );
    assert_eq!(
        definition_step(None, true, false),
        DefinitionStep::Report("Definition is outside the workspace.".to_string())
    );
    assert_eq!(definition_step(None, true, true), DefinitionStep::OpenTarget);
    assert_eq!(definition_lookup_failed(), "Definition lookup failed");
}

#[test]
fn completion_answers_set_the_editor_status() {
    assert_eq!(completion_status(Some("bad".to_string()), true), (Some("bad".to_string()), true));
    assert_eq!(
        completion_status(None, false),
        (Some("No completion suggestions".to_string()), false)
    );
    assert_eq!(completion_status(None, true), (None, false));
}

#[test]
fn server_messages_become_the_agent_status() {
    assert_eq!(
        notification_status("rust-analyzer", "window/showMessage", Some("indexing".to_string())),
        Some("rust-analyzer: indexing".to_string())
    );
    assert_eq!(
        notification_status("rust-analyzer", "window/logMessage", Some("x".to_string())),
        Some("rust-analyzer: x".to_string())
    );
    assert_eq!(notification_status("ra", "$/progress", Some("x".to_string())), None);
    assert_eq!(notification_status("ra", "window/showMessage", None), None);
    assert_eq!(
        send_failure_message(LspRequestKind::Hover, "ra"),
        "Failed to send hover request to ra"
    );
    assert_eq!(
        send_failure_message(LspRequestKind::Completion, "ra"),
        "Failed to send completion request to ra"
    );
}

#[test]
fn workspace_lsp_startup_activates_spinner_and_status_label() {
    assert_eq!(lsp_loading_label(true, 0, "rust-analyzer").as_deref(), Some("⠏ rust-analyzer"));
    assert_eq!(lsp_loading_label(false, 0, "rust-analyzer"), None);
}

#[test]
fn editor_status_line_shows_what_has_the_keys() {
    assert_eq!(editor_status(EditorMode::Command, "w", Some("saved"), true, true), ":w");
    assert_eq!(editor_status(EditorMode::Insert, "", Some("saved"), true, true), "saved");
    assert_eq!(editor_status(EditorMode::Insert, "", None, false, true), "SIDEBAR FOCUSED");
    assert_eq!(editor_status(EditorMode::Insert, "", None, true, true), "COMPLETION");
    assert_eq!(editor_status(EditorMode::Visual, "", None, true, false), "VISUAL");
    assert_eq!(editor_status(EditorMode::Insert, "", None, true, false), "INSERT");
    assert_eq!(editor_status(EditorMode::Normal, "", None, true, false), "NORMAL");
}
