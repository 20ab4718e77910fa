use cmdex::geometry::{
    clicked_list_row,
    completion_popover_layout, editor_position_at, inner_rect, list_offset, popover_area, popover_window, preview_content_height, rect_contains,
    scroll_position_from_row, scrollable_preview_content_height, scrollbar_thumb_bounds,
    vertical_scrollbar_metrics, vertical_scrollbar_metrics_for_viewport, Rect, ScrollbarMetrics,
};
use cmdex::labels::{
    commit_input_text, compact_text, model_label, popover_label_lines, queue_popover_lines,
    queue_preview, queue_suffix, queue_title,
    truncate_label,
};
use cmdex::codex::ModelInfo;
use cmdex::app_shell::AddAgentField;
use cmdex::layout::{
    add_agent_dialog_layout, add_agent_field_title, input_cursor, editor_panes, editor_viewport, frame_layout, git_diff_layout, shortcuts_popup_layout,
    workspace_sidebar_layout, WorkspaceSidebarTab,
};

#[test]
fn inner_rect_shrinks_by_the_border() {
    assert_eq!(inner_rect(Rect::new(2, 3, 10, 5)), Rect::new(3, 4, 8, 3));
    assert_eq!(inner_rect(Rect::new(0, 0, 1, 1)), Rect::new(1, 1, 0, 0));
    assert_eq!(Rect::new(u16::MAX - 2, 0, 10, 1).width, 2);
}

#[test]
fn rect_contains_excludes_far_edges() {
    let rect = Rect::new(2, 2, 3, 2);
    assert!(rect_contains(rect, 2, 2));
    assert!(rect_contains(rect, 4, 3));
    assert!(!rect_contains(rect, 5, 3));
    assert!(!rect_contains(rect, 4, 4));
}

#[test]
fn list_offset_keeps_selection_visible() {
    assert_eq!(list_offset(5, 10, 3), 3);
    assert_eq!(list_offset(1, 3, 5), 0);
    assert_eq!(list_offset(2, 10, 0), 0);
    assert_eq!(list_offset(0, 10, 3), 0);
}

#[test]
fn popover_window_and_area() {
    assert_eq!(popover_window(7, 10, 4), (4, 4));
    assert_eq!(popover_window(0, 10, 4), (0, 4));
    assert_eq!(popover_window(9, 3, 8), (0, 3));
    assert_eq!(popover_area(Rect::new(5, 10, 1, 1), 20, 3), Rect::new(5, 6, 20, 5));
    assert_eq!(popover_area(Rect::new(5, 1, 1, 1), 20, 3), Rect::new(5, 0, 20, 5));
}

#[test]
fn scrollbar_metrics_and_thumb() {
    assert_eq!(
        vertical_scrollbar_metrics_for_viewport(Rect::new(0, 0, 10, 5), 5),
        None
    );
    let metrics = vertical_scrollbar_metrics_for_viewport(Rect::new(0, 0, 10, 5), 20).unwrap();
    assert_eq!(
        metrics,
        ScrollbarMetrics {
            track: Rect::new(9, 0, 1, 5),
            content_length: 20,
            viewport_length: 5,
        }
    );
    assert_eq!(
        vertical_scrollbar_metrics(Rect::new(0, 0, 12, 7), 20),
        Some(metrics).map(|m| ScrollbarMetrics {
            track: Rect::new(10, 1, 1, 5),
            ..m
        })
    );
    assert_eq!(scrollbar_thumb_bounds(metrics, 0), Some((0, 1)));
    assert_eq!(scrollbar_thumb_bounds(metrics, 15), Some((4, 1)));
    assert_eq!(scrollbar_thumb_bounds(metrics, 100), Some((4, 1)));
    assert_eq!(scroll_position_from_row(metrics, 4), 15);
    assert_eq!(scroll_position_from_row(metrics, 2), 8);
    assert_eq!(scroll_position_from_row(metrics, 0), 0);
}

#[test]
fn preview_heights_count_wrapped_rows() {
    assert_eq!(preview_content_height(&vec![0, 5, 11], 5), 5);
    assert_eq!(preview_content_height(&vec![3], 0), 3);
    assert_eq!(
        scrollable_preview_content_height(&vec![10, 10, 10], Rect::new(0, 0, 7, 4)),
        9
    );
    assert_eq!(
        scrollable_preview_content_height(&vec![3], Rect::new(0, 0, 7, 4)),
        1
    );
}

#[test]
fn labels_compact_and_cut_text() {
    assert_eq!(compact_text("  a \n b\tc  ").into_iter().collect::<String>(), "a b c");
    assert_eq!(queue_preview("hello   world", 8), "hello w…");
    assert_eq!(queue_preview("hi", 8), "hi");
    assert_eq!(truncate_label("a very long label", 8), "a ver...");
    assert_eq!(truncate_label("short", 8), "short");
    assert_eq!(commit_input_text("abcdef", 3), "def");
    assert_eq!(commit_input_text("ab", 3), "ab");
    assert_eq!(queue_suffix(0), "");
    assert_eq!(
        queue_suffix(2),
        "  ·  2 queued  ·  Alt+Up/Down browse  Alt+Backspace cancel"
    );
}

#[test]
fn model_labels_show_display_name_and_id() {
    let model = ModelInfo {
        id: "m-id".to_string(),
        model: "m".to_string(),
        display_name: "M".to_string(),
        is_default: false,
        supported_reasoning_efforts: Vec::new(),
        default_reasoning_effort: None,
    };
    assert_eq!(model_label(&model), "m - M [m-id]");
}

#[test]
fn completion_popover_opens_below_the_cursor_with_a_scrollbar_for_long_lists() {
    let code_area = Rect::new(10, 5, 60, 20);
    let popover = completion_popover_layout(code_area, 12, 10, 0, 3, 4, 0, 0, 5).expect("popover");
    assert_eq!(popover.popup_area, Rect::new(20, 9, 31, 12));
    assert_eq!(popover.content_area, Rect::new(21, 10, 29, 10));
    assert_eq!(popover.text_area, Rect::new(21, 10, 28, 10));
    assert!(popover.needs_scrollbar);
    assert_eq!(popover.visible_len, 10);
    assert_eq!(popover.item_count, 12);

    let short = completion_popover_layout(code_area, 3, 10, 0, 3, 4, 0, 0, 5).expect("popover");
    assert_eq!(short.popup_area, Rect::new(20, 9, 30, 5));
    assert_eq!(short.text_area, Rect::new(21, 10, 28, 3));
    assert!(!short.needs_scrollbar);
}

#[test]
fn completion_popover_needs_room_and_a_visible_cursor() {
    assert_eq!(completion_popover_layout(Rect::new(0, 0, 15, 20), 3, 10, 0, 0, 0, 0, 0, 0), None);
    assert_eq!(completion_popover_layout(Rect::new(0, 0, 40, 3), 3, 10, 0, 0, 0, 0, 0, 0), None);
    assert_eq!(completion_popover_layout(Rect::new(0, 0, 40, 20), 3, 10, 0, 30, 0, 0, 0, 0), None);
    assert!(completion_popover_layout(Rect::new(0, 0, 40, 20), 3, 10, 0, 30, 0, 15, 0, 0).is_some());
}

#[test]
fn popover_lines_mark_the_selected_label() {
    let labels = vec!["alpha".to_string(), "beta  gamma".to_string(), "delta".to_string()];
    let lines = popover_label_lines(&labels, 1, 0, 2, 10);
    assert_eq!(
        lines,
        vec![("  alpha".to_string(), false), ("› bet...".to_string(), true)]
    );
    assert_eq!(popover_label_lines(&labels, 0, 2, 5, 20), vec![("  delta".to_string(), false)]);
    assert!(popover_label_lines(&labels, 0, 3, 5, 20).is_empty());
}

#[test]
fn queue_popover_lines_preview_each_message() {
    let texts = vec!["first  message".to_string(), "second".to_string()];
    let lines = queue_popover_lines(&texts, 0, 0, 5, 12);
    assert_eq!(
        lines,
        vec![("› first m…".to_string(), true), ("  second".to_string(), false)]
    );
    assert_eq!(queue_title(2), "Queue (2)");
}

#[test]
fn editor_cells_map_to_text_positions() {
    let viewport = Rect::new(5, 2, 20, 10);
    let at = |column, row, clamp| editor_position_at(viewport, 4, 3, 1, column, row, clamp).map(|p| (p.row, p.col));
    assert_eq!(at(12, 4, false), Some((5, 4)));
    assert_eq!(at(7, 4, false), Some((5, 0)));
    assert_eq!(at(30, 4, false), None);
    assert_eq!(at(30, 4, true), Some((5, 16)));
    assert_eq!(at(12, 0, true), Some((3, 4)));
    assert_eq!(editor_position_at(Rect::new(0, 0, 0, 5), 0, 0, 0, 0, 0, true), None);
}

#[test]
fn editor_status_row_sits_under_the_code() {
    let (code, status) = editor_panes(Rect::new(0, 0, 40, 10));
    assert_eq!(code, Rect::new(0, 0, 40, 9));
    assert_eq!(status, Some(Rect::new(0, 9, 40, 1)));
    assert_eq!(editor_panes(Rect::new(3, 3, 40, 1)), (Rect::new(3, 3, 40, 1), None));
    assert_eq!(editor_viewport(Rect::new(0, 0, 42, 12)), Rect::new(1, 1, 40, 9));
}

#[test]
fn shortcuts_popup_is_centred_with_its_close_button_at_the_bottom_right() {
    let layout = shortcuts_popup_layout(Rect::new(0, 0, 100, 24));
    assert_eq!(layout.popup_area, Rect::new(20, 4, 60, 16));
    assert_eq!(layout.content_area, Rect::new(21, 5, 58, 11));
    assert_eq!(layout.close_button_area, Rect::new(67, 16, 12, 3));
}

#[test]
fn frame_puts_tabs_on_top_and_the_sidebar_on_the_left() {
    let layout = frame_layout(Rect::new(0, 0, 120, 40), Some(5));
    assert_eq!(layout.tabs, Rect::new(0, 0, 120, 3));
    assert_eq!(layout.help, Rect::new(0, 39, 120, 1));
    assert_eq!(layout.sidebar, Rect::new(0, 3, 45, 36));
    assert_eq!(layout.main, Rect::new(45, 3, 75, 36));
    assert_eq!(layout.chat, Some(Rect::new(45, 3, 75, 31)));
    assert_eq!(layout.chat_input, Some(Rect::new(45, 34, 75, 5)));
    assert_eq!(frame_layout(Rect::new(0, 0, 120, 40), None).chat, None);
}

#[test]
fn git_diff_controls_sit_under_the_preview() {
    let layout = git_diff_layout(Rect::new(45, 3, 75, 36));
    assert_eq!(layout.sections, Rect::new(45, 3, 75, 3));
    assert_eq!(layout.preview, Rect::new(45, 6, 75, 28));
    assert_eq!(layout.commit_input, Rect::new(45, 34, 27, 3));
    assert_eq!(layout.stage_button, Rect::new(72, 34, 12, 3));
    assert_eq!(layout.discard_button, Rect::new(84, 34, 12, 3));
    assert_eq!(layout.push_button, Rect::new(96, 34, 12, 3));
    assert_eq!(layout.pull_button, Rect::new(108, 34, 12, 3));
    assert_eq!(layout.status, Rect::new(45, 37, 75, 2));
}

#[test]
fn workspace_sidebar_shows_the_search_input_on_its_search_tab() {
    let files = workspace_sidebar_layout(Rect::new(0, 3, 45, 36), WorkspaceSidebarTab::Files);
    assert_eq!(files.tabs, Rect::new(0, 3, 45, 3));
    assert_eq!(files.input, None);
    assert_eq!(files.content, Rect::new(0, 6, 45, 33));
    let search = workspace_sidebar_layout(Rect::new(0, 3, 45, 36), WorkspaceSidebarTab::Search);
    assert_eq!(search.input, Some(Rect::new(0, 6, 45, 3)));
    assert_eq!(search.content, Rect::new(0, 9, 45, 30));
}

#[test]
fn add_agent_form_stacks_its_inputs() {
    let layout = add_agent_dialog_layout(Rect::new(45, 3, 75, 36));
    assert_eq!(layout.help, Rect::new(47, 5, 71, 3));
    assert_eq!(layout.name, Rect::new(47, 8, 71, 3));
    assert_eq!(layout.workspace, Rect::new(47, 11, 71, 3));
    assert_eq!(layout.status, Rect::new(47, 14, 71, 23));
    assert_eq!(input_cursor(layout.name, 4), (52, 9));
    assert_eq!(input_cursor(Rect::new(0, 0, 6, 3), 10), (4, 1));
    assert_eq!(add_agent_field_title(AddAgentField::Name, AddAgentField::Name), "Name *");
    assert_eq!(add_agent_field_title(AddAgentField::Workspace, AddAgentField::Name), "Workspace");
}

#[test]
fn clicking_a_sidebar_list_picks_the_row_under_the_pointer() {
    let list = Rect::new(0, 0, 20, 5);
    assert_eq!(clicked_list_row(list, 5, 2, 0, 10), Some(1));
    assert_eq!(clicked_list_row(list, 5, 1, 7, 10), Some(5));
    assert_eq!(clicked_list_row(list, 5, 3, 9, 10), Some(9));
    assert_eq!(clicked_list_row(list, 5, 3, 0, 2), Some(1));
    assert_eq!(clicked_list_row(list, 5, 0, 0, 10), None);
    assert_eq!(clicked_list_row(list, 0, 2, 0, 10), None);
    assert_eq!(clicked_list_row(list, 5, 2, 0, 0), None);
}
