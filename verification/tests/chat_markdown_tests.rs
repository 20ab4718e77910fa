use cmdex::chat_markdown::{
    build_text, chat_content_height, chat_lines, chat_max_scroll, padded_chat_lines,
    render_chat_message_lines, render_markdown_lines, scrollable_text_height, wrapped_text_height,
    SpanStyle, StyledSpan, MAX_CHAT_LINES,
};
use cmdex::geometry::Rect;
use cmdex::session::{ChatMessage, MessageRole};

fn line_text(line: &[StyledSpan]) -> String {
    line.iter().map(|span| span.text.as_str()).collect()
}

fn texts(lines: &[Vec<StyledSpan>]) -> Vec<String> {
    lines.iter().map(|line| line_text(line)).collect()
}

const PLAIN: SpanStyle = SpanStyle::Text { bold: false, italic: false, crossed: false, heading: false };

#[test]
fn build_text_adds_one_blank_line_after_final_message() {
    let messages = vec![ChatMessage::new(
        MessageRole::Assistant,
        "final message".to_string(),
        None,
    )];

    let lines = build_text(&messages, "Test");
    assert_eq!(lines.len(), 3);
    assert_eq!(line_text(&lines[0]), "Test:");
    assert_eq!(line_text(&lines[1]), "final message");
    assert!(line_text(&lines[2]).is_empty());
}

#[test]
fn build_text_keeps_one_blank_line_between_messages() {
    let messages = vec![
        ChatMessage::new(MessageRole::User, "one".to_string(), None),
        ChatMessage::new(MessageRole::Assistant, "two".to_string(), None),
    ];

    let lines = build_text(&messages, "Test");
    assert_eq!(line_text(&lines[0]), "You:");
    assert_eq!(line_text(&lines[1]), "one");
    assert!(line_text(&lines[2]).is_empty());
    assert_eq!(line_text(&lines[3]), "Test:");
    assert_eq!(line_text(&lines[4]), "two");
    assert!(line_text(&lines[5]).is_empty());
}

#[test]
fn build_text_limits_rendered_lines_to_ten_thousand() {
    let mut messages = Vec::new();
    for index in 0..4_000 {
        messages.push(ChatMessage::new(
            MessageRole::Assistant,
            format!("message {index}"),
            None,
        ));
    }

    let lines = build_text(&messages, "Test");
    assert_eq!(lines.len(), 9_999);
    assert_eq!(line_text(&lines[0]), "Test:");
    assert_eq!(line_text(&lines[1]), "message 667");
    assert!(line_text(lines.last().expect("last line")).is_empty());
    assert!(lines.len() <= MAX_CHAT_LINES);
}

#[test]
fn cached_message_lines_refresh_after_text_updates() {
    let mut message = ChatMessage::new(MessageRole::Assistant, "one".to_string(), Some("item".to_string()));

    assert_eq!(line_text(&message.rendered_lines[0]), "one");
    message.append_text("\n\ntwo");
    assert_eq!(line_text(&message.rendered_lines[0]), "one");
    assert_eq!(
        line_text(message.rendered_lines.last().expect("rendered lines")),
        "two"
    );

    message.set_text("three".to_string());
    assert_eq!(message.rendered_lines.len(), 1);
    assert_eq!(line_text(&message.rendered_lines[0]), "three");
}

#[test]
fn build_text_of_an_empty_chat_says_so() {
    let lines = build_text(&Vec::new(), "Test");
    assert_eq!(texts(&lines), vec!["No messages yet."]);
}

#[test]
fn build_text_shows_streamed_text_line_by_line() {
    let mut message = ChatMessage::new(MessageRole::Assistant, "**a**".to_string(), Some("i".to_string()));
    message.append_text("\n*b*");
    let lines = build_text(&vec![message], "Agent");
    assert_eq!(texts(&lines), vec!["Agent:", "**a**", "*b*", ""]);
}

#[test]
fn chat_lines_render_each_message_with_its_author() {
    let messages = vec![
        ChatMessage::new(MessageRole::Event, "started".to_string(), None),
        ChatMessage::new(MessageRole::System, "note".to_string(), None),
        ChatMessage::new(MessageRole::Shell, "out".to_string(), None),
    ];
    let lines = chat_lines(&messages, "Agent");
    assert_eq!(texts(&lines), vec!["Event:", "started", "", "System:", "note", "", "Shell:", "out", ""]);
    assert_eq!(lines[0][0].style, SpanStyle::Role(MessageRole::Event));
    assert_eq!(texts(&chat_lines(&Vec::new(), "Agent")), vec!["No messages yet."]);
}

#[test]
fn message_lines_start_with_the_author_and_end_blank() {
    let message = ChatMessage::new(MessageRole::User, "hi".to_string(), None);
    let lines = render_chat_message_lines(&message, "Agent");
    assert_eq!(texts(&lines), vec!["You:", "hi", ""]);
    assert_eq!(lines[0][0].style, SpanStyle::Role(MessageRole::User));
}

#[test]
fn markdown_emphasis_gets_its_style() {
    let lines = render_markdown_lines("**bold** and *it* ~~gone~~");
    assert_eq!(lines.len(), 1);
    let line = &lines[0];
    assert_eq!(line_text(line), "bold and it gone");
    assert_eq!(line[0].style, SpanStyle::Text { bold: true, italic: false, crossed: false, heading: false });
    assert_eq!(line[1].style, PLAIN);
    assert_eq!(line[2].style, SpanStyle::Text { bold: false, italic: true, crossed: false, heading: false });
    assert_eq!(line[4].style, SpanStyle::Text { bold: false, italic: false, crossed: true, heading: false });
}

#[test]
fn markdown_headings_are_bold() {
    let lines = render_markdown_lines("# Title");
    assert_eq!(texts(&lines), vec!["Title"]);
    assert_eq!(lines[0][0].style, SpanStyle::Text { bold: true, italic: false, crossed: false, heading: true });
}

#[test]
fn markdown_ordered_lists_count_their_items() {
    let lines = render_markdown_lines("3. a\n4. b\n\n- c");
    assert_eq!(texts(&lines), vec!["3. a", "4. b", "- c"]);
    assert_eq!(lines[0][0].style, SpanStyle::Marker);
}

#[test]
fn markdown_fenced_code_shows_its_language() {
    let lines = render_markdown_lines("```rust\nlet x = 1;\n```");
    assert_eq!(texts(&lines), vec!["```rust", "let x = 1;"]);
    assert_eq!(lines[0][0].style, SpanStyle::Fence);
    assert_eq!(lines[1][0].style, SpanStyle::InlineCode);
}

#[test]
fn markdown_quotes_are_prefixed() {
    let lines = render_markdown_lines("> quoted");
    assert_eq!(texts(&lines), vec!["> quoted"]);
    assert_eq!(lines[0][0].style, SpanStyle::Quote);
}

#[test]
fn markdown_links_show_their_destination() {
    let lines = render_markdown_lines("[site](http://x.y)");
    assert_eq!(texts(&lines), vec!["site (http://x.y)"]);
    assert_eq!(lines[0][1].style, SpanStyle::Link);
}

#[test]
fn markdown_images_show_their_source() {
    let lines = render_markdown_lines("![alt](pic.png)");
    assert_eq!(texts(&lines), vec!["[image: pic.png]alt"]);
    assert_eq!(lines[0][0].style, SpanStyle::Image);
}

#[test]
fn markdown_rules_and_breaks() {
    assert_eq!(texts(&render_markdown_lines("a\n\n---\n\nb")), vec!["a", "---", "", "b"]);
    assert_eq!(texts(&render_markdown_lines("one\ntwo")), vec!["one two"]);
    let code = render_markdown_lines("use `x`");
    assert_eq!(texts(&code), vec!["use x"]);
    assert_eq!(code[0][1].style, SpanStyle::InlineCode);
}

#[test]
fn markdown_of_blank_text_is_one_empty_line() {
    let lines = render_markdown_lines("  \n ");
    assert_eq!(lines.len(), 1);
    assert!(lines[0].is_empty());
}

#[test]
fn render_state_bottom_aligns_short_content() {
    let messages = vec![ChatMessage::new(
        MessageRole::Assistant,
        "final message".to_string(),
        None,
    )];
    let area = Rect::new(0, 0, 20, 8);
    let lines = build_text(&messages, "Test");
    let content_height = chat_content_height(&lines, area);

    let lines = padded_chat_lines(lines, content_height, area);
    assert_eq!(lines.len(), 6);
    assert!(line_text(&lines[0]).is_empty());
    assert!(line_text(&lines[1]).is_empty());
    assert!(line_text(&lines[2]).is_empty());
    assert_eq!(line_text(&lines[3]), "Test:");
    assert_eq!(line_text(&lines[4]), "final message");
    assert!(line_text(&lines[5]).is_empty());
}

#[test]
fn max_scroll_uses_wrapped_height_for_last_message() {
    let messages = vec![ChatMessage::new(MessageRole::Assistant, "abc def ghi".to_string(), None)];
    let lines = build_text(&messages, "Test");
    let area = Rect::new(0, 0, 8, 5);

    assert_eq!(chat_max_scroll(chat_content_height(&lines, area), area), 2);
}

#[test]
fn chat_max_scroll_uses_wrapped_height_for_last_message() {
    let messages = vec![ChatMessage::new(MessageRole::Assistant, "abc def ghi".to_string(), None)];
    let lines = chat_lines(&messages, "Test");
    let area = Rect::new(0, 0, 8, 5);

    assert_eq!(chat_max_scroll(chat_content_height(&lines, area), area), 2);
}

#[test]
fn scroll_height_matches_rendered_width_without_extra_tail_space() {
    let messages = vec![ChatMessage::new(
        MessageRole::Assistant,
        "aaaaaaaaaaaaaaaaaaaaaaaaaaaaaaaa".to_string(),
        None,
    )];

    let area = Rect::new(0, 0, 10, 5);
    let lines = build_text(&messages, "Test");
    let expected = wrapped_text_height(&lines, area.width.saturating_sub(2));

    assert!(scrollable_text_height(&lines, area) > expected);
    assert_eq!(chat_content_height(&lines, area), expected);
    assert_eq!(
        chat_max_scroll(chat_content_height(&lines, area), area),
        expected.saturating_sub(area.height.saturating_sub(2) as usize) as u16
    );
}

#[test]
fn wrapped_text_height_matches_paragraph_word_wrapping() {
    let lines = vec![vec![StyledSpan { text: "abc def ghi".to_string(), style: PLAIN }]];

    assert_eq!(wrapped_text_height(&lines, 6), 3);
}

#[test]
fn tall_transcripts_get_no_padding() {
    let tall = padded_chat_lines(vec![Vec::new()], 10, Rect::new(0, 0, 8, 5));
    assert_eq!(tall.len(), 1);
    assert_eq!(chat_max_scroll(2, Rect::new(0, 0, 8, 5)), 0);
}
