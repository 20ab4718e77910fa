//! The blocks of a hover popover: the Markdown of a hover, read by
//! `pulldown-cmark`, split into paragraphs of plain text and code blocks.
use vstd::prelude::*;
use pulldown_cmark::{CodeBlockKind, Event, Options, Parser, Tag, TagEnd};
use crate::chat::opt_view;
use crate::lsp_protocol::{normalize_newlines, normalize_newlines_spec};
use crate::text::{
    chars_of, join, join_ranges, range_texts, ranges_within, split_on, split_ranges,
    string_of, string_of_range, trim, trim_range, is_ws, trim_end, trim_start, lemma_trim_end_last,
};

verus! {

#[verifier::external_type_specification]
#[verifier::external_body]
pub struct ExMarkdownEvent<'a>(pulldown_cmark::Event<'a>);

#[verifier::external_type_specification]
#[verifier::external_body]
pub struct ExMarkdownTag<'a>(pulldown_cmark::Tag<'a>);

#[verifier::external_type_specification]
#[verifier::external_body]
pub struct ExMarkdownTagEnd(pulldown_cmark::TagEnd);

/// A Markdown event as plain values: one variant for each event (and each
/// start or end of a tag) that the hover blocks tell apart.
#[derive(Debug, Clone, PartialEq, Eq)]
pub enum MdEvent {
    /// The start of a code block: the info string of a fenced block, none
    /// for an indented one.
    StartCodeBlock(Option<String>),
    StartItem,
    StartHeading,
    StartBlockQuote,
    /// The start of a list: the number of its first item for an ordered
    /// list, none for a bullet list.
    StartList(Option<u64>),
    StartEmphasis,
    StartStrong,
    StartStrikethrough,
    /// The start of a link, with its destination.
    StartLink(String),
    /// An image, with its destination.
    StartImage(String),
    StartOther,
    EndCodeBlock,
    EndList,
    EndEmphasis,
    EndStrong,
    EndStrikethrough,
    EndLink,
    EndItem,
    EndTableCell,
    EndParagraph,
    EndHeading,
    EndBlockQuote,
    EndHtmlBlock,
    EndFootnoteDefinition,
    EndDefinitionList,
    EndDefinitionListTitle,
    EndDefinitionListDefinition,
    EndTable,
    EndTableHead,
    EndTableRow,
    EndOther,
    Text(String),
    Code(String),
    InlineMath(String),
    DisplayMath(String),
    Html(String),
    InlineHtml(String),
    FootnoteReference(String),
    SoftBreak,
    HardBreak,
    Rule,
    TaskListMarker(bool),
}

/// The kind of a Markdown event, without what it carries.
#[derive(Debug, Clone, Copy, PartialEq, Eq, Structural)]
pub enum MdKind {
    StartCodeBlock,
    StartItem,
    StartHeading,
    StartBlockQuote,
    StartList,
    StartEmphasis,
    StartStrong,
    StartStrikethrough,
    StartLink,
    StartImage,
    StartOther,
    EndCodeBlock,
    EndList,
    EndEmphasis,
    EndStrong,
    EndStrikethrough,
    EndLink,
    EndItem,
    EndTableCell,
    EndParagraph,
    EndHeading,
    EndBlockQuote,
    EndHtmlBlock,
    EndFootnoteDefinition,
    EndDefinitionList,
    EndDefinitionListTitle,
    EndDefinitionListDefinition,
    EndTable,
    EndTableHead,
    EndTableRow,
    EndOther,
    Text,
    Code,
    InlineMath,
    DisplayMath,
    Html,
    InlineHtml,
    FootnoteReference,
    SoftBreak,
    HardBreak,
    Rule,
    TaskListMarker,
}

/// A Markdown event as plain values: its kind, the text it carries (for a
/// code block start, its info string; for a link or an image, its
/// destination), whether a task is checked, and the first number of an
/// ordered list.
pub type MdEventView = (MdKind, Option<Seq<char>>, bool, Option<u64>);

impl View for MdEvent {
    type V = MdEventView;

    open spec fn view(&self) -> MdEventView {
        match self {
            MdEvent::StartCodeBlock(info) => (MdKind::StartCodeBlock, opt_view(*info), false, None),
            MdEvent::StartItem => (MdKind::StartItem, None, false, None),
            MdEvent::StartHeading => (MdKind::StartHeading, None, false, None),
            MdEvent::StartBlockQuote => (MdKind::StartBlockQuote, None, false, None),
            MdEvent::StartList(start) => (MdKind::StartList, None, false, *start),
            MdEvent::StartEmphasis => (MdKind::StartEmphasis, None, false, None),
            MdEvent::StartStrong => (MdKind::StartStrong, None, false, None),
            MdEvent::StartStrikethrough => (MdKind::StartStrikethrough, None, false, None),
            MdEvent::StartLink(dest) => (MdKind::StartLink, Some(dest@), false, None),
            MdEvent::StartImage(dest) => (MdKind::StartImage, Some(dest@), false, None),
            MdEvent::StartOther => (MdKind::StartOther, None, false, None),
            MdEvent::EndCodeBlock => (MdKind::EndCodeBlock, None, false, None),
            MdEvent::EndList => (MdKind::EndList, None, false, None),
            MdEvent::EndEmphasis => (MdKind::EndEmphasis, None, false, None),
            MdEvent::EndStrong => (MdKind::EndStrong, None, false, None),
            MdEvent::EndStrikethrough => (MdKind::EndStrikethrough, None, false, None),
            MdEvent::EndLink => (MdKind::EndLink, None, false, None),
            MdEvent::EndItem => (MdKind::EndItem, None, false, None),
            MdEvent::EndTableCell => (MdKind::EndTableCell, None, false, None),
            MdEvent::EndParagraph => (MdKind::EndParagraph, None, false, None),
            MdEvent::EndHeading => (MdKind::EndHeading, None, false, None),
            MdEvent::EndBlockQuote => (MdKind::EndBlockQuote, None, false, None),
            MdEvent::EndHtmlBlock => (MdKind::EndHtmlBlock, None, false, None),
            MdEvent::EndFootnoteDefinition => (MdKind::EndFootnoteDefinition, None, false, None),
            MdEvent::EndDefinitionList => (MdKind::EndDefinitionList, None, false, None),
            MdEvent::EndDefinitionListTitle => (MdKind::EndDefinitionListTitle, None, false, None),
            MdEvent::EndDefinitionListDefinition => (MdKind::EndDefinitionListDefinition, None, false, None),
            MdEvent::EndTable => (MdKind::EndTable, None, false, None),
            MdEvent::EndTableHead => (MdKind::EndTableHead, None, false, None),
            MdEvent::EndTableRow => (MdKind::EndTableRow, None, false, None),
            MdEvent::EndOther => (MdKind::EndOther, None, false, None),
            MdEvent::Text(s) => (MdKind::Text, Some(s@), false, None),
            MdEvent::Code(s) => (MdKind::Code, Some(s@), false, None),
            MdEvent::InlineMath(s) => (MdKind::InlineMath, Some(s@), false, None),
            MdEvent::DisplayMath(s) => (MdKind::DisplayMath, Some(s@), false, None),
            MdEvent::Html(s) => (MdKind::Html, Some(s@), false, None),
            MdEvent::InlineHtml(s) => (MdKind::InlineHtml, Some(s@), false, None),
            MdEvent::FootnoteReference(s) => (MdKind::FootnoteReference, Some(s@), false, None),
            MdEvent::SoftBreak => (MdKind::SoftBreak, None, false, None),
            MdEvent::HardBreak => (MdKind::HardBreak, None, false, None),
            MdEvent::Rule => (MdKind::Rule, None, false, None),
            MdEvent::TaskListMarker(checked) => (MdKind::TaskListMarker, None, *checked, None),
        }
    }
}

/// The events of a list as plain values.
pub open spec fn events_view(events: Seq<MdEvent>) -> Seq<MdEventView> {
    events.map_values(|e: MdEvent| e@)
}

/// Which of `pulldown-cmark`'s extensions a reading turns on.
#[derive(Debug, Clone, Copy, PartialEq, Eq, Structural)]
pub enum MdExtensions {
    /// Every extension (`Options::all()`).
    All,
    /// Strikethrough alone (`Options::ENABLE_STRIKETHROUGH`).
    Strikethrough,
}

/// The events `pulldown-cmark` reads from a Markdown text with the given
/// extensions on.
pub uninterp spec fn markdown_events_of(text: Seq<char>, extensions: MdExtensions) -> Seq<MdEventView>;

/// Converts the start of a tag (`pulldown_cmark::Tag`), first part.
#[verifier::external_body]
fn md_start(tag: Tag<'_>) -> MdEvent {
    match tag {
        Tag::CodeBlock(CodeBlockKind::Fenced(info)) => MdEvent::StartCodeBlock(Some(info.into_string())),
        Tag::CodeBlock(CodeBlockKind::Indented) => MdEvent::StartCodeBlock(None),
        Tag::Item => MdEvent::StartItem,
        Tag::Heading { .. } => MdEvent::StartHeading,
        Tag::BlockQuote(_) => MdEvent::StartBlockQuote,
        Tag::List(start) => MdEvent::StartList(start),
        other => md_start_rest(other),
    }
}

/// Converts the start of a tag (`pulldown_cmark::Tag`), second part.
#[verifier::external_body]
fn md_start_rest(tag: Tag<'_>) -> MdEvent {
    match tag {
        Tag::Emphasis => MdEvent::StartEmphasis,
        Tag::Strong => MdEvent::StartStrong,
        Tag::Strikethrough => MdEvent::StartStrikethrough,
        Tag::Link { dest_url, .. } => MdEvent::StartLink(dest_url.into_string()),
        Tag::Image { dest_url, .. } => MdEvent::StartImage(dest_url.into_string()),
        _ => MdEvent::StartOther,
    }
}

/// Converts the end of a tag (`pulldown_cmark::TagEnd`), first part.
#[verifier::external_body]
fn md_end(tag: TagEnd) -> MdEvent {
    match tag {
        TagEnd::CodeBlock => MdEvent::EndCodeBlock,
        TagEnd::Item => MdEvent::EndItem,
        TagEnd::TableCell => MdEvent::EndTableCell,
        TagEnd::Paragraph => MdEvent::EndParagraph,
        TagEnd::Heading(_) => MdEvent::EndHeading,
        TagEnd::BlockQuote(_) => MdEvent::EndBlockQuote,
        TagEnd::HtmlBlock => MdEvent::EndHtmlBlock,
        other => md_end_rest(other),
    }
}

/// Converts the end of a tag (`pulldown_cmark::TagEnd`), second part.
#[verifier::external_body]
fn md_end_rest(tag: TagEnd) -> MdEvent {
    match tag {
        TagEnd::FootnoteDefinition => MdEvent::EndFootnoteDefinition,
        TagEnd::DefinitionList => MdEvent::EndDefinitionList,
        TagEnd::DefinitionListTitle => MdEvent::EndDefinitionListTitle,
        TagEnd::DefinitionListDefinition => MdEvent::EndDefinitionListDefinition,
        TagEnd::Table => MdEvent::EndTable,
        TagEnd::TableHead => MdEvent::EndTableHead,
        TagEnd::TableRow => MdEvent::EndTableRow,
        other => md_end_inline(other),
    }
}

/// Converts the end of a tag (`pulldown_cmark::TagEnd`), third part.
#[verifier::external_body]
fn md_end_inline(tag: TagEnd) -> MdEvent {
    match tag {
        TagEnd::List(_) => MdEvent::EndList,
        TagEnd::Emphasis => MdEvent::EndEmphasis,
        TagEnd::Strong => MdEvent::EndStrong,
        TagEnd::Strikethrough => MdEvent::EndStrikethrough,
        TagEnd::Link => MdEvent::EndLink,
        _ => MdEvent::EndOther,
    }
}

/// Converts one event (`pulldown_cmark::Event`), moving its text out.
#[verifier::external_body]
fn md_event(event: Event<'_>) -> MdEvent {
    match event {
        Event::Start(tag) => md_start(tag),
        Event::End(tag) => md_end(tag),
        Event::Text(s) => MdEvent::Text(s.into_string()),
        Event::Code(s) => MdEvent::Code(s.into_string()),
        Event::InlineMath(s) => MdEvent::InlineMath(s.into_string()),
        Event::DisplayMath(s) => MdEvent::DisplayMath(s.into_string()),
        Event::Html(s) => MdEvent::Html(s.into_string()),
        Event::InlineHtml(s) => MdEvent::InlineHtml(s.into_string()),
        Event::FootnoteReference(s) => MdEvent::FootnoteReference(s.into_string()),
        Event::SoftBreak => MdEvent::SoftBreak,
        Event::HardBreak => MdEvent::HardBreak,
        Event::Rule => MdEvent::Rule,
        Event::TaskListMarker(checked) => MdEvent::TaskListMarker(checked),
    }
}

/// The events of a Markdown text, read by `pulldown_cmark::Parser::new_ext`
/// with the given extensions. What the parser reads is named, not restated.
#[verifier::external_body]
pub(crate) fn markdown_events(text: &str, extensions: MdExtensions) -> (r: Vec<MdEvent>)
    ensures
        events_view(r@) == markdown_events_of(text@, extensions),
{
    let options = match extensions {
        MdExtensions::All => Options::all(),
        MdExtensions::Strikethrough => Options::ENABLE_STRIKETHROUGH,
    };
    Parser::new_ext(text, options).map(md_event).collect()
}

/// A block of a hover popover.
#[derive(Debug, Clone, PartialEq, Eq)]
pub enum HoverBlock {
    /// Plain text, one paragraph line per line.
    Text(String),
    /// Code, in a language when the block named one.
    Code { language: Option<String>, text: String },
}

/// A block as plain values: whether it is code, its language and its text.
pub type BlockView = (bool, Option<Seq<char>>, Seq<char>);

impl View for HoverBlock {
    type V = BlockView;

    open spec fn view(&self) -> BlockView {
        match self {
            HoverBlock::Text(t) => (false, None, t@),
            HoverBlock::Code { language, text } => (true, opt_view(*language), text@),
        }
    }
}

/// The blocks of a list as plain values.
pub open spec fn blocks_view(blocks: Seq<HoverBlock>) -> Seq<BlockView> {
    blocks.map_values(|b: HoverBlock| b@)
}

/// `s` without its trailing line breaks (`'\n'` and `'\r'`).
pub open spec fn trim_end_newlines(s: Seq<char>) -> Seq<char>
    decreases s.len(),
{
    if s.len() > 0 && (s.last() == '\n' || s.last() == '\r') {
        trim_end_newlines(s.drop_last())
    } else {
        s
    }
}

/// `s` without its trailing line breaks and spaces.
pub open spec fn trim_end_breaks(s: Seq<char>) -> Seq<char>
    decreases s.len(),
{
    if s.len() > 0 && (s.last() == '\n' || s.last() == ' ') {
        trim_end_breaks(s.drop_last())
    } else {
        s
    }
}

/// `s` ends with `suffix`.
pub open spec fn ends_with(s: Seq<char>, suffix: Seq<char>) -> bool {
    suffix.len() <= s.len() && s.skip(s.len() - suffix.len()) == suffix
}

/// A line break, unless the text already ends with one.
pub open spec fn append_newline(text: Seq<char>) -> Seq<char> {
    if ends_with(text, seq!['\n']) {
        text
    } else {
        text.push('\n')
    }
}

/// The end of a paragraph: a blank text is emptied; otherwise its trailing
/// breaks and spaces give way to one blank line.
pub open spec fn paragraph_break(text: Seq<char>) -> Seq<char> {
    if trim(text).len() == 0 {
        Seq::empty()
    } else {
        let t = trim_end_breaks(text);
        if ends_with(t, "\n\n"@) {
            t
        } else {
            t + "\n\n"@
        }
    }
}

/// The start of a list item: a `- ` bullet, on a line of its own unless the
/// text is empty or ends with a break or a space.
pub open spec fn item_prefix(text: Seq<char>) -> Seq<char> {
    let t = if text.len() > 0 && !(text.last() == '\n' || text.last() == ' ') {
        text.push('\n')
    } else {
        text
    };
    t + "- "@
}

/// The language of a fenced code block: its trimmed info string, none when
/// blank.
pub open spec fn language_of(info: Option<Seq<char>>) -> Option<Seq<char>> {
    match info {
        Some(i) => if trim(i).len() > 0 {
            Some(trim(i))
        } else {
            None
        },
        None => None,
    }
}

/// The trimmed lines of a text, with each run of blank lines made one
/// blank line and blank lines at the start dropped; and whether the last
/// line was blank.
pub open spec fn collapse_blank_lines(ls: Seq<Seq<char>>) -> (Seq<Seq<char>>, bool)
    decreases ls.len(),
{
    if ls.len() == 0 {
        (Seq::empty(), false)
    } else {
        let (acc, previous_blank) = collapse_blank_lines(ls.drop_last());
        let t = trim(ls.last());
        if t.len() == 0 {
            (
                if !previous_blank && acc.len() > 0 {
                    acc.push(Seq::empty())
                } else {
                    acc
                },
                true,
            )
        } else {
            (acc.push(t), false)
        }
    }
}

/// `ls` without its trailing empty lines.
pub open spec fn drop_trailing_blank(ls: Seq<Seq<char>>) -> Seq<Seq<char>>
    decreases ls.len(),
{
    if ls.len() > 0 && ls.last().len() == 0 {
        drop_trailing_blank(ls.drop_last())
    } else {
        ls
    }
}

/// The text of a text block: the lines of `text` (any line ending), trimmed,
/// with runs of blank lines made one and blank lines at both ends dropped;
/// none when nothing is left.
pub open spec fn text_block_spec(text: Seq<char>) -> Option<Seq<char>> {
    let ls = drop_trailing_blank(collapse_blank_lines(split_on(normalize_newlines_spec(text), '\n')).0);
    if ls.len() == 0 {
        None
    } else {
        Some(join(ls, "\n"@))
    }
}

/// The text of a code block: without its trailing line breaks; none when
/// nothing is left.
pub open spec fn code_block_spec(code: Seq<char>) -> Option<Seq<char>> {
    let t = trim_end_newlines(code);
    if t.len() == 0 {
        None
    } else {
        Some(t)
    }
}

/// The blocks with the pending text added as a block, if it makes one.
pub open spec fn push_text_block(blocks: Seq<BlockView>, text: Seq<char>) -> Seq<BlockView> {
    match text_block_spec(text) {
        Some(t) => blocks.push((false, None, t)),
        None => blocks,
    }
}

/// The blocks with a code block added, if the code makes one.
pub open spec fn push_code_block(blocks: Seq<BlockView>, language: Option<Seq<char>>, code: Seq<char>) -> Seq<
    BlockView,
> {
    match code_block_spec(code) {
        Some(t) => blocks.push((true, language, t)),
        None => blocks,
    }
}

/// The state of the reading: the blocks so far, the pending text, the code
/// of an open code block and its language.
pub type HoverState = (Seq<BlockView>, Seq<char>, Option<Seq<char>>, Option<Seq<char>>);

/// Whether an event ends a block of text (a paragraph, heading, quote,
/// HTML block, footnote, definition list part or table part).
pub open spec fn ends_text_block(kind: MdKind) -> bool {
    ||| kind == MdKind::EndParagraph
    ||| kind == MdKind::EndHeading
    ||| kind == MdKind::EndBlockQuote
    ||| kind == MdKind::EndHtmlBlock
    ||| kind == MdKind::EndFootnoteDefinition
    ||| kind == MdKind::EndDefinitionList
    ||| kind == MdKind::EndDefinitionListTitle
    ||| kind == MdKind::EndDefinitionListDefinition
    ||| kind == MdKind::EndTable
    ||| kind == MdKind::EndTableHead
    ||| kind == MdKind::EndTableRow
}

/// Whether an event carries text that is copied as it is.
pub open spec fn copies_text(kind: MdKind) -> bool {
    ||| kind == MdKind::Text
    ||| kind == MdKind::Code
    ||| kind == MdKind::InlineMath
    ||| kind == MdKind::DisplayMath
    ||| kind == MdKind::Html
    ||| kind == MdKind::InlineHtml
}

/// What one event does to the reading. Inside a code block only text and
/// breaks count, and they go to the code as they are.
pub open spec fn hover_step(s: HoverState, e: MdEventView) -> HoverState {
    let (blocks, text, code, language) = s;
    let (kind, payload, checked, _) = e;
    let in_code = code is Some;
    if kind == MdKind::StartCodeBlock {
        (push_text_block(blocks, text), Seq::empty(), Some(Seq::empty()), language_of(payload))
    } else if kind == MdKind::EndCodeBlock {
        match code {
            Some(c) => (push_code_block(blocks, language, c), text, None, None),
            None => s,
        }
    } else if copies_text(kind) {
        let t = match payload {
            Some(t) => t,
            None => Seq::empty(),
        };
        match code {
            Some(c) => (blocks, text, Some(c + t), language),
            None => (blocks, text + t, code, language),
        }
    } else if kind == MdKind::SoftBreak || kind == MdKind::HardBreak {
        match code {
            Some(c) => (blocks, text, Some(c.push('\n')), language),
            None => (blocks, append_newline(text), code, language),
        }
    } else if in_code {
        s
    } else if kind == MdKind::Rule || ends_text_block(kind) {
        (blocks, paragraph_break(text), code, language)
    } else if kind == MdKind::StartItem {
        (blocks, item_prefix(text), code, language)
    } else if kind == MdKind::EndItem {
        (blocks, append_newline(text), code, language)
    } else if kind == MdKind::EndTableCell {
        (blocks, text.push(' '), code, language)
    } else if kind == MdKind::TaskListMarker {
        (blocks, text + (if checked { "[x] "@ } else { "[ ] "@ }), code, language)
    } else {
        s
    }
}

/// The state after the first `n` events.
pub open spec fn hover_fold(events: Seq<MdEventView>, n: int) -> HoverState
    decreases n,
{
    if n <= 0 {
        (Seq::empty(), Seq::empty(), None, None)
    } else {
        hover_step(hover_fold(events, n - 1), events[n - 1])
    }
}

/// The blocks of a hover: the events read in order, then a code block left
/// open and the pending text added as blocks.
pub open spec fn hover_blocks_spec(events: Seq<MdEventView>) -> Seq<BlockView> {
    let (blocks, text, code, language) = hover_fold(events, events.len() as int);
    let with_code = match code {
        Some(c) => push_code_block(blocks, language, c),
        None => blocks,
    };
    push_text_block(with_code, text)
}

/// A block that shows something: its text is not empty, a text block does
/// not end in white space and a code block not in a line break.
pub open spec fn shows_something(b: BlockView) -> bool {
    &&& b.2.len() > 0
    &&& if b.0 {
        b.2.last() != '\n' && b.2.last() != '\r'
    } else {
        !is_ws(b.2.last())
    }
}

proof fn lemma_trim_end_newlines_last(s: Seq<char>)
    ensures
        trim_end_newlines(s).len() > 0 ==> trim_end_newlines(s).last() != '\n' && trim_end_newlines(
            s,
        ).last() != '\r',
    decreases s.len(),
{
    if s.len() > 0 && (s.last() == '\n' || s.last() == '\r') {
        lemma_trim_end_newlines_last(s.drop_last());
    }
}

proof fn lemma_collapse_lines(ls: Seq<Seq<char>>)
    ensures
        forall|k: int|
            0 <= k < collapse_blank_lines(ls).0.len() ==> (#[trigger] collapse_blank_lines(ls).0[k]).len()
                == 0 || !is_ws(collapse_blank_lines(ls).0[k].last()),
    decreases ls.len(),
{
    if ls.len() > 0 {
        lemma_collapse_lines(ls.drop_last());
        lemma_trim_end_last(trim_start(ls.last()));
        let prev = collapse_blank_lines(ls.drop_last()).0;
        let r = collapse_blank_lines(ls).0;
        assert forall|k: int| 0 <= k < r.len() implies (#[trigger] r[k]).len() == 0 || !is_ws(r[k].last()) by {
            if k < prev.len() {
                assert(r[k] == prev[k]);
            }
        }
    }
}

proof fn lemma_drop_trailing_blank(ls: Seq<Seq<char>>)
    ensures
        drop_trailing_blank(ls).len() <= ls.len(),
        forall|k: int| 0 <= k < drop_trailing_blank(ls).len() ==> #[trigger] drop_trailing_blank(ls)[k] == ls[k],
        drop_trailing_blank(ls).len() > 0 ==> drop_trailing_blank(ls).last().len() > 0,
    decreases ls.len(),
{
    if ls.len() > 0 && ls.last().len() == 0 {
        lemma_drop_trailing_blank(ls.drop_last());
    }
}

proof fn lemma_join_last(ws: Seq<Seq<char>>, sep: Seq<char>)
    requires
        ws.len() > 0,
        ws.last().len() > 0,
    ensures
        join(ws, sep).len() > 0,
        join(ws, sep).last() == ws.last().last(),
{
    if ws.len() > 1 {
        let j = join(ws.drop_last(), sep) + sep;
        assert((j + ws.last()).last() == ws.last().last());
    }
}

proof fn lemma_text_block_shows(text: Seq<char>)
    ensures
        text_block_spec(text) matches Some(t) ==> shows_something((false, None, t)),
{
    let ls0 = collapse_blank_lines(split_on(normalize_newlines_spec(text), '\n')).0;
    let ls = drop_trailing_blank(ls0);
    lemma_collapse_lines(split_on(normalize_newlines_spec(text), '\n'));
    lemma_drop_trailing_blank(ls0);
    if ls.len() > 0 {
        assert(ls.last() == ls0[ls.len() - 1]);
        lemma_join_last(ls, "\n"@);
    }
}

proof fn lemma_code_block_shows(language: Option<Seq<char>>, code: Seq<char>)
    ensures
        code_block_spec(code) matches Some(t) ==> shows_something((true, language, t)),
{
    lemma_trim_end_newlines_last(code);
}

proof fn lemma_hover_fold_shows(events: Seq<MdEventView>, n: int)
    ensures
        forall|k: int|
            0 <= k < hover_fold(events, n).0.len() ==> shows_something(#[trigger] hover_fold(events, n).0[k]),
    decreases n,
{
    if n > 0 {
        lemma_hover_fold_shows(events, n - 1);
        let s = hover_fold(events, n - 1);
        let (blocks, text, code, language) = s;
        lemma_text_block_shows(text);
        match code {
            Some(c) => lemma_code_block_shows(language, c),
            None => {},
        }
        let r = hover_fold(events, n).0;
        assert forall|k: int| 0 <= k < r.len() implies shows_something(#[trigger] r[k]) by {
            if k < blocks.len() {
                assert(r[k] == blocks[k]);
            }
        }
    }
}

/// Every block of a hover shows something: no block is empty, a text
/// block never ends in white space (its lines are trimmed and blank lines
/// at its end are dropped) and a code block never in a line break.
pub proof fn law_hover_blocks_show_something(events: Seq<MdEventView>)
    ensures
        forall|k: int|
            0 <= k < hover_blocks_spec(events).len() ==> shows_something(#[trigger] hover_blocks_spec(events)[k]),
{
    let n = events.len() as int;
    lemma_hover_fold_shows(events, n);
    let (blocks, text, code, language) = hover_fold(events, n);
    let with_code = match code {
        Some(c) => push_code_block(blocks, language, c),
        None => blocks,
    };
    match code {
        Some(c) => lemma_code_block_shows(language, c),
        None => {},
    }
    assert forall|k: int| 0 <= k < with_code.len() implies shows_something(#[trigger] with_code[k]) by {
        if k < blocks.len() {
            assert(with_code[k] == blocks[k]);
        }
    }
    lemma_text_block_shows(text);
    let r = hover_blocks_spec(events);
    assert forall|k: int| 0 <= k < r.len() implies shows_something(#[trigger] r[k]) by {
        if k < with_code.len() {
            assert(r[k] == with_code[k]);
        }
    }
}

proof fn lemma_blocks_view_push(v: Seq<HoverBlock>, b: HoverBlock)
    ensures
        blocks_view(v.push(b)) =~= blocks_view(v).push(b@),
{
    assert forall|k: int| 0 <= k < v.len() + 1 implies #[trigger] blocks_view(v.push(b))[k]
        == blocks_view(v).push(b@)[k] by {
        if k < v.len() {
            assert(v.push(b)[k] == v[k]);
        }
    }
}

/// Whether `v` ends with the characters of `suffix`.
fn vec_ends_with(v: &Vec<char>, suffix: &Vec<char>) -> (r: bool)
    ensures
        r == ends_with(v@, suffix@),
{
    if suffix.len() > v.len() {
        return false;
    }
    let start = v.len() - suffix.len();
    let mut k: usize = 0;
    while k < suffix.len()
        invariant
            start + suffix@.len() == v@.len(),
            v@.len() <= usize::MAX,
            0 <= k <= suffix@.len(),
            forall|j: int| 0 <= j < k ==> v@[start + j] == suffix@[j],
        decreases suffix@.len() - k,
    {
        if v[start + k] != suffix[k] {
            assert(v@.skip(start as int)[k as int] != suffix@[k as int]);
            return false;
        }
        k += 1;
    }
    assert(v@.skip(start as int) =~= suffix@);
    true
}

/// Appends the characters of `s` to `v`.
fn append_chars(v: &mut Vec<char>, s: &str)
    ensures
        final(v)@ == old(v)@ + s@,
{
    let c = chars_of(s);
    let mut k: usize = 0;
    while k < c.len()
        invariant
            0 <= k <= c@.len(),
            v@ == old(v)@ + c@.take(k as int),
            c@ == s@,
        decreases c@.len() - k,
    {
        v.push(c[k]);
        k += 1;
        assert(v@ =~= old(v)@ + c@.take(k as int));
    }
    assert(c@.take(k as int) =~= c@);
}

/// Adds a line break unless the text ends with one.
fn add_newline(text: &mut Vec<char>)
    ensures
        final(text)@ == append_newline(old(text)@),
{
    let nl = vec!['\n'];
    assert(nl@ =~= seq!['\n']);
    if !vec_ends_with(text, &nl) {
        text.push('\n');
    }
}

/// Ends a paragraph of the pending text (see `paragraph_break`).
fn add_paragraph_break(text: &mut Vec<char>)
    ensures
        final(text)@ == paragraph_break(old(text)@),
{
    let (a, b) = trim_range(text, 0, text.len());
    assert(text@.subrange(0, text@.len() as int) =~= text@);
    if a == b {
        *text = Vec::new();
        return;
    }
    while text.len() > 0 && (text[text.len() - 1] == '\n' || text[text.len() - 1] == ' ')
        invariant
            trim_end_breaks(text@) == trim_end_breaks(old(text)@),
        decreases text@.len(),
    {
        let ghost before = text@;
        text.pop();
        assert(text@ =~= before.drop_last());
    }
    let two = vec!['\n', '\n'];
    if !vec_ends_with(text, &two) {
        text.push('\n');
        text.push('\n');
        assert(text@ =~= trim_end_breaks(old(text)@) + "\n\n"@) by {
            reveal_strlit("\n\n");
        }
    }
    proof {
        reveal_strlit("\n\n");
        assert(two@ =~= "\n\n"@);
    }
}

/// Starts a list item in the pending text (see `item_prefix`).
fn add_item_prefix(text: &mut Vec<char>)
    ensures
        final(text)@ == item_prefix(old(text)@),
{
    if text.len() > 0 && !(text[text.len() - 1] == '\n' || text[text.len() - 1] == ' ') {
        text.push('\n');
    }
    append_chars(text, "- ");
}

/// The language of a code block from its info string.
fn language_from_info(info: &Option<String>) -> (r: Option<String>)
    ensures
        opt_view(r) == language_of(opt_view(*info)),
{
    match info {
        Some(i) => {
            let v = chars_of(i.as_str());
            let (a, b) = trim_range(&v, 0, v.len());
            assert(v@.subrange(0, v@.len() as int) =~= v@);
            if a < b {
                Some(string_of_range(&v, a, b))
            } else {
                None
            }
        },
        None => None,
    }
}

/// The text of a text block (see `text_block_spec`).
fn text_block(text: &Vec<char>) -> (r: Option<String>)
    ensures
        opt_view(r) == text_block_spec(text@),
{
    let s = string_of(text);
    let n = normalize_newlines(s.as_str());
    let v = chars_of(n.as_str());
    let pieces = split_ranges(&v, 0, v.len(), '\n');
    assert(v@.subrange(0, v@.len() as int) =~= v@);
    let ghost ls = split_on(v@, '\n');
    let mut kept: Vec<(usize, usize)> = Vec::new();
    let mut previous_blank = false;
    let mut k: usize = 0;
    while k < pieces.len()
        invariant
            0 <= k <= pieces@.len(),
            ranges_within(pieces@, 0, v@.len() as int),
            range_texts(v@, pieces@) == ls,
            ranges_within(kept@, 0, v@.len() as int),
            (range_texts(v@, kept@), previous_blank) == collapse_blank_lines(ls.take(k as int)),
        decreases pieces@.len() - k,
    {
        let (a, b) = pieces[k];
        assert(0 <= pieces@[k as int].0 <= pieces@[k as int].1 <= v@.len());
        let (ta, tb) = trim_range(&v, a, b);
        assert(ls.take(k + 1).drop_last() =~= ls.take(k as int));
        assert(ls.take(k + 1).last() == v@.subrange(a as int, b as int));
        let ghost before = range_texts(v@, kept@);
        if ta == tb {
            if !previous_blank && kept.len() > 0 {
                assert(v@.subrange(ta as int, ta as int) =~= Seq::<char>::empty());
                kept.push((ta, ta));
                assert(range_texts(v@, kept@) =~= before.push(Seq::empty()));
            }
            previous_blank = true;
        } else {
            kept.push((ta, tb));
            assert(range_texts(v@, kept@) =~= before.push(v@.subrange(ta as int, tb as int)));
            previous_blank = false;
        }
        k += 1;
    }
    assert(ls.take(k as int) =~= ls);
    let ghost collapsed = range_texts(v@, kept@);
    while kept.len() > 0 && kept[kept.len() - 1].0 == kept[kept.len() - 1].1
        invariant
            ranges_within(kept@, 0, v@.len() as int),
            drop_trailing_blank(range_texts(v@, kept@)) == drop_trailing_blank(collapsed),
        decreases kept@.len(),
    {
        let ghost before = range_texts(v@, kept@);
        assert(before.last().len() == 0);
        kept.pop();
        assert(range_texts(v@, kept@) =~= before.drop_last());
    }
    let ghost rest = range_texts(v@, kept@);
    assert(rest.len() > 0 ==> rest.last().len() > 0);
    assert(drop_trailing_blank(rest) == rest);
    if kept.len() == 0 {
        None
    } else {
        let sep = vec!['\n'];
        proof {
            reveal_strlit("\n");
            assert(sep@ =~= "\n"@);
        }
        Some(join_ranges(&v, &kept, &sep))
    }
}

/// The text of a code block (see `code_block_spec`).
fn code_block(code: &Vec<char>) -> (r: Option<String>)
    ensures
        opt_view(r) == code_block_spec(code@),
{
    let mut end = code.len();
    assert(code@.take(code@.len() as int) =~= code@);
    while end > 0 && (code[end - 1] == '\n' || code[end - 1] == '\r')
        invariant
            0 <= end <= code@.len(),
            trim_end_newlines(code@.take(end as int)) == trim_end_newlines(code@),
        decreases end,
    {
        assert(code@.take(end - 1) =~= code@.take(end as int).drop_last());
        end -= 1;
    }
    assert(code@.take(code@.len() as int) =~= code@);
    assert(trim_end_newlines(code@.take(end as int)) == code@.take(end as int));
    if end == 0 {
        None
    } else {
        assert(code@.subrange(0, end as int) =~= code@.take(end as int));
        Some(string_of_range(code, 0, end))
    }
}

/// Adds the pending text to the blocks as a block, if it makes one, and
/// empties it.
fn flush_text(blocks: &mut Vec<HoverBlock>, text: &mut Vec<char>)
    ensures
        blocks_view(final(blocks)@) == push_text_block(blocks_view(old(blocks)@), old(text)@),
        final(text)@ == Seq::<char>::empty(),
{
    match text_block(text) {
        Some(t) => {
            let ghost before = blocks@;
            blocks.push(HoverBlock::Text(t));
            proof {
                lemma_blocks_view_push(before, blocks@.last());
            }
        },
        None => {},
    }
    *text = Vec::new();
}

/// Adds a code block to the blocks, if the code makes one.
fn flush_code(blocks: &mut Vec<HoverBlock>, language: Option<String>, code: &Vec<char>)
    ensures
        blocks_view(final(blocks)@) == push_code_block(blocks_view(old(blocks)@), opt_view(language), code@),
{
    match code_block(code) {
        Some(t) => {
            let ghost before = blocks@;
            let ghost lang = opt_view(language);
            blocks.push(HoverBlock::Code { language, text: t });
            proof {
                lemma_blocks_view_push(before, blocks@.last());
            }
        },
        None => {},
    }
}

/// The code view of an optional buffer.
pub open spec fn code_view(code: Option<Vec<char>>) -> Option<Seq<char>> {
    match code {
        Some(c) => Some(c@),
        None => None,
    }
}

/// Reads one event (see `hover_step`).
fn read_event(
    blocks: &mut Vec<HoverBlock>,
    text: &mut Vec<char>,
    code: &mut Option<Vec<char>>,
    language: &mut Option<String>,
    event: &MdEvent,
)
    ensures
        (blocks_view(final(blocks)@), final(text)@, code_view(*final(code)), opt_view(*final(language)))
            == hover_step(
            (blocks_view(old(blocks)@), old(text)@, code_view(*old(code)), opt_view(*old(language))),
            event@,
        ),
{
    match event {
        MdEvent::StartCodeBlock(info) => {
            flush_text(blocks, text);
            *code = Some(Vec::new());
            *language = language_from_info(info);
        },
        MdEvent::EndCodeBlock => {
            if code.is_some() {
                let c = code.take().unwrap();
                let lang = language.take();
                flush_code(blocks, lang, &c);
            }
        },
        MdEvent::Text(s) | MdEvent::Code(s) | MdEvent::InlineMath(s) | MdEvent::DisplayMath(s)
        | MdEvent::Html(s) | MdEvent::InlineHtml(s) => {
            match code {
                Some(c) => append_chars(c, s.as_str()),
                None => append_chars(text, s.as_str()),
            }
        },
        MdEvent::SoftBreak | MdEvent::HardBreak => {
            match code {
                Some(c) => c.push('\n'),
                None => add_newline(text),
            }
        },
        _ => {
            if code.is_none() {
                read_text_event(text, event);
            }
        },
    }
}

/// Reads an event that only changes the pending text outside code blocks.
fn read_text_event(text: &mut Vec<char>, event: &MdEvent)
    requires
        !copies_text(event@.0),
        event@.0 != MdKind::StartCodeBlock,
        event@.0 != MdKind::EndCodeBlock,
        event@.0 != MdKind::SoftBreak,
        event@.0 != MdKind::HardBreak,
    ensures
        (final(text)@) == hover_step((Seq::empty(), old(text)@, None, None), event@).1,
{
    match event {
        MdEvent::Rule | MdEvent::EndParagraph | MdEvent::EndHeading | MdEvent::EndBlockQuote
        | MdEvent::EndHtmlBlock | MdEvent::EndFootnoteDefinition | MdEvent::EndDefinitionList
        | MdEvent::EndDefinitionListTitle | MdEvent::EndDefinitionListDefinition
        | MdEvent::EndTable | MdEvent::EndTableHead | MdEvent::EndTableRow => {
            add_paragraph_break(text);
        },
        MdEvent::StartItem => add_item_prefix(text),
        MdEvent::EndItem => add_newline(text),
        MdEvent::EndTableCell => text.push(' '),
        MdEvent::TaskListMarker(checked) => {
            if *checked {
                append_chars(text, "[x] ");
            } else {
                append_chars(text, "[ ] ");
            }
        },
        _ => {},
    }
}

/// The blocks of a hover from its Markdown events (see
/// `hover_blocks_spec`).
pub fn hover_blocks_from_events(events: &Vec<MdEvent>) -> (r: Vec<HoverBlock>)
    ensures
        blocks_view(r@) == hover_blocks_spec(events_view(events@)),
{
    let ghost es = events_view(events@);
    let mut blocks: Vec<HoverBlock> = Vec::new();
    let mut text: Vec<char> = Vec::new();
    let mut code: Option<Vec<char>> = None;
    let mut language: Option<String> = None;
    let mut i: usize = 0;
    assert(blocks_view(blocks@) =~= Seq::<BlockView>::empty());
    while i < events.len()
        invariant
            0 <= i <= events@.len(),
            es == events_view(events@),
            (blocks_view(blocks@), text@, code_view(code), opt_view(language)) == hover_fold(es, i as int),
        decreases events@.len() - i,
    {
        assert(es[i as int] == events@[i as int]@);
        read_event(&mut blocks, &mut text, &mut code, &mut language, &events[i]);
        i += 1;
    }
    match code {
        Some(c) => flush_code(&mut blocks, language, &c),
        None => {},
    }
    flush_text(&mut blocks, &mut text);
    blocks
}

/// The blocks of a hover's Markdown text, as `pulldown-cmark` reads it.
pub fn parse_hover_blocks(hover: &str) -> (r: Vec<HoverBlock>)
    ensures
        blocks_view(r@) == hover_blocks_spec(markdown_events_of(hover@, MdExtensions::All)),
{
    let events = markdown_events(hover, MdExtensions::All);
    hover_blocks_from_events(&events)
}

} // verus!
