//! Chat messages as styled lines: the Markdown of a message, read by
//! `pulldown-cmark` with strikethrough on, laid out line by line with a
//! style for each span.
use vstd::prelude::*;
use ratatui::text::{Line, Span};
use ratatui::widgets::{Paragraph, Wrap};
use crate::geometry::{inner_of, inner_rect, max_int, max_u16, sat_sub, Rect};
use crate::hover_markdown::{
    events_view, markdown_events, markdown_events_of, MdEvent, MdEventView, MdExtensions, MdKind,
};
use crate::session::{messages_view, ChatMessage, MessageRole, MessageView};
use crate::text::{
    chars_of, decimal, decimal_chars, push_all, push_str, range_texts, ranges_within, split_on,
    split_ranges, string_of_range, trim, trim_range,
};

verus! {

/// How a span of a chat line is drawn.
#[derive(Debug, Clone, Copy, PartialEq, Eq, Structural)]
pub enum SpanStyle {
    /// Running text, with the emphasis in force where it stands.
    Text { bold: bool, italic: bool, crossed: bool, heading: bool },
    /// Inline code, code blocks and math.
    InlineCode,
    /// Raw HTML.
    Html,
    /// List bullets, item numbers and task boxes.
    Marker,
    /// Link destinations and footnote references.
    Link,
    /// The opening fence of a code block that names its language.
    Fence,
    /// The stand-in for an image.
    Image,
    /// The `> ` at the start of a line of a block quote.
    Quote,
    /// The name over a message, in the colour of its author.
    Role(MessageRole),
}

/// Running text with no emphasis.
pub open spec fn plain_style() -> SpanStyle {
    SpanStyle::Text { bold: false, italic: false, crossed: false, heading: false }
}

/// A piece of a line with one style.
#[derive(Debug)]
pub struct StyledSpan {
    pub text: String,
    pub style: SpanStyle,
}

/// A span as plain values: its text and style.
pub type SpanView = (Seq<char>, SpanStyle);

impl View for StyledSpan {
    type V = SpanView;

    open spec fn view(&self) -> SpanView {
        (self.text@, self.style)
    }
}

/// A line as plain values.
pub type LineView = Seq<SpanView>;

/// The spans of a line as plain values.
pub open spec fn line_view(line: Seq<StyledSpan>) -> LineView {
    line.map_values(|s: StyledSpan| s@)
}

/// Lines as plain values.
pub open spec fn lines_view(lines: Seq<Vec<StyledSpan>>) -> Seq<LineView> {
    lines.map_values(|l: Vec<StyledSpan>| line_view(l@))
}

/// The state of the layout of a message: the finished lines, the line being
/// filled, how deep each emphasis, code block and quote is nested, whether a
/// heading is open, the open lists (the next number of an ordered one, none
/// for a bullet list) and the destinations of the open links.
pub struct RenderModel {
    pub lines: Seq<LineView>,
    pub current: LineView,
    pub emphasis: nat,
    pub strong: nat,
    pub strike: nat,
    pub heading: bool,
    pub code: nat,
    pub quote: nat,
    pub lists: Seq<Option<u64>>,
    pub links: Seq<Seq<char>>,
}

/// Nothing laid out and nothing open.
pub open spec fn initial_model() -> RenderModel {
    RenderModel {
        lines: Seq::empty(),
        current: Seq::empty(),
        emphasis: 0,
        strong: 0,
        strike: 0,
        heading: false,
        code: 0,
        quote: 0,
        lists: Seq::empty(),
        links: Seq::empty(),
    }
}

/// The style of running text: bold inside strong emphasis or a heading,
/// italic inside emphasis, crossed out inside strikethrough.
pub open spec fn text_style(m: RenderModel) -> SpanStyle {
    SpanStyle::Text {
        bold: m.strong > 0 || m.heading,
        italic: m.emphasis > 0,
        crossed: m.strike > 0,
        heading: m.heading,
    }
}

/// One `> ` for each level of quoting.
pub open spec fn quote_prefix(depth: nat) -> LineView {
    Seq::new(depth, |i: int| ("> "@, SpanStyle::Quote))
}

/// An empty line inside a quote starts with its `> ` prefixes.
pub open spec fn with_block_prefix(m: RenderModel) -> RenderModel {
    if m.current.len() > 0 || m.quote == 0 {
        m
    } else {
        RenderModel { current: quote_prefix(m.quote), ..m }
    }
}

/// A span added to the line being filled.
pub open spec fn add_span(m: RenderModel, text: Seq<char>, style: SpanStyle) -> RenderModel {
    let p = with_block_prefix(m);
    RenderModel { current: p.current.push((text, style)), ..p }
}

/// The line being filled ends (an empty one too).
pub open spec fn end_line(m: RenderModel) -> RenderModel {
    RenderModel { lines: m.lines.push(m.current), current: Seq::empty(), ..m }
}

/// The line being filled ends, if it holds anything.
pub open spec fn end_line_if_needed(m: RenderModel) -> RenderModel {
    if m.current.len() > 0 {
        end_line(m)
    } else {
        m
    }
}

/// A line whose spans are all empty.
pub open spec fn line_is_blank(l: LineView) -> bool {
    forall|i: int| 0 <= i < l.len() ==> (#[trigger] l[i]).0.len() == 0
}

/// Lines without the blank lines at their end.
pub open spec fn trim_blank_lines(ls: Seq<LineView>) -> Seq<LineView>
    decreases ls.len(),
{
    if ls.len() > 0 && line_is_blank(ls.last()) {
        trim_blank_lines(ls.drop_last())
    } else {
        ls
    }
}

/// The finished lines without blank lines at their end.
pub open spec fn trim_model(m: RenderModel) -> RenderModel {
    RenderModel { lines: trim_blank_lines(m.lines), ..m }
}

/// The pieces of a text between its line breaks, each after the first on a
/// new line; empty pieces add no span.
pub open spec fn add_pieces(m: RenderModel, pieces: Seq<Seq<char>>, style: SpanStyle) -> RenderModel
    decreases pieces.len(),
{
    if pieces.len() == 0 {
        m
    } else {
        let before = add_pieces(m, pieces.drop_last(), style);
        let broken = if pieces.len() > 1 {
            end_line(before)
        } else {
            before
        };
        if pieces.last().len() == 0 {
            broken
        } else {
            add_span(broken, pieces.last(), style)
        }
    }
}

/// A text added in one style, a new line at each line break.
pub open spec fn add_text(m: RenderModel, text: Seq<char>, style: SpanStyle) -> RenderModel {
    add_pieces(m, split_on(text, '\n'), style)
}

/// The number after `n` (wrapping at the end of `u64`).
pub open spec fn next_number(n: u64) -> u64 {
    if n == u64::MAX {
        0
    } else {
        (n + 1) as u64
    }
}

/// `n` less one, but not below zero.
pub open spec fn dec_nat(n: nat) -> nat {
    if n > 0 {
        (n - 1) as nat
    } else {
        0
    }
}

/// The marker of a new item and the open lists after it: `N. ` in an
/// ordered list, whose number then goes up; `- ` otherwise.
pub open spec fn item_marker(lists: Seq<Option<u64>>) -> (Seq<char>, Seq<Option<u64>>) {
    if lists.len() > 0 && lists.last() is Some {
        let n = lists.last()->0;
        (decimal(n as nat) + ". "@, lists.update(lists.len() - 1, Some(next_number(n))))
    } else {
        ("- "@, lists)
    }
}

/// The text an event carries, empty when it carries none.
pub open spec fn payload_text(payload: Option<Seq<char>>) -> Seq<char> {
    match payload {
        Some(t) => t,
        None => Seq::empty(),
    }
}

/// What an event that carries text or breaks a line does.
pub open spec fn inline_step(m: RenderModel, e: MdEventView) -> RenderModel {
    let (kind, payload, checked, _) = e;
    let t = payload_text(payload);
    if kind == MdKind::Text {
        add_text(m, t, if m.code > 0 { SpanStyle::InlineCode } else { text_style(m) })
    } else if kind == MdKind::Code || kind == MdKind::InlineMath || kind == MdKind::DisplayMath {
        add_text(m, t, SpanStyle::InlineCode)
    } else if kind == MdKind::Html || kind == MdKind::InlineHtml {
        add_text(m, t, SpanStyle::Html)
    } else if kind == MdKind::FootnoteReference {
        add_text(m, t, SpanStyle::Link)
    } else if kind == MdKind::TaskListMarker {
        add_text(m, if checked { "[x] "@ } else { "[ ] "@ }, SpanStyle::Marker)
    } else if kind == MdKind::SoftBreak {
        if m.code > 0 {
            end_line(m)
        } else {
            add_text(m, " "@, text_style(m))
        }
    } else if kind == MdKind::HardBreak {
        end_line(m)
    } else {
        let p = end_line_if_needed(m);
        RenderModel { lines: p.lines.push(seq![("---"@, plain_style())]).push(Seq::empty()), ..p }
    }
}

/// Whether an event carries text or breaks a line.
pub open spec fn is_inline(kind: MdKind) -> bool {
    ||| kind == MdKind::Text
    ||| kind == MdKind::Code
    ||| kind == MdKind::InlineMath
    ||| kind == MdKind::DisplayMath
    ||| kind == MdKind::Html
    ||| kind == MdKind::InlineHtml
    ||| kind == MdKind::FootnoteReference
    ||| kind == MdKind::TaskListMarker
    ||| kind == MdKind::SoftBreak
    ||| kind == MdKind::HardBreak
    ||| kind == MdKind::Rule
}

/// What the start of a tag does.
pub open spec fn start_step(m: RenderModel, e: MdEventView) -> RenderModel {
    let (kind, payload, _, start) = e;
    let t = payload_text(payload);
    if kind == MdKind::StartHeading {
        RenderModel { heading: true, ..end_line_if_needed(m) }
    } else if kind == MdKind::StartBlockQuote {
        let p = end_line_if_needed(m);
        RenderModel { quote: p.quote + 1, ..p }
    } else if kind == MdKind::StartCodeBlock {
        let p = end_line_if_needed(m);
        let q = RenderModel { code: p.code + 1, ..p };
        if payload is Some && trim(t).len() > 0 {
            end_line(add_text(q, "```"@ + trim(t), SpanStyle::Fence))
        } else {
            q
        }
    } else if kind == MdKind::StartList {
        let p = end_line_if_needed(m);
        RenderModel { lists: p.lists.push(start), ..p }
    } else if kind == MdKind::StartItem {
        let p = with_block_prefix(end_line_if_needed(m));
        let (marker, lists) = item_marker(p.lists);
        RenderModel { current: p.current.push((marker, SpanStyle::Marker)), lists: lists, ..p }
    } else if kind == MdKind::StartEmphasis {
        RenderModel { emphasis: m.emphasis + 1, ..m }
    } else if kind == MdKind::StartStrong {
        RenderModel { strong: m.strong + 1, ..m }
    } else if kind == MdKind::StartStrikethrough {
        RenderModel { strike: m.strike + 1, ..m }
    } else if kind == MdKind::StartLink {
        RenderModel { links: m.links.push(t), ..m }
    } else if kind == MdKind::StartImage {
        add_text(m, "[image: "@ + t + "]"@, SpanStyle::Image)
    } else {
        m
    }
}

/// What the end of a tag does: a block ends its line and drops blank lines
/// before it; an emphasis ends; a link shows its destination.
pub open spec fn end_step(m: RenderModel, kind: MdKind) -> RenderModel {
    let p = end_line_if_needed(m);
    if kind == MdKind::EndParagraph {
        trim_model(p)
    } else if kind == MdKind::EndHeading {
        trim_model(RenderModel { heading: false, ..p })
    } else if kind == MdKind::EndBlockQuote {
        trim_model(RenderModel { quote: dec_nat(p.quote), ..p })
    } else if kind == MdKind::EndCodeBlock {
        trim_model(RenderModel { code: dec_nat(p.code), ..p })
    } else if kind == MdKind::EndList {
        trim_model(
            RenderModel {
                lists: if p.lists.len() > 0 {
                    p.lists.drop_last()
                } else {
                    p.lists
                },
                ..p
            },
        )
    } else if kind == MdKind::EndItem {
        p
    } else if kind == MdKind::EndEmphasis {
        RenderModel { emphasis: dec_nat(m.emphasis), ..m }
    } else if kind == MdKind::EndStrong {
        RenderModel { strong: dec_nat(m.strong), ..m }
    } else if kind == MdKind::EndStrikethrough {
        RenderModel { strike: dec_nat(m.strike), ..m }
    } else if kind == MdKind::EndLink && m.links.len() > 0 {
        add_text(
            RenderModel { links: m.links.drop_last(), ..m },
            " ("@ + m.links.last() + ")"@,
            SpanStyle::Link,
        )
    } else {
        m
    }
}

/// Whether an event starts a tag.
pub open spec fn is_start(kind: MdKind) -> bool {
    ||| kind == MdKind::StartCodeBlock
    ||| kind == MdKind::StartItem
    ||| kind == MdKind::StartHeading
    ||| kind == MdKind::StartBlockQuote
    ||| kind == MdKind::StartList
    ||| kind == MdKind::StartEmphasis
    ||| kind == MdKind::StartStrong
    ||| kind == MdKind::StartStrikethrough
    ||| kind == MdKind::StartLink
    ||| kind == MdKind::StartImage
    ||| kind == MdKind::StartOther
}

/// What one event does to the layout.
pub open spec fn render_step(m: RenderModel, e: MdEventView) -> RenderModel {
    if is_inline(e.0) {
        inline_step(m, e)
    } else if is_start(e.0) {
        start_step(m, e)
    } else {
        end_step(m, e.0)
    }
}

/// The layout after the first `n` events.
pub open spec fn render_fold(events: Seq<MdEventView>, n: int) -> RenderModel
    decreases n,
{
    if n <= 0 {
        initial_model()
    } else {
        render_step(render_fold(events, n - 1), events[n - 1])
    }
}

/// The lines at the end: the last line ended, blank lines at the end
/// dropped, and one empty line when nothing is left.
pub open spec fn finish_lines(m: RenderModel) -> Seq<LineView> {
    let t = trim_model(end_line_if_needed(m));
    if t.lines.len() == 0 {
        seq![Seq::empty()]
    } else {
        t.lines
    }
}

/// The lines of a message from its Markdown events.
pub open spec fn markdown_lines_spec(events: Seq<MdEventView>) -> Seq<LineView> {
    finish_lines(render_fold(events, events.len() as int))
}

/// The layout of a message while its events are read.
struct MarkdownRenderer {
    lines: Vec<Vec<StyledSpan>>,
    current: Vec<StyledSpan>,
    emphasis_depth: usize,
    strong_depth: usize,
    strikethrough_depth: usize,
    heading: bool,
    code_block_depth: usize,
    blockquote_depth: usize,
    list_stack: Vec<Option<u64>>,
    link_targets: Vec<String>,
}

/// Strings as plain values.
pub open spec fn texts_view(v: Seq<String>) -> Seq<Seq<char>> {
    v.map_values(|s: String| s@)
}

impl View for MarkdownRenderer {
    type V = RenderModel;

    closed spec fn view(&self) -> RenderModel {
        RenderModel {
            lines: lines_view(self.lines@),
            current: line_view(self.current@),
            emphasis: self.emphasis_depth as nat,
            strong: self.strong_depth as nat,
            strike: self.strikethrough_depth as nat,
            heading: self.heading,
            code: self.code_block_depth as nat,
            quote: self.blockquote_depth as nat,
            lists: self.list_stack@,
            links: texts_view(self.link_targets@),
        }
    }
}

/// Every nesting depth of the layout is at most `n`.
pub open spec fn depths_within(m: RenderModel, n: int) -> bool {
    &&& m.emphasis <= n
    &&& m.strong <= n
    &&& m.strike <= n
    &&& m.code <= n
    &&& m.quote <= n
}

proof fn lemma_line_view_push(v: Seq<StyledSpan>, s: StyledSpan)
    ensures
        line_view(v.push(s)) =~= line_view(v).push(s@),
{
    assert forall|k: int| 0 <= k < v.len() + 1 implies #[trigger] line_view(v.push(s))[k]
        == line_view(v).push(s@)[k] by {
        if k < v.len() {
            assert(v.push(s)[k] == v[k]);
        }
    }
}

proof fn lemma_lines_view_push(v: Seq<Vec<StyledSpan>>, l: Vec<StyledSpan>)
    ensures
        lines_view(v.push(l)) =~= lines_view(v).push(line_view(l@)),
{
    assert forall|k: int| 0 <= k < v.len() + 1 implies #[trigger] lines_view(v.push(l))[k]
        == lines_view(v).push(line_view(l@))[k] by {
        if k < v.len() {
            assert(v.push(l)[k] == v[k]);
        }
    }
}

proof fn lemma_texts_view_push(v: Seq<String>, s: String)
    ensures
        texts_view(v.push(s)) =~= texts_view(v).push(s@),
{
    assert forall|k: int| 0 <= k < v.len() + 1 implies #[trigger] texts_view(v.push(s))[k]
        == texts_view(v).push(s@)[k] by {
        if k < v.len() {
            assert(v.push(s)[k] == v[k]);
        }
    }
}

impl MarkdownRenderer {
    fn new() -> (r: Self)
        ensures
            r@ == initial_model(),
    {
        let r = MarkdownRenderer {
            lines: Vec::new(),
            current: Vec::new(),
            emphasis_depth: 0,
            strong_depth: 0,
            strikethrough_depth: 0,
            heading: false,
            code_block_depth: 0,
            blockquote_depth: 0,
            list_stack: Vec::new(),
            link_targets: Vec::new(),
        };
        assert(r@.lines =~= Seq::<LineView>::empty());
        assert(r@.current =~= Seq::<SpanView>::empty());
        assert(r@.links =~= Seq::<Seq<char>>::empty());
        r
    }

    /// The style of running text here (see `text_style`).
    fn text_style(&self) -> (r: SpanStyle)
        ensures
            r == text_style(self@),
    {
        SpanStyle::Text {
            bold: self.strong_depth > 0 || self.heading,
            italic: self.emphasis_depth > 0,
            crossed: self.strikethrough_depth > 0,
            heading: self.heading,
        }
    }

    /// Starts an empty line inside a quote with its prefixes.
    fn ensure_block_prefix(&mut self)
        ensures
            final(self)@ == with_block_prefix(old(self)@),
    {
        if self.current.len() > 0 || self.blockquote_depth == 0 {
            return;
        }
        let mut prefix: Vec<StyledSpan> = Vec::new();
        let mut i: usize = 0;
        while i < self.blockquote_depth
            invariant
                0 <= i <= self.blockquote_depth,
                line_view(prefix@) =~= quote_prefix(i as nat),
            decreases self.blockquote_depth - i,
        {
            let ghost before = prefix@;
            let span = StyledSpan { text: "> ".to_owned(), style: SpanStyle::Quote };
            prefix.push(span);
            proof {
                lemma_line_view_push(before, span);
            }
            i += 1;
        }
        self.current = prefix;
    }

    /// Adds a span to the line being filled (see `add_span`).
    fn push_span(&mut self, span: StyledSpan)
        ensures
            final(self)@ == add_span(old(self)@, span@.0, span@.1),
    {
        self.ensure_block_prefix();
        let ghost before = self.current@;
        self.current.push(span);
        proof {
            lemma_line_view_push(before, span);
        }
    }

    /// Ends the line being filled.
    fn push_line(&mut self)
        ensures
            final(self)@ == end_line(old(self)@),
    {
        let mut line: Vec<StyledSpan> = Vec::new();
        std::mem::swap(&mut line, &mut self.current);
        let ghost before = self.lines@;
        self.lines.push(line);
        proof {
            lemma_lines_view_push(before, line);
        }
        assert(self@.current =~= Seq::<SpanView>::empty());
    }

    /// Ends the line being filled if it holds anything.
    fn push_line_if_needed(&mut self)
        ensures
            final(self)@ == end_line_if_needed(old(self)@),
    {
        if self.current.len() > 0 {
            self.push_line();
        }
    }

    /// Drops the blank lines at the end of the finished lines.
    fn trim_trailing_blank_lines(&mut self)
        ensures
            final(self)@ == trim_model(old(self)@),
    {
        while self.lines.len() > 0 && line_blank(&self.lines[self.lines.len() - 1])
            invariant
                trim_blank_lines(self@.lines) == trim_blank_lines(old(self)@.lines),
                self@ == (RenderModel { lines: self@.lines, ..old(self)@ }),
            decreases self.lines@.len(),
        {
            let ghost before = self.lines@;
            assert(line_is_blank(lines_view(before).last()));
            self.lines.pop();
            assert(lines_view(self.lines@) =~= lines_view(before).drop_last());
        }
        assert(trim_blank_lines(self@.lines) == self@.lines);
    }
}

/// Whether every span of a line is empty.
fn line_blank(line: &Vec<StyledSpan>) -> (r: bool)
    ensures
        r == line_is_blank(line_view(line@)),
{
    let mut i: usize = 0;
    while i < line.len()
        invariant
            0 <= i <= line@.len(),
            forall|j: int| 0 <= j < i ==> (#[trigger] line_view(line@)[j]).0.len() == 0,
        decreases line@.len() - i,
    {
        if !line[i].text.as_str().is_empty() {
            assert(line_view(line@)[i as int].0.len() != 0);
            return false;
        }
        i += 1;
    }
    true
}

/// Adding text changes only the lines.
proof fn lemma_add_pieces_keeps(m: RenderModel, pieces: Seq<Seq<char>>, style: SpanStyle)
    ensures
        ({
            let r = add_pieces(m, pieces, style);
            r == RenderModel { lines: r.lines, current: r.current, ..m }
        }),
    decreases pieces.len(),
{
    if pieces.len() > 0 {
        lemma_add_pieces_keeps(m, pieces.drop_last(), style);
    }
}

impl MarkdownRenderer {
    /// Adds a text in one style, a new line at each line break (see
    /// `add_text`).
    fn push_text(&mut self, text: &str, style: SpanStyle)
        ensures
            final(self)@ == add_text(old(self)@, text@, style),
    {
        let v = chars_of(text);
        let pieces = split_ranges(&v, 0, v.len(), '\n');
        assert(v@.subrange(0, v@.len() as int) =~= v@);
        let ghost ps = split_on(v@, '\n');
        let ghost m0 = self@;
        let mut k: usize = 0;
        assert(ps.take(0) =~= Seq::<Seq<char>>::empty());
        while k < pieces.len()
            invariant
                0 <= k <= pieces@.len(),
                ranges_within(pieces@, 0, v@.len() as int),
                range_texts(v@, pieces@) == ps,
                self@ == add_pieces(m0, ps.take(k as int), style),
            decreases pieces@.len() - k,
        {
            let (a, b) = pieces[k];
            assert(0 <= pieces@[k as int].0 <= pieces@[k as int].1 <= v@.len());
            assert(ps.take(k + 1).drop_last() =~= ps.take(k as int));
            assert(ps.take(k + 1).last() == v@.subrange(a as int, b as int));
            if k > 0 {
                self.push_line();
            }
            if a < b {
                let seg = string_of_range(&v, a, b);
                self.push_span(StyledSpan { text: seg, style });
            }
            k += 1;
        }
        assert(ps.take(k as int) =~= ps);
    }
}

impl MarkdownRenderer {
    /// Reads an event that carries text or breaks a line (see `inline_step`).
    fn handle_inline(&mut self, event: &MdEvent)
        requires
            is_inline(event@.0),
        ensures
            final(self)@ == inline_step(old(self)@, event@),
    {
        match event {
            MdEvent::Text(t) => {
                let style = if self.code_block_depth > 0 {
                    SpanStyle::InlineCode
                } else {
                    self.text_style()
                };
                self.push_text(t.as_str(), style);
            },
            MdEvent::Code(t) | MdEvent::InlineMath(t) | MdEvent::DisplayMath(t) => {
                self.push_text(t.as_str(), SpanStyle::InlineCode);
            },
            MdEvent::Html(t) | MdEvent::InlineHtml(t) => {
                self.push_text(t.as_str(), SpanStyle::Html);
            },
            MdEvent::FootnoteReference(t) => {
                self.push_text(t.as_str(), SpanStyle::Link);
            },
            MdEvent::TaskListMarker(checked) => {
                if *checked {
                    self.push_text("[x] ", SpanStyle::Marker);
                } else {
                    self.push_text("[ ] ", SpanStyle::Marker);
                }
            },
            MdEvent::SoftBreak => {
                if self.code_block_depth > 0 {
                    self.push_line();
                } else {
                    let style = self.text_style();
                    self.push_text(" ", style);
                }
            },
            MdEvent::HardBreak => {
                self.push_line();
            },
            _ => {
                self.push_line_if_needed();
                let mut rule: Vec<StyledSpan> = Vec::new();
                let span = StyledSpan {
                    text: "---".to_owned(),
                    style: SpanStyle::Text { bold: false, italic: false, crossed: false, heading: false },
                };
                rule.push(span);
                proof {
                    lemma_line_view_push(Seq::empty(), span);
                    assert(Seq::<StyledSpan>::empty().push(span) =~= rule@);
                    assert(line_view(Seq::<StyledSpan>::empty()) =~= Seq::<SpanView>::empty());
                }
                let ghost before = self.lines@;
                self.lines.push(rule);
                proof {
                    lemma_lines_view_push(before, rule);
                }
                let empty: Vec<StyledSpan> = Vec::new();
                let ghost middle = self.lines@;
                self.lines.push(empty);
                proof {
                    lemma_lines_view_push(middle, empty);
                    assert(line_view(empty@) =~= Seq::<SpanView>::empty());
                }
            },
        }
    }

    /// Reads the start of a tag (see `start_step`).
    fn handle_start(&mut self, event: &MdEvent)
        requires
            is_start(event@.0),
            depths_within(old(self)@, usize::MAX - 1),
        ensures
            final(self)@ == start_step(old(self)@, event@),
    {
        match event {
            MdEvent::StartHeading => {
                self.push_line_if_needed();
                self.heading = true;
            },
            MdEvent::StartBlockQuote => {
                self.push_line_if_needed();
                self.blockquote_depth = self.blockquote_depth + 1;
            },
            MdEvent::StartCodeBlock(info) => {
                self.push_line_if_needed();
                self.code_block_depth = self.code_block_depth + 1;
                match info {
                    Some(i) => {
                        let v = chars_of(i.as_str());
                        let (a, b) = trim_range(&v, 0, v.len());
                        assert(v@.subrange(0, v@.len() as int) =~= v@);
                        if a < b {
                            let mut fence = "```".to_owned();
                            let language = string_of_range(&v, a, b);
                            push_str(&mut fence, language.as_str());
                            self.push_text(fence.as_str(), SpanStyle::Fence);
                            self.push_line();
                        }
                    },
                    None => {},
                }
            },
            MdEvent::StartList(start) => {
                self.push_line_if_needed();
                self.list_stack.push(*start);
            },
            MdEvent::StartItem => {
                self.push_line_if_needed();
                self.ensure_block_prefix();
                let ghost lists = self.list_stack@;
                let n = self.list_stack.len();
                let mut marker = String::new();
                if n > 0 && self.list_stack[n - 1].is_some() {
                    let number = self.list_stack[n - 1].unwrap();
                    let next = if number == u64::MAX {
                        0
                    } else {
                        number + 1
                    };
                    self.list_stack.pop();
                    self.list_stack.push(Some(next));
                    assert(self.list_stack@ =~= lists.update(lists.len() - 1, Some(next_number(number))));
                    let digits = decimal_chars(number);
                    push_all(&mut marker, &digits);
                    push_str(&mut marker, ". ");
                } else {
                    push_str(&mut marker, "- ");
                }
                let ghost before = self.current@;
                let span = StyledSpan { text: marker, style: SpanStyle::Marker };
                self.current.push(span);
                proof {
                    lemma_line_view_push(before, span);
                }
            },
            MdEvent::StartEmphasis => {
                self.emphasis_depth = self.emphasis_depth + 1;
            },
            MdEvent::StartStrong => {
                self.strong_depth = self.strong_depth + 1;
            },
            MdEvent::StartStrikethrough => {
                self.strikethrough_depth = self.strikethrough_depth + 1;
            },
            MdEvent::StartLink(dest) => {
                let ghost before = self.link_targets@;
                let target = dest.clone();
                self.link_targets.push(target);
                proof {
                    lemma_texts_view_push(before, target);
                }
            },
            MdEvent::StartImage(dest) => {
                let mut label = "[image: ".to_owned();
                push_str(&mut label, dest.as_str());
                push_str(&mut label, "]");
                self.push_text(label.as_str(), SpanStyle::Image);
            },
            _ => {},
        }
    }

    /// Reads the end of a tag (see `end_step`).
    fn handle_end(&mut self, event: &MdEvent)
        requires
            !is_inline(event@.0),
            !is_start(event@.0),
        ensures
            final(self)@ == end_step(old(self)@, event@.0),
    {
        match event {
            MdEvent::EndParagraph => {
                self.push_line_if_needed();
                self.trim_trailing_blank_lines();
            },
            MdEvent::EndHeading => {
                self.push_line_if_needed();
                self.heading = false;
                self.trim_trailing_blank_lines();
            },
            MdEvent::EndBlockQuote => {
                self.push_line_if_needed();
                if self.blockquote_depth > 0 {
                    self.blockquote_depth = self.blockquote_depth - 1;
                }
                self.trim_trailing_blank_lines();
            },
            MdEvent::EndCodeBlock => {
                self.push_line_if_needed();
                if self.code_block_depth > 0 {
                    self.code_block_depth = self.code_block_depth - 1;
                }
                self.trim_trailing_blank_lines();
            },
            MdEvent::EndList => {
                self.push_line_if_needed();
                if self.list_stack.len() > 0 {
                    self.list_stack.pop();
                }
                self.trim_trailing_blank_lines();
            },
            MdEvent::EndItem => {
                self.push_line_if_needed();
            },
            MdEvent::EndEmphasis => {
                if self.emphasis_depth > 0 {
                    self.emphasis_depth = self.emphasis_depth - 1;
                }
            },
            MdEvent::EndStrong => {
                if self.strong_depth > 0 {
                    self.strong_depth = self.strong_depth - 1;
                }
            },
            MdEvent::EndStrikethrough => {
                if self.strikethrough_depth > 0 {
                    self.strikethrough_depth = self.strikethrough_depth - 1;
                }
            },
            MdEvent::EndLink => {
                if self.link_targets.len() > 0 {
                    let ghost before = self.link_targets@;
                    let target = self.link_targets.pop().unwrap();
                    assert(texts_view(self.link_targets@) =~= texts_view(before).drop_last());
                    let mut shown = " (".to_owned();
                    push_str(&mut shown, target.as_str());
                    push_str(&mut shown, ")");
                    self.push_text(shown.as_str(), SpanStyle::Link);
                }
            },
            _ => {},
        }
    }
}

/// Adding text changes only the lines, whatever the text and style.
proof fn lemma_add_text_keeps(m: RenderModel)
    ensures
        forall|t: Seq<char>, style: SpanStyle|
            #![trigger add_text(m, t, style)]
            add_text(m, t, style) == (RenderModel {
                lines: add_text(m, t, style).lines,
                current: add_text(m, t, style).current,
                ..m
            }),
{
    assert forall|t: Seq<char>, style: SpanStyle|
        #![trigger add_text(m, t, style)]
        add_text(m, t, style) == (RenderModel {
            lines: add_text(m, t, style).lines,
            current: add_text(m, t, style).current,
            ..m
        }) by {
        lemma_add_pieces_keeps(m, split_on(t, '\n'), style);
    }
}

/// One event deepens each nesting by at most one level.
proof fn lemma_step_depths(m: RenderModel, e: MdEventView, n: int)
    requires
        depths_within(m, n),
    ensures
        depths_within(render_step(m, e), n + 1),
{
    lemma_add_text_keeps(m);
    let p = end_line_if_needed(m);
    let q = RenderModel { code: p.code + 1, ..p };
    lemma_add_text_keeps(q);
    if m.links.len() > 0 {
        lemma_add_text_keeps(RenderModel { links: m.links.drop_last(), ..m });
    }
}

impl MarkdownRenderer {
    /// Reads one event (see `render_step`).
    fn handle(&mut self, event: &MdEvent)
        requires
            depths_within(old(self)@, usize::MAX - 1),
        ensures
            final(self)@ == render_step(old(self)@, event@),
    {
        match event {
            MdEvent::Text(_) | MdEvent::Code(_) | MdEvent::InlineMath(_) | MdEvent::DisplayMath(_)
            | MdEvent::Html(_) | MdEvent::InlineHtml(_) | MdEvent::FootnoteReference(_)
            | MdEvent::TaskListMarker(_) | MdEvent::SoftBreak | MdEvent::HardBreak | MdEvent::Rule => {
                self.handle_inline(event);
            },
            MdEvent::StartCodeBlock(_) | MdEvent::StartItem | MdEvent::StartHeading
            | MdEvent::StartBlockQuote | MdEvent::StartList(_) | MdEvent::StartEmphasis
            | MdEvent::StartStrong | MdEvent::StartStrikethrough | MdEvent::StartLink(_)
            | MdEvent::StartImage(_) | MdEvent::StartOther => {
                self.handle_start(event);
            },
            _ => {
                self.handle_end(event);
            },
        }
    }

    /// The finished lines (see `finish_lines`).
    fn finish(self) -> (r: Vec<Vec<StyledSpan>>)
        ensures
            lines_view(r@) == finish_lines(self@),
    {
        let mut renderer = self;
        renderer.push_line_if_needed();
        renderer.trim_trailing_blank_lines();
        if renderer.lines.len() == 0 {
            let empty: Vec<StyledSpan> = Vec::new();
            let mut r: Vec<Vec<StyledSpan>> = Vec::new();
            r.push(empty);
            proof {
                lemma_lines_view_push(Seq::empty(), empty);
                assert(Seq::<Vec<StyledSpan>>::empty().push(empty) =~= r@);
                assert(lines_view(Seq::<Vec<StyledSpan>>::empty()) =~= Seq::<LineView>::empty());
                assert(line_view(empty@) =~= Seq::<SpanView>::empty());
                assert(lines_view(r@) =~= seq![Seq::<SpanView>::empty()]);
            }
            r
        } else {
            renderer.lines
        }
    }
}

/// The lines of a message from its Markdown events (see
/// `markdown_lines_spec`).
pub fn markdown_lines_from_events(events: &Vec<MdEvent>) -> (r: Vec<Vec<StyledSpan>>)
    ensures
        lines_view(r@) == markdown_lines_spec(events_view(events@)),
{
    let ghost es = events_view(events@);
    let mut renderer = MarkdownRenderer::new();
    let mut i: usize = 0;
    while i < events.len()
        invariant
            0 <= i <= events@.len(),
            es == events_view(events@),
            renderer@ == render_fold(es, i as int),
            depths_within(renderer@, i as int),
        decreases events@.len() - i,
    {
        assert(es[i as int] == events@[i as int]@);
        proof {
            lemma_step_depths(renderer@, es[i as int], i as int);
        }
        renderer.handle(&events[i]);
        i += 1;
    }
    renderer.finish()
}

/// The lines of a message's text: one empty line for a blank text,
/// otherwise the lines of its Markdown as `pulldown-cmark` reads it with
/// strikethrough on.
pub open spec fn render_markdown_spec(source: Seq<char>) -> Seq<LineView> {
    if trim(source).len() == 0 {
        seq![Seq::empty()]
    } else {
        markdown_lines_spec(markdown_events_of(source, MdExtensions::Strikethrough))
    }
}

/// The lines of a message's Markdown text (see `render_markdown_spec`).
pub fn render_markdown_lines(source: &str) -> (r: Vec<Vec<StyledSpan>>)
    ensures
        lines_view(r@) == render_markdown_spec(source@),
{
    let v = chars_of(source);
    let (a, b) = trim_range(&v, 0, v.len());
    assert(v@.subrange(0, v@.len() as int) =~= v@);
    if a == b {
        let empty: Vec<StyledSpan> = Vec::new();
        let mut r: Vec<Vec<StyledSpan>> = Vec::new();
        r.push(empty);
        proof {
            lemma_lines_view_push(Seq::empty(), empty);
            assert(lines_view(Seq::<Vec<StyledSpan>>::empty()) =~= Seq::<LineView>::empty());
            assert(line_view(empty@) =~= Seq::<SpanView>::empty());
            assert(Seq::<Vec<StyledSpan>>::empty().push(empty) =~= r@);
            assert(lines_view(r@) =~= seq![Seq::<SpanView>::empty()]);
        }
        return r;
    }
    let events = markdown_events(source, MdExtensions::Strikethrough);
    markdown_lines_from_events(&events)
}

/// The name over a message: `You`, the agent's name, `Event`, `System` or
/// `Shell`.
pub open spec fn role_name(role: MessageRole, agent_name: Seq<char>) -> Seq<char> {
    match role {
        MessageRole::User => "You"@,
        MessageRole::Assistant => agent_name,
        MessageRole::Event => "Event"@,
        MessageRole::System => "System"@,
        MessageRole::Shell => "Shell"@,
    }
}

/// The lines of one message: its author's name and a colon, its text, and
/// an empty line.
pub open spec fn message_lines_spec(m: MessageView, agent_name: Seq<char>) -> Seq<LineView> {
    seq![seq![(role_name(m.0, agent_name) + ":"@, SpanStyle::Role(m.0))]] + render_markdown_spec(m.1)
        + seq![Seq::empty()]
}

/// The lines of the messages, one after another.
pub open spec fn transcript_lines(ms: Seq<MessageView>, agent_name: Seq<char>) -> Seq<LineView>
    decreases ms.len(),
{
    if ms.len() == 0 {
        Seq::empty()
    } else {
        transcript_lines(ms.drop_last(), agent_name) + message_lines_spec(ms.last(), agent_name)
    }
}

/// The lines of a chat: `No messages yet.` when it has none.
pub open spec fn chat_lines_spec(ms: Seq<MessageView>, agent_name: Seq<char>) -> Seq<LineView> {
    if ms.len() == 0 {
        seq![seq![("No messages yet."@, plain_style())]]
    } else {
        transcript_lines(ms, agent_name)
    }
}

proof fn lemma_lines_view_add(a: Seq<Vec<StyledSpan>>, b: Seq<Vec<StyledSpan>>)
    ensures
        lines_view(a + b) =~= lines_view(a) + lines_view(b),
{
    assert forall|k: int| 0 <= k < a.len() + b.len() implies #[trigger] lines_view(a + b)[k]
        == (lines_view(a) + lines_view(b))[k] by {
        if k < a.len() {
            assert((a + b)[k] == a[k]);
        } else {
            assert((a + b)[k] == b[k - a.len()]);
        }
    }
}

/// A line of one span.
fn single_span_line(span: StyledSpan) -> (r: Vec<StyledSpan>)
    ensures
        line_view(r@) == seq![span@],
{
    let mut line: Vec<StyledSpan> = Vec::new();
    line.push(span);
    proof {
        lemma_line_view_push(Seq::empty(), span);
        assert(Seq::<StyledSpan>::empty().push(span) =~= line@);
        assert(line_view(Seq::<StyledSpan>::empty()) =~= Seq::<SpanView>::empty());
        assert(line_view(line@) =~= seq![span@]);
    }
    line
}

/// Appends `more` to `lines`.
fn append_lines(lines: &mut Vec<Vec<StyledSpan>>, more: Vec<Vec<StyledSpan>>)
    ensures
        lines_view(final(lines)@) == lines_view(old(lines)@) + lines_view(more@),
{
    let mut more = more;
    let ghost a = lines@;
    let ghost b = more@;
    lines.append(&mut more);
    proof {
        lemma_lines_view_add(a, b);
    }
}

/// The lines of one message (see `message_lines_spec`).
pub fn render_chat_message_lines(message: &ChatMessage, agent_name: &str) -> (r: Vec<Vec<StyledSpan>>)
    ensures
        lines_view(r@) == message_lines_spec(message@, agent_name@),
{
    let mut name = match message.role {
        MessageRole::User => "You".to_owned(),
        MessageRole::Assistant => agent_name.to_owned(),
        MessageRole::Event => "Event".to_owned(),
        MessageRole::System => "System".to_owned(),
        MessageRole::Shell => "Shell".to_owned(),
    };
    push_str(&mut name, ":");
    let header = single_span_line(StyledSpan { text: name, style: SpanStyle::Role(message.role) });
    let mut r: Vec<Vec<StyledSpan>> = Vec::new();
    r.push(header);
    proof {
        lemma_lines_view_push(Seq::empty(), header);
        assert(Seq::<Vec<StyledSpan>>::empty().push(header) =~= r@);
        assert(lines_view(Seq::<Vec<StyledSpan>>::empty()) =~= Seq::<LineView>::empty());
    }
    let body = render_markdown_lines(message.text.as_str());
    append_lines(&mut r, body);
    let empty: Vec<StyledSpan> = Vec::new();
    let ghost before = r@;
    r.push(empty);
    proof {
        lemma_lines_view_push(before, empty);
        assert(line_view(empty@) =~= Seq::<SpanView>::empty());
        assert(lines_view(r@) =~= message_lines_spec(message@, agent_name@));
    }
    r
}

/// The lines of a chat (see `chat_lines_spec`).
pub fn chat_lines(messages: &Vec<ChatMessage>, agent_name: &str) -> (r: Vec<Vec<StyledSpan>>)
    ensures
        lines_view(r@) == chat_lines_spec(messages_view(messages@), agent_name@),
{
    let ghost ms = messages_view(messages@);
    let mut r: Vec<Vec<StyledSpan>> = Vec::new();
    if messages.len() == 0 {
        let line = single_span_line(
            StyledSpan {
                text: "No messages yet.".to_owned(),
                style: SpanStyle::Text { bold: false, italic: false, crossed: false, heading: false },
            },
        );
        r.push(line);
        proof {
            lemma_lines_view_push(Seq::empty(), line);
            assert(Seq::<Vec<StyledSpan>>::empty().push(line) =~= r@);
            assert(lines_view(Seq::<Vec<StyledSpan>>::empty()) =~= Seq::<LineView>::empty());
        }
        return r;
    }
    let mut i: usize = 0;
    assert(lines_view(r@) =~= Seq::<LineView>::empty());
    while i < messages.len()
        invariant
            0 <= i <= messages@.len(),
            ms == messages_view(messages@),
            lines_view(r@) == transcript_lines(ms.take(i as int), agent_name@),
        decreases messages@.len() - i,
    {
        assert(ms.take(i + 1).drop_last() =~= ms.take(i as int));
        assert(ms.take(i + 1).last() == messages@[i as int]@);
        let lines = render_chat_message_lines(&messages[i], agent_name);
        append_lines(&mut r, lines);
        i += 1;
    }
    assert(ms.take(i as int) =~= ms);
    r
}

/// A raw line: one plain span, or no span when empty.
pub open spec fn plain_line(piece: Seq<char>) -> LineView {
    if piece.len() == 0 {
        Seq::empty()
    } else {
        seq![(piece, plain_style())]
    }
}

/// The raw lines of a text, split at its line breaks.
pub open spec fn plain_lines(text: Seq<char>) -> Seq<LineView> {
    split_on(text, '\n').map_values(|p: Seq<char>| plain_line(p))
}

/// The raw lines of a text (see `plain_lines`).
pub fn plain_lines_of(text: &str) -> (r: Vec<Vec<StyledSpan>>)
    ensures
        lines_view(r@) == plain_lines(text@),
{
    let v = chars_of(text);
    let pieces = split_ranges(&v, 0, v.len(), '\n');
    assert(v@.subrange(0, v@.len() as int) =~= v@);
    let ghost ps = split_on(v@, '\n');
    let mut r: Vec<Vec<StyledSpan>> = Vec::new();
    let mut k: usize = 0;
    while k < pieces.len()
        invariant
            0 <= k <= pieces@.len(),
            ranges_within(pieces@, 0, v@.len() as int),
            range_texts(v@, pieces@) == ps,
            lines_view(r@) =~= ps.take(k as int).map_values(|p: Seq<char>| plain_line(p)),
        decreases pieces@.len() - k,
    {
        let (a, b) = pieces[k];
        assert(0 <= pieces@[k as int].0 <= pieces@[k as int].1 <= v@.len());
        assert(ps[k as int] == v@.subrange(a as int, b as int));
        let line = if a < b {
            single_span_line(
                StyledSpan {
                    text: string_of_range(&v, a, b),
                    style: SpanStyle::Text { bold: false, italic: false, crossed: false, heading: false },
                },
            )
        } else {
            let empty: Vec<StyledSpan> = Vec::new();
            assert(line_view(empty@) =~= Seq::<SpanView>::empty());
            empty
        };
        let ghost before = r@;
        r.push(line);
        proof {
            lemma_lines_view_push(before, line);
            assert(ps.take(k + 1) =~= ps.take(k as int).push(ps[k as int]));
        }
        k += 1;
    }
    assert(ps.take(k as int) =~= ps);
    r
}

/// The most lines the transcript of a chat shows.
pub const MAX_CHAT_LINES: usize = 10000;

/// The lines of one message as drawn in the transcript: its author's name
/// and a colon, the lines it keeps, and an empty line.
pub open spec fn drawn_message_lines(m: MessageView, agent_name: Seq<char>) -> Seq<LineView> {
    seq![seq![(role_name(m.0, agent_name) + ":"@, SpanStyle::Role(m.0))]] + m.3 + seq![Seq::empty()]
}

/// The drawn lines of the messages, one after another.
pub open spec fn drawn_transcript(ms: Seq<MessageView>, agent_name: Seq<char>) -> Seq<LineView>
    decreases ms.len(),
{
    if ms.len() == 0 {
        Seq::empty()
    } else {
        drawn_transcript(ms.drop_last(), agent_name) + drawn_message_lines(ms.last(), agent_name)
    }
}

/// How many of the newest messages fit, whole, in `budget` lines (a
/// message takes its kept lines and two more).
pub open spec fn newest_fitting(ms: Seq<MessageView>, budget: int) -> nat
    decreases ms.len(),
{
    if ms.len() == 0 || ms.last().3.len() + 2 > budget {
        0
    } else {
        1 + newest_fitting(ms.drop_last(), budget - (ms.last().3.len() + 2))
    }
}

/// The transcript of a chat: `No messages yet.` when it has none;
/// otherwise the drawn lines of its newest messages that fit, whole, in
/// `MAX_CHAT_LINES` lines.
pub open spec fn build_text_spec(ms: Seq<MessageView>, agent_name: Seq<char>) -> Seq<LineView> {
    if ms.len() == 0 {
        seq![seq![("No messages yet."@, plain_style())]]
    } else {
        drawn_transcript(ms.skip(ms.len() - newest_fitting(ms, MAX_CHAT_LINES as int)), agent_name)
    }
}

proof fn lemma_newest_fitting_le(ms: Seq<MessageView>, budget: int)
    ensures
        newest_fitting(ms, budget) <= ms.len(),
    decreases ms.len(),
{
    if ms.len() > 0 {
        lemma_newest_fitting_le(ms.drop_last(), budget - (ms.last().3.len() + 2));
    }
}

/// A copy of a span.
fn copy_span(span: &StyledSpan) -> (r: StyledSpan)
    ensures
        r@ == span@,
{
    StyledSpan { text: span.text.clone(), style: span.style }
}

/// A copy of a line.
fn copy_line(line: &Vec<StyledSpan>) -> (r: Vec<StyledSpan>)
    ensures
        line_view(r@) == line_view(line@),
{
    let mut r: Vec<StyledSpan> = Vec::new();
    let mut i: usize = 0;
    while i < line.len()
        invariant
            0 <= i <= line@.len(),
            line_view(r@) =~= line_view(line@).take(i as int),
        decreases line@.len() - i,
    {
        let ghost before = r@;
        let span = copy_span(&line[i]);
        r.push(span);
        proof {
            lemma_line_view_push(before, span);
        }
        i += 1;
    }
    r
}

/// The drawn lines of one message (see `drawn_message_lines`).
fn drawn_lines(message: &ChatMessage, agent_name: &str) -> (r: Vec<Vec<StyledSpan>>)
    ensures
        lines_view(r@) == drawn_message_lines(message@, agent_name@),
{
    let mut name = match message.role {
        MessageRole::User => "You".to_owned(),
        MessageRole::Assistant => agent_name.to_owned(),
        MessageRole::Event => "Event".to_owned(),
        MessageRole::System => "System".to_owned(),
        MessageRole::Shell => "Shell".to_owned(),
    };
    push_str(&mut name, ":");
    let header = single_span_line(StyledSpan { text: name, style: SpanStyle::Role(message.role) });
    let mut r: Vec<Vec<StyledSpan>> = Vec::new();
    r.push(header);
    proof {
        lemma_lines_view_push(Seq::empty(), header);
        assert(Seq::<Vec<StyledSpan>>::empty().push(header) =~= r@);
        assert(lines_view(Seq::<Vec<StyledSpan>>::empty()) =~= Seq::<LineView>::empty());
    }
    let kept = &message.rendered_lines;
    let ghost start = r@;
    let mut i: usize = 0;
    while i < kept.len()
        invariant
            0 <= i <= kept@.len(),
            lines_view(r@) =~= lines_view(start) + lines_view(kept@).take(i as int),
        decreases kept@.len() - i,
    {
        let ghost before = r@;
        let line = copy_line(&kept[i]);
        r.push(line);
        proof {
            lemma_lines_view_push(before, line);
        }
        i += 1;
    }
    let empty: Vec<StyledSpan> = Vec::new();
    let ghost before = r@;
    r.push(empty);
    proof {
        lemma_lines_view_push(before, empty);
        assert(line_view(empty@) =~= Seq::<SpanView>::empty());
        assert(lines_view(kept@).take(kept@.len() as int) =~= lines_view(kept@));
        assert(lines_view(r@) =~= drawn_message_lines(message@, agent_name@));
    }
    r
}

/// The transcript of a chat (see `build_text_spec`).
pub fn build_text(messages: &Vec<ChatMessage>, agent_name: &str) -> (r: Vec<Vec<StyledSpan>>)
    ensures
        lines_view(r@) == build_text_spec(messages_view(messages@), agent_name@),
{
    let ghost ms = messages_view(messages@);
    if messages.len() == 0 {
        let line = single_span_line(
            StyledSpan {
                text: "No messages yet.".to_owned(),
                style: SpanStyle::Text { bold: false, italic: false, crossed: false, heading: false },
            },
        );
        let mut r: Vec<Vec<StyledSpan>> = Vec::new();
        r.push(line);
        proof {
            lemma_lines_view_push(Seq::empty(), line);
            assert(Seq::<Vec<StyledSpan>>::empty().push(line) =~= r@);
            assert(lines_view(Seq::<Vec<StyledSpan>>::empty()) =~= Seq::<LineView>::empty());
        }
        return r;
    }
    let mut start = messages.len();
    let mut budget = MAX_CHAT_LINES;
    let mut full = false;
    assert(ms.take(ms.len() as int) =~= ms);
    while start > 0 && !full
        invariant
            0 <= start <= messages@.len(),
            ms == messages_view(messages@),
            budget <= MAX_CHAT_LINES,
            newest_fitting(ms, MAX_CHAT_LINES as int) == (messages@.len() - start) + newest_fitting(
                ms.take(start as int),
                budget as int,
            ),
            full ==> newest_fitting(ms.take(start as int), budget as int) == 0,
        decreases start + (if full { 0int } else { 1int }),
    {
        let n = messages[start - 1].rendered_lines.len();
        assert(ms.take(start as int).last() == ms[start - 1]);
        assert(ms.take(start as int).drop_last() =~= ms.take(start - 1));
        if n > budget || budget - n < 2 {
            full = true;
        } else {
            budget = budget - n - 2;
            start = start - 1;
        }
    }
    proof {
        assert(newest_fitting(ms.take(start as int), budget as int) == 0);
        assert(ms.skip(ms.len() - newest_fitting(ms, MAX_CHAT_LINES as int)) =~= ms.skip(start as int));
    }
    let ghost kept = ms.skip(start as int);
    let mut r: Vec<Vec<StyledSpan>> = Vec::new();
    let mut i = start;
    assert(lines_view(r@) =~= Seq::<LineView>::empty());
    assert(kept.take(0) =~= Seq::<MessageView>::empty());
    while i < messages.len()
        invariant
            start <= i <= messages@.len(),
            ms == messages_view(messages@),
            kept == ms.skip(start as int),
            lines_view(r@) == drawn_transcript(kept.take(i - start), agent_name@),
        decreases messages@.len() - i,
    {
        assert(kept.take(i - start + 1).drop_last() =~= kept.take(i - start));
        assert(kept.take(i - start + 1).last() == messages@[i as int]@);
        let lines = drawn_lines(&messages[i], agent_name);
        append_lines(&mut r, lines);
        i += 1;
    }
    assert(kept.take(i - start) =~= kept);
    r
}

proof fn lemma_newest_fitting_lines(ms: Seq<MessageView>, agent_name: Seq<char>, budget: int)
    requires
        budget >= 0,
    ensures
        newest_fitting(ms, budget) <= ms.len(),
        drawn_transcript(ms.skip(ms.len() - newest_fitting(ms, budget)), agent_name).len() <= budget,
    decreases ms.len(),
{
    let k = newest_fitting(ms, budget);
    if ms.len() == 0 || ms.last().3.len() + 2 > budget {
        assert(ms.skip(ms.len() as int) =~= Seq::<MessageView>::empty());
    } else {
        let rest = ms.drop_last();
        let c = ms.last().3.len() + 2;
        lemma_newest_fitting_lines(rest, agent_name, budget - c);
        let tail = rest.skip(rest.len() - newest_fitting(rest, budget - c));
        assert(ms.skip(ms.len() - k) =~= tail.push(ms.last()));
        assert(tail.push(ms.last()).drop_last() =~= tail);
        assert(drawn_message_lines(ms.last(), agent_name).len() == c);
    }
}

/// The start of a block quote nests the lines after it one level deeper.
pub proof fn law_quote_start_raises_depth(m: RenderModel, e: MdEventView)
    requires
        e.0 == MdKind::StartBlockQuote,
    ensures
        render_step(m, e).quote == m.quote + 1,
{
}

/// The end of a block quote lowers the quote depth by one, and never below
/// zero.
pub proof fn law_quote_end_lowers_depth(m: RenderModel, e: MdEventView)
    requires
        e.0 == MdKind::EndBlockQuote,
    ensures
        m.quote > 0 ==> render_step(m, e).quote + 1 == m.quote,
        m.quote == 0 ==> render_step(m, e).quote == 0,
{
}

/// A paragraph quoted at the top level, then a paragraph after the quote
/// (each one line of text `a`, `b`): the quoted line starts with `> `, the
/// line after the quote carries no quote prefix.
pub proof fn law_text_after_quote_unquoted(events: Seq<MdEventView>, a: Seq<char>, b: Seq<char>)
    requires
        events.len() == 8,
        events[0].0 == MdKind::StartBlockQuote,
        events[1].0 == MdKind::StartOther,
        events[2].0 == MdKind::Text,
        events[2].1 == Some(a),
        events[3].0 == MdKind::EndParagraph,
        events[4].0 == MdKind::EndBlockQuote,
        events[5].0 == MdKind::StartOther,
        events[6].0 == MdKind::Text,
        events[6].1 == Some(b),
        events[7].0 == MdKind::EndParagraph,
        a.len() > 0,
        b.len() > 0,
        forall|i: int| 0 <= i < a.len() ==> a[i] != '\n',
        forall|i: int| 0 <= i < b.len() ==> b[i] != '\n',
    ensures
        markdown_lines_spec(events) == seq![
            seq![("> "@, SpanStyle::Quote), (a, plain_style())],
            seq![(b, plain_style())],
        ],
{
    crate::text::lemma_split_on_without_sep(a, '\n');
    crate::text::lemma_split_on_without_sep(b, '\n');
    let la: LineView = seq![("> "@, SpanStyle::Quote), (a, plain_style())];
    let lb: LineView = seq![(b, plain_style())];
    let m0 = initial_model();
    let m1 = RenderModel { quote: 1, ..m0 };
    assert(render_fold(events, 0) == m0);
    assert(render_fold(events, 1) == m1);
    assert(render_fold(events, 2) == m1);
    assert(quote_prefix(1) =~= seq![("> "@, SpanStyle::Quote)]);
    let m3 = RenderModel { current: la, ..m1 };
    assert(add_pieces(m1, seq![a], plain_style()) == add_span(m1, a, plain_style())) by {
        assert(seq![a].drop_last() =~= Seq::<Seq<char>>::empty());
        assert(add_pieces(m1, Seq::<Seq<char>>::empty(), plain_style()) == m1);
    }
    assert(add_span(m1, a, plain_style()).current =~= la);
    assert(render_fold(events, 3) == m3);
    assert(!line_is_blank(la)) by {
        assert(la[1].0.len() > 0);
    }
    let m4 = RenderModel { lines: seq![la], current: Seq::empty(), ..m1 };
    assert(seq![la].drop_last().push(la) =~= seq![la]);
    assert(trim_blank_lines(seq![la]) == seq![la]);
    assert(end_line(m3).lines =~= seq![la]);
    assert(render_fold(events, 4) == m4);
    let m5 = RenderModel { quote: 0, ..m4 };
    assert(render_fold(events, 5) == m5);
    assert(render_fold(events, 6) == m5);
    let m7 = RenderModel { current: lb, ..m5 };
    assert(add_pieces(m5, seq![b], plain_style()) == add_span(m5, b, plain_style())) by {
        assert(seq![b].drop_last() =~= Seq::<Seq<char>>::empty());
        assert(add_pieces(m5, Seq::<Seq<char>>::empty(), plain_style()) == m5);
    }
    assert(add_span(m5, b, plain_style()).current =~= lb);
    assert(render_fold(events, 7) == m7);
    let both: Seq<LineView> = seq![la, lb];
    assert(!line_is_blank(lb)) by {
        assert(lb[0].0.len() > 0);
    }
    assert(both.last() == lb);
    assert(trim_blank_lines(both) == both);
    assert(end_line(m7).lines =~= both);
    assert(render_fold(events, 8) == RenderModel { lines: both, current: Seq::empty(), ..m5 });
}

/// The transcript of a chat never holds more than `MAX_CHAT_LINES` lines.
pub proof fn law_transcript_within_limit(ms: Seq<MessageView>, agent_name: Seq<char>)
    ensures
        build_text_spec(ms, agent_name).len() <= MAX_CHAT_LINES,
{
    if ms.len() > 0 {
        lemma_newest_fitting_lines(ms, agent_name, MAX_CHAT_LINES as int);
    }
}

/// A message's text always takes at least one line.
pub proof fn law_message_text_takes_a_line(source: Seq<char>)
    ensures
        render_markdown_spec(source).len() >= 1,
{
}

proof fn lemma_all_fit(ms: Seq<MessageView>, agent_name: Seq<char>, budget: int)
    requires
        drawn_transcript(ms, agent_name).len() <= budget,
    ensures
        newest_fitting(ms, budget) == ms.len(),
    decreases ms.len(),
{
    if ms.len() > 0 {
        let c = ms.last().3.len() + 2;
        assert(drawn_message_lines(ms.last(), agent_name).len() == c);
        lemma_all_fit(ms.drop_last(), agent_name, budget - c);
    }
}

/// A chat whose messages fit in `MAX_CHAT_LINES` lines shows them all.
pub proof fn law_short_transcript_shown_whole(ms: Seq<MessageView>, agent_name: Seq<char>)
    requires
        ms.len() > 0,
        drawn_transcript(ms, agent_name).len() <= MAX_CHAT_LINES,
    ensures
        build_text_spec(ms, agent_name) == drawn_transcript(ms, agent_name),
{
    lemma_all_fit(ms, agent_name, MAX_CHAT_LINES as int);
    assert(ms.skip(0) =~= ms);
}

proof fn lemma_drawn_transcript_add(a: Seq<MessageView>, b: Seq<MessageView>, agent_name: Seq<char>)
    ensures
        drawn_transcript(a + b, agent_name) =~= drawn_transcript(a, agent_name) + drawn_transcript(b, agent_name),
    decreases b.len(),
{
    if b.len() == 0 {
        assert(a + b =~= a);
    } else {
        lemma_drawn_transcript_add(a, b.drop_last(), agent_name);
        assert((a + b).drop_last() =~= a + b.drop_last());
        assert((a + b).last() == b.last());
    }
}

/// What a chat with messages shows is the end of its whole transcript:
/// the newest lines, never a gap.
pub proof fn law_transcript_shows_the_newest(ms: Seq<MessageView>, agent_name: Seq<char>)
    requires
        ms.len() > 0,
    ensures
        ({
            let all = drawn_transcript(ms, agent_name);
            let shown = build_text_spec(ms, agent_name);
            shown.len() <= all.len() && all.skip(all.len() - shown.len()) == shown
        }),
{
    lemma_newest_fitting_le(ms, MAX_CHAT_LINES as int);
    let k = ms.len() - newest_fitting(ms, MAX_CHAT_LINES as int);
    assert(ms =~= ms.take(k) + ms.skip(k));
    lemma_drawn_transcript_add(ms.take(k), ms.skip(k), agent_name);
    let all = drawn_transcript(ms, agent_name);
    let head = drawn_transcript(ms.take(k), agent_name);
    let shown = drawn_transcript(ms.skip(k), agent_name);
    assert(all.skip(head.len() as int) =~= shown);
}

/// The rows inside the border of `area`.
pub open spec fn inner_rows(area: Rect) -> int {
    sat_sub(area.height as int, 2)
}

/// How many rows the transcript scrolls in `area` (inside its border) when
/// its lines take `content_height` rows there (cut to 16 bits).
pub open spec fn chat_max_scroll_spec(content_height: usize, area: Rect) -> u16 {
    (if content_height > inner_rows(area) {
        content_height - inner_rows(area)
    } else {
        0
    }) as u16
}

/// How many rows the transcript scrolls (see `chat_max_scroll_spec`).
pub fn chat_max_scroll(content_height: usize, area: Rect) -> (r: u16)
    ensures
        r == chat_max_scroll_spec(content_height, area),
{
    let inner = if area.height >= 2 {
        (area.height - 2) as usize
    } else {
        0
    };
    let over: usize = if content_height > inner {
        content_height - inner
    } else {
        0
    };
    over as u16
}

/// How many empty rows go above a transcript that is shorter than `area`
/// (inside its border), so that it sits at the bottom.
pub open spec fn chat_padding_spec(content_height: usize, area: Rect) -> int {
    let inner = inner_rows(area);
    if inner == 0 || content_height >= inner {
        0
    } else {
        inner - content_height
    }
}

/// The transcript with empty lines above it, so that a transcript shorter
/// than `area` sits at its bottom (see `chat_padding_spec`).
pub fn padded_chat_lines(lines: Vec<Vec<StyledSpan>>, content_height: usize, area: Rect) -> (r: Vec<
    Vec<StyledSpan>,
>)
    ensures
        lines_view(r@) == Seq::new(
            chat_padding_spec(content_height, area) as nat,
            |i: int| Seq::<SpanView>::empty(),
        ) + lines_view(lines@),
{
    let inner: usize = if area.height >= 2 {
        (area.height - 2) as usize
    } else {
        0
    };
    let pad: usize = if inner == 0 || content_height >= inner {
        0
    } else {
        inner - content_height
    };
    let mut r: Vec<Vec<StyledSpan>> = Vec::new();
    let mut k: usize = 0;
    while k < pad
        invariant
            0 <= k <= pad,
            lines_view(r@) =~= Seq::new(k as nat, |i: int| Seq::<SpanView>::empty()),
        decreases pad - k,
    {
        let empty: Vec<StyledSpan> = Vec::new();
        let ghost before = r@;
        r.push(empty);
        proof {
            lemma_lines_view_push(before, empty);
            assert(line_view(empty@) =~= Seq::<SpanView>::empty());
        }
        k += 1;
    }
    append_lines(&mut r, lines);
    r
}

/// How many rows `ratatui` takes to draw lines in a paragraph `width`
/// columns wide, wrapped at word boundaries with spaces kept.
pub uninterp spec fn wrapped_height_of(lines: Seq<LineView>, width: u16) -> usize;

/// The rows that `ratatui::widgets::Paragraph::line_count` counts for the
/// lines, wrapped with `Wrap { trim: false }` at `width` columns. What it
/// counts is named, not restated.
#[verifier::external_body]
fn paragraph_line_count(lines: &Vec<Vec<StyledSpan>>, width: u16) -> (r: usize)
    ensures
        r == wrapped_height_of(lines_view(lines@), width),
{
    let text: Vec<Line<'static>> = lines
        .iter()
        .map(|l| Line::from(l.iter().map(|s| Span::raw(s.text.clone())).collect::<Vec<_>>()))
        .collect();
    Paragraph::new(text).wrap(Wrap { trim: false }).line_count(width)
}

/// How many rows lines take wrapped at `width` columns, at least one.
pub fn wrapped_text_height(lines: &Vec<Vec<StyledSpan>>, width: u16) -> (r: usize)
    ensures
        r == wrapped_height_of(lines_view(lines@), max_int(width as int, 1) as u16),
{
    paragraph_line_count(lines, max_u16(width, 1))
}

/// How many rows the chat transcript takes inside the border of `area`.
pub open spec fn chat_content_height_spec(lines: Seq<LineView>, area: Rect) -> usize {
    wrapped_height_of(lines, max_int(inner_of(area).width as int, 1) as u16)
}

/// How many rows the chat transcript takes inside the border of `area`
/// (see `chat_content_height_spec`).
pub fn chat_content_height(lines: &Vec<Vec<StyledSpan>>, area: Rect) -> (r: usize)
    ensures
        r == chat_content_height_spec(lines_view(lines@), area),
{
    wrapped_text_height(lines, inner_rect(area).width)
}

/// How many rows lines take in a scrollable `area`: wrapped inside its
/// border, and one column narrower when they do not fit, which leaves a
/// column for the scrollbar.
pub open spec fn scrollable_height_spec(lines: Seq<LineView>, area: Rect) -> usize {
    let viewport = inner_of(area);
    let base = wrapped_height_of(lines, max_int(viewport.width as int, 1) as u16);
    if base > viewport.height && viewport.width > 1 {
        wrapped_height_of(lines, (viewport.width - 1) as u16)
    } else {
        base
    }
}

/// How many rows lines take in a scrollable area (see
/// `scrollable_height_spec`).
pub fn scrollable_text_height(lines: &Vec<Vec<StyledSpan>>, area: Rect) -> (r: usize)
    ensures
        r == scrollable_height_spec(lines_view(lines@), area),
{
    let viewport = inner_rect(area);
    let base = wrapped_text_height(lines, viewport.width);
    if base > viewport.height as usize && viewport.width > 1 {
        wrapped_text_height(lines, viewport.width - 1)
    } else {
        base
    }
}

} // verus!
