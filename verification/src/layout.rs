//! Areas laid out with the terminal library's constraint solver: the frame
//! of the application, the git diff tab with its buttons, the workspace
//! sidebar, the code area of the workspace editor above its status row,
//! and the popup that lists the editor's shortcuts with its close button.
use vstd::prelude::*;
use ratatui::layout::{Constraint, Direction, Layout};
use crate::app_shell::AddAgentField;
use crate::geometry::{margin_inner, max_int, max_u16, min_int, min_u16, sat_add, sat_sub, Rect};

verus! {

/// A size asked of one part of a split.
#[derive(Debug, Clone, Copy, PartialEq, Eq, Structural)]
pub enum SizeConstraint {
    /// At least this many cells.
    Min(u16),
    /// Exactly this many cells.
    Length(u16),
}

/// The direction in which an area is split.
#[derive(Debug, Clone, Copy, PartialEq, Eq, Structural)]
pub enum Axis {
    Vertical,
    Horizontal,
}

/// `r` shrunk by `m` cells on every side, or the empty rectangle at the
/// origin when it is too small for that (`ratatui`'s `Rect::inner` with a
/// margin of `m` on both axes).
pub open spec fn inset(r: Rect, m: u16) -> Rect {
    let d = if 2 * m > u16::MAX {
        u16::MAX as int
    } else {
        2 * m
    };
    if r.width < d || r.height < d {
        Rect { x: 0, y: 0, width: 0, height: 0 }
    } else {
        Rect {
            x: sat_add(r.x as int, m as int) as u16,
            y: sat_add(r.y as int, m as int) as u16,
            width: (r.width - d) as u16,
            height: (r.height - d) as u16,
        }
    }
}

/// `r` as the terminal library builds it (`Rect::new`, which cuts its size
/// to stay inside the coordinate space).
pub open spec fn placed(r: Rect) -> Rect {
    Rect::spec_new(r.x, r.y, r.width, r.height)
}

/// A part of a split runs across the whole of `inner` on the other axis:
/// a part of a vertical split has the columns of `inner`, a part of a
/// horizontal split its rows.
pub open spec fn spans(part: Rect, inner: Rect, axis: Axis) -> bool {
    match axis {
        Axis::Vertical => part.x == inner.x && part.width == inner.width,
        Axis::Horizontal => part.y == inner.y && part.height == inner.height,
    }
}

/// Where `r` starts along `axis`: its first row for a vertical split, its
/// first column for a horizontal one.
pub open spec fn lo(r: Rect, axis: Axis) -> int {
    match axis {
        Axis::Vertical => r.y as int,
        Axis::Horizontal => r.x as int,
    }
}

/// Where `r` ends along `axis` (one past its last row or column).
pub open spec fn hi(r: Rect, axis: Axis) -> int {
    match axis {
        Axis::Vertical => r.y + r.height,
        Axis::Horizontal => r.x + r.width,
    }
}

/// `part` lies inside `outer` along `axis`.
pub open spec fn within(part: Rect, outer: Rect, axis: Axis) -> bool {
    lo(outer, axis) <= lo(part, axis) && hi(part, axis) <= hi(outer, axis)
}

/// `a` ends, along `axis`, no later than `b` starts.
pub open spec fn precedes(a: Rect, b: Rect, axis: Axis) -> bool {
    hi(a, axis) <= lo(b, axis)
}

/// How far `r` runs along `axis`.
pub open spec fn extent(r: Rect, axis: Axis) -> int {
    hi(r, axis) - lo(r, axis)
}

/// The cells a constraint asks for: at least, or exactly.
pub open spec fn asked(c: SizeConstraint) -> int {
    match c {
        SizeConstraint::Min(n) => n as int,
        SizeConstraint::Length(n) => n as int,
    }
}

/// The cells all the constraints ask for together.
pub open spec fn asked_total(cs: Seq<SizeConstraint>) -> int
    decreases cs.len(),
{
    if cs.len() == 0 {
        0
    } else {
        asked_total(cs.drop_last()) + asked(cs.last())
    }
}

/// The cells a `Length` constraint asks for (none for a `Min`).
pub open spec fn length_of(c: SizeConstraint) -> int {
    match c {
        SizeConstraint::Length(n) => n as int,
        SizeConstraint::Min(_) => 0,
    }
}

/// One for a `Min` constraint, none for a `Length`.
pub open spec fn min_of(c: SizeConstraint) -> int {
    if c is Min {
        1
    } else {
        0
    }
}

/// The cells the `Length` constraints ask for together.
pub open spec fn length_total(cs: Seq<SizeConstraint>) -> int
    decreases cs.len(),
{
    if cs.len() == 0 {
        0
    } else {
        length_total(cs.drop_last()) + length_of(cs.last())
    }
}

/// How many `Min` constraints there are.
pub open spec fn min_count(cs: Seq<SizeConstraint>) -> int
    decreases cs.len(),
{
    if cs.len() == 0 {
        0
    } else {
        min_count(cs.drop_last()) + min_of(cs.last())
    }
}

proof fn lemma_totals_2(c0: SizeConstraint, c1: SizeConstraint)
    ensures
        asked_total(seq![c0, c1]) == asked(c0) + asked(c1),
        length_total(seq![c0, c1]) == length_of(c0) + length_of(c1),
        min_count(seq![c0, c1]) == min_of(c0) + min_of(c1),
{
    assert(seq![c0, c1].drop_last() =~= seq![c0]);
    assert(seq![c0].drop_last() =~= Seq::<SizeConstraint>::empty());
    reveal_with_fuel(asked_total, 3);
    reveal_with_fuel(length_total, 3);
    reveal_with_fuel(min_count, 3);
}

proof fn lemma_totals_3(c0: SizeConstraint, c1: SizeConstraint, c2: SizeConstraint)
    ensures
        asked_total(seq![c0, c1, c2]) == asked(c0) + asked(c1) + asked(c2),
        length_total(seq![c0, c1, c2]) == length_of(c0) + length_of(c1) + length_of(c2),
        min_count(seq![c0, c1, c2]) == min_of(c0) + min_of(c1) + min_of(c2),
{
    assert(seq![c0, c1, c2].drop_last() =~= seq![c0, c1]);
    lemma_totals_2(c0, c1);
}

proof fn lemma_totals_4(c0: SizeConstraint, c1: SizeConstraint, c2: SizeConstraint, c3: SizeConstraint)
    ensures
        asked_total(seq![c0, c1, c2, c3]) == asked(c0) + asked(c1) + asked(c2) + asked(c3),
        length_total(seq![c0, c1, c2, c3]) == length_of(c0) + length_of(c1) + length_of(c2) + length_of(c3),
        min_count(seq![c0, c1, c2, c3]) == min_of(c0) + min_of(c1) + min_of(c2) + min_of(c3),
{
    assert(seq![c0, c1, c2, c3].drop_last() =~= seq![c0, c1, c2]);
    lemma_totals_3(c0, c1, c2);
}

proof fn lemma_totals_5(c0: SizeConstraint, c1: SizeConstraint, c2: SizeConstraint, c3: SizeConstraint, c4: SizeConstraint)
    ensures
        asked_total(seq![c0, c1, c2, c3, c4]) == asked(c0) + asked(c1) + asked(c2) + asked(c3) + asked(c4),
        length_total(seq![c0, c1, c2, c3, c4]) == length_of(c0) + length_of(c1) + length_of(c2) + length_of(c3)
            + length_of(c4),
        min_count(seq![c0, c1, c2, c3, c4]) == min_of(c0) + min_of(c1) + min_of(c2) + min_of(c3) + min_of(c4),
{
    assert(seq![c0, c1, c2, c3, c4].drop_last() =~= seq![c0, c1, c2, c3]);
    lemma_totals_4(c0, c1, c2, c3);
}

/// A split with one `Min` part where `inner` has room, along `axis`, for
/// every cell that the constraints ask for.
pub open spec fn has_room(cs: Seq<SizeConstraint>, inner: Rect, axis: Axis) -> bool {
    min_count(cs) == 1 && asked_total(cs) <= extent(inner, axis)
}

/// The size of the part of constraint `c` in such a split: a `Length` part
/// gets what it asks for, the `Min` part all the rest.
pub open spec fn part_size(c: SizeConstraint, cs: Seq<SizeConstraint>, inner: Rect, axis: Axis) -> int {
    match c {
        SizeConstraint::Length(n) => n as int,
        SizeConstraint::Min(_) => extent(inner, axis) - length_total(cs),
    }
}

/// `parts` are what a split of `area` less `margin` along `axis` gives for
/// the constraints `cs`: one part each, each across the whole of that area
/// and inside it along the axis, one after another in the order of the
/// constraints; and, where there is room for one `Min` part and every
/// asked cell, each part of the size its constraint gives it.
pub open spec fn split_parts(parts: Seq<Rect>, area: Rect, axis: Axis, cs: Seq<SizeConstraint>, margin: u16) -> bool {
    let inner = inset(placed(area), margin);
    let count = cs.len() as int;
    &&& parts.len() == count
    &&& forall|k: int| 0 <= k < count ==> (#[trigger] parts[k]).wf()
    &&& forall|k: int| 0 <= k < count ==> spans(#[trigger] parts[k], inner, axis)
    &&& forall|k: int| 0 <= k < count ==> within(#[trigger] parts[k], inner, axis)
    &&& forall|k: int| 0 <= k < count - 1 ==> precedes(#[trigger] parts[k], parts[k + 1], axis)
    &&& has_room(cs, inner, axis) ==> forall|k: int|
        0 <= k < count ==> extent(#[trigger] parts[k], axis) == part_size(cs[k], cs, inner, axis)
}

/// Splits an area with `ratatui::layout::Layout::split` (with the default
/// `Flex::Start`), after a margin of `margin` cells on every side: one part
/// per constraint, each across the whole of that area on the other axis
/// (`changes_to_rects` copies it), inside that area along the axis, and the
/// parts one after another in the order of the constraints.
///
/// Why the order holds whatever the solver picks: every solver variable is
/// kept inside the area and each part's start before its end by required
/// constraints, and the gap between two parts is held at zero with the
/// strength `REQUIRED / 10`, above what any one cell of a `Min` or `Length`
/// part is worth (`STRONG * 100` plus smaller terms), so no optimum lets
/// two parts overlap; rounding each end to a cell keeps the order.
///
/// The sizes are stated where there is room (one `Min` constraint, and the
/// area along the axis at least the sum of what all constraints ask): a
/// `Length(n)` part then gets `n` cells and the `Min` part the rest. In the
/// solver a cell taken from a `Length` part costs `LENGTH_SIZE_EQ` (`STRONG
/// * 10`), while a cell more for the `Min` part is worth only `FILL_GROW`
/// (`MEDIUM`) and a cell more for the last spacer `GROW` (`MEDIUM / 10`);
/// the `Min` part's own bound `MIN_SIZE_GE` holds there, and the
/// between-part terms weigh `WEAK`. So the optimum gives every `Length`
/// part its cells and every cell left to the `Min` part. Without room the
/// sizes come from trading those strengths and are not stated.
///
/// The solver fails only on a duplicate or unsatisfiable required
/// constraint: every constraint is built fresh, and the required ones hold
/// together.
#[verifier::external_body]
pub(crate) fn split_area(area: Rect, axis: Axis, constraints: &Vec<SizeConstraint>, margin: u16) -> (r: Vec<Rect>)
    ensures
        split_parts(r@, area, axis, constraints@, margin),
{
    let direction = match axis {
        Axis::Vertical => Direction::Vertical,
        Axis::Horizontal => Direction::Horizontal,
    };
    let list = constraints.iter().map(|c| match c {
        SizeConstraint::Min(n) => Constraint::Min(*n),
        SizeConstraint::Length(n) => Constraint::Length(*n),
    });
    let target = ratatui::layout::Rect::new(area.x, area.y, area.width, area.height);
    let parts = Layout::default().direction(direction).constraints(list).margin(margin).split(target);
    parts.iter().map(|p| Rect { x: p.x, y: p.y, width: p.width, height: p.height }).collect()
}

/// The code area of the editor inside its border (`inner`) and, when there
/// are at least two rows, the status row: with one row the code area is all
/// of it; otherwise both run across its columns, inside its rows, the code
/// area above the status row.
pub open spec fn editor_panes_spec(inner: Rect, r: (Rect, Option<Rect>)) -> bool {
    if inner.height <= 1 {
        r == (inner, None::<Rect>)
    } else {
        &&& r.1 is Some
        &&& spans(r.0, placed(inner), Axis::Vertical)
        &&& spans(r.1->0, placed(inner), Axis::Vertical)
        &&& within(r.0, placed(inner), Axis::Vertical)
        &&& within(r.1->0, placed(inner), Axis::Vertical)
        &&& precedes(r.0, r.1->0, Axis::Vertical)
        &&& placed(inner).height >= 2 ==> r.0.height == placed(inner).height - 1 && (r.1->0).height == 1
    }
}

/// The code area and the status row of the editor (see
/// `editor_panes_spec`).
pub fn editor_panes(inner: Rect) -> (r: (Rect, Option<Rect>))
    ensures
        editor_panes_spec(inner, r),
{
    if inner.height <= 1 {
        return (inner, None);
    }
    let constraints = vec![SizeConstraint::Min(1), SizeConstraint::Length(1)];
    let parts = split_area(inner, Axis::Vertical, &constraints, 0);
    assert(spans(parts@[0], inset(placed(inner), 0), Axis::Vertical));
    assert(spans(parts@[1], inset(placed(inner), 0), Axis::Vertical));
    assert(within(parts@[0], inset(placed(inner), 0), Axis::Vertical));
    assert(within(parts@[1], inset(placed(inner), 0), Axis::Vertical));
    assert(precedes(parts@[0], parts@[1], Axis::Vertical));
    assert(inset(placed(inner), 0) == placed(inner));
    proof {
        let cs = constraints@;
        assert(cs =~= seq![SizeConstraint::Min(1), SizeConstraint::Length(1)]);
        lemma_totals_2(SizeConstraint::Min(1), SizeConstraint::Length(1));
        if placed(inner).height >= 2 {
            assert(has_room(cs, inset(placed(inner), 0), Axis::Vertical));
            assert(extent(parts@[0], Axis::Vertical) == part_size(cs[0], cs, placed(inner), Axis::Vertical));
            assert(extent(parts@[1], Axis::Vertical) == part_size(cs[1], cs, placed(inner), Axis::Vertical));
        }
    }
    (parts[0], Some(parts[1]))
}

/// The code area of an editor drawn in `area` (with its border).
pub fn editor_viewport(area: Rect) -> (r: Rect)
    requires
        area.wf(),
    ensures
        margin_inner(area).height <= 1 ==> r == margin_inner(area),
        margin_inner(area).height > 1 ==> spans(r, placed(margin_inner(area)), Axis::Vertical),
        margin_inner(area).height > 1 ==> within(r, placed(margin_inner(area)), Axis::Vertical),
        margin_inner(area).height >= 2 ==> r.height == margin_inner(area).height - 1,
{
    let inner = area.inner_margin();
    assert(placed(inner) == inner);
    editor_panes(inner).0
}

/// The widest the shortcuts popup gets.
pub const SHORTCUTS_POPUP_WIDTH: u16 = 60;

/// The highest the shortcuts popup gets.
pub const SHORTCUTS_POPUP_HEIGHT: u16 = 16;

/// The width of the popup's close button.
pub const SHORTCUTS_CLOSE_BUTTON_WIDTH: u16 = 12;

/// Where the shortcuts popup of the editor is drawn: its frame, the area of
/// its text, and its close button.
#[derive(Debug, Clone, Copy, PartialEq, Eq, Structural)]
pub struct ShortcutsPopupLayout {
    pub popup_area: Rect,
    pub content_area: Rect,
    pub close_button_area: Rect,
}

/// Where the shortcuts popup over an editor drawn in `area` opens: centred
/// inside its border, at most `SHORTCUTS_POPUP_WIDTH` x
/// `SHORTCUTS_POPUP_HEIGHT`.
pub open spec fn shortcuts_popup_area(area: Rect) -> Rect {
    let viewport = margin_inner(area);
    let w = min_int(SHORTCUTS_POPUP_WIDTH as int, max_int(viewport.width as int, 1));
    let h = min_int(SHORTCUTS_POPUP_HEIGHT as int, max_int(viewport.height as int, 1));
    let x = sat_add(viewport.x as int, sat_sub(viewport.width as int, w) / 2);
    let y = sat_add(viewport.y as int, sat_sub(viewport.height as int, h) / 2);
    Rect::spec_new(x as u16, y as u16, w as u16, h as u16)
}

/// The shortcuts popup of the editor: the popup where
/// `shortcuts_popup_area` puts it; inside its border, the text runs across
/// its columns above a three-row strip whose right end (twelve columns)
/// holds the close button, which runs across the strip's rows.
pub fn shortcuts_popup_layout(area: Rect) -> (r: ShortcutsPopupLayout)
    requires
        area.wf(),
    ensures
        r.popup_area == shortcuts_popup_area(area),
        spans(r.content_area, placed(margin_inner(r.popup_area)), Axis::Vertical),
        within(r.content_area, placed(margin_inner(r.popup_area)), Axis::Vertical),
        within(r.close_button_area, placed(margin_inner(r.popup_area)), Axis::Vertical),
        within(r.close_button_area, placed(margin_inner(r.popup_area)), Axis::Horizontal),
        precedes(r.content_area, r.close_button_area, Axis::Vertical),
        ({
            let inner = margin_inner(r.popup_area);
            inner.height >= 4 ==> r.content_area.height == inner.height - 3 && r.content_area.y == inner.y
        }),
        ({
            let inner = margin_inner(r.popup_area);
            inner.height >= 4 && inner.width >= SHORTCUTS_CLOSE_BUTTON_WIDTH + 1 ==> r.close_button_area
                == Rect {
                x: (inner.x + inner.width - SHORTCUTS_CLOSE_BUTTON_WIDTH) as u16,
                y: (inner.y + inner.height - 3) as u16,
                width: SHORTCUTS_CLOSE_BUTTON_WIDTH,
                height: 3,
            }
        }),
{
    let viewport = area.inner_margin();
    let popup_width = min_u16(SHORTCUTS_POPUP_WIDTH, max_u16(viewport.width, 1));
    let popup_height = min_u16(SHORTCUTS_POPUP_HEIGHT, max_u16(viewport.height, 1));
    let popup_x = viewport.x.saturating_add(viewport.width.saturating_sub(popup_width) / 2);
    let popup_y = viewport.y.saturating_add(viewport.height.saturating_sub(popup_height) / 2);
    let popup_area = Rect::new(popup_x, popup_y, popup_width, popup_height);
    let inner = popup_area.inner_margin();
    let rows = vec![SizeConstraint::Min(1), SizeConstraint::Length(3)];
    let sections = split_area(inner, Axis::Vertical, &rows, 0);
    let columns = vec![SizeConstraint::Min(1), SizeConstraint::Length(SHORTCUTS_CLOSE_BUTTON_WIDTH)];
    let buttons = split_area(sections[1], Axis::Horizontal, &columns, 0);
    assert(inset(placed(inner), 0) == placed(inner));
    assert(spans(sections@[0], inset(placed(inner), 0), Axis::Vertical));
    assert(spans(sections@[1], inset(placed(inner), 0), Axis::Vertical));
    assert(within(sections@[0], inset(placed(inner), 0), Axis::Vertical));
    assert(within(sections@[1], inset(placed(inner), 0), Axis::Vertical));
    assert(precedes(sections@[0], sections@[1], Axis::Vertical));
    assert(sections@[1].wf());
    assert(inset(placed(sections@[1]), 0) == sections@[1]);
    assert(spans(buttons@[1], inset(placed(sections@[1]), 0), Axis::Horizontal));
    assert(within(buttons@[1], inset(placed(sections@[1]), 0), Axis::Horizontal));
    proof {
        assert(placed(inner) == inner);
        assert(rows@ =~= seq![SizeConstraint::Min(1), SizeConstraint::Length(3)]);
        lemma_totals_2(SizeConstraint::Min(1), SizeConstraint::Length(3));
        assert(columns@ =~= seq![SizeConstraint::Min(1), SizeConstraint::Length(SHORTCUTS_CLOSE_BUTTON_WIDTH)]);
        lemma_totals_2(SizeConstraint::Min(1), SizeConstraint::Length(SHORTCUTS_CLOSE_BUTTON_WIDTH));
        if inner.height >= 4 {
            assert(has_room(rows@, inset(placed(inner), 0), Axis::Vertical));
            assert(extent(sections@[0], Axis::Vertical) == part_size(rows@[0], rows@, inner, Axis::Vertical));
            assert(extent(sections@[1], Axis::Vertical) == part_size(rows@[1], rows@, inner, Axis::Vertical));
            if inner.width >= SHORTCUTS_CLOSE_BUTTON_WIDTH + 1 {
                assert(has_room(columns@, inset(placed(sections@[1]), 0), Axis::Horizontal));
                assert(extent(buttons@[0], Axis::Horizontal) == part_size(
                    columns@[0],
                    columns@,
                    sections@[1],
                    Axis::Horizontal,
                ));
                assert(extent(buttons@[1], Axis::Horizontal) == part_size(
                    columns@[1],
                    columns@,
                    sections@[1],
                    Axis::Horizontal,
                ));
                assert(within(buttons@[0], inset(placed(sections@[1]), 0), Axis::Horizontal));
                assert(precedes(buttons@[0], buttons@[1], Axis::Horizontal));
            }
        }
    }
    ShortcutsPopupLayout {
        popup_area,
        content_area: sections[0],
        close_button_area: buttons[1],
    }
}

/// The width of the sidebar.
pub const SIDEBAR_WIDTH: u16 = 45;

/// The areas of the application's frame: the tab bar on top, the sidebar
/// and the main area side by side, the help line at the bottom, and, when
/// the chat is shown, the chat transcript above its input.
#[derive(Debug, Clone, Copy, PartialEq, Eq, Structural)]
pub struct FrameLayout {
    pub tabs: Rect,
    pub sidebar: Rect,
    pub main: Rect,
    pub help: Rect,
    pub chat: Option<Rect>,
    pub chat_input: Option<Rect>,
}

/// The frame of the application in `area`: three rows of tabs, then the
/// body, then one help row, each across the area's columns; the body is
/// the sidebar (`SIDEBAR_WIDTH` columns) beside the main area (at least 40),
/// on the same rows; with a chat input of `chat_input_height` rows, the
/// main area is the transcript (at least 10 rows) above the input, both
/// across its columns.
pub fn frame_layout(area: Rect, chat_input_height: Option<u16>) -> (r: FrameLayout)
    ensures
        spans(r.tabs, placed(area), Axis::Vertical),
        spans(r.help, placed(area), Axis::Vertical),
        r.sidebar.y == r.main.y && r.sidebar.height == r.main.height,
        r.chat is Some <==> chat_input_height is Some,
        r.chat_input is Some <==> chat_input_height is Some,
        r.chat matches Some(c) ==> spans(c, placed(r.main), Axis::Vertical),
        r.chat_input matches Some(c) ==> spans(c, placed(r.main), Axis::Vertical),
        within(r.tabs, placed(area), Axis::Vertical),
        precedes(r.tabs, r.sidebar, Axis::Vertical),
        precedes(r.main, r.help, Axis::Vertical),
        within(r.help, placed(area), Axis::Vertical),
        within(r.sidebar, placed(area), Axis::Horizontal),
        within(r.main, placed(area), Axis::Horizontal),
        precedes(r.sidebar, r.main, Axis::Horizontal),
        r.chat matches Some(c) ==> within(c, placed(r.main), Axis::Vertical),
        r.chat_input matches Some(c) ==> within(c, placed(r.main), Axis::Vertical),
        r.chat matches Some(c) ==> r.chat_input matches Some(i) && precedes(c, i, Axis::Vertical),
        placed(area).height >= 5 ==> r.tabs.y == placed(area).y && r.tabs.height == 3 && r.main.y
            == placed(area).y + 3 && r.main.height == placed(area).height - 4 && r.help.y == placed(area).y
            + placed(area).height - 1 && r.help.height == 1,
        placed(area).width >= SIDEBAR_WIDTH + 40 ==> r.sidebar.x == placed(area).x && r.sidebar.width
            == SIDEBAR_WIDTH && r.main.x == placed(area).x + SIDEBAR_WIDTH && r.main.width == placed(
            area,
        ).width - SIDEBAR_WIDTH,
        match chat_input_height {
            Some(h) => r.main.height >= 10 + h ==> {
                &&& r.chat_input matches Some(i) && i.height == h && i.y == r.main.y + r.main.height - h
                &&& r.chat matches Some(c) && c.y == r.main.y && c.height == r.main.height - h
            },
            None => true,
        },
{
    let row_sizes = vec![SizeConstraint::Length(3), SizeConstraint::Min(1), SizeConstraint::Length(1)];
    let rows = split_area(area, Axis::Vertical, &row_sizes, 0);
    let body_sizes = vec![SizeConstraint::Length(SIDEBAR_WIDTH), SizeConstraint::Min(40)];
    let body = split_area(rows[1], Axis::Horizontal, &body_sizes, 0);
    assert(spans(rows@[0], inset(placed(area), 0), Axis::Vertical));
    assert(spans(rows@[2], inset(placed(area), 0), Axis::Vertical));
    assert(inset(placed(area), 0) == placed(area));
    assert(spans(rows@[1], inset(placed(area), 0), Axis::Vertical));
    assert(within(rows@[0], inset(placed(area), 0), Axis::Vertical));
    assert(within(rows@[2], inset(placed(area), 0), Axis::Vertical));
    assert(precedes(rows@[0], rows@[1], Axis::Vertical));
    assert(precedes(rows@[1], rows@[2], Axis::Vertical));
    assert(rows@[1].wf());
    assert(inset(placed(rows@[1]), 0) == rows@[1]);
    assert(spans(body@[0], inset(placed(rows@[1]), 0), Axis::Horizontal));
    assert(spans(body@[1], inset(placed(rows@[1]), 0), Axis::Horizontal));
    assert(within(body@[0], inset(placed(rows@[1]), 0), Axis::Horizontal));
    assert(within(body@[1], inset(placed(rows@[1]), 0), Axis::Horizontal));
    assert(precedes(body@[0], body@[1], Axis::Horizontal));
    proof {
        let a = placed(area);
        assert(row_sizes@ =~= seq![SizeConstraint::Length(3), SizeConstraint::Min(1), SizeConstraint::Length(1)]);
        lemma_totals_3(SizeConstraint::Length(3), SizeConstraint::Min(1), SizeConstraint::Length(1));
        assert(body_sizes@ =~= seq![SizeConstraint::Length(SIDEBAR_WIDTH), SizeConstraint::Min(40)]);
        lemma_totals_2(SizeConstraint::Length(SIDEBAR_WIDTH), SizeConstraint::Min(40));
        if a.height >= 5 {
            assert(has_room(row_sizes@, inset(a, 0), Axis::Vertical));
            assert(extent(rows@[0], Axis::Vertical) == part_size(row_sizes@[0], row_sizes@, a, Axis::Vertical));
            assert(extent(rows@[1], Axis::Vertical) == part_size(row_sizes@[1], row_sizes@, a, Axis::Vertical));
            assert(extent(rows@[2], Axis::Vertical) == part_size(row_sizes@[2], row_sizes@, a, Axis::Vertical));
        }
        if a.width >= SIDEBAR_WIDTH + 40 {
            assert(has_room(body_sizes@, inset(placed(rows@[1]), 0), Axis::Horizontal));
            assert(extent(body@[0], Axis::Horizontal) == part_size(
                body_sizes@[0],
                body_sizes@,
                rows@[1],
                Axis::Horizontal,
            ));
            assert(extent(body@[1], Axis::Horizontal) == part_size(
                body_sizes@[1],
                body_sizes@,
                rows@[1],
                Axis::Horizontal,
            ));
        }
    }
    let (chat, chat_input) = match chat_input_height {
        Some(h) => {
            let sizes = vec![SizeConstraint::Min(10), SizeConstraint::Length(h)];
            let chunks = split_area(body[1], Axis::Vertical, &sizes, 0);
            assert(spans(chunks@[0], inset(placed(body@[1]), 0), Axis::Vertical));
            assert(spans(chunks@[1], inset(placed(body@[1]), 0), Axis::Vertical));
            assert(within(chunks@[0], inset(placed(body@[1]), 0), Axis::Vertical));
            assert(within(chunks@[1], inset(placed(body@[1]), 0), Axis::Vertical));
            assert(precedes(chunks@[0], chunks@[1], Axis::Vertical));
            assert(inset(placed(body@[1]), 0) == placed(body@[1]));
            proof {
                assert(body@[1].wf());
                assert(placed(body@[1]) == body@[1]);
                assert(sizes@ =~= seq![SizeConstraint::Min(10), SizeConstraint::Length(h)]);
                lemma_totals_2(SizeConstraint::Min(10), SizeConstraint::Length(h));
                if body@[1].height >= 10 + h {
                    assert(has_room(sizes@, inset(placed(body@[1]), 0), Axis::Vertical));
                    assert(extent(chunks@[0], Axis::Vertical) == part_size(
                        sizes@[0],
                        sizes@,
                        body@[1],
                        Axis::Vertical,
                    ));
                    assert(extent(chunks@[1], Axis::Vertical) == part_size(
                        sizes@[1],
                        sizes@,
                        body@[1],
                        Axis::Vertical,
                    ));
                }
            }
            (Some(chunks[0]), Some(chunks[1]))
        },
        None => (None, None),
    };
    FrameLayout { tabs: rows[0], sidebar: body[0], main: body[1], help: rows[2], chat, chat_input }
}

/// The areas of the git diff tab: the section tabs, the diff preview, and
/// under them the commit input beside four buttons, above a status row.
#[derive(Debug, Clone, Copy, PartialEq, Eq, Structural)]
pub struct GitDiffLayout {
    pub sections: Rect,
    pub preview: Rect,
    pub commit_input: Rect,
    pub stage_button: Rect,
    pub discard_button: Rect,
    pub push_button: Rect,
    pub pull_button: Rect,
    pub status: Rect,
}

/// The controls of the git diff tab share one row: the commit input and
/// the four buttons have the same rows.
pub open spec fn one_row(a: Rect, b: Rect) -> bool {
    a.y == b.y && a.height == b.height
}

/// The areas of the git diff tab in `area`: three rows of section tabs,
/// the preview (at least 8 rows) and five rows of controls, across the
/// area's columns; the controls are a row of three holding the commit
/// input (at least 18 columns) and four buttons of 12 columns, above the
/// status, which also runs across the area's columns.
pub fn git_diff_layout(area: Rect) -> (r: GitDiffLayout)
    ensures
        spans(r.sections, placed(area), Axis::Vertical),
        spans(r.preview, placed(area), Axis::Vertical),
        r.status.x == placed(area).x && r.status.width == placed(area).width,
        one_row(r.commit_input, r.stage_button),
        one_row(r.commit_input, r.discard_button),
        one_row(r.commit_input, r.push_button),
        one_row(r.commit_input, r.pull_button),
        within(r.sections, placed(area), Axis::Vertical),
        precedes(r.sections, r.preview, Axis::Vertical),
        precedes(r.preview, r.commit_input, Axis::Vertical),
        precedes(r.commit_input, r.status, Axis::Vertical),
        within(r.status, placed(area), Axis::Vertical),
        within(r.commit_input, placed(area), Axis::Horizontal),
        precedes(r.commit_input, r.stage_button, Axis::Horizontal),
        precedes(r.stage_button, r.discard_button, Axis::Horizontal),
        precedes(r.discard_button, r.push_button, Axis::Horizontal),
        precedes(r.push_button, r.pull_button, Axis::Horizontal),
        within(r.pull_button, placed(area), Axis::Horizontal),
        placed(area).height >= 16 ==> r.sections.y == placed(area).y && r.sections.height == 3
            && r.preview.y == placed(area).y + 3 && r.preview.height == placed(area).height - 8
            && r.commit_input.y == placed(area).y + placed(area).height - 5 && r.commit_input.height == 3
            && r.status.y == placed(area).y + placed(area).height - 2 && r.status.height == 2,
        placed(area).width >= 66 ==> r.commit_input.x == placed(area).x && r.commit_input.width
            == placed(area).width - 48 && r.stage_button.x == placed(area).x + placed(area).width - 48
            && r.discard_button.x == placed(area).x + placed(area).width - 36 && r.push_button.x
            == placed(area).x + placed(area).width - 24 && r.pull_button.x == placed(area).x + placed(
            area,
        ).width - 12 && r.stage_button.width == 12 && r.discard_button.width == 12
            && r.push_button.width == 12 && r.pull_button.width == 12,
{
    let chunk_sizes = vec![SizeConstraint::Length(3), SizeConstraint::Min(8), SizeConstraint::Length(5)];
    let chunks = split_area(area, Axis::Vertical, &chunk_sizes, 0);
    let control_sizes = vec![SizeConstraint::Length(3), SizeConstraint::Min(1)];
    let controls = split_area(chunks[2], Axis::Vertical, &control_sizes, 0);
    let row_sizes = vec![
        SizeConstraint::Min(18),
        SizeConstraint::Length(12),
        SizeConstraint::Length(12),
        SizeConstraint::Length(12),
        SizeConstraint::Length(12),
    ];
    let row = split_area(controls[0], Axis::Horizontal, &row_sizes, 0);
    assert(inset(placed(area), 0) == placed(area));
    assert(spans(chunks@[0], inset(placed(area), 0), Axis::Vertical));
    assert(spans(chunks@[1], inset(placed(area), 0), Axis::Vertical));
    assert(spans(chunks@[2], inset(placed(area), 0), Axis::Vertical));
    assert(spans(controls@[1], inset(placed(chunks@[2]), 0), Axis::Vertical));
    assert(inset(placed(chunks@[2]), 0) == placed(chunks@[2]));
    assert(spans(row@[0], inset(placed(controls@[0]), 0), Axis::Horizontal));
    assert(spans(row@[1], inset(placed(controls@[0]), 0), Axis::Horizontal));
    assert(spans(row@[2], inset(placed(controls@[0]), 0), Axis::Horizontal));
    assert(spans(row@[3], inset(placed(controls@[0]), 0), Axis::Horizontal));
    assert(spans(row@[4], inset(placed(controls@[0]), 0), Axis::Horizontal));
    assert(within(chunks@[0], inset(placed(area), 0), Axis::Vertical));
    assert(within(chunks@[2], inset(placed(area), 0), Axis::Vertical));
    assert(precedes(chunks@[0], chunks@[1], Axis::Vertical));
    assert(precedes(chunks@[1], chunks@[2], Axis::Vertical));
    assert(spans(controls@[0], inset(placed(chunks@[2]), 0), Axis::Vertical));
    assert(within(controls@[0], inset(placed(chunks@[2]), 0), Axis::Vertical));
    assert(within(controls@[1], inset(placed(chunks@[2]), 0), Axis::Vertical));
    assert(precedes(controls@[0], controls@[1], Axis::Vertical));
    assert(controls@[0].wf());
    assert(inset(placed(controls@[0]), 0) == controls@[0]);
    assert(within(row@[0], inset(placed(controls@[0]), 0), Axis::Horizontal));
    assert(within(row@[4], inset(placed(controls@[0]), 0), Axis::Horizontal));
    assert(precedes(row@[0], row@[1], Axis::Horizontal));
    assert(precedes(row@[1], row@[2], Axis::Horizontal));
    assert(precedes(row@[2], row@[3], Axis::Horizontal));
    assert(precedes(row@[3], row@[4], Axis::Horizontal));
    proof {
        let a = placed(area);
        assert(chunk_sizes@ =~= seq![SizeConstraint::Length(3), SizeConstraint::Min(8), SizeConstraint::Length(5)]);
        lemma_totals_3(SizeConstraint::Length(3), SizeConstraint::Min(8), SizeConstraint::Length(5));
        assert(control_sizes@ =~= seq![SizeConstraint::Length(3), SizeConstraint::Min(1)]);
        lemma_totals_2(SizeConstraint::Length(3), SizeConstraint::Min(1));
        let l = SizeConstraint::Length(12);
        assert(row_sizes@ =~= seq![SizeConstraint::Min(18), l, l, l, l]);
        lemma_totals_5(SizeConstraint::Min(18), l, l, l, l);
        assert(spans(controls@[0], inset(placed(chunks@[2]), 0), Axis::Vertical));
        if a.height >= 16 {
            assert(has_room(chunk_sizes@, inset(a, 0), Axis::Vertical));
            assert(extent(chunks@[0], Axis::Vertical) == part_size(chunk_sizes@[0], chunk_sizes@, a, Axis::Vertical));
            assert(extent(chunks@[1], Axis::Vertical) == part_size(chunk_sizes@[1], chunk_sizes@, a, Axis::Vertical));
            assert(extent(chunks@[2], Axis::Vertical) == part_size(chunk_sizes@[2], chunk_sizes@, a, Axis::Vertical));
            assert(has_room(control_sizes@, inset(placed(chunks@[2]), 0), Axis::Vertical));
            assert(extent(controls@[0], Axis::Vertical) == part_size(
                control_sizes@[0],
                control_sizes@,
                chunks@[2],
                Axis::Vertical,
            ));
            assert(extent(controls@[1], Axis::Vertical) == part_size(
                control_sizes@[1],
                control_sizes@,
                chunks@[2],
                Axis::Vertical,
            ));
        }
        if a.width >= 66 {
            let c0 = controls@[0];
            assert(has_room(row_sizes@, inset(placed(c0), 0), Axis::Horizontal));
            assert(extent(row@[0], Axis::Horizontal) == part_size(row_sizes@[0], row_sizes@, c0, Axis::Horizontal));
            assert(extent(row@[1], Axis::Horizontal) == part_size(row_sizes@[1], row_sizes@, c0, Axis::Horizontal));
            assert(extent(row@[2], Axis::Horizontal) == part_size(row_sizes@[2], row_sizes@, c0, Axis::Horizontal));
            assert(extent(row@[3], Axis::Horizontal) == part_size(row_sizes@[3], row_sizes@, c0, Axis::Horizontal));
            assert(extent(row@[4], Axis::Horizontal) == part_size(row_sizes@[4], row_sizes@, c0, Axis::Horizontal));
        }
    }
    GitDiffLayout {
        sections: chunks[0],
        preview: chunks[1],
        commit_input: row[0],
        stage_button: row[1],
        discard_button: row[2],
        push_button: row[3],
        pull_button: row[4],
        status: controls[1],
    }
}

/// The tab shown in the workspace sidebar.
#[derive(Debug, Clone, Copy, PartialEq, Eq, Structural)]
pub enum WorkspaceSidebarTab {
    Files,
    Search,
}

/// The areas of the workspace sidebar: its tabs, the search input on the
/// search tab, and the list.
#[derive(Debug, Clone, Copy, PartialEq, Eq, Structural)]
pub struct WorkspaceSidebarLayout {
    pub tabs: Rect,
    pub input: Option<Rect>,
    pub content: Rect,
}

/// The areas of the workspace sidebar in `area`: three rows of tabs, on
/// the search tab three rows of input, then the list (at least 4 rows),
/// each across the area's columns.
pub fn workspace_sidebar_layout(area: Rect, tab: WorkspaceSidebarTab) -> (r: WorkspaceSidebarLayout)
    ensures
        spans(r.tabs, placed(area), Axis::Vertical),
        spans(r.content, placed(area), Axis::Vertical),
        r.input is Some <==> tab == WorkspaceSidebarTab::Search,
        r.input matches Some(i) ==> spans(i, placed(area), Axis::Vertical),
        within(r.tabs, placed(area), Axis::Vertical),
        within(r.content, placed(area), Axis::Vertical),
        r.input is None ==> precedes(r.tabs, r.content, Axis::Vertical),
        r.input matches Some(i) ==> precedes(r.tabs, i, Axis::Vertical) && precedes(
            i,
            r.content,
            Axis::Vertical,
        ),
        tab == WorkspaceSidebarTab::Files && placed(area).height >= 7 ==> r.tabs.y == placed(area).y
            && r.tabs.height == 3 && r.content.y == placed(area).y + 3 && r.content.height == placed(
            area,
        ).height - 3,
        tab == WorkspaceSidebarTab::Search && placed(area).height >= 10 ==> r.tabs.y == placed(area).y
            && r.tabs.height == 3 && (r.input matches Some(i) && i.y == placed(area).y + 3 && i.height == 3)
            && r.content.y == placed(area).y + 6 && r.content.height == placed(area).height - 6,
{
    assert(inset(placed(area), 0) == placed(area));
    match tab {
        WorkspaceSidebarTab::Files => {
            let sizes = vec![SizeConstraint::Length(3), SizeConstraint::Min(4)];
            let chunks = split_area(area, Axis::Vertical, &sizes, 0);
            assert(spans(chunks@[0], inset(placed(area), 0), Axis::Vertical));
            assert(spans(chunks@[1], inset(placed(area), 0), Axis::Vertical));
            assert(within(chunks@[0], inset(placed(area), 0), Axis::Vertical));
            assert(within(chunks@[1], inset(placed(area), 0), Axis::Vertical));
            assert(precedes(chunks@[0], chunks@[1], Axis::Vertical));
            proof {
                let a = placed(area);
                assert(sizes@ =~= seq![SizeConstraint::Length(3), SizeConstraint::Min(4)]);
                lemma_totals_2(SizeConstraint::Length(3), SizeConstraint::Min(4));
                if a.height >= 7 {
                    assert(has_room(sizes@, inset(a, 0), Axis::Vertical));
                    assert(extent(chunks@[0], Axis::Vertical) == part_size(sizes@[0], sizes@, a, Axis::Vertical));
                    assert(extent(chunks@[1], Axis::Vertical) == part_size(sizes@[1], sizes@, a, Axis::Vertical));
                }
            }
            WorkspaceSidebarLayout { tabs: chunks[0], input: None, content: chunks[1] }
        },
        WorkspaceSidebarTab::Search => {
            let sizes = vec![SizeConstraint::Length(3), SizeConstraint::Length(3), SizeConstraint::Min(4)];
            let chunks = split_area(area, Axis::Vertical, &sizes, 0);
            assert(spans(chunks@[0], inset(placed(area), 0), Axis::Vertical));
            assert(spans(chunks@[1], inset(placed(area), 0), Axis::Vertical));
            assert(spans(chunks@[2], inset(placed(area), 0), Axis::Vertical));
            assert(within(chunks@[0], inset(placed(area), 0), Axis::Vertical));
            assert(within(chunks@[2], inset(placed(area), 0), Axis::Vertical));
            assert(precedes(chunks@[0], chunks@[1], Axis::Vertical));
            assert(precedes(chunks@[1], chunks@[2], Axis::Vertical));
            proof {
                let a = placed(area);
                assert(sizes@ =~= seq![SizeConstraint::Length(3), SizeConstraint::Length(3), SizeConstraint::Min(4)]);
                lemma_totals_3(SizeConstraint::Length(3), SizeConstraint::Length(3), SizeConstraint::Min(4));
                if a.height >= 10 {
                    assert(has_room(sizes@, inset(a, 0), Axis::Vertical));
                    assert(extent(chunks@[0], Axis::Vertical) == part_size(sizes@[0], sizes@, a, Axis::Vertical));
                    assert(extent(chunks@[1], Axis::Vertical) == part_size(sizes@[1], sizes@, a, Axis::Vertical));
                    assert(extent(chunks@[2], Axis::Vertical) == part_size(sizes@[2], sizes@, a, Axis::Vertical));
                }
            }
            WorkspaceSidebarLayout { tabs: chunks[0], input: Some(chunks[1]), content: chunks[2] }
        },
    }
}

/// The areas of the form that adds an agent: a help line, the name and
/// workspace inputs, and the status line.
#[derive(Debug, Clone, Copy, PartialEq, Eq, Structural)]
pub struct AddAgentDialogLayout {
    pub help: Rect,
    pub name: Rect,
    pub workspace: Rect,
    pub status: Rect,
}

/// The areas of the form that adds an agent in `area`: inside its border
/// and a margin of one cell, three rows each for the help, the name and
/// the workspace, then the status (at least three rows), each across the
/// columns left inside the margin.
pub fn add_agent_dialog_layout(area: Rect) -> (r: AddAgentDialogLayout)
    requires
        area.wf(),
    ensures
        spans(r.help, inset(placed(margin_inner(area)), 1), Axis::Vertical),
        spans(r.name, inset(placed(margin_inner(area)), 1), Axis::Vertical),
        spans(r.workspace, inset(placed(margin_inner(area)), 1), Axis::Vertical),
        spans(r.status, inset(placed(margin_inner(area)), 1), Axis::Vertical),
        within(r.help, inset(placed(margin_inner(area)), 1), Axis::Vertical),
        precedes(r.help, r.name, Axis::Vertical),
        precedes(r.name, r.workspace, Axis::Vertical),
        precedes(r.workspace, r.status, Axis::Vertical),
        within(r.status, inset(placed(margin_inner(area)), 1), Axis::Vertical),
        ({
            let d = inset(placed(margin_inner(area)), 1);
            d.height >= 12 ==> r.help.y == d.y && r.help.height == 3 && r.name.y == d.y + 3
                && r.name.height == 3 && r.workspace.y == d.y + 6 && r.workspace.height == 3
                && r.status.y == d.y + 9 && r.status.height == d.height - 9
        }),
{
    let sizes = vec![
        SizeConstraint::Length(3),
        SizeConstraint::Length(3),
        SizeConstraint::Length(3),
        SizeConstraint::Min(3),
    ];
    let inner = area.inner_margin();
    let chunks = split_area(inner, Axis::Vertical, &sizes, 1);
    assert(spans(chunks@[0], inset(placed(inner), 1), Axis::Vertical));
    assert(spans(chunks@[1], inset(placed(inner), 1), Axis::Vertical));
    assert(spans(chunks@[2], inset(placed(inner), 1), Axis::Vertical));
    assert(spans(chunks@[3], inset(placed(inner), 1), Axis::Vertical));
    assert(within(chunks@[0], inset(placed(inner), 1), Axis::Vertical));
    assert(within(chunks@[3], inset(placed(inner), 1), Axis::Vertical));
    assert(precedes(chunks@[0], chunks@[1], Axis::Vertical));
    assert(precedes(chunks@[1], chunks@[2], Axis::Vertical));
    assert(precedes(chunks@[2], chunks@[3], Axis::Vertical));
    proof {
        let d = inset(placed(inner), 1);
        let l = SizeConstraint::Length(3);
        assert(sizes@ =~= seq![l, l, l, SizeConstraint::Min(3)]);
        lemma_totals_4(l, l, l, SizeConstraint::Min(3));
        if d.height >= 12 {
            assert(has_room(sizes@, d, Axis::Vertical));
            assert(extent(chunks@[0], Axis::Vertical) == part_size(sizes@[0], sizes@, d, Axis::Vertical));
            assert(extent(chunks@[1], Axis::Vertical) == part_size(sizes@[1], sizes@, d, Axis::Vertical));
            assert(extent(chunks@[2], Axis::Vertical) == part_size(sizes@[2], sizes@, d, Axis::Vertical));
            assert(extent(chunks@[3], Axis::Vertical) == part_size(sizes@[3], sizes@, d, Axis::Vertical));
        }
    }
    AddAgentDialogLayout { help: chunks[0], name: chunks[1], workspace: chunks[2], status: chunks[3] }
}

/// The title of an input of the form: `Name` or `Workspace`, with ` *` on
/// the one being typed in.
pub fn add_agent_field_title(field: AddAgentField, active: AddAgentField) -> (r: String)
    ensures
        r@ == (match field {
            AddAgentField::Name => "Name"@,
            AddAgentField::Workspace => "Workspace"@,
        }) + (if field == active {
            " *"@
        } else {
            Seq::empty()
        }),
{
    let mut r = match field {
        AddAgentField::Name => "Name".to_owned(),
        AddAgentField::Workspace => "Workspace".to_owned(),
    };
    let same = match (field, active) {
        (AddAgentField::Name, AddAgentField::Name) => true,
        (AddAgentField::Workspace, AddAgentField::Workspace) => true,
        _ => false,
    };
    if same {
        crate::text::push_str(&mut r, " *");
    }
    r
}

/// Where the cursor stands in an input drawn in `target` that holds
/// `typed` characters: after them, inside the input's border, on its text
/// row.
pub fn input_cursor(target: Rect, typed: usize) -> (r: (u16, u16))
    requires
        target.wf(),
        target.y < u16::MAX,
        (typed as u16) < u16::MAX,
    ensures
        r.0 == min_int(sat_add(target.x as int, 1 + (typed as u16)), target.x + sat_sub(target.width as int, 2)),
        r.1 == target.y + 1,
{
    let shift: u16 = 1 + typed as u16;
    let x = min_u16(target.x.saturating_add(shift), target.x + target.width.saturating_sub(2));
    (x, target.y + 1)
}

} // verus!
