//! Screen rectangles and the arithmetic of the terminal layout: hit tests,
//! margins, list windows, popovers and scrollbars.
use vstd::prelude::*;
use crate::lsp_protocol::EditorPosition;
use crate::text::{chars_of, push_char};

verus! {

/// A rectangle of terminal cells. As with the terminal library's `Rect`,
/// a well-formed rectangle never reaches past the last `u16` coordinate.
#[derive(Debug, Clone, Copy, PartialEq, Eq, Structural)]
pub struct Rect {
    pub x: u16,
    pub y: u16,
    pub width: u16,
    pub height: u16,
}

/// `a + b`, saturated at `u16::MAX`.
pub open spec fn sat_add(a: int, b: int) -> int {
    if a + b > u16::MAX {
        u16::MAX as int
    } else {
        a + b
    }
}

/// `a - b`, saturated at `0`.
pub open spec fn sat_sub(a: int, b: int) -> int {
    if a - b < 0 {
        0
    } else {
        a - b
    }
}

/// The smaller of two integers.
pub open spec fn min_int(a: int, b: int) -> int {
    if a <= b {
        a
    } else {
        b
    }
}

/// The larger of two integers.
pub open spec fn max_int(a: int, b: int) -> int {
    if a >= b {
        a
    } else {
        b
    }
}

/// The smaller of two `u16` values.
pub fn min_u16(a: u16, b: u16) -> (r: u16)
    ensures
        r == min_int(a as int, b as int),
{
    if a <= b {
        a
    } else {
        b
    }
}

/// The larger of two `u16` values.
pub fn max_u16(a: u16, b: u16) -> (r: u16)
    ensures
        r == max_int(a as int, b as int),
{
    if a >= b {
        a
    } else {
        b
    }
}

/// The smaller of two `usize` values.
pub fn min_usize(a: usize, b: usize) -> (r: usize)
    ensures
        r == min_int(a as int, b as int),
{
    if a <= b {
        a
    } else {
        b
    }
}

impl Rect {
    /// The rectangle stays inside the `u16` coordinate space.
    pub open spec fn wf(self) -> bool {
        self.x + self.width <= u16::MAX && self.y + self.height <= u16::MAX
    }

    /// The rectangle `Rect::new` builds: the size is cut so that the
    /// rectangle stays inside the `u16` coordinate space.
    pub open spec fn spec_new(x: u16, y: u16, width: u16, height: u16) -> Rect {
        Rect {
            x,
            y,
            width: min_int(width as int, u16::MAX - x) as u16,
            height: min_int(height as int, u16::MAX - y) as u16,
        }
    }

    /// Whether the cell `(column, row)` lies inside the rectangle.
    pub open spec fn contains_cell(self, column: int, row: int) -> bool {
        self.x <= column < self.x + self.width && self.y <= row < self.y + self.height
    }

    /// Builds a rectangle, cutting its size so that it stays inside the
    /// `u16` coordinate space.
    pub fn new(x: u16, y: u16, width: u16, height: u16) -> (r: Rect)
        ensures
            r == Rect::spec_new(x, y, width, height),
            r.wf(),
    {
        let max_width = u16::MAX - x;
        let max_height = u16::MAX - y;
        let width = if width > max_width {
            max_width
        } else {
            width
        };
        let height = if height > max_height {
            max_height
        } else {
            height
        };
        Rect { x, y, width, height }
    }

    /// The empty rectangle at the origin.
    pub fn zero() -> (r: Rect)
        ensures
            r == (Rect { x: 0, y: 0, width: 0, height: 0 }),
    {
        Rect { x: 0, y: 0, width: 0, height: 0 }
    }

    /// The rectangle shrunk by one cell on every side, or the empty
    /// rectangle at the origin when it is too small for that (the terminal
    /// library's `Rect::inner` with a margin of one).
    pub fn inner_margin(self) -> (r: Rect)
        requires
            self.wf(),
        ensures
            r.wf(),
            r == (if self.width < 2 || self.height < 2 {
                Rect { x: 0, y: 0, width: 0, height: 0 }
            } else {
                Rect {
                    x: (self.x + 1) as u16,
                    y: (self.y + 1) as u16,
                    width: (self.width - 2) as u16,
                    height: (self.height - 2) as u16,
                }
            }),
    {
        if self.width < 2 || self.height < 2 {
            Rect::zero()
        } else {
            Rect {
                x: self.x + 1,
                y: self.y + 1,
                width: self.width - 2,
                height: self.height - 2,
            }
        }
    }
}

/// Whether the cell `(column, row)` lies inside `rect`. The right and bottom
/// edges are computed with saturation, so a rectangle that runs to the last
/// coordinate never contains that last column or row.
pub fn rect_contains(rect: Rect, column: u16, row: u16) -> (b: bool)
    ensures
        b == (rect.x <= column < sat_add(rect.x as int, rect.width as int) && rect.y <= row
            < sat_add(rect.y as int, rect.height as int)),
        rect.wf() ==> (b == rect.contains_cell(column as int, row as int)),
{
    column >= rect.x && column < rect.x.saturating_add(rect.width) && row >= rect.y && row
        < rect.y.saturating_add(rect.height)
}

/// The inside of a bordered block: one cell in from every edge.
pub fn inner_rect(rect: Rect) -> (r: Rect)
    ensures
        r == inner_of(rect),
        r.wf(),
        rect.wf() && rect.width >= 2 && rect.height >= 2 ==> r == (Rect {
            x: (rect.x + 1) as u16,
            y: (rect.y + 1) as u16,
            width: (rect.width - 2) as u16,
            height: (rect.height - 2) as u16,
        }),
{
    let width = rect.width.saturating_sub(2);
    let height = rect.height.saturating_sub(2);
    Rect::new(rect.x.saturating_add(1), rect.y.saturating_add(1), width, height)
}

/// The first visible row of a list of `len` rows of which `visible_rows`
/// fit, such that the row `selected` is visible (scrolled as little as
/// needed from the top).
pub fn list_offset(selected: usize, len: usize, visible_rows: usize) -> (r: usize)
    ensures
        r == (if len <= visible_rows || visible_rows == 0 {
            0
        } else {
            selected.saturating_add(1).saturating_sub(visible_rows)
        }),
        visible_rows > 0 && selected < len ==> r <= selected < r + visible_rows,
        visible_rows > 0 && selected < len ==> r + visible_rows <= len || len <= visible_rows,
{
    if len <= visible_rows || visible_rows == 0 {
        0
    } else {
        selected.saturating_add(1).saturating_sub(visible_rows)
    }
}


/// The row of a bordered list of `total` rows, scrolled so that row
/// `selected` shows, under the cell `(column, row)`: none when the cell is
/// outside the list's inside or the list is empty; past the last row, the
/// last row.
pub open spec fn clicked_row_spec(list: Rect, column: u16, row: u16, selected: usize, total: usize) -> Option<int> {
    let inner = inner_of(list);
    let visible = inner.height as int;
    let offset = if total <= visible || visible == 0 {
        0
    } else {
        sat_sub(if selected == usize::MAX { selected as int } else { selected + 1 }, visible)
    };
    if inner.height == 0 || !inner.contains_cell(column as int, row as int) || total == 0 {
        None
    } else if offset + (row - inner.y) < total - 1 {
        Some(offset + (row - inner.y))
    } else {
        Some(total - 1)
    }
}

/// The row of a bordered list under a click (see `clicked_row_spec`).
pub fn clicked_list_row(list: Rect, column: u16, row: u16, selected: usize, total: usize) -> (r:
    Option<usize>)
    requires
        list.wf(),
    ensures
        match clicked_row_spec(list, column, row, selected, total) {
            Some(i) => r == Some(i as usize),
            None => r is None,
        },
        r matches Some(i) ==> i < total,
{
    let inner = inner_rect(list);
    if inner.height == 0 || !rect_contains(inner, column, row) || total == 0 {
        return None;
    }
    let visible_row = (row - inner.y) as usize;
    let offset = list_offset(selected, total, inner.height as usize);
    let index = if offset < total - 1 && visible_row < total - 1 - offset {
        offset + visible_row
    } else {
        total - 1
    };
    Some(index)
}

/// The first visible item and the number of visible items of a popover list
/// of `item_count` items that shows at most `max_visible`, such that the
/// item `selected` is visible and the window does not run past the end.
pub fn popover_window(selected: usize, item_count: usize, max_visible: usize) -> (r: (
    usize,
    usize,
))
    ensures
        r.1 == min_int(item_count as int, max_visible as int),
        r.0 == min_int(
            sat_sub(selected as int, sat_sub(r.1 as int, 1)),
            sat_sub(item_count as int, r.1 as int),
        ),
        r.0 + r.1 <= item_count,
        selected < item_count && r.1 > 0 ==> r.0 <= selected < r.0 + r.1,
{
    let visible = min_usize(item_count, max_visible);
    let start = min_usize(
        selected.saturating_sub(visible.saturating_sub(1)),
        item_count.saturating_sub(visible),
    );
    (start, visible)
}

/// The area of a popover list of `visible` rows (plus its border) that
/// opens upwards from `anchor`.
pub fn popover_area(anchor: Rect, width: u16, visible: usize) -> (r: Rect)
    requires
        visible + 2 <= u16::MAX,
    ensures
        r == Rect::spec_new(
            anchor.x,
            sat_sub(anchor.y as int, visible + 1) as u16,
            width,
            (visible + 2) as u16,
        ),
{
    let height = visible as u16 + 2;
    Rect::new(anchor.x, anchor.y.saturating_sub(height.saturating_sub(1)), width, height)
}

/// Where a vertical scrollbar is drawn and what it measures.
#[derive(Debug, Clone, Copy, PartialEq, Eq, Structural)]
pub struct ScrollbarMetrics {
    pub track: Rect,
    pub content_length: usize,
    pub viewport_length: usize,
}

/// The scrollbar of a viewport: it sits in the viewport's last column and
/// there is none for an empty viewport or content that fits.
pub open spec fn scrollbar_for(viewport: Rect, content_length: usize) -> Option<ScrollbarMetrics> {
    if viewport.width == 0 || viewport.height == 0 || content_length <= viewport.height {
        None
    } else {
        Some(
            ScrollbarMetrics {
                track: Rect::spec_new(
                    sat_add(viewport.x as int, viewport.width - 1) as u16,
                    viewport.y,
                    1,
                    viewport.height,
                ),
                content_length,
                viewport_length: viewport.height as usize,
            },
        )
    }
}

/// The inside of a bordered block, as `inner_rect` computes it.
pub open spec fn inner_of(rect: Rect) -> Rect {
    Rect::spec_new(
        sat_add(rect.x as int, 1) as u16,
        sat_add(rect.y as int, 1) as u16,
        sat_sub(rect.width as int, 2) as u16,
        sat_sub(rect.height as int, 2) as u16,
    )
}

/// The scrollbar of a viewport (see `scrollbar_for`).
pub fn vertical_scrollbar_metrics_for_viewport(viewport: Rect, content_length: usize) -> (r:
    Option<ScrollbarMetrics>)
    ensures
        r == scrollbar_for(viewport, content_length),
        r matches Some(m) ==> m.viewport_length < m.content_length,
{
    if viewport.width == 0 || viewport.height == 0 {
        return None;
    }
    if content_length <= viewport.height as usize {
        return None;
    }
    Some(
        ScrollbarMetrics {
            track: Rect::new(
                viewport.x.saturating_add(viewport.width.saturating_sub(1)),
                viewport.y,
                1,
                viewport.height,
            ),
            content_length,
            viewport_length: viewport.height as usize,
        },
    )
}

/// The scrollbar of a bordered area: that of its inside.
pub fn vertical_scrollbar_metrics(area: Rect, content_length: usize) -> (r: Option<
    ScrollbarMetrics,
>)
    ensures
        r == scrollbar_for(inner_of(area), content_length),
{
    vertical_scrollbar_metrics_for_viewport(inner_rect(area), content_length)
}

/// The largest scroll offset a scrollbar moves over: the content that does
/// not fit, at most `u16::MAX`.
pub open spec fn max_scroll_of(m: ScrollbarMetrics) -> int {
    min_int(sat_sub(m.content_length as int, m.viewport_length as int), u16::MAX as int)
}

/// The thumb's height: the viewport's share of the track, rounded to the
/// nearest cell and kept between one cell and the whole track.
pub open spec fn thumb_height_of(m: ScrollbarMetrics) -> int {
    let track = m.track.height as int;
    let proportional = (m.viewport_length * track + m.content_length / 2) / (
    m.content_length as int);
    if proportional < 1 {
        1
    } else if proportional > track {
        track
    } else {
        proportional
    }
}

/// The thumb's first row (relative to the track) for the scroll offset
/// `scroll`: the offset's share of the room the thumb can travel, rounded
/// to the nearest cell.
pub open spec fn thumb_top_of(m: ScrollbarMetrics, scroll: int) -> int {
    let max_scroll = max_scroll_of(m);
    let travel = m.track.height - thumb_height_of(m);
    if max_scroll == 0 || travel == 0 {
        0
    } else {
        (min_int(scroll, max_scroll) * travel + max_scroll / 2) / max_scroll
    }
}

/// `(a * t + m / 2) / m <= t` when `a <= m`: a rounded share of `t` is at
/// most `t`.
pub proof fn lemma_rounded_share_le(a: int, m: int, t: int)
    requires
        0 <= a <= m,
        0 < m,
        0 <= t,
    ensures
        0 <= (a * t + m / 2) / m <= t,
{
    assert(a * t <= m * t) by (nonlinear_arith)
        requires
            0 <= a <= m,
            0 <= t,
    ;
    assert(0 <= a * t) by (nonlinear_arith)
        requires
            0 <= a,
            0 <= t,
    ;
    assert(m / 2 < m);
    assert((a * t + m / 2) < m * (t + 1)) by (nonlinear_arith)
        requires
            a * t <= m * t,
            m / 2 < m,
    ;
    assert((a * t + m / 2) / m < t + 1) by (nonlinear_arith)
        requires
            (a * t + m / 2) < m * (t + 1),
            0 < m,
            0 <= a * t + m / 2,
    ;
    assert(0 <= (a * t + m / 2) / m) by (nonlinear_arith)
        requires
            0 <= a * t + m / 2,
            0 < m,
    ;
}

/// The first row (relative to the track) and the height of the scrollbar's
/// thumb at scroll offset `scroll`. There is none for an empty track, empty
/// content or an empty viewport. The thumb always lies inside the track.
pub fn scrollbar_thumb_bounds(metrics: ScrollbarMetrics, scroll: u16) -> (r: Option<(u16, u16)>)
    ensures
        r is None <==> (metrics.track.height == 0 || metrics.content_length == 0
            || metrics.viewport_length == 0),
        r matches Some(b) ==> b.1 == thumb_height_of(metrics) && b.0 == thumb_top_of(
            metrics,
            scroll as int,
        ),
        r matches Some(b) ==> 1 <= b.1 && b.0 + b.1 <= metrics.track.height,
{
    if metrics.track.height == 0 || metrics.content_length == 0 || metrics.viewport_length == 0 {
        return None;
    }
    let track_height = metrics.track.height as u128;
    let viewport = metrics.viewport_length as u128;
    let content = metrics.content_length as u128;
    assert(viewport * track_height <= (usize::MAX as int) * (u16::MAX as int)) by (nonlinear_arith)
        requires
            viewport <= usize::MAX,
            track_height <= u16::MAX,
    ;
    let proportional = (viewport * track_height + content / 2) / content;
    let thumb_height: u16 = if proportional < 1 {
        1
    } else if proportional > track_height {
        metrics.track.height
    } else {
        proportional as u16
    };
    let over = metrics.content_length.saturating_sub(metrics.viewport_length);
    let max_scroll: u16 = if over > u16::MAX as usize {
        u16::MAX
    } else {
        over as u16
    };
    let travel = metrics.track.height.saturating_sub(thumb_height);
    let thumb_top: u16 = if max_scroll == 0 || travel == 0 {
        0
    } else {
        let scroll = if scroll < max_scroll {
            scroll
        } else {
            max_scroll
        };
        proof {
            lemma_rounded_share_le(scroll as int, max_scroll as int, travel as int);
        }
        assert(scroll as u32 * travel as u32 <= (u16::MAX as int) * (u16::MAX as int)) by (nonlinear_arith)
            requires
                scroll <= u16::MAX,
                travel <= u16::MAX,
        ;
        ((scroll as u32 * travel as u32 + max_scroll as u32 / 2) / max_scroll as u32) as u16
    };
    Some((thumb_top, thumb_height))
}

/// The scroll offset that puts the middle of the thumb at `row`, for a
/// press or drag on the scrollbar. It never exceeds the largest offset.
pub fn scroll_position_from_row(metrics: ScrollbarMetrics, row: u16) -> (r: u16)
    ensures
        r <= max_scroll_of(metrics),
        ({
            let thumb = if metrics.track.height == 0 || metrics.content_length == 0
                || metrics.viewport_length == 0 {
                1
            } else {
                thumb_height_of(metrics)
            };
            let travel = sat_sub(metrics.track.height as int, thumb);
            let offset = min_int(
                sat_sub(sat_sub(row as int, metrics.track.y as int), thumb / 2),
                travel,
            );
            r == (if max_scroll_of(metrics) == 0 || travel == 0 {
                0
            } else {
                (offset * max_scroll_of(metrics) + travel / 2) / travel
            })
        }),
{
    let over = metrics.content_length.saturating_sub(metrics.viewport_length);
    let max_scroll: u16 = if over > u16::MAX as usize {
        u16::MAX
    } else {
        over as u16
    };
    if max_scroll == 0 {
        return 0;
    }
    let thumb_height = match scrollbar_thumb_bounds(metrics, 0) {
        Some((_, height)) => height,
        None => 1,
    };
    let travel = metrics.track.height.saturating_sub(thumb_height);
    if travel == 0 {
        return 0;
    }
    let half = thumb_height / 2;
    let moved = row.saturating_sub(metrics.track.y).saturating_sub(half);
    let offset = if moved < travel {
        moved
    } else {
        travel
    };
    proof {
        lemma_rounded_share_le(offset as int, travel as int, max_scroll as int);
        assert(offset as int * max_scroll as int == max_scroll as int * offset as int) by (nonlinear_arith);
    }
    assert(offset as u32 * max_scroll as u32 <= (u16::MAX as int) * (u16::MAX as int)) by (nonlinear_arith)
        requires
            offset <= u16::MAX,
            max_scroll <= u16::MAX,
    ;
    ((offset as u32 * max_scroll as u32 + travel as u32 / 2) / travel as u32) as u16
}


/// Where a popup of `popup_width` x `popup_height` cells opens next to the
/// anchor cell `(anchor_x, anchor_y)` inside `code_area`: below and to the
/// right of the anchor when it fits, otherwise flipped to end at the
/// anchor, and always cut and moved so that it stays inside the area.
pub open spec fn popover_spec(code_area: Rect, anchor_x: u16, anchor_y: u16, popup_width: int, popup_height: int) -> Rect {
    let w = min_int(popup_width, max_int(code_area.width as int, 1));
    let h = min_int(popup_height, max_int(code_area.height as int, 1));
    let right_limit = code_area.x + sat_sub(code_area.width as int, w);
    let bottom_limit = code_area.y + sat_sub(code_area.height as int, h);
    let desired_x = sat_add(anchor_x as int, 1);
    let desired_y = sat_add(anchor_y as int, 1);
    let x = if sat_add(desired_x, w) <= code_area.x + code_area.width {
        min_int(desired_x, right_limit)
    } else {
        min_int(max_int(sat_sub(anchor_x as int, w - 1), code_area.x as int), right_limit)
    };
    let y = if sat_add(desired_y, h) <= code_area.y + code_area.height {
        min_int(desired_y, bottom_limit)
    } else {
        min_int(max_int(sat_sub(anchor_y as int, h - 1), code_area.y as int), bottom_limit)
    };
    Rect::spec_new(x as u16, y as u16, w as u16, h as u16)
}

/// Where a popup opens next to an anchor cell (see `popover_spec`).
pub fn hover_popover_area(
    code_area: Rect,
    anchor_x: u16,
    anchor_y: u16,
    popup_width: u16,
    popup_height: u16,
) -> (r: Rect)
    requires
        code_area.wf(),
    ensures
        r == popover_spec(code_area, anchor_x, anchor_y, popup_width as int, popup_height as int),
        code_area.width > 0 ==> r.x + r.width <= code_area.x + code_area.width,
        code_area.height > 0 ==> r.y + r.height <= code_area.y + code_area.height,
        anchor_x >= code_area.x ==> r.x >= code_area.x,
        anchor_y >= code_area.y ==> r.y >= code_area.y,
        r.wf(),
{
    let popup_width = min_u16(popup_width, max_u16(code_area.width, 1));
    let popup_height = min_u16(popup_height, max_u16(code_area.height, 1));
    let desired_x = anchor_x.saturating_add(1);
    let desired_y = anchor_y.saturating_add(1);
    let right_limit = code_area.x.saturating_add(code_area.width.saturating_sub(popup_width));
    let bottom_limit = code_area.y.saturating_add(code_area.height.saturating_sub(popup_height));
    let x = if desired_x.saturating_add(popup_width) <= code_area.x + code_area.width {
        min_u16(desired_x, right_limit)
    } else {
        min_u16(
            max_u16(anchor_x.saturating_sub(popup_width.saturating_sub(1)), code_area.x),
            right_limit,
        )
    };
    let y = if desired_y.saturating_add(popup_height) <= code_area.y + code_area.height {
        min_u16(desired_y, bottom_limit)
    } else {
        min_u16(
            max_u16(anchor_y.saturating_sub(popup_height.saturating_sub(1)), code_area.y),
            bottom_limit,
        )
    };
    Rect::new(x, y, popup_width, popup_height)
}

/// How many rows a line of display width `w` takes when wrapped at `width`
/// columns; an empty line still takes one row.
pub open spec fn line_rows(w: int, width: int) -> int {
    if w == 0 {
        1
    } else {
        (w - 1) / width + 1
    }
}

/// How many rows lines of the given display widths take when wrapped at
/// `width` columns.
pub open spec fn total_rows(widths: Seq<usize>, width: int) -> int
    decreases widths.len(),
{
    if widths.len() == 0 {
        0
    } else {
        total_rows(widths.drop_last(), width) + line_rows(widths.last() as int, width)
    }
}

/// Narrower wrapping never takes fewer rows; one column takes the most.
pub proof fn lemma_total_rows_le_one_column(widths: Seq<usize>, width: int)
    requires
        width >= 1,
    ensures
        0 <= total_rows(widths, width) <= total_rows(widths, 1),
    decreases widths.len(),
{
    if widths.len() > 0 {
        lemma_total_rows_le_one_column(widths.drop_last(), width);
        let w = widths.last() as int;
        if w > 0 {
            assert(0 <= (w - 1) / width <= (w - 1) / 1) by (nonlinear_arith)
                requires
                    w >= 1,
                    width >= 1,
            ;
        }
    }
}

/// The rows that lines of the given display widths take in a preview of
/// `width` columns (at least one column).
pub fn preview_content_height(line_widths: &Vec<usize>, width: u16) -> (r: usize)
    requires
        total_rows(line_widths@, 1) <= usize::MAX,
    ensures
        r == total_rows(line_widths@, max_int(width as int, 1)),
{
    let width: usize = if width < 1 {
        1
    } else {
        width as usize
    };
    let mut total: usize = 0;
    let mut i: usize = 0;
    while i < line_widths.len()
        invariant
            0 <= i <= line_widths@.len(),
            width >= 1,
            total_rows(line_widths@, 1) <= usize::MAX,
            total == total_rows(line_widths@.take(i as int), width as int),
        decreases line_widths@.len() - i,
    {
        let w = line_widths[i];
        let rows = if w == 0 {
            1
        } else {
            (w - 1) / width + 1
        };
        proof {
            assert(line_widths@.take(i + 1).drop_last() =~= line_widths@.take(i as int));
            lemma_total_rows_le_one_column(line_widths@.take(i + 1), width as int);
            lemma_total_rows_prefix(line_widths@, i + 1);
        }
        total = total + rows;
        i += 1;
    }
    assert(line_widths@.take(i as int) =~= line_widths@);
    total
}

/// A prefix of lines never takes more rows than all of them.
pub proof fn lemma_total_rows_prefix(widths: Seq<usize>, n: int)
    requires
        0 <= n <= widths.len(),
    ensures
        total_rows(widths.take(n), 1) <= total_rows(widths, 1),
    decreases widths.len(),
{
    if n < widths.len() {
        assert(widths.drop_last().take(n) =~= widths.take(n));
        lemma_total_rows_prefix(widths.drop_last(), n);
    } else {
        assert(widths.take(n) =~= widths);
    }
}

/// The rows that lines take in the inside of a bordered preview area; when
/// they overflow, one column is kept free for the scrollbar.
pub fn scrollable_preview_content_height(line_widths: &Vec<usize>, area: Rect) -> (r: usize)
    requires
        total_rows(line_widths@, 1) <= usize::MAX,
    ensures
        ({
            let viewport = inner_of(area);
            let base = total_rows(line_widths@, max_int(viewport.width as int, 1));
            r == (if base > viewport.height && viewport.width > 1 {
                total_rows(line_widths@, viewport.width - 1)
            } else {
                base
            })
        }),
{
    let viewport = inner_rect(area);
    let base_height = preview_content_height(line_widths, viewport.width);
    if base_height > viewport.height as usize && viewport.width > 1 {
        preview_content_height(line_widths, viewport.width - 1)
    } else {
        base_height
    }
}

/// Which of two labels side by side a click hits.
#[derive(Debug, Clone, Copy, PartialEq, Eq, Structural)]
pub enum LabelHit {
    First,
    Second,
}

/// Whether `rect_contains` holds: the right and bottom edges saturate.
pub open spec fn contains_sat(rect: Rect, column: int, row: int) -> bool {
    rect.x <= column < sat_add(rect.x as int, rect.width as int) && rect.y <= row < sat_add(
        rect.y as int,
        rect.height as int,
    )
}

/// Two one-row labels at the start of the inside of `area` (the tabs of a
/// sidebar): the first as wide as its text, the second three cells after
/// it, each cut at the inside's right edge. A click on one hits it.
pub open spec fn label_pair_spec(area: Rect, first_width: u16, second_width: u16, column: u16, row: u16) -> Option<
    LabelHit,
> {
    let inner = inner_of(area);
    if inner.width == 0 || inner.height == 0 {
        None
    } else {
        let first = Rect::spec_new(inner.x, inner.y, min_int(first_width as int, inner.width as int) as u16, 1);
        let second_x = sat_add(sat_add(inner.x as int, first_width as int), 3) as u16;
        let room = sat_sub(sat_add(inner.x as int, inner.width as int), second_x as int);
        let second = Rect::spec_new(second_x, inner.y, min_int(second_width as int, room) as u16, 1);
        if contains_sat(first, column as int, row as int) {
            Some(LabelHit::First)
        } else if contains_sat(second, column as int, row as int) {
            Some(LabelHit::Second)
        } else {
            None
        }
    }
}

/// The label of a pair (see `label_pair_spec`) that a click hits; each
/// label is as wide as its number of characters (cut to `u16`).
pub fn label_pair_hit(area: Rect, first: &str, second: &str, column: u16, row: u16) -> (r: Option<LabelHit>)
    ensures
        r == label_pair_spec(area, first@.len() as u16, second@.len() as u16, column, row),
{
    let inner = inner_rect(area);
    if inner.width == 0 || inner.height == 0 {
        return None;
    }
    let first_width = chars_of(first).len() as u16;
    let second_width = chars_of(second).len() as u16;
    let first_rect = Rect::new(inner.x, inner.y, min_u16(first_width, inner.width), 1);
    let second_x = inner.x.saturating_add(first_width).saturating_add(3);
    let room = inner.x.saturating_add(inner.width).saturating_sub(second_x);
    let second_rect = Rect::new(second_x, inner.y, min_u16(second_width, room), 1);
    if rect_contains(first_rect, column, row) {
        Some(LabelHit::First)
    } else if rect_contains(second_rect, column, row) {
        Some(LabelHit::Second)
    } else {
        None
    }
}

/// The blank cells that fill a preview row of `line_width` cells to the
/// end of its last screen row of `width` cells (at least 1): an empty row
/// gets a whole screen row; a row that ends at the edge gets none.
pub open spec fn preview_padding_spec(line_width: nat, width: u16) -> nat {
    let w: nat = if width < 1 {
        1
    } else {
        width as nat
    };
    let rem = line_width % w;
    if rem == 0 {
        if line_width == 0 {
            w
        } else {
            0
        }
    } else {
        (w - rem) as nat
    }
}

/// The padding of a preview row: only a row with a background colour (a
/// changed line) is filled (see `preview_padding_spec`).
pub fn preview_padding(line_width: usize, width: u16, has_background: bool) -> (r: usize)
    ensures
        r == (if has_background {
            preview_padding_spec(line_width as nat, width)
        } else {
            0
        }),
        has_background ==> (line_width + r) % (if width < 1 { 1 } else { width as int }) == 0,
{
    if !has_background {
        return 0;
    }
    let w: usize = if width < 1 {
        1
    } else {
        width as usize
    };
    let rem = line_width % w;
    if rem == 0 {
        if line_width == 0 {
            proof {
                vstd::arithmetic::div_mod::lemma_mod_self_0(w as int);
            }
            w
        } else {
            0
        }
    } else {
        proof {
            vstd::arithmetic::div_mod::lemma_fundamental_div_mod(line_width as int, w as int);
            vstd::arithmetic::div_mod::lemma_mod_multiples_vanish((line_width / w + 1) as int, 0, w as int);
            assert(line_width + (w - rem) == (line_width / w + 1) * w) by (nonlinear_arith)
                requires
                    line_width == (line_width / w) * w + rem,
            ;
            vstd::arithmetic::div_mod::lemma_mod_multiples_basic((line_width / w + 1) as int, w as int);
        }
        w - rem
    }
}

/// A row of the diff preview: its pieces of text with their styles, its
/// width in cells, and, for a changed line (one with a background colour),
/// the style that fills the rest of the row with that colour.
#[derive(Debug, Clone)]
pub struct PreviewLine<S> {
    pub spans: Vec<(String, S)>,
    pub width: usize,
    pub fill: Option<S>,
}

/// `n` spaces.
pub open spec fn spaces(n: nat) -> Seq<char> {
    Seq::new(n, |i: int| ' ')
}

/// A preview row padded to the viewport's width: a changed row gets a
/// piece of `preview_padding_spec` spaces in its fill style (none when that
/// is zero); other rows stay as they are.
pub open spec fn padded_line<S>(spans: Seq<(Seq<char>, S)>, width: nat, fill: Option<S>, viewport: u16) -> (Seq<(Seq<char>, S)>, nat) {
    match fill {
        Some(style) => {
            let pad = preview_padding_spec(width, viewport);
            if pad > 0 {
                (spans.push((spaces(pad), style)), width + pad)
            } else {
                (spans, width)
            }
        },
        None => (spans, width),
    }
}

/// The pieces of a row as plain text and style.
pub open spec fn spans_view<S>(spans: Seq<(String, S)>) -> Seq<(Seq<char>, S)> {
    spans.map_values(|p: (String, S)| (p.0@, p.1))
}

fn spaces_string(n: usize) -> (r: String)
    ensures
        r@ == spaces(n as nat),
{
    let mut r = String::new();
    let mut i: usize = 0;
    while i < n
        invariant
            i <= n,
            r@ == spaces(i as nat),
        decreases n - i,
    {
        push_char(&mut r, ' ');
        assert(r@ =~= spaces((i + 1) as nat));
        i += 1;
    }
    r
}

/// The rows of the diff preview padded to `viewport` columns (see
/// `padded_line`): a changed row is filled with its background colour to
/// the end of its last wrapped row.
pub fn pad_preview_lines<S: Copy>(lines: Vec<PreviewLine<S>>, viewport: u16) -> (r: Vec<PreviewLine<S>>)
    requires
        forall|i: int| 0 <= i < lines@.len() ==> #[trigger] lines@[i].width + viewport + 1 <= usize::MAX,
    ensures
        r@.len() == lines@.len(),
        forall|i: int| 0 <= i < lines@.len() ==> {
            let p = padded_line(spans_view(lines@[i].spans@), lines@[i].width as nat, lines@[i].fill, viewport);
            &&& spans_view((#[trigger] r@[i]).spans@) == p.0
            &&& r@[i].width == p.1
            &&& r@[i].fill == lines@[i].fill
        },
{
    let mut out: Vec<PreviewLine<S>> = Vec::new();
    let mut rest = lines;
    let ghost original = rest@;
    while rest.len() > 0
        invariant
            out@.len() + rest@.len() == original.len(),
            rest@ == original.skip(out@.len() as int),
            forall|i: int| 0 <= i < original.len() ==> #[trigger] original[i].width + viewport + 1 <= usize::MAX,
            forall|i: int| 0 <= i < out@.len() ==> {
                let p = padded_line(spans_view(original[i].spans@), original[i].width as nat, original[i].fill, viewport);
                &&& spans_view((#[trigger] out@[i]).spans@) == p.0
                &&& out@[i].width == p.1
                &&& out@[i].fill == original[i].fill
            },
        decreases rest@.len(),
    {
        let mut line = rest.remove(0);
        let ghost j = out@.len() as int;
        assert(line == original[j]);
        assert(rest@ =~= original.skip(j + 1));
        match line.fill {
            Some(style) => {
                let pad = preview_padding(line.width, viewport, true);
                if pad > 0 {
                    let ghost before = line.spans@;
                    line.spans.push((spaces_string(pad), style));
                    assert(spans_view(line.spans@) =~= spans_view(before).push((spaces(pad as nat), style)));
                    assert(pad <= viewport || pad == 1);
                    line.width = line.width + pad;
                }
            },
            None => {},
        }
        out.push(line);
    }
    out
}

/// The widest the text of a completion popover gets.
pub const COMPLETION_POPOVER_CONTENT_WIDTH: u16 = 28;

/// Where the completion popover of an editor is drawn: its frame, the
/// inside of the frame, the part of it that holds text (a column less
/// when a scrollbar is drawn), and which items it shows.
#[derive(Debug, Clone, Copy, PartialEq, Eq, Structural)]
pub struct CompletionPopover {
    pub popup_area: Rect,
    pub content_area: Rect,
    pub text_area: Rect,
    pub start: usize,
    pub visible_len: usize,
    pub needs_scrollbar: bool,
    pub item_count: usize,
}

/// A position's offset from the scroll position, as a screen coordinate
/// (cut to 16 bits).
pub open spec fn shown_offset(pos: usize, scroll: u16) -> u16 {
    (if pos >= scroll {
        pos - scroll
    } else {
        0
    }) as u16
}

/// A rectangle shrunk by one cell on every side, or the empty rectangle at
/// the origin when it is too small for that.
pub open spec fn margin_inner(r: Rect) -> Rect {
    if r.width < 2 || r.height < 2 {
        Rect { x: 0, y: 0, width: 0, height: 0 }
    } else {
        Rect { x: (r.x + 1) as u16, y: (r.y + 1) as u16, width: (r.width - 2) as u16, height: (r.height - 2) as u16 }
    }
}

/// The completion popover of an editor whose code is drawn in `code_area`,
/// with `item_count` items of which at most `max_items` show from `start`,
/// for a cursor at `(cursor_row, cursor_col)` of the text scrolled by
/// `(vertical_scroll, horizontal_scroll)` behind a gutter of
/// `gutter_width` columns. None when the code area is too small (under 16
/// columns or 4 rows) or the cursor's row is not on screen. The popover
/// opens next to the cursor (see `popover_spec`), at most
/// `COMPLETION_POPOVER_CONTENT_WIDTH` columns of text wide and as high as
/// the items it shows, with room for a scrollbar when not all show.
pub open spec fn completion_popover_spec(
    code_area: Rect,
    item_count: usize,
    max_items: usize,
    start: usize,
    cursor_row: usize,
    cursor_col: usize,
    vertical_scroll: u16,
    horizontal_scroll: u16,
    gutter_width: u16,
) -> Option<CompletionPopover> {
    let visible_row = shown_offset(cursor_row, vertical_scroll);
    if code_area.width < 16 || code_area.height < 4 || visible_row >= code_area.height {
        None
    } else {
        let visible_col = shown_offset(cursor_col, horizontal_scroll);
        let anchor_x = min_int(
            sat_add(sat_add(code_area.x as int, gutter_width as int), visible_col as int),
            code_area.x + code_area.width - 1,
        ) as u16;
        let anchor_y = sat_add(code_area.y as int, visible_row as int) as u16;
        let visible_len = min_int(item_count as int, max_items as int);
        let needs_scrollbar = item_count > visible_len;
        let max_content_width = max_int(
            sat_sub(code_area.width as int, if needs_scrollbar { 5 } else { 4 }),
            1,
        );
        let content_width = min_int(COMPLETION_POPOVER_CONTENT_WIDTH as int, max_content_width);
        let popup_area = popover_spec(
            code_area,
            anchor_x,
            anchor_y,
            sat_add(content_width, if needs_scrollbar { 3 } else { 2 }),
            visible_len + 2,
        );
        let content_area = margin_inner(popup_area);
        let text_area = if needs_scrollbar && content_area.width > 1 {
            Rect { width: (content_area.width - 1) as u16, ..content_area }
        } else {
            content_area
        };
        Some(
            CompletionPopover {
                popup_area,
                content_area,
                text_area,
                start,
                visible_len: visible_len as usize,
                needs_scrollbar,
                item_count,
            },
        )
    }
}

/// The completion popover of an editor (see `completion_popover_spec`).
/// The items it shows lie inside the list.
pub fn completion_popover_layout(
    code_area: Rect,
    item_count: usize,
    max_items: usize,
    start: usize,
    cursor_row: usize,
    cursor_col: usize,
    vertical_scroll: u16,
    horizontal_scroll: u16,
    gutter_width: u16,
) -> (r: Option<CompletionPopover>)
    requires
        code_area.wf(),
        max_items <= u16::MAX - 2,
        start + min_int(item_count as int, max_items as int) <= item_count,
    ensures
        r == completion_popover_spec(
            code_area,
            item_count,
            max_items,
            start,
            cursor_row,
            cursor_col,
            vertical_scroll,
            horizontal_scroll,
            gutter_width,
        ),
        r matches Some(p) ==> p.popup_area.x + p.popup_area.width <= code_area.x + code_area.width
            && p.popup_area.y + p.popup_area.height <= code_area.y + code_area.height
            && p.popup_area.x >= code_area.x && p.popup_area.y >= code_area.y,
{
    if code_area.width < 16 || code_area.height < 4 {
        return None;
    }
    let row_offset: usize = if cursor_row >= vertical_scroll as usize {
        cursor_row - vertical_scroll as usize
    } else {
        0
    };
    let visible_row = row_offset as u16;
    if visible_row >= code_area.height {
        return None;
    }
    let col_offset: usize = if cursor_col >= horizontal_scroll as usize {
        cursor_col - horizontal_scroll as usize
    } else {
        0
    };
    let visible_col = col_offset as u16;
    let anchor_x = min_u16(
        code_area.x.saturating_add(gutter_width).saturating_add(visible_col),
        code_area.x + (code_area.width - 1),
    );
    let anchor_y = code_area.y.saturating_add(visible_row);
    let visible_len = min_usize(item_count, max_items);
    let needs_scrollbar = item_count > visible_len;
    let reserve: u16 = if needs_scrollbar {
        5
    } else {
        4
    };
    let max_content_width = max_u16(code_area.width.saturating_sub(reserve), 1);
    let content_width = min_u16(COMPLETION_POPOVER_CONTENT_WIDTH, max_content_width);
    let frame: u16 = if needs_scrollbar {
        3
    } else {
        2
    };
    let popup_area = hover_popover_area(
        code_area,
        anchor_x,
        anchor_y,
        content_width.saturating_add(frame),
        visible_len as u16 + 2,
    );
    let content_area = popup_area.inner_margin();
    let text_area = if needs_scrollbar && content_area.width > 1 {
        Rect::new(content_area.x, content_area.y, content_area.width - 1, content_area.height)
    } else {
        content_area
    };
    Some(
        CompletionPopover {
            popup_area,
            content_area,
            text_area,
            start,
            visible_len,
            needs_scrollbar,
            item_count,
        },
    )
}

/// `v` kept inside `[lo, hi]`.
pub open spec fn clamp_int(v: int, lo: int, hi: int) -> int {
    if v < lo {
        lo
    } else if v > hi {
        hi
    } else {
        v
    }
}

/// The position in the text under the cell `(column, row)` of an editor
/// whose code is drawn in `viewport`, behind a gutter of `gutter_width`
/// columns and scrolled by `(vertical_scroll, horizontal_scroll)`. With
/// `clamp`, a cell outside the viewport counts as the nearest cell inside
/// it; without, it has no position. A cell on the gutter is column 0.
pub open spec fn editor_position_spec(
    viewport: Rect,
    gutter_width: u16,
    vertical_scroll: u16,
    horizontal_scroll: u16,
    column: u16,
    row: u16,
    clamp: bool,
) -> Option<(int, int)> {
    if viewport.width == 0 || viewport.height == 0 {
        None
    } else if !clamp && !viewport.contains_cell(column as int, row as int) {
        None
    } else {
        let c = if clamp {
            clamp_int(column as int, viewport.x as int, viewport.x + viewport.width - 1)
        } else {
            column as int
        };
        let r = if clamp {
            clamp_int(row as int, viewport.y as int, viewport.y + viewport.height - 1)
        } else {
            row as int
        };
        let content_x = c - viewport.x;
        Some(
            (
                r - viewport.y + vertical_scroll,
                if content_x <= gutter_width {
                    0
                } else {
                    content_x - gutter_width + horizontal_scroll
                },
            ),
        )
    }
}

/// The position in the text under a cell of the editor (see
/// `editor_position_spec`).
pub fn editor_position_at(
    viewport: Rect,
    gutter_width: u16,
    vertical_scroll: u16,
    horizontal_scroll: u16,
    column: u16,
    row: u16,
    clamp: bool,
) -> (r: Option<EditorPosition>)
    requires
        viewport.wf(),
    ensures
        match editor_position_spec(viewport, gutter_width, vertical_scroll, horizontal_scroll, column, row, clamp) {
            Some((target_row, target_col)) => r matches Some(p) && p.row == target_row && p.col == target_col,
            None => r is None,
        },
{
    if viewport.width == 0 || viewport.height == 0 {
        return None;
    }
    let (c, r) = if clamp {
        let max_x = viewport.x + (viewport.width - 1);
        let max_y = viewport.y + (viewport.height - 1);
        let c = if column < viewport.x {
            viewport.x
        } else if column > max_x {
            max_x
        } else {
            column
        };
        let r = if row < viewport.y {
            viewport.y
        } else if row > max_y {
            max_y
        } else {
            row
        };
        (c, r)
    } else {
        if !rect_contains(viewport, column, row) {
            return None;
        }
        (column, row)
    };
    let target_row = (r - viewport.y) as usize + vertical_scroll as usize;
    let content_x = c - viewport.x;
    let target_col = if content_x <= gutter_width {
        0
    } else {
        (content_x - gutter_width) as usize + horizontal_scroll as usize
    };
    Some(EditorPosition { row: target_row, col: target_col })
}

} // verus!
