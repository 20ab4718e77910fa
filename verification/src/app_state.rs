//! What an input event leads to, the tabs of the top navigation bar and
//! where a click on them lands, and the debounce of mouse scrolling.
use vstd::prelude::*;
use crate::geometry::{inner_of, inner_rect, min_int, min_u16, rect_contains, sat_add, sat_sub, Rect};

verus! {

/// How the application ends.
#[derive(Debug, Clone, Copy, PartialEq, Eq, Structural)]
pub enum AppExit {
    Quit,
    Restart,
}

/// What handling an input event leads to.
#[derive(Debug, Clone, Copy, PartialEq, Eq, Structural)]
pub enum AppOutcome {
    Handled,
    Redraw,
    Exit(AppExit),
}

impl AppOutcome {
    /// Whether the screen must be drawn again.
    pub fn needs_redraw(self) -> (r: bool)
        ensures
            r == (self == AppOutcome::Redraw),
    {
        match self {
            AppOutcome::Redraw => true,
            _ => false,
        }
    }

    /// How the application ends, if it does.
    pub fn exit(self) -> (r: Option<AppExit>)
        ensures
            r == (match self {
                AppOutcome::Exit(e) => Some(e),
                _ => None,
            }),
    {
        match self {
            AppOutcome::Exit(exit) => Some(exit),
            AppOutcome::Handled | AppOutcome::Redraw => None,
        }
    }
}

/// The tabs of the main area, in the order they are shown.
#[derive(Debug, Clone, Copy, PartialEq, Eq, Structural)]
pub enum AppTab {
    Chat,
    Workspace,
    Shell,
    GitDiff,
}

/// The position of a tab in the tab bar.
pub open spec fn tab_index(tab: AppTab) -> int {
    match tab {
        AppTab::Chat => 0,
        AppTab::Workspace => 1,
        AppTab::Shell => 2,
        AppTab::GitDiff => 3,
    }
}

/// The tab at a position of the tab bar.
pub open spec fn tab_at(i: int) -> AppTab {
    if i == 0 {
        AppTab::Chat
    } else if i == 1 {
        AppTab::Workspace
    } else if i == 2 {
        AppTab::Shell
    } else {
        AppTab::GitDiff
    }
}

/// The width in cells of a tab's label (`Chat`, `Workspace`, `Shell`,
/// `Git Diff`).
pub open spec fn tab_label_width(i: int) -> int {
    if i == 0 {
        4
    } else if i == 1 {
        9
    } else if i == 2 {
        5
    } else {
        8
    }
}

/// The width of the `CMDEX ·` prefix before the tabs.
pub open spec fn prefix_width() -> int {
    7
}

/// The position of a tab in the tab bar.
pub fn selected_tab_index(tab: AppTab) -> (r: usize)
    ensures
        r == tab_index(tab),
        tab_at(r as int) == tab,
{
    match tab {
        AppTab::Chat => 0,
        AppTab::Workspace => 1,
        AppTab::Shell => 2,
        AppTab::GitDiff => 3,
    }
}

/// The width of a tab's label.
fn label_width(i: usize) -> (r: u16)
    requires
        i < 4,
    ensures
        r == tab_label_width(i as int),
{
    if i == 0 {
        4
    } else if i == 1 {
        9
    } else if i == 2 {
        5
    } else {
        8
    }
}

/// The cells of the `CMDEX ·` prefix: the start of the bar's inside.
pub open spec fn label_rect_spec(area: Rect) -> Rect {
    let inner = inner_of(area);
    if inner.width == 0 || inner.height == 0 {
        inner
    } else {
        Rect::spec_new(inner.x, inner.y, min_int(prefix_width(), inner.width as int) as u16, 1)
    }
}

/// The cells of the prefix.
pub fn label_rect(area: Rect) -> (r: Rect)
    ensures
        r == label_rect_spec(area),
{
    let inner = inner_rect(area);
    if inner.width == 0 || inner.height == 0 {
        return inner;
    }
    Rect::new(inner.x, inner.y, min_u16(7, inner.width), 1)
}

/// The cells of the tabs: the rest of the bar's first inner row after the
/// prefix.
pub open spec fn tabs_rect_spec(area: Rect) -> Rect {
    let inner = inner_of(area);
    if inner.width == 0 || inner.height == 0 {
        inner
    } else {
        let label = label_rect_spec(area);
        let x = sat_add(label.x as int, label.width as int);
        Rect::spec_new(
            x as u16,
            inner.y,
            sat_sub(sat_add(inner.x as int, inner.width as int), x) as u16,
            1,
        )
    }
}

/// The cells of the tabs.
pub fn tabs_rect(area: Rect) -> (r: Rect)
    ensures
        r == tabs_rect_spec(area),
{
    let inner = inner_rect(area);
    if inner.width == 0 || inner.height == 0 {
        return inner;
    }
    let label = label_rect(area);
    let x = label.x.saturating_add(label.width);
    Rect::new(x, inner.y, inner.x.saturating_add(inner.width).saturating_sub(x), 1)
}

/// The tab hit at `(column, row)`, scanning the tabs from the `i`-th one
/// whose label starts at `x` in the tab row `inner`: each label and the
/// cell after it are clickable (cut at the row's end), and the next label
/// starts three cells after a label.
pub open spec fn tab_hit(inner: Rect, column: u16, row: u16, i: int, x: int) -> Option<AppTab>
    decreases 4 - i,
{
    if i < 0 || i >= 4 {
        None
    } else {
        let end = sat_add(inner.x as int, inner.width as int);
        let w = tab_label_width(i);
        let clickable = Rect::spec_new(
            x as u16,
            inner.y,
            min_int(sat_add(w, 1), sat_sub(end, x)) as u16,
            1,
        );
        if clickable.x <= column < sat_add(clickable.x as int, clickable.width as int)
            && clickable.y <= row < sat_add(clickable.y as int, clickable.height as int) {
            Some(tab_at(i))
        } else {
            let next = sat_add(sat_add(x, w), 3);
            if next >= end {
                None
            } else {
                tab_hit(inner, column, row, i + 1, next)
            }
        }
    }
}

/// The tab a click at `(column, row)` on the navigation bar `tabs` hits,
/// if any (see `tab_hit`); clicks on the prefix hit none.
pub fn tab_from_click(tabs: Rect, column: u16, row: u16) -> (r: Option<AppTab>)
    ensures
        ({
            let inner = tabs_rect_spec(tabs);
            r == (if inner.width == 0 || inner.height == 0 {
                None
            } else {
                tab_hit(inner, column, row, 0, inner.x as int)
            })
        }),
{
    let inner = tabs_rect(tabs);
    if inner.width == 0 || inner.height == 0 {
        return None;
    }
    let end = inner.x.saturating_add(inner.width);
    let mut x = inner.x;
    let mut i: usize = 0;
    while i < 4
        invariant
            0 <= i <= 4,
            inner == tabs_rect_spec(tabs),
            inner.width != 0 && inner.height != 0,
            end == sat_add(inner.x as int, inner.width as int),
            tab_hit(inner, column, row, 0, inner.x as int) == tab_hit(
                inner,
                column,
                row,
                i as int,
                x as int,
            ),
        decreases 4 - i,
    {
        let w = label_width(i);
        let room = end.saturating_sub(x);
        let width = min_u16(w.saturating_add(1), room);
        let clickable = Rect::new(x, inner.y, width, 1);
        if rect_contains(clickable, column, row) {
            return Some(
                if i == 0 {
                    AppTab::Chat
                } else if i == 1 {
                    AppTab::Workspace
                } else if i == 2 {
                    AppTab::Shell
                } else {
                    AppTab::GitDiff
                },
            );
        }
        x = x.saturating_add(w).saturating_add(3);
        if x >= end {
            return None;
        }
        i += 1;
    }
    None
}

/// Which way the wheel turned.
#[derive(Debug, Clone, Copy, PartialEq, Eq, Structural)]
pub enum ScrollDirection {
    Up,
    Down,
}

/// Which way the content scrolls.
#[derive(Debug, Clone, Copy, PartialEq, Eq, Structural)]
pub enum ScrollAxis {
    Vertical,
    Horizontal,
}

/// How close two wheel events in the same direction may come before the
/// second is dropped, in nanoseconds (20 ms).
pub const MOUSE_SCROLL_DEBOUNCE_NANOS: u64 = 20_000_000;

/// The last wheel event that was handled.
#[derive(Debug, Clone, Copy)]
pub struct ScrollDebounce {
    pub last: Option<(ScrollAxis, ScrollDirection, u64)>,
}

impl ScrollDebounce {
    /// Whether a wheel event is dropped: it repeats the last handled one
    /// (same axis, same direction) less than the debounce time after it.
    pub open spec fn drops(self, axis: ScrollAxis, direction: ScrollDirection, now: u64) -> bool {
        match self.last {
            Some((a, d, t)) => a == axis && d == direction && t <= now && now - t
                < MOUSE_SCROLL_DEBOUNCE_NANOS,
            None => false,
        }
    }

    /// Nothing handled yet.
    pub fn new() -> (r: ScrollDebounce)
        ensures
            r.last is None,
    {
        ScrollDebounce { last: None }
    }

    /// Decides whether to handle a wheel event at time `now` (nanoseconds
    /// on a monotonic clock); a handled event becomes the last one, a
    /// dropped one changes nothing.
    pub fn should_handle(&mut self, axis: ScrollAxis, direction: ScrollDirection, now: u64) -> (r:
        bool)
        ensures
            r == !old(self).drops(axis, direction, now),
            r ==> final(self).last == Some((axis, direction, now)),
            !r ==> *final(self) == *old(self),
    {
        let dropped = match self.last {
            Some((a, d, t)) => a == axis && d == direction && t <= now && now - t
                < MOUSE_SCROLL_DEBOUNCE_NANOS,
            None => false,
        };
        if dropped {
            return false;
        }
        self.last = Some((axis, direction, now));
        true
    }
}

/// Two wheel events in the same direction closer than the debounce time:
/// the first is handled and the second dropped; after the debounce time,
/// or in another direction or on another axis, the second is handled.
pub proof fn law_scroll_debounce(
    axis: ScrollAxis,
    direction: ScrollDirection,
    first: u64,
    second: u64,
)
    requires
        first <= second,
    ensures
        ({
            let after = ScrollDebounce { last: Some((axis, direction, first)) };
            &&& !(ScrollDebounce { last: None }).drops(axis, direction, first)
            &&& after.drops(axis, direction, second) <==> second - first
                < MOUSE_SCROLL_DEBOUNCE_NANOS
            &&& forall|other: ScrollDirection|
                other != direction ==> !after.drops(axis, other, second)
            &&& forall|other: ScrollAxis| other != axis ==> !after.drops(other, direction, second)
        }),
{
}

/// What is busy in the active agent, as far as the tabs show it.
#[derive(Debug, Clone, Copy, PartialEq, Eq, Structural)]
pub struct AgentActivity {
    /// The chat waits for the agent or runs a shell command.
    pub chat_busy: bool,
    /// A language server of the open editor is starting.
    pub lsp_starting: bool,
    /// A shell session is starting or running a command.
    pub shell_busy: bool,
    /// A remote action or a change of the repository is running.
    pub git_busy: bool,
}

/// Whether the current tab shows a spinner: only with an active agent,
/// and only for what that tab shows.
pub open spec fn animating_spec(tab: AppTab, activity: Option<AgentActivity>) -> bool {
    match activity {
        None => false,
        Some(a) => match tab {
            AppTab::Chat => a.chat_busy,
            AppTab::Workspace => a.lsp_starting,
            AppTab::Shell => a.shell_busy,
            AppTab::GitDiff => a.git_busy,
        },
    }
}

/// Whether the current tab shows a spinner (see `animating_spec`).
pub fn has_active_animation(tab: AppTab, activity: Option<AgentActivity>) -> (r: bool)
    ensures
        r == animating_spec(tab, activity),
{
    match activity {
        None => false,
        Some(a) => match tab {
            AppTab::Chat => a.chat_busy,
            AppTab::Workspace => a.lsp_starting,
            AppTab::Shell => a.shell_busy,
            AppTab::GitDiff => a.git_busy,
        },
    }
}

/// Milliseconds between ticks while a spinner turns.
pub const FAST_TICK_MILLIS: u64 = 80;

/// Milliseconds between ticks on the workspace tab.
pub const WORKSPACE_TICK_MILLIS: u64 = 250;

/// Milliseconds between ticks otherwise.
pub const IDLE_TICK_MILLIS: u64 = 1000;

/// How often the app ticks: fast while a spinner turns, then faster on
/// the workspace tab than elsewhere.
pub fn tick_interval_millis(tab: AppTab, activity: Option<AgentActivity>) -> (r: u64)
    ensures
        r == (if animating_spec(tab, activity) {
            FAST_TICK_MILLIS
        } else if tab == AppTab::Workspace {
            WORKSPACE_TICK_MILLIS
        } else {
            IDLE_TICK_MILLIS
        }),
{
    if has_active_animation(tab, activity) {
        FAST_TICK_MILLIS
    } else if matches!(tab, AppTab::Workspace) {
        WORKSPACE_TICK_MILLIS
    } else {
        IDLE_TICK_MILLIS
    }
}

/// The spinner frame after a tick (the eight frames repeat).
pub fn next_spinner_index(index: usize) -> (r: usize)
    ensures
        r == (index + 1) % 8,
{
    (index % 8 + 1) % 8
}

} // verus!
