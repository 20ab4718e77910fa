//! The state of a chat: the queue of messages waiting for the agent, and
//! where the transcript is scrolled.
use vstd::prelude::*;

verus! {

/// The messages typed while the agent was busy, in the order they will be
/// sent, and the one selected in the queue popover.
pub struct ChatQueue {
    messages: Vec<String>,
    selection: usize,
}

/// The plain view of a list of strings.
pub open spec fn texts(v: Seq<String>) -> Seq<Seq<char>> {
    v.map_values(|s: String| s@)
}

impl ChatQueue {
    /// The queued messages, first to be sent first.
    pub closed spec fn view(&self) -> Seq<Seq<char>> {
        texts(self.messages@)
    }

    /// The selected position.
    pub closed spec fn selection(&self) -> int {
        self.selection as int
    }

    /// The selection points into the queue (or is 0 when it is empty).
    pub open spec fn inv(&self) -> bool {
        if self.view().len() == 0 {
            self.selection() == 0
        } else {
            0 <= self.selection() < self.view().len()
        }
    }

    /// An empty queue.
    pub fn new() -> (r: ChatQueue)
        ensures
            r.view() == Seq::<Seq<char>>::empty(),
            r.selection() == 0,
            r.inv(),
    {
        let r = ChatQueue { messages: Vec::new(), selection: 0 };
        assert(r.view() =~= Seq::<Seq<char>>::empty());
        r
    }

    fn clamp_selection(&mut self)
        ensures
            final(self).view() == old(self).view(),
            final(self).inv(),
            final(self).selection() == (if old(self).view().len() == 0 {
                0
            } else if old(self).selection() < old(self).view().len() {
                old(self).selection()
            } else {
                old(self).view().len() - 1
            }),
    {
        if self.messages.len() == 0 {
            self.selection = 0;
        } else if self.selection >= self.messages.len() {
            self.selection = self.messages.len() - 1;
        }
    }

    /// Adds a message at the end of the queue.
    pub fn enqueue(&mut self, text: String)
        requires
            old(self).inv(),
        ensures
            final(self).inv(),
            final(self).view() == old(self).view().push(text@),
            final(self).selection() == old(self).selection(),
    {
        let ghost before = self.messages@;
        self.messages.push(text);
        assert(texts(self.messages@) =~= texts(before).push(text@));
        self.clamp_selection();
    }

    /// Takes the first message of the queue, to be sent; the selection
    /// stays on the same message when it can.
    pub fn pop_next(&mut self) -> (r: Option<String>)
        requires
            old(self).inv(),
        ensures
            final(self).inv(),
            old(self).view().len() == 0 ==> r is None && final(self).view() == old(self).view(),
            old(self).view().len() > 0 ==> (r matches Some(m) && m@ == old(self).view()[0]),
            old(self).view().len() > 0 ==> final(self).view() == old(self).view().drop_first(),
            old(self).view().len() > 0 ==> final(self).selection() == (if old(self).selection()
                > 0 {
                old(self).selection() - 1
            } else {
                0
            }),
    {
        if self.messages.len() == 0 {
            return None;
        }
        let ghost before = self.messages@;
        let first = self.messages.remove(0);
        assert(texts(self.messages@) =~= texts(before).drop_first());
        if self.selection > 0 {
            self.selection = self.selection - 1;
        }
        self.clamp_selection();
        Some(first)
    }

    /// How many messages wait.
    pub fn count(&self) -> (r: usize)
        ensures
            r == self.view().len(),
    {
        self.messages.len()
    }

    /// Whether any message waits.
    pub fn has_queued(&self) -> (r: bool)
        ensures
            r == (self.view().len() > 0),
    {
        self.messages.len() > 0
    }

    /// The selected position, if any message waits.
    pub fn selected_index(&self) -> (r: Option<usize>)
        requires
            self.inv(),
        ensures
            self.view().len() == 0 ==> r is None,
            self.view().len() > 0 ==> r == Some(self.selection() as usize),
    {
        if self.messages.len() == 0 {
            None
        } else {
            Some(self.selection)
        }
    }

    /// The queued message at a position.
    pub fn message(&self, index: usize) -> (r: &String)
        requires
            index < self.view().len(),
        ensures
            r@ == self.view()[index as int],
    {
        &self.messages[index]
    }

    /// Removes the selected message and returns it; the selection stays at
    /// the same position, kept inside the queue.
    pub fn cancel_selected(&mut self) -> (r: Option<String>)
        requires
            old(self).inv(),
        ensures
            final(self).inv(),
            old(self).view().len() == 0 ==> r is None && final(self).view() == old(self).view(),
            old(self).view().len() > 0 ==> (r matches Some(m) && m@ == old(self).view()[old(
                self,
            ).selection()]),
            old(self).view().len() > 0 ==> final(self).view() == old(self).view().remove(
                old(self).selection(),
            ),
            old(self).view().len() > 0 ==> final(self).selection() == (if old(self).selection()
                < final(self).view().len() {
                old(self).selection()
            } else if final(self).view().len() == 0 {
                0
            } else {
                final(self).view().len() - 1
            }),
    {
        if self.messages.len() == 0 {
            return None;
        }
        let index = self.selection;
        let ghost before = self.messages@;
        let removed = self.messages.remove(index);
        assert(texts(self.messages@) =~= texts(before).remove(index as int));
        self.clamp_selection();
        Some(removed)
    }

    /// Selects the message before the selected one, going round from the
    /// first to the last.
    pub fn select_previous(&mut self)
        requires
            old(self).inv(),
        ensures
            final(self).inv(),
            final(self).view() == old(self).view(),
            old(self).view().len() > 0 ==> final(self).selection() == (if old(self).selection()
                == 0 {
                old(self).view().len() - 1
            } else {
                old(self).selection() - 1
            }),
            old(self).view().len() == 0 ==> final(self).selection() == old(self).selection(),
    {
        if self.messages.len() == 0 {
            return;
        }
        self.selection = if self.selection == 0 {
            self.messages.len() - 1
        } else {
            self.selection - 1
        };
    }

    /// Selects the message after the selected one, going round from the
    /// last to the first.
    pub fn select_next(&mut self)
        requires
            old(self).inv(),
        ensures
            final(self).inv(),
            final(self).view() == old(self).view(),
            old(self).view().len() > 0 ==> final(self).selection() == (old(self).selection() + 1)
                % (old(self).view().len() as int),
            old(self).view().len() == 0 ==> final(self).selection() == old(self).selection(),
    {
        if self.messages.len() == 0 {
            return;
        }
        self.selection = (self.selection + 1) % self.messages.len();
    }
}

/// Where the chat transcript is scrolled, and whether it follows new
/// output at the bottom.
#[derive(Debug, Clone, Copy, PartialEq, Eq, Structural)]
pub struct ChatScroll {
    pub scroll: u16,
    pub follow_output: bool,
}

impl ChatScroll {
    /// The offset shown when `max_scroll` rows can be scrolled: the bottom
    /// while following output, else the kept offset, at most the bottom.
    pub open spec fn shown(self, max_scroll: u16) -> u16 {
        if self.follow_output || self.scroll > max_scroll {
            max_scroll
        } else {
            self.scroll
        }
    }

    /// A transcript at the bottom, following output.
    pub fn new() -> (r: ChatScroll)
        ensures
            r.scroll == 0,
            r.follow_output,
    {
        ChatScroll { scroll: 0, follow_output: true }
    }

    /// The offset shown (see `shown`).
    pub fn current(&self, max_scroll: u16) -> (r: u16)
        ensures
            r == self.shown(max_scroll),
            r <= max_scroll,
    {
        if self.follow_output || self.scroll > max_scroll {
            max_scroll
        } else {
            self.scroll
        }
    }

    /// Scrolls up by `lines` from the offset shown; output is followed
    /// again only at the bottom.
    pub fn scroll_up(&mut self, max_scroll: u16, lines: u16)
        ensures
            final(self).scroll == old(self).shown(max_scroll).saturating_sub(lines),
            final(self).scroll <= max_scroll,
            final(self).follow_output == (final(self).scroll == max_scroll),
    {
        let current = self.current(max_scroll);
        let next = current.saturating_sub(lines);
        self.scroll = next;
        self.follow_output = next >= max_scroll;
    }

    /// Scrolls down by `lines` from the offset shown, stopping at the
    /// bottom, where output is followed again.
    pub fn scroll_down(&mut self, max_scroll: u16, lines: u16)
        ensures
            final(self).scroll == (if old(self).shown(max_scroll).saturating_add(lines)
                < max_scroll {
                old(self).shown(max_scroll).saturating_add(lines)
            } else {
                max_scroll
            }),
            final(self).follow_output == (final(self).scroll == max_scroll),
    {
        let current = self.current(max_scroll);
        let raised = current.saturating_add(lines);
        let next = if raised < max_scroll {
            raised
        } else {
            max_scroll
        };
        self.scroll = next;
        self.follow_output = next >= max_scroll;
    }
}

} // verus!
