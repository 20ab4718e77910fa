//! Shell sessions: the parser that turns the raw output of a terminal
//! session into records, and the list of sessions of a shell tab.
use vstd::prelude::*;
use crate::geometry::{inner_of, inner_rect, list_offset, min_int, rect_contains, sat_sub, Rect};
use crate::text::{
    pop_char, push_char,
    chars_of, push_all, push_str, signed_decimal, signed_decimal_chars, find, find_in_range, lemma_find_from_found, lemma_split_on_chars,
    lemma_split_on_nonempty, parse_i32, parse_i32_spec, range_equals, range_texts, ranges_within,
    split_on, split_ranges, string_of_range, trim, trim_range,
};

verus! {

/// Marks the end of a command in a session's output; the exit code follows.
pub const SHELL_COMMAND_SENTINEL: &'static str = "__CMDEX_DONE__:";

/// Printed once by a session when it is ready for commands.
pub const SHELL_READY_SENTINEL: &'static str = "__CMDEX_READY__";

/// What the parser makes of the output.
#[derive(Debug, Clone, PartialEq, Eq)]
pub enum ShellOutputRecord {
    /// The session is ready for commands.
    Ready,
    /// A line of output.
    Line(String),
    /// A command finished with this exit code (`-1` when unreadable).
    CommandFinished(i32),
}

/// A record as plain values: a tag (0 ready, 1 line, 2 finished), the
/// line's text and the exit code.
pub type RecordView = (u8, Seq<char>, i32);

impl View for ShellOutputRecord {
    type V = RecordView;

    open spec fn view(&self) -> RecordView {
        match self {
            ShellOutputRecord::Ready => (0u8, Seq::empty(), 0i32),
            ShellOutputRecord::Line(s) => (1u8, s@, 0i32),
            ShellOutputRecord::CommandFinished(code) => (2u8, Seq::empty(), *code),
        }
    }
}

/// The views of a list of records.
pub open spec fn records_view(r: Seq<ShellOutputRecord>) -> Seq<RecordView> {
    r.map_values(|x: ShellOutputRecord| x@)
}

/// Where the parser is inside a terminal escape sequence.
#[derive(Debug, Clone, Copy, PartialEq, Eq, Structural)]
pub enum ShellEscapeState {
    Ground,
    Escape,
    Csi,
    Osc,
    OscEscape,
}

/// Unicode general category `Cc`, the property that `char::is_control` tests.
pub open spec fn is_control(c: char) -> bool {
    (c as u32) <= 0x1F || (0x7F <= (c as u32) && (c as u32) <= 0x9F)
}

/// One character of raw output applied to the escape state and the pending
/// text: escape sequences (CSI, OSC) are dropped, a backspace removes the
/// last pending character, a tab becomes a space, line breaks are kept and
/// other control characters are dropped.
pub open spec fn step(state: ShellEscapeState, pending: Seq<char>, c: char) -> (
    ShellEscapeState,
    Seq<char>,
) {
    match state {
        ShellEscapeState::Ground => {
            if c == '\u{1b}' {
                (ShellEscapeState::Escape, pending)
            } else if c == '\u{08}' {
                (
                    ShellEscapeState::Ground,
                    if pending.len() > 0 {
                        pending.drop_last()
                    } else {
                        pending
                    },
                )
            } else if c == '\n' || c == '\r' {
                (ShellEscapeState::Ground, pending.push(c))
            } else if c == '\t' {
                (ShellEscapeState::Ground, pending.push(' '))
            } else if is_control(c) {
                (ShellEscapeState::Ground, pending)
            } else {
                (ShellEscapeState::Ground, pending.push(c))
            }
        },
        ShellEscapeState::Escape => {
            if c == '[' {
                (ShellEscapeState::Csi, pending)
            } else if c == ']' {
                (ShellEscapeState::Osc, pending)
            } else {
                (ShellEscapeState::Ground, pending)
            }
        },
        ShellEscapeState::Csi => {
            if '@' <= c && c <= '~' {
                (ShellEscapeState::Ground, pending)
            } else {
                (ShellEscapeState::Csi, pending)
            }
        },
        ShellEscapeState::Osc => {
            if c == '\u{07}' {
                (ShellEscapeState::Ground, pending)
            } else if c == '\u{1b}' {
                (ShellEscapeState::OscEscape, pending)
            } else {
                (ShellEscapeState::Osc, pending)
            }
        },
        ShellEscapeState::OscEscape => {
            if c == '\\' {
                (ShellEscapeState::Ground, pending)
            } else {
                (ShellEscapeState::Osc, pending)
            }
        },
    }
}

/// The characters of `s` applied one after another.
pub open spec fn consume_all(state: ShellEscapeState, pending: Seq<char>, s: Seq<char>) -> (
    ShellEscapeState,
    Seq<char>,
)
    decreases s.len(),
{
    if s.len() == 0 {
        (state, pending)
    } else {
        let prev = consume_all(state, pending, s.drop_last());
        step(prev.0, prev.1, s.last())
    }
}

/// The records of one `'\r'`-separated segment of a line: the ready mark,
/// a command's end (with the text before the mark as a line of its own),
/// or a plain line.
pub open spec fn segment_records(seg: Seq<char>) -> Seq<RecordView> {
    let done = SHELL_COMMAND_SENTINEL@;
    if trim(seg) == SHELL_READY_SENTINEL@ {
        seq![(0u8, Seq::empty(), 0i32)]
    } else if find(seg, done) is Some {
        let pos = find(seg, done)->0;
        let before = seg.take(pos);
        let code = match parse_i32_spec(trim(seg.skip(pos + done.len()))) {
            Some(c) => c,
            None => -1i32,
        };
        (if before.len() > 0 {
            seq![(1u8, before, 0i32)]
        } else {
            Seq::empty()
        }) + seq![(2u8, Seq::empty(), code)]
    } else {
        seq![(1u8, seg, 0i32)]
    }
}

/// The records of the first `n` segments of a line; when the line ends in
/// `'\r'`, empty segments after the first one are skipped.
pub open spec fn segments_records(segs: Seq<Seq<char>>, trailing_cr: bool, n: int) -> Seq<
    RecordView,
>
    decreases n,
{
    if n <= 0 {
        Seq::empty()
    } else {
        let prev = segments_records(segs, trailing_cr, n - 1);
        if trailing_cr && n - 1 > 0 && segs[n - 1].len() == 0 {
            prev
        } else {
            prev + segment_records(segs[n - 1])
        }
    }
}

/// The records of one complete line of output.
pub open spec fn line_records(raw: Seq<char>) -> Seq<RecordView> {
    let segs = split_on(raw, '\r');
    segments_records(segs, raw.len() > 0 && raw.last() == '\r', segs.len() as int)
}

/// The records of the first `n` lines.
pub open spec fn lines_records(lines: Seq<Seq<char>>, n: int) -> Seq<RecordView>
    decreases n,
{
    if n <= 0 {
        Seq::empty()
    } else {
        lines_records(lines, n - 1) + line_records(lines[n - 1])
    }
}

/// A character that may wait in the parser: anything but a control
/// character, except line breaks.
pub open spec fn pending_char_ok(c: char) -> bool {
    !is_control(c) || c == '\n' || c == '\r'
}

/// Whether no character of `s` is a control character.
pub open spec fn no_control(s: Seq<char>) -> bool {
    forall|i: int| 0 <= i < s.len() ==> !is_control(#[trigger] s[i])
}

/// Whether every line record in `r` is free of control characters.
pub open spec fn clean_lines(r: Seq<RecordView>) -> bool {
    forall|i: int| 0 <= i < r.len() && (#[trigger] r[i]).0 == 1u8 ==> no_control(r[i].1)
}

/// Applying characters keeps every waiting character acceptable.
pub proof fn lemma_consume_all_ok(state: ShellEscapeState, pending: Seq<char>, s: Seq<char>)
    requires
        forall|i: int| 0 <= i < pending.len() ==> pending_char_ok(#[trigger] pending[i]),
    ensures
        forall|i: int|
            0 <= i < consume_all(state, pending, s).1.len() ==> pending_char_ok(
                #[trigger] consume_all(state, pending, s).1[i],
            ),
    decreases s.len(),
{
    if s.len() > 0 {
        lemma_consume_all_ok(state, pending, s.drop_last());
        let prev = consume_all(state, pending, s.drop_last());
        let next = step(prev.0, prev.1, s.last());
        assert forall|i: int| 0 <= i < next.1.len() implies pending_char_ok(#[trigger] next.1[i]) by {
            if i < prev.1.len() {
                assert(next.1[i] == prev.1[i]);
            }
        }
    }
}

/// The records of a segment without control characters have line texts
/// without control characters.
pub proof fn lemma_segment_records_clean(seg: Seq<char>)
    requires
        no_control(seg),
    ensures
        clean_lines(segment_records(seg)),
{
    let done = SHELL_COMMAND_SENTINEL@;
    let r = segment_records(seg);
    if trim(seg) != SHELL_READY_SENTINEL@ && find(seg, done) is Some {
        let pos = find(seg, done)->0;
        lemma_find_from_found(seg, done, 0);
        let before = seg.take(pos);
        assert(no_control(before)) by {
            assert forall|i: int| 0 <= i < before.len() implies !is_control(#[trigger] before[i]) by {
                assert(before[i] == seg[i]);
            }
        }
    }
}

/// The records of segments without control characters are clean.
pub proof fn lemma_segments_records_clean(segs: Seq<Seq<char>>, trailing_cr: bool, n: int)
    requires
        n <= segs.len(),
        forall|k: int| 0 <= k < segs.len() ==> no_control(#[trigger] segs[k]),
    ensures
        clean_lines(segments_records(segs, trailing_cr, n)),
    decreases n,
{
    if n > 0 {
        lemma_segments_records_clean(segs, trailing_cr, n - 1);
        lemma_segment_records_clean(segs[n - 1]);
        let prev = segments_records(segs, trailing_cr, n - 1);
        let add = segment_records(segs[n - 1]);
        let all = prev + add;
        assert forall|i: int| 0 <= i < all.len() && (#[trigger] all[i]).0 == 1u8 implies no_control(
            all[i].1,
        ) by {
            if i < prev.len() {
                assert(all[i] == prev[i]);
            } else {
                assert(all[i] == add[i - prev.len()]);
            }
        }
    }
}

/// The records of a line whose characters may wait in the parser, and that
/// holds no line break, are clean.
pub proof fn lemma_line_records_clean(raw: Seq<char>)
    requires
        forall|i: int| 0 <= i < raw.len() ==> pending_char_ok(#[trigger] raw[i]) && raw[i] != '\n',
    ensures
        clean_lines(line_records(raw)),
{
    let p = |c: char| pending_char_ok(c) && c != '\n';
    lemma_split_on_chars(raw, '\r', p);
    let segs = split_on(raw, '\r');
    assert forall|k: int| 0 <= k < segs.len() implies no_control(#[trigger] segs[k]) by {
        assert forall|j: int| 0 <= j < segs[k].len() implies !is_control(#[trigger] segs[k][j]) by {
            assert(p(segs[k][j]));
        }
    }
    lemma_segments_records_clean(segs, raw.len() > 0 && raw.last() == '\r', segs.len() as int);
}

/// Turns the raw output of a shell session into records.
pub struct ShellOutputParser {
    pending: Vec<char>,
    escape_state: ShellEscapeState,
}

impl ShellOutputParser {
    /// The text received but not yet ended by a line break.
    pub closed spec fn pending(&self) -> Seq<char> {
        self.pending@
    }

    /// Where the parser is inside an escape sequence.
    pub closed spec fn state(&self) -> ShellEscapeState {
        self.escape_state
    }

    /// A parser that has seen nothing.
    pub fn new() -> (r: ShellOutputParser)
        ensures
            r.pending() == Seq::<char>::empty(),
            r.state() == ShellEscapeState::Ground,
            r.inv(),
    {
        ShellOutputParser { pending: Vec::new(), escape_state: ShellEscapeState::Ground }
    }

    fn consume_char(&mut self, c: char)
        ensures
            (final(self).state(), final(self).pending()) == step(
                old(self).state(),
                old(self).pending(),
                c,
            ),
    {
        match self.escape_state {
            ShellEscapeState::Ground => {
                if c == '\u{1b}' {
                    self.escape_state = ShellEscapeState::Escape;
                } else if c == '\u{08}' {
                    self.pending.pop();
                } else if c == '\n' || c == '\r' {
                    self.pending.push(c);
                } else if c == '\t' {
                    self.pending.push(' ');
                } else if (c as u32) <= 0x1F || (0x7F <= (c as u32) && (c as u32) <= 0x9F) {
                } else {
                    self.pending.push(c);
                }
            },
            ShellEscapeState::Escape => {
                if c == '[' {
                    self.escape_state = ShellEscapeState::Csi;
                } else if c == ']' {
                    self.escape_state = ShellEscapeState::Osc;
                } else {
                    self.escape_state = ShellEscapeState::Ground;
                }
            },
            ShellEscapeState::Csi => {
                if '@' <= c && c <= '~' {
                    self.escape_state = ShellEscapeState::Ground;
                }
            },
            ShellEscapeState::Osc => {
                if c == '\u{07}' {
                    self.escape_state = ShellEscapeState::Ground;
                } else if c == '\u{1b}' {
                    self.escape_state = ShellEscapeState::OscEscape;
                }
            },
            ShellEscapeState::OscEscape => {
                if c == '\\' {
                    self.escape_state = ShellEscapeState::Ground;
                } else {
                    self.escape_state = ShellEscapeState::Osc;
                }
            },
        }
    }
}


/// The view of a list with one more record.
proof fn lemma_records_view_push(r: Seq<ShellOutputRecord>, x: ShellOutputRecord)
    ensures
        records_view(r.push(x)) == records_view(r).push(x@),
{
    assert(records_view(r.push(x)) =~= records_view(r).push(x@));
}

/// Adds the records of the segment `v[lo..hi]` to `records`.
fn process_segment(v: &Vec<char>, lo: usize, hi: usize, records: &mut Vec<ShellOutputRecord>)
    requires
        lo <= hi <= v@.len(),
    ensures
        records_view(final(records)@) == records_view(old(records)@) + segment_records(
            v@.subrange(lo as int, hi as int),
        ),
{
    let ghost seg = v@.subrange(lo as int, hi as int);
    let ghost start_view = records_view(records@);
    let ready = chars_of(SHELL_READY_SENTINEL);
    let (a, b) = trim_range(v, lo, hi);
    if range_equals(v, a, b, &ready) {
        proof {
            lemma_records_view_push(records@, ShellOutputRecord::Ready);
        }
        records.push(ShellOutputRecord::Ready);
        assert(records_view(records@) =~= start_view + segment_records(seg));
        return;
    }
    let done = chars_of(SHELL_COMMAND_SENTINEL);
    match find_in_range(v, lo, hi, &done) {
        Some(pos) => {
            proof {
                lemma_find_from_found(seg, done@, 0);
            }
            let ghost before = seg.take(pos as int);
            if pos > 0 {
                let line = string_of_range(v, lo, lo + pos);
                assert(line@ =~= before);
                proof {
                    lemma_records_view_push(records@, ShellOutputRecord::Line(line));
                }
                records.push(ShellOutputRecord::Line(line));
            }
            let ghost mid_view = records_view(records@);
            let start = lo + pos + done.len();
            assert(seg.skip(pos + done@.len()) =~= v@.subrange(start as int, hi as int));
            let (c0, c1) = trim_range(v, start, hi);
            let code = match parse_i32(v, c0, c1) {
                Some(c) => c,
                None => -1,
            };
            proof {
                lemma_records_view_push(records@, ShellOutputRecord::CommandFinished(code));
            }
            records.push(ShellOutputRecord::CommandFinished(code));
            assert(records_view(records@) =~= start_view + segment_records(seg));
        },
        None => {
            let line = string_of_range(v, lo, hi);
            proof {
                lemma_records_view_push(records@, ShellOutputRecord::Line(line));
            }
            records.push(ShellOutputRecord::Line(line));
            assert(records_view(records@) =~= start_view + segment_records(seg));
        },
    }
}

/// Adds the records of the complete line `v[lo..hi]` to `records`.
fn process_line(v: &Vec<char>, lo: usize, hi: usize, records: &mut Vec<ShellOutputRecord>)
    requires
        lo <= hi <= v@.len(),
    ensures
        records_view(final(records)@) == records_view(old(records)@) + line_records(
            v@.subrange(lo as int, hi as int),
        ),
{
    let ghost raw = v@.subrange(lo as int, hi as int);
    let ghost start_view = records_view(records@);
    let trailing_cr = hi > lo && v[hi - 1] == '\r';
    assert(trailing_cr == (raw.len() > 0 && raw.last() == '\r'));
    let segs = split_ranges(v, lo, hi, '\r');
    let ghost texts = split_on(raw, '\r');
    let mut k: usize = 0;
    while k < segs.len()
        invariant
            lo <= hi <= v@.len(),
            ranges_within(segs@, lo as int, hi as int),
            range_texts(v@, segs@) == texts,
            texts == split_on(raw, '\r'),
            raw == v@.subrange(lo as int, hi as int),
            trailing_cr == (raw.len() > 0 && raw.last() == '\r'),
            0 <= k <= segs@.len(),
            records_view(records@) == start_view + segments_records(texts, trailing_cr, k as int),
        decreases segs@.len() - k,
    {
        let (a, b) = segs[k];
        assert(lo <= segs@[k as int].0 <= segs@[k as int].1 <= hi);
        assert(texts[k as int] == v@.subrange(a as int, b as int));
        if trailing_cr && k > 0 && a == b {
        } else {
            process_segment(v, a, b, records);
        }
        assert(records_view(records@) =~= start_view + segments_records(
            texts,
            trailing_cr,
            k + 1,
        ));
        k += 1;
    }
}

impl ShellOutputParser {
    /// The parser's invariant: every waiting character is acceptable.
    pub closed spec fn inv(&self) -> bool {
        forall|i: int| 0 <= i < self.pending@.len() ==> pending_char_ok(#[trigger] self.pending@[i])
    }

    /// Feeds a chunk of raw output. Every character goes through `step`;
    /// then each complete line (ended by `'\n'`) becomes records, in order,
    /// and the text after the last line break keeps waiting. Line records
    /// never hold a control character: escape sequences and control
    /// characters do not reach the output.
    pub fn push(&mut self, chunk: &str) -> (r: Vec<ShellOutputRecord>)
        requires
            old(self).inv(),
        ensures
            final(self).inv(),
            ({
                let after = consume_all(old(self).state(), old(self).pending(), chunk@);
                let lines = split_on(after.1, '\n');
                &&& final(self).state() == after.0
                &&& final(self).pending() == lines.last()
                &&& records_view(r@) == lines_records(lines, lines.len() - 1)
            }),
            clean_lines(records_view(r@)),
    {
        let ghost state0 = self.escape_state;
        let ghost pending0 = self.pending@;
        let cs = chars_of(chunk);
        let mut i: usize = 0;
        while i < cs.len()
            invariant
                0 <= i <= cs@.len(),
                cs@ == chunk@,
                (self.escape_state, self.pending@) == consume_all(
                    state0,
                    pending0,
                    cs@.take(i as int),
                ),
            decreases cs@.len() - i,
        {
            assert(cs@.take(i + 1).drop_last() =~= cs@.take(i as int));
            self.consume_char(cs[i]);
            i += 1;
        }
        assert(cs@.take(i as int) =~= chunk@);
        let ghost after = consume_all(state0, pending0, chunk@);
        proof {
            lemma_consume_all_ok(state0, pending0, chunk@);
        }
        let len = self.pending.len();
        assert(self.pending@.subrange(0, len as int) =~= self.pending@);
        let pieces = split_ranges(&self.pending, 0, len, '\n');
        let ghost lines = split_on(after.1, '\n');
        proof {
            lemma_split_on_nonempty(after.1, '\n');
            lemma_split_on_chars(after.1, '\n', |c: char| pending_char_ok(c));
        }
        let mut records: Vec<ShellOutputRecord> = Vec::new();
        let mut k: usize = 0;
        while k < pieces.len() - 1
            invariant
                pieces@.len() == lines.len() >= 1,
                len == self.pending@.len(),
                self.pending@ == after.1,
                ranges_within(pieces@, 0, len as int),
                range_texts(self.pending@, pieces@) == lines,
                lines == split_on(after.1, '\n'),
                0 <= k < pieces@.len(),
                records_view(records@) == lines_records(lines, k as int),
            decreases pieces@.len() - k,
        {
            let (a, b) = pieces[k];
            assert(0 <= pieces@[k as int].0 <= pieces@[k as int].1 <= len);
            assert(lines[k as int] == self.pending@.subrange(a as int, b as int));
            process_line(&self.pending, a, b, &mut records);
            k += 1;
        }
        let ghost all_records = records_view(records@);
        proof {
            lemma_lines_records_clean(lines, k as int);
        }
        let (a, b) = pieces[pieces.len() - 1];
        assert(0 <= pieces@[pieces@.len() - 1].0 <= pieces@[pieces@.len() - 1].1 <= len);
        let mut rest: Vec<char> = Vec::new();
        let mut j = a;
        while j < b
            invariant
                a <= j <= b <= self.pending@.len(),
                rest@ == self.pending@.subrange(a as int, j as int),
            decreases b - j,
        {
            rest.push(self.pending[j]);
            j += 1;
            assert(rest@ =~= self.pending@.subrange(a as int, j as int));
        }
        assert(rest@ == lines.last());
        self.pending = rest;
        records
    }

    /// Ends the output: the waiting text, if any, becomes the records of a
    /// last line.
    pub fn finish(&mut self) -> (r: Vec<ShellOutputRecord>)
        requires
            old(self).inv(),
        ensures
            final(self).inv(),
            final(self).pending() == Seq::<char>::empty(),
            final(self).state() == old(self).state(),
            records_view(r@) == (if old(self).pending().len() > 0 {
                line_records(old(self).pending())
            } else {
                Seq::<RecordView>::empty()
            }),
    {
        let mut records: Vec<ShellOutputRecord> = Vec::new();
        if self.pending.len() > 0 {
            let len = self.pending.len();
            process_line(&self.pending, 0, len, &mut records);
            assert(self.pending@.subrange(0, len as int) =~= self.pending@);
            assert(records_view(records@) =~= line_records(self.pending@));
        } else {
            assert(records_view(records@) =~= Seq::<RecordView>::empty());
        }
        self.pending = Vec::new();
        records
    }
}

/// The records of lines that hold no line break and only acceptable
/// characters are clean.
pub proof fn lemma_lines_records_clean(lines: Seq<Seq<char>>, n: int)
    requires
        n <= lines.len(),
        forall|k: int, j: int|
            0 <= k < lines.len() && 0 <= j < lines[k].len() ==> pending_char_ok(
                #[trigger] lines[k][j],
            ) && lines[k][j] != '\n',
    ensures
        clean_lines(lines_records(lines, n)),
    decreases n,
{
    if n > 0 {
        lemma_lines_records_clean(lines, n - 1);
        let line = lines[n - 1];
        assert forall|i: int| 0 <= i < line.len() implies pending_char_ok(#[trigger] line[i])
            && line[i] != '\n' by {
            assert(line[i] == lines[n - 1][i]);
        }
        lemma_line_records_clean(line);
        let prev = lines_records(lines, n - 1);
        let add = line_records(line);
        let all = prev + add;
        assert forall|i: int| 0 <= i < all.len() && (#[trigger] all[i]).0 == 1u8 implies no_control(
            all[i].1,
        ) by {
            if i < prev.len() {
                assert(all[i] == prev[i]);
            } else {
                assert(all[i] == add[i - prev.len()]);
            }
        }
    }
}


/// The frames of the busy spinner, one character each.
pub open spec fn spinner_frames() -> Seq<char> {
    seq!['⠏', '⠛', '⠹', '⢸', '⣰', '⣤', '⣆', '⡇']
}

/// The spinner frame for a tick count (the frames repeat).
pub fn spinner_frame(index: usize) -> (c: char)
    ensures
        c == spinner_frames()[(index % 8) as int],
{
    let i = index % 8;
    if i == 0 {
        '⠏'
    } else if i == 1 {
        '⠛'
    } else if i == 2 {
        '⠹'
    } else if i == 3 {
        '⢸'
    } else if i == 4 {
        '⣰'
    } else if i == 5 {
        '⣤'
    } else if i == 6 {
        '⣆'
    } else {
        '⡇'
    }
}

/// How a line of a session's transcript is shown.
#[derive(Debug, Clone, Copy, PartialEq, Eq, Structural)]
pub enum ShellLineKind {
    /// A note from the application (muted).
    Note,
    /// A command that was run (accented).
    Command,
    /// Standard output.
    Stdout,
    /// Standard error.
    Stderr,
    /// A blank separator line.
    Blank,
    /// The prompt under an idle session: an accented `$ ` and the command
    /// being typed (the line's text).
    Prompt,
}

/// A line of a session's transcript.
#[derive(Debug, Clone)]
pub struct ShellLine {
    pub kind: ShellLineKind,
    pub text: String,
}

/// One shell session of an agent.
#[derive(Debug, Clone)]
pub struct ShellSessionState {
    pub id: usize,
    pub title: String,
    pub lines: Vec<ShellLine>,
    pub scroll: u16,
    pub ready: bool,
    pub running: bool,
}

/// `"Session "` followed by the decimal id.
pub open spec fn session_title(id: usize) -> Seq<char> {
    "Session "@ + signed_decimal(id as int)
}

/// A string of the digits of `n`.
fn push_decimal_usize(s: &mut String, n: usize)
    ensures
        final(s)@ == old(s)@ + signed_decimal(n as int),
{
    let digits = crate::text::decimal_chars(n as u64);
    push_all(s, &digits);
}

impl ShellSessionState {
    /// A fresh session titled after its id, whose transcript starts with a
    /// note of where it runs followed by a blank line.
    pub fn new(id: usize, workspace_label: &str) -> (r: ShellSessionState)
        ensures
            r.id == id,
            r.title@ == session_title(id),
            r.lines@.len() == 2,
            r.lines@[0].kind == ShellLineKind::Note,
            r.lines@[0].text@ == "Session started in "@ + workspace_label@,
            r.lines@[1].kind == ShellLineKind::Blank,
            r.lines@[1].text@ == Seq::<char>::empty(),
            r.scroll == 0,
            !r.ready,
            !r.running,
    {
        let mut note = String::new();
        push_str(&mut note, "Session started in ");
        push_str(&mut note, workspace_label);
        let mut title = String::new();
        push_str(&mut title, "Session ");
        push_decimal_usize(&mut title, id);
        let mut lines = Vec::new();
        lines.push(ShellLine { kind: ShellLineKind::Note, text: note });
        lines.push(ShellLine { kind: ShellLineKind::Blank, text: String::new() });
        ShellSessionState { id, title, lines, scroll: 0, ready: false, running: false }
    }

    /// The session's label in the sidebar: a spinner frame before the title
    /// while the session starts or runs a command.
    pub fn label(&self, spinner_index: usize) -> (r: String)
        ensures
            r@ == (if !self.ready || self.running {
                seq![spinner_frames()[(spinner_index % 8) as int], ' '] + self.title@
            } else {
                self.title@
            }),
    {
        if !self.ready || self.running {
            let mut r = String::new();
            push_char(&mut r, spinner_frame(spinner_index));
            push_char(&mut r, ' ');
            push_str(&mut r, self.title.as_str());
            assert(r@ =~= seq![spinner_frames()[(spinner_index % 8) as int], ' '] + self.title@);
            r
        } else {
            self.title.clone()
        }
    }

    /// The session reports that it is ready for commands.
    pub fn mark_ready(&mut self)
        ensures
            final(self).ready,
            final(self).id == old(self).id,
            final(self).running == old(self).running,
            final(self).lines@ == old(self).lines@,
            final(self).scroll == old(self).scroll,
            final(self).title == old(self).title,
    {
        self.ready = true;
    }

    /// A command starts: it is added to the transcript, the session runs,
    /// and the view follows the end of the transcript.
    pub fn append_command(&mut self, command: &str)
        ensures
            final(self).lines@.len() == old(self).lines@.len() + 1,
            final(self).lines@.drop_last() == old(self).lines@,
            final(self).lines@.last().kind == ShellLineKind::Command,
            final(self).lines@.last().text@ == "$ "@ + command@,
            final(self).running,
            final(self).ready == old(self).ready,
            final(self).scroll == u16::MAX,
            final(self).id == old(self).id,
            final(self).title == old(self).title,
    {
        let mut text = String::new();
        push_str(&mut text, "$ ");
        push_str(&mut text, command);
        self.lines.push(ShellLine { kind: ShellLineKind::Command, text });
        self.running = true;
        self.scroll = u16::MAX;
        assert(self.lines@.drop_last() =~= old(self).lines@);
    }

    /// A line of output is added and the view follows it.
    pub fn append_output_line(&mut self, line: &str, stderr: bool)
        ensures
            final(self).lines@.len() == old(self).lines@.len() + 1,
            final(self).lines@.drop_last() == old(self).lines@,
            final(self).lines@.last().kind == (if stderr {
                ShellLineKind::Stderr
            } else {
                ShellLineKind::Stdout
            }),
            final(self).lines@.last().text@ == line@,
            final(self).running == old(self).running,
            final(self).ready == old(self).ready,
            final(self).scroll == u16::MAX,
            final(self).id == old(self).id,
            final(self).title == old(self).title,
    {
        let mut text = String::new();
        push_str(&mut text, line);
        let kind = if stderr {
            ShellLineKind::Stderr
        } else {
            ShellLineKind::Stdout
        };
        self.lines.push(ShellLine { kind, text });
        self.scroll = u16::MAX;
        assert(self.lines@.drop_last() =~= old(self).lines@);
    }

    /// The command ends: its exit code is noted and the session is idle.
    pub fn finish_command(&mut self, exit_code: i32)
        ensures
            final(self).lines@.len() == old(self).lines@.len() + 1,
            final(self).lines@.drop_last() == old(self).lines@,
            final(self).lines@.last().kind == ShellLineKind::Note,
            final(self).lines@.last().text@ == "[exit "@ + signed_decimal(exit_code as int)
                + seq![']'],
            !final(self).running,
            final(self).ready == old(self).ready,
            final(self).scroll == u16::MAX,
            final(self).id == old(self).id,
            final(self).title == old(self).title,
    {
        let mut text = String::new();
        push_str(&mut text, "[exit ");
        let digits = signed_decimal_chars(exit_code as i64);
        push_all(&mut text, &digits);
        push_char(&mut text, ']');
        self.running = false;
        self.lines.push(ShellLine { kind: ShellLineKind::Note, text });
        self.scroll = u16::MAX;
        assert(self.lines@.drop_last() =~= old(self).lines@);
    }
}

/// The prompt before a command being typed: `$ ` and the command.
pub fn prompt_text(input: &str) -> (r: String)
    ensures
        r@ == "$ "@ + input@,
{
    let mut r = "$ ".to_owned();
    push_str(&mut r, input);
    r
}

impl ShellSessionState {
    /// The lines a session shows: its transcript, and, when it is ready and
    /// not running a command, a prompt line with the command being typed.
    pub fn display_lines(&self, input: &str) -> (r: Vec<ShellLine>)
        ensures
            r@.len() == self.lines@.len() + (if self.ready && !self.running {
                1int
            } else {
                0int
            }),
            forall|k: int|
                0 <= k < self.lines@.len() ==> (#[trigger] r@[k]).kind == self.lines@[k].kind
                    && r@[k].text@ == self.lines@[k].text@,
            self.ready && !self.running ==> r@.last().kind == ShellLineKind::Prompt
                && r@.last().text@ == input@,
    {
        let mut r: Vec<ShellLine> = Vec::new();
        let mut k: usize = 0;
        while k < self.lines.len()
            invariant
                0 <= k <= self.lines@.len(),
                r@.len() == k,
                forall|j: int|
                    0 <= j < k ==> (#[trigger] r@[j]).kind == self.lines@[j].kind && r@[j].text@
                        == self.lines@[j].text@,
            decreases self.lines@.len() - k,
        {
            r.push(ShellLine { kind: self.lines[k].kind, text: self.lines[k].text.clone() });
            k += 1;
        }
        if self.ready && !self.running {
            r.push(ShellLine { kind: ShellLineKind::Prompt, text: input.to_owned() });
        }
        r
    }
}

/// The shell tab of an agent: its sessions, the selected one and the
/// command being typed.
#[derive(Debug, Clone)]
pub struct ShellTabState {
    pub sessions: Vec<ShellSessionState>,
    pub selected: usize,
    pub input: String,
    pub next_session_id: usize,
}

impl ShellTabState {
    /// Session ids grow strictly along the list and none is above the last
    /// id handed out; so no two sessions share an id.
    pub open spec fn ids_ok(&self) -> bool {
        &&& forall|i: int, j: int|
            0 <= i < j < self.sessions@.len() ==> self.sessions@[i].id < self.sessions@[j].id
        &&& forall|i: int|
            0 <= i < self.sessions@.len() ==> #[trigger] self.sessions@[i].id
                <= self.next_session_id
    }

    /// A tab without sessions.
    pub fn new() -> (r: ShellTabState)
        ensures
            r.sessions@.len() == 0,
            r.selected == 0,
            r.input@ == Seq::<char>::empty(),
            r.next_session_id == 0,
            r.ids_ok(),
    {
        ShellTabState { sessions: Vec::new(), selected: 0, input: String::new(), next_session_id: 0 }
    }

    /// Some session is still starting or running a command.
    pub open spec fn any_busy_spec(&self) -> bool {
        exists|i: int|
            0 <= i < self.sessions@.len() && (!(#[trigger] self.sessions@[i]).ready
                || self.sessions@[i].running)
    }

    /// The selected session, if there is one.
    pub fn selected_session(&self) -> (r: Option<&ShellSessionState>)
        ensures
            match r {
                Some(s) => self.sessions@.len() > 0 && *s == self.sessions@[self.selected_index_spec()],
                None => self.sessions@.len() == 0,
            },
    {
        if self.sessions.len() == 0 {
            return None;
        }
        let i = self.selected_index();
        Some(&self.sessions[i])
    }

    /// Whether some session is still starting or running a command.
    pub fn any_busy(&self) -> (r: bool)
        ensures
            r == self.any_busy_spec(),
    {
        let mut i: usize = 0;
        while i < self.sessions.len()
            invariant
                0 <= i <= self.sessions@.len(),
                forall|j: int| 0 <= j < i ==> (#[trigger] self.sessions@[j]).ready && !self.sessions@[j].running,
            decreases self.sessions@.len() - i,
        {
            if !self.sessions[i].ready || self.sessions[i].running {
                assert(!self.sessions@[i as int].ready || self.sessions@[i as int].running);
                return true;
            }
            i += 1;
        }
        false
    }

    /// The selected session's index, kept inside the list (0 for none).
    pub open spec fn selected_index_spec(&self) -> int {
        if self.sessions@.len() == 0 {
            0
        } else if self.selected < self.sessions@.len() {
            self.selected as int
        } else {
            self.sessions@.len() - 1
        }
    }

    /// The selected session's index, kept inside the list.
    pub fn selected_index(&self) -> (r: usize)
        ensures
            r == self.selected_index_spec(),
    {
        let last = self.sessions.len().saturating_sub(1);
        if self.selected < last {
            self.selected
        } else {
            last
        }
    }

    /// Opens a new session at the end of the list with a fresh id and
    /// selects it; returns the id.
    pub fn create_session(&mut self, workspace_label: &str) -> (id: usize)
        requires
            old(self).ids_ok(),
            old(self).next_session_id < usize::MAX,
        ensures
            final(self).ids_ok(),
            id == old(self).next_session_id + 1,
            final(self).next_session_id == id,
            final(self).sessions@.len() == old(self).sessions@.len() + 1,
            final(self).sessions@.drop_last() == old(self).sessions@,
            final(self).sessions@.last().id == id,
            forall|i: int| 0 <= i < old(self).sessions@.len() ==> old(self).sessions@[i].id != id,
            final(self).selected == old(self).sessions@.len(),
            final(self).input == old(self).input,
    {
        self.next_session_id = self.next_session_id + 1;
        let id = self.next_session_id;
        let session = ShellSessionState::new(id, workspace_label);
        self.sessions.push(session);
        self.selected = self.sessions.len() - 1;
        assert(self.sessions@.drop_last() =~= old(self).sessions@);
        id
    }

    /// Opens a first session when there is none.
    pub fn create_session_if_empty(&mut self, workspace_label: &str) -> (r: Option<usize>)
        requires
            old(self).ids_ok(),
            old(self).next_session_id < usize::MAX,
        ensures
            final(self).ids_ok(),
            old(self).sessions@.len() == 0 ==> r == Some((old(self).next_session_id + 1) as usize)
                && final(self).sessions@.len() == 1 && final(self).sessions@[0].id == r->0
                && final(self).selected == 0,
            old(self).sessions@.len() != 0 ==> r is None && *final(self) == *old(self),
    {
        if self.sessions.len() == 0 {
            Some(self.create_session(workspace_label))
        } else {
            None
        }
    }

    /// The position of the session with this id.
    pub fn position_of(&self, session_id: usize) -> (r: Option<usize>)
        ensures
            r matches Some(i) ==> i < self.sessions@.len() && self.sessions@[i as int].id
                == session_id,
            r is None ==> forall|i: int|
                0 <= i < self.sessions@.len() ==> self.sessions@[i].id != session_id,
    {
        let mut i: usize = 0;
        while i < self.sessions.len()
            invariant
                0 <= i <= self.sessions@.len(),
                forall|k: int| 0 <= k < i ==> self.sessions@[k].id != session_id,
            decreases self.sessions@.len() - i,
        {
            if self.sessions[i].id == session_id {
                return Some(i);
            }
            i += 1;
        }
        None
    }

    /// Removes the session with this id and returns it. The session that
    /// was selected stays selected when it is still there; otherwise the
    /// selection stays in place, kept inside the list.
    pub fn remove_session_by_id(&mut self, session_id: usize) -> (r: Option<ShellSessionState>)
        requires
            old(self).ids_ok(),
        ensures
            final(self).ids_ok(),
            final(self).next_session_id == old(self).next_session_id,
            final(self).input == old(self).input,
            match r {
                None => {
                    &&& *final(self) == *old(self)
                    &&& forall|i: int|
                        0 <= i < old(self).sessions@.len() ==> old(self).sessions@[i].id
                            != session_id
                },
                Some(s) => exists|k: int|
                    0 <= k < old(self).sessions@.len() && s == old(self).sessions@[k] && s.id
                        == session_id && final(self).sessions@ == old(self).sessions@.remove(k)
                        && final(self).selected == (if final(self).sessions@.len() == 0 {
                        0
                    } else if old(self).selected > k {
                        (old(self).selected - 1) as int
                    } else if old(self).selected < final(self).sessions@.len() {
                        old(self).selected as int
                    } else {
                        final(self).sessions@.len() - 1
                    }),
            },
    {
        let index = match self.position_of(session_id) {
            Some(i) => i,
            None => return None,
        };
        let removed = self.sessions.remove(index);
        if self.sessions.len() == 0 {
            self.selected = 0;
        } else if self.selected > index {
            self.selected = self.selected - 1;
        } else {
            let last = self.sessions.len() - 1;
            if self.selected > last {
                self.selected = last;
            }
        }
        assert(self.sessions@ =~= old(self).sessions@.remove(index as int));
        assert forall|i: int, j: int|
            0 <= i < j < self.sessions@.len() implies self.sessions@[i].id
            < self.sessions@[j].id by {
            let oi = if i < index {
                i
            } else {
                i + 1
            };
            let oj = if j < index {
                j
            } else {
                j + 1
            };
            assert(self.sessions@[i] == old(self).sessions@[oi]);
            assert(self.sessions@[j] == old(self).sessions@[oj]);
        }
        assert forall|i: int| 0 <= i < self.sessions@.len() implies #[trigger] self.sessions@[i].id
            <= self.next_session_id by {
            let oi = if i < index {
                i
            } else {
                i + 1
            };
            assert(self.sessions@[i] == old(self).sessions@[oi]);
        }
        Some(removed)
    }

    /// Selects a session by index, kept inside the list; nothing happens
    /// without sessions.
    pub fn select(&mut self, index: usize)
        ensures
            final(self).sessions == old(self).sessions,
            final(self).input == old(self).input,
            final(self).next_session_id == old(self).next_session_id,
            final(self).selected == (if old(self).sessions@.len() == 0 {
                old(self).selected as int
            } else {
                min_int(index as int, old(self).sessions@.len() - 1)
            }),
    {
        if self.sessions.len() == 0 {
            return;
        }
        let last = self.sessions.len() - 1;
        self.selected = if index < last {
            index
        } else {
            last
        };
    }

    /// Selects the session above the current one (staying at the top).
    pub fn move_up(&mut self)
        ensures
            final(self).sessions == old(self).sessions,
            final(self).input == old(self).input,
            final(self).next_session_id == old(self).next_session_id,
            old(self).sessions@.len() > 0 ==> final(self).selected == sat_sub(
                old(self).selected_index_spec(),
                1,
            ),
            old(self).sessions@.len() == 0 ==> final(self).selected == old(self).selected,
    {
        let current = self.selected_index();
        self.select(current.saturating_sub(1));
    }

    /// Selects the session below the current one (staying at the bottom).
    pub fn move_down(&mut self)
        ensures
            final(self).sessions == old(self).sessions,
            final(self).input == old(self).input,
            final(self).next_session_id == old(self).next_session_id,
            old(self).sessions@.len() > 0 ==> final(self).selected == min_int(
                old(self).selected_index_spec() + 1,
                old(self).sessions@.len() - 1,
            ),
            old(self).sessions@.len() == 0 ==> final(self).selected == old(self).selected,
    {
        if self.sessions.len() == 0 {
            return;
        }
        let current = self.selected_index();
        let last = self.sessions.len() - 1;
        let next = if current + 1 < last {
            current + 1
        } else {
            last
        };
        self.select(next);
    }

    /// The sidebar labels of all sessions, in order.
    pub fn labels(&self, spinner_index: usize) -> (r: Vec<String>)
        ensures
            r@.len() == self.sessions@.len(),
            forall|i: int|
                0 <= i < r@.len() ==> (#[trigger] r@[i])@ == (if !self.sessions@[i].ready
                    || self.sessions@[i].running {
                    seq![spinner_frames()[(spinner_index % 8) as int], ' ']
                        + self.sessions@[i].title@
                } else {
                    self.sessions@[i].title@
                }),
    {
        let mut r: Vec<String> = Vec::new();
        let mut i: usize = 0;
        while i < self.sessions.len()
            invariant
                0 <= i <= self.sessions@.len(),
                r@.len() == i,
                forall|k: int|
                    0 <= k < i ==> (#[trigger] r@[k])@ == (if !self.sessions@[k].ready
                        || self.sessions@[k].running {
                        seq![spinner_frames()[(spinner_index % 8) as int], ' ']
                            + self.sessions@[k].title@
                    } else {
                        self.sessions@[k].title@
                    }),
            decreases self.sessions@.len() - i,
        {
            let label = self.sessions[i].label(spinner_index);
            r.push(label);
            i += 1;
        }
        r
    }
}

/// What a running shell session reports.
#[derive(Debug, Clone, PartialEq, Eq)]
pub enum SessionEvent {
    /// The session is ready for commands.
    Ready { session_id: usize },
    /// A line of output.
    Output { session_id: usize, line: String, stderr: bool },
    /// The running command ended with this exit code.
    CommandFinished { session_id: usize, exit_code: i32 },
    /// The session's shell exited, with the message that reports why.
    Exited { session_id: usize, message: String },
}

impl SessionEvent {
    /// The session the event is about.
    pub open spec fn session(&self) -> usize {
        match self {
            SessionEvent::Ready { session_id } => *session_id,
            SessionEvent::Output { session_id, .. } => *session_id,
            SessionEvent::CommandFinished { session_id, .. } => *session_id,
            SessionEvent::Exited { session_id, .. } => *session_id,
        }
    }
}

/// What an event (other than an exit) does to its session: `Ready` marks
/// it ready, `Output` adds the line, `CommandFinished` notes the exit code
/// and makes it idle.
pub open spec fn session_after(old: ShellSessionState, new: ShellSessionState, event: SessionEvent) -> bool {
    &&& new.id == old.id
    &&& new.title == old.title
    &&& match event {
        SessionEvent::Ready { .. } => new.ready && new.running == old.running && new.lines@
            == old.lines@ && new.scroll == old.scroll,
        SessionEvent::Output { line, stderr, .. } => {
            &&& new.lines@.drop_last() == old.lines@
            &&& new.lines@.len() == old.lines@.len() + 1
            &&& new.lines@.last().text@ == line@
            &&& new.lines@.last().kind == (if stderr {
                ShellLineKind::Stderr
            } else {
                ShellLineKind::Stdout
            })
            &&& new.ready == old.ready && new.running == old.running
            &&& new.scroll == u16::MAX
        },
        SessionEvent::CommandFinished { exit_code, .. } => {
            &&& new.lines@.drop_last() == old.lines@
            &&& new.lines@.len() == old.lines@.len() + 1
            &&& new.lines@.last().kind == ShellLineKind::Note
            &&& new.lines@.last().text@ == "[exit "@ + signed_decimal(exit_code as int) + seq![']']
            &&& new.ready == old.ready && !new.running
            &&& new.scroll == u16::MAX
        },
        SessionEvent::Exited { .. } => false,
    }
}

impl SessionEvent {
    /// The application's status line after the event: the message of an
    /// exit, whether or not the session was still there; other events
    /// leave it as it is.
    pub fn status(&self) -> (r: Option<String>)
        ensures
            match self {
                SessionEvent::Exited { message, .. } => r matches Some(m) && m@ == message@,
                _ => r is None,
            },
    {
        match self {
            SessionEvent::Exited { message, .. } => Some(message.clone()),
            _ => None,
        }
    }
}

impl ShellTabState {
    /// Applies what a session reports to the session with its id; an event
    /// for a session that is gone changes nothing. An exit removes the
    /// session (see `remove_session_by_id`) and clears the typed command
    /// when no session is left. The result says whether the session was
    /// there.
    pub fn apply_session_event(&mut self, event: SessionEvent) -> (found: bool)
        requires
            old(self).ids_ok(),
        ensures
            final(self).ids_ok(),
            final(self).next_session_id == old(self).next_session_id,
            found == exists|k: int|
                0 <= k < old(self).sessions@.len() && old(self).sessions@[k].id == event.session(),
            !found ==> *final(self) == *old(self),
            found && !(event is Exited) ==> exists|k: int|
                #![trigger old(self).sessions@[k]]
                {
                    &&& 0 <= k < old(self).sessions@.len()
                    &&& old(self).sessions@[k].id == event.session()
                    &&& final(self).sessions@.len() == old(self).sessions@.len()
                    &&& forall|j: int|
                        0 <= j < old(self).sessions@.len() && j != k ==> final(self).sessions@[j]
                            == old(self).sessions@[j]
                    &&& session_after(old(self).sessions@[k], final(self).sessions@[k], event)
                    &&& final(self).selected == old(self).selected
                    &&& final(self).input == old(self).input
                },
            found && event is Exited ==> exists|k: int|
                #![trigger old(self).sessions@[k]]
                {
                    &&& 0 <= k < old(self).sessions@.len()
                    &&& old(self).sessions@[k].id == event.session()
                    &&& final(self).sessions@ == old(self).sessions@.remove(k)
                    &&& final(self).sessions@.len() == 0 ==> final(self).input@ == Seq::<char>::empty()
                    &&& final(self).sessions@.len() > 0 ==> final(self).input == old(self).input
                },
    {
        if let SessionEvent::Exited { session_id, .. } = event {
            let removed = self.remove_session_by_id(session_id);
            if removed.is_none() {
                return false;
            }
            if self.sessions.len() == 0 {
                self.input = String::new();
            }
            return true;
        }
        let id = match &event {
            SessionEvent::Ready { session_id } => *session_id,
            SessionEvent::Output { session_id, .. } => *session_id,
            SessionEvent::CommandFinished { session_id, .. } => *session_id,
            SessionEvent::Exited { session_id, .. } => *session_id,
        };
        let k = match self.position_of(id) {
            Some(k) => k,
            None => return false,
        };
        let mut session = self.sessions.remove(k);
        let ghost before = session;
        match &event {
            SessionEvent::Ready { .. } => session.mark_ready(),
            SessionEvent::Output { line, stderr, .. } => session.append_output_line(line.as_str(), *stderr),
            SessionEvent::CommandFinished { exit_code, .. } => session.finish_command(*exit_code),
            SessionEvent::Exited { .. } => {},
        }
        self.sessions.insert(k, session);
        assert(self.sessions@ =~= old(self).sessions@.update(k as int, self.sessions@[k as int]));
        assert(old(self).sessions@[k as int] == before);
        assert forall|i: int, j: int|
            0 <= i < j < self.sessions@.len() implies self.sessions@[i].id < self.sessions@[j].id by {
            assert(old(self).sessions@[i].id < old(self).sessions@[j].id);
        }
        assert forall|i: int| 0 <= i < self.sessions@.len() implies #[trigger] self.sessions@[i].id
            <= self.next_session_id by {
            assert(old(self).sessions@[i].id <= old(self).next_session_id);
        }
        true
    }
}

/// What a click on the shell sidebar chose.
#[derive(Debug, Clone, Copy, PartialEq, Eq, Structural)]
pub enum ShellSidebarClick {
    /// The `+ New session` row.
    NewSession,
    /// The row of the session at this position (now selected).
    Session(usize),
}

impl ShellTabState {
    /// The row of the shell sidebar (0 is `+ New session`, `i + 1` is
    /// session `i`) under a click on the list `sidebar_list`, counting the
    /// rows the list has scrolled by to show the selected session; none
    /// outside the list's inside.
    pub open spec fn sidebar_row_spec(&self, column: u16, row: u16, sidebar_list: Rect) -> Option<int> {
        let inner = inner_of(sidebar_list);
        let total = self.sessions@.len() + 1;
        let selected = if self.sessions@.len() == 0 {
            0
        } else {
            self.selected_index_spec() + 1
        };
        let visible = inner.height as int;
        let offset = if total <= visible || visible == 0 {
            0
        } else if selected + 1 >= visible {
            selected + 1 - visible
        } else {
            0
        };
        if inner.height == 0 || !inner.contains_cell(column as int, row as int) {
            None
        } else {
            let index = offset + (row - inner.y);
            Some(if index < total - 1 { index } else { total - 1 })
        }
    }

    /// A click on the shell sidebar: a session's row selects that session;
    /// the result says what was clicked (see `sidebar_row_spec`).
    pub fn handle_sidebar_click(&mut self, column: u16, row: u16, sidebar_list: Rect) -> (r: Option<
        ShellSidebarClick,
    >)
        requires
            old(self).sessions@.len() < usize::MAX,
            sidebar_list.wf(),
        ensures
            final(self).sessions == old(self).sessions,
            final(self).input == old(self).input,
            final(self).next_session_id == old(self).next_session_id,
            match old(self).sidebar_row_spec(column, row, sidebar_list) {
                None => r is None && final(self).selected == old(self).selected,
                Some(i) => if i == 0 {
                    r == Some(ShellSidebarClick::NewSession) && final(self).selected == old(
                        self,
                    ).selected
                } else {
                    r == Some(ShellSidebarClick::Session((i - 1) as usize)) && final(self).selected
                        == i - 1
                },
            },
    {
        let inner = inner_rect(sidebar_list);
        if inner.height == 0 || !rect_contains(inner, column, row) {
            return None;
        }
        let visible_row = (row - inner.y) as usize;
        let total = self.sessions.len() + 1;
        let selected = if self.sessions.len() == 0 {
            0
        } else {
            self.selected_index() + 1
        };
        let offset = list_offset(selected, total, inner.height as usize);
        let index = if offset + visible_row < total - 1 {
            offset + visible_row
        } else {
            total - 1
        };
        if index == 0 {
            Some(ShellSidebarClick::NewSession)
        } else {
            self.select(index - 1);
            Some(ShellSidebarClick::Session(index - 1))
        }
    }
}

/// What submitting the shell input asks for.
#[derive(Debug, Clone, PartialEq, Eq)]
pub enum ShellSubmit {
    /// There is no session to run it in.
    NoSession,
    /// The input is blank.
    Blank,
    /// Run the trimmed input in the selected session.
    Command { session_id: usize, command: String },
}

/// Whether a command could start in its session.
#[derive(Debug, Clone, PartialEq, Eq)]
pub enum CommandStart {
    /// The session is gone.
    Missing,
    /// The session still runs a command.
    Busy,
    /// The session is still starting.
    Starting,
    /// The command started; the payload goes to the shell.
    Started { payload: String },
}

impl ShellTabState {
    /// Sets the scroll of the selected session, if there is one.
    fn set_selected_scroll(&mut self, scroll: u16)
        requires
            old(self).ids_ok(),
        ensures
            final(self).ids_ok(),
            final(self).selected == old(self).selected,
            final(self).input == old(self).input,
            final(self).next_session_id == old(self).next_session_id,
            old(self).sessions@.len() == 0 ==> final(self).sessions@ == old(self).sessions@,
            old(self).sessions@.len() > 0 ==> {
                let k = old(self).selected_index_spec();
                let s = old(self).sessions@[k];
                final(self).sessions@ == old(self).sessions@.update(
                    k,
                    ShellSessionState { scroll, ..s },
                )
            },
    {
        if self.sessions.len() == 0 {
            return;
        }
        let k = self.selected_index();
        let s = self.sessions.remove(k);
        let ghost before = s;
        let updated = ShellSessionState { scroll, ..s };
        self.sessions.insert(k, updated);
        assert(self.sessions@ =~= old(self).sessions@.update(k as int, self.sessions@[k as int]));
        assert forall|i: int, j: int|
            0 <= i < j < self.sessions@.len() implies self.sessions@[i].id < self.sessions@[j].id by {
            assert(old(self).sessions@[i].id < old(self).sessions@[j].id);
        }
        assert forall|i: int| 0 <= i < self.sessions@.len() implies #[trigger] self.sessions@[i].id
            <= self.next_session_id by {
            assert(old(self).sessions@[i].id <= old(self).next_session_id);
        }
    }

    /// A character typed in the shell tab: it goes to the input and the
    /// selected session's view follows the end of its transcript.
    pub fn type_char(&mut self, c: char)
        requires
            old(self).ids_ok(),
        ensures
            final(self).ids_ok(),
            final(self).input@ == old(self).input@.push(c),
            final(self).selected == old(self).selected,
            final(self).next_session_id == old(self).next_session_id,
            old(self).sessions@.len() == 0 ==> final(self).sessions@ == old(self).sessions@,
            old(self).sessions@.len() > 0 ==> final(self).sessions@ == old(self).sessions@.update(
                old(self).selected_index_spec(),
                ShellSessionState { scroll: u16::MAX, ..old(self).sessions@[old(self).selected_index_spec()] },
            ),
    {
        push_char(&mut self.input, c);
        self.set_selected_scroll(u16::MAX);
    }

    /// `Backspace` in the shell tab: the input loses its last character and
    /// the selected session's view follows the end of its transcript.
    pub fn erase_char(&mut self)
        requires
            old(self).ids_ok(),
        ensures
            final(self).ids_ok(),
            final(self).input@ == (if old(self).input@.len() == 0 {
                old(self).input@
            } else {
                old(self).input@.drop_last()
            }),
            final(self).selected == old(self).selected,
            final(self).next_session_id == old(self).next_session_id,
            old(self).sessions@.len() == 0 ==> final(self).sessions@ == old(self).sessions@,
            old(self).sessions@.len() > 0 ==> final(self).sessions@ == old(self).sessions@.update(
                old(self).selected_index_spec(),
                ShellSessionState { scroll: u16::MAX, ..old(self).sessions@[old(self).selected_index_spec()] },
            ),
    {
        pop_char(&mut self.input);
        self.set_selected_scroll(u16::MAX);
    }

    /// Scrolls the selected session's transcript by `lines`, up or down.
    pub fn scroll_selected(&mut self, lines: u16, up: bool)
        requires
            old(self).ids_ok(),
        ensures
            final(self).ids_ok(),
            final(self).input == old(self).input,
            final(self).selected == old(self).selected,
            final(self).next_session_id == old(self).next_session_id,
            old(self).sessions@.len() == 0 ==> final(self).sessions@ == old(self).sessions@,
            old(self).sessions@.len() > 0 ==> {
                let k = old(self).selected_index_spec();
                let s = old(self).sessions@[k];
                let before = s.scroll as int;
                final(self).sessions@ == old(self).sessions@.update(
                    k,
                    ShellSessionState {
                        scroll: (if up {
                            sat_sub(before, lines as int)
                        } else {
                            min_int(before + lines, u16::MAX as int)
                        }) as u16,
                        ..s
                    },
                )
            },
    {
        if self.sessions.len() == 0 {
            return;
        }
        let k = self.selected_index();
        let current = self.sessions[k].scroll;
        let next = if up {
            current.saturating_sub(lines)
        } else {
            current.saturating_add(lines)
        };
        self.set_selected_scroll(next);
    }

    /// The sidebar rows: `+ New session`, then the label of each session.
    pub fn sidebar_labels(&self, spinner_index: usize) -> (r: Vec<String>)
        ensures
            r@.len() == self.sessions@.len() + 1,
            r@[0]@ == "+ New session"@,
            forall|i: int|
                0 <= i < self.sessions@.len() ==> (#[trigger] r@[i + 1])@ == (if !self.sessions@[i].ready
                    || self.sessions@[i].running {
                    seq![spinner_frames()[(spinner_index % 8) as int], ' '] + self.sessions@[i].title@
                } else {
                    self.sessions@[i].title@
                }),
    {
        let labels = self.labels(spinner_index);
        let mut r: Vec<String> = Vec::new();
        r.push("+ New session".to_owned());
        let mut i: usize = 0;
        while i < labels.len()
            invariant
                0 <= i <= labels@.len(),
                labels@.len() == self.sessions@.len(),
                r@.len() == i + 1,
                r@[0]@ == "+ New session"@,
                forall|k: int| 0 <= k < i ==> (#[trigger] r@[k + 1]) == labels@[k],
            decreases labels@.len() - i,
        {
            r.push(labels[i].clone());
            i += 1;
        }
        r
    }

    /// What submitting the shell input asks for: the trimmed input, to run
    /// in the selected session.
    pub fn command_to_submit(&self) -> (r: ShellSubmit)
        ensures
            self.sessions@.len() == 0 ==> r == ShellSubmit::NoSession,
            self.sessions@.len() > 0 && trim(self.input@).len() == 0 ==> r == ShellSubmit::Blank,
            self.sessions@.len() > 0 && trim(self.input@).len() > 0 ==> (r matches ShellSubmit::Command {
                session_id,
                command,
            } && session_id == self.sessions@[self.selected_index_spec()].id && command@ == trim(
                self.input@,
            )),
    {
        if self.sessions.len() == 0 {
            return ShellSubmit::NoSession;
        }
        let session_id = self.sessions[self.selected_index()].id;
        let v = chars_of(self.input.as_str());
        let (a, b) = trim_range(&v, 0, v.len());
        assert(v@.subrange(0, v@.len() as int) =~= v@);
        if a == b {
            return ShellSubmit::Blank;
        }
        ShellSubmit::Command { session_id, command: string_of_range(&v, a, b) }
    }

    /// Starts `command` in the session with `session_id`, when that session
    /// is there, ready and idle: the command is added to its transcript and
    /// the input is cleared; the payload for the shell is the command and a
    /// line break.
    pub fn begin_command(&mut self, session_id: usize, command: &str) -> (r: CommandStart)
        requires
            old(self).ids_ok(),
        ensures
            final(self).ids_ok(),
            final(self).next_session_id == old(self).next_session_id,
            final(self).sessions@.len() == old(self).sessions@.len(),
            match r {
                CommandStart::Missing => *final(self) == *old(self) && forall|i: int|
                    0 <= i < old(self).sessions@.len() ==> old(self).sessions@[i].id != session_id,
                CommandStart::Busy => *final(self) == *old(self) && exists|k: int|
                    0 <= k < old(self).sessions@.len() && old(self).sessions@[k].id == session_id
                        && old(self).sessions@[k].running,
                CommandStart::Starting => *final(self) == *old(self) && exists|k: int|
                    0 <= k < old(self).sessions@.len() && old(self).sessions@[k].id == session_id
                        && !old(self).sessions@[k].running && !old(self).sessions@[k].ready,
                CommandStart::Started { payload } => {
                    &&& payload@ == command@.push('\n')
                    &&& final(self).input@ == Seq::<char>::empty()
                    &&& final(self).selected == old(self).selected
                    &&& exists|k: int|
                        #![trigger old(self).sessions@[k]]
                        {
                            &&& 0 <= k < old(self).sessions@.len()
                            &&& old(self).sessions@[k].id == session_id
                            &&& old(self).sessions@[k].ready && !old(self).sessions@[k].running
                            &&& final(self).sessions@[k].running
                            &&& final(self).sessions@[k].ready
                            &&& final(self).sessions@[k].scroll == u16::MAX
                            &&& final(self).sessions@[k].id == session_id
                            &&& final(self).sessions@[k].title == old(self).sessions@[k].title
                            &&& final(self).sessions@[k].lines@ == old(self).sessions@[k].lines@.push(
                                ShellLine { kind: ShellLineKind::Command, text: final(self).sessions@[k].lines@.last().text },
                            )
                            &&& final(self).sessions@[k].lines@.last().text@ == "$ "@ + command@
                            &&& forall|j: int|
                                0 <= j < old(self).sessions@.len() && j != k ==> final(self).sessions@[j]
                                    == old(self).sessions@[j]
                        }
                },
            },
    {
        let k = match self.position_of(session_id) {
            Some(k) => k,
            None => return CommandStart::Missing,
        };
        if self.sessions[k].running {
            return CommandStart::Busy;
        }
        if !self.sessions[k].ready {
            return CommandStart::Starting;
        }
        let mut session = self.sessions.remove(k);
        session.append_command(command);
        self.sessions.insert(k, session);
        assert(self.sessions@ =~= old(self).sessions@.update(k as int, self.sessions@[k as int]));
        assert(self.sessions@[k as int].lines@ =~= old(self).sessions@[k as int].lines@.push(
            self.sessions@[k as int].lines@.last(),
        ));
        assert forall|i: int, j: int|
            0 <= i < j < self.sessions@.len() implies self.sessions@[i].id < self.sessions@[j].id by {
            assert(old(self).sessions@[i].id < old(self).sessions@[j].id);
        }
        assert forall|i: int| 0 <= i < self.sessions@.len() implies #[trigger] self.sessions@[i].id
            <= self.next_session_id by {
            assert(old(self).sessions@[i].id <= old(self).next_session_id);
        }
        self.input = String::new();
        let mut payload = String::new();
        push_str(&mut payload, command);
        push_char(&mut payload, '\n');
        CommandStart::Started { payload }
    }
}

} // verus!
