//! The language-server side of the editor: positions in UTF-16 code
//! units, hover summaries, completion items and definition targets.
use vstd::prelude::*;
use crate::text::{
    find, find_in_range, lemma_find_from_found, is_digit, trim_char_end, trim_char_end_range,
    push_char, lemma_split_on_nonempty, lemma_trim_end_last, lemma_trim_end_prefix,
    chars_of, range_texts, ranges_within, skip_ws_backward, skip_ws_forward, split_on,
    split_ranges, trim, trim_end, trim_start, string_of_range, push_all, push_str, lines,
    line_ranges, join, join_ranges, is_ws,
};

verus! {

/// A position in the editor: a row and a column counted in characters.
#[derive(Debug, Clone, Copy, PartialEq, Eq, Structural)]
pub struct EditorPosition {
    pub row: usize,
    pub col: usize,
}

/// How many UTF-16 code units a character takes (`char::len_utf16`).
pub open spec fn utf16_width(c: char) -> nat {
    if (c as u32) < 0x10000 {
        1
    } else {
        2
    }
}

/// How many UTF-16 code units a string takes.
pub open spec fn utf16_len(s: Seq<char>) -> nat
    decreases s.len(),
{
    if s.len() == 0 {
        0
    } else {
        utf16_len(s.drop_last()) + utf16_width(s.last())
    }
}

/// The row-th line of a text split at `'\n'`, or the empty line past the
/// end.
pub open spec fn nth_line(source: Seq<char>, row: int) -> Seq<char> {
    if 0 <= row < split_on(source, '\n').len() {
        split_on(source, '\n')[row]
    } else {
        Seq::empty()
    }
}

/// The bounds in `v` of the row-th line of `v` split at `'\n'` (an empty
/// range past the end).
fn nth_line_range(v: &Vec<char>, row: usize) -> (r: (usize, usize))
    ensures
        r.0 <= r.1 <= v@.len(),
        v@.subrange(r.0 as int, r.1 as int) == nth_line(v@, row as int),
{
    let pieces = split_ranges(v, 0, v.len(), '\n');
    assert(v@.subrange(0, v@.len() as int) =~= v@);
    if row < pieces.len() {
        let (a, b) = pieces[row];
        assert(0 <= pieces@[row as int].0 <= pieces@[row as int].1 <= v@.len());
        assert(range_texts(v@, pieces@)[row as int] == v@.subrange(a as int, b as int));
        (a, b)
    } else {
        assert(v@.subrange(0, 0) =~= Seq::<char>::empty());
        (0, 0)
    }
}

/// A longer prefix takes strictly more code units.
pub proof fn lemma_utf16_prefix_grows(s: Seq<char>, a: int, b: int)
    requires
        0 <= a < b <= s.len(),
    ensures
        utf16_len(s.take(a)) < utf16_len(s.take(b)),
    decreases b - a,
{
    assert(s.take(b).drop_last() =~= s.take(b - 1));
    if a < b - 1 {
        lemma_utf16_prefix_grows(s, a, b - 1);
    }
}

/// The column of `position` counted in UTF-16 code units, as the language
/// server protocol counts it: the code units of the first `col` characters
/// of the row (saturated at `usize::MAX`).
pub fn utf16_column(source: &str, position: EditorPosition) -> (r: usize)
    ensures
        r == utf16_column_spec(source@, position.row as int, position.col as int),
{
    let v = chars_of(source);
    let (a, b) = nth_line_range(&v, position.row);
    let ghost line = v@.subrange(a as int, b as int);
    let n: usize = if position.col < b - a {
        position.col
    } else {
        b - a
    };
    let mut units: usize = 0;
    let mut i: usize = 0;
    while i < n
        invariant
            a <= b <= v@.len(),
            line == v@.subrange(a as int, b as int),
            n <= b - a,
            0 <= i <= n,
            units == (if utf16_len(line.take(i as int)) <= usize::MAX {
                utf16_len(line.take(i as int)) as int
            } else {
                usize::MAX as int
            }),
        decreases n - i,
    {
        let c = v[a + i];
        assert(line.take(i + 1).drop_last() =~= line.take(i as int));
        assert(line.take(i + 1).last() == c);
        let w: usize = if (c as u32) < 0x10000 {
            1
        } else {
            2
        };
        units = units.saturating_add(w);
        i += 1;
    }
    units
}

/// The most characters at the start of `line` whose UTF-16 code units fit
/// in `u`.
pub open spec fn char_col(line: Seq<char>, u: int) -> int
    decreases line.len(),
{
    if line.len() == 0 || utf16_width(line[0]) > u {
        0
    } else {
        1 + char_col(line.drop_first(), u - utf16_width(line[0]))
    }
}

/// The character column of a UTF-16 column on a row: the most characters
/// of the row whose code units fit in `utf16_col`.
pub fn char_column_from_utf16(source: &str, row: usize, utf16_col: usize) -> (r: usize)
    ensures
        r <= nth_line(source@, row as int).len(),
        utf16_len(nth_line(source@, row as int).take(r as int)) <= utf16_col,
        r == nth_line(source@, row as int).len() || utf16_len(
            nth_line(source@, row as int).take(r + 1),
        ) > utf16_col,
        r == char_col(nth_line(source@, row as int), utf16_col as int),
{
    let v = chars_of(source);
    let (a, b) = nth_line_range(&v, row);
    let ghost line = v@.subrange(a as int, b as int);
    let mut units: usize = 0;
    let mut chars: usize = 0;
    assert(line.skip(0) =~= line);
    while chars < b - a
        invariant
            a <= b <= v@.len(),
            line == v@.subrange(a as int, b as int),
            line == nth_line(source@, row as int),
            0 <= chars <= b - a,
            units == utf16_len(line.take(chars as int)),
            units <= utf16_col,
            char_col(line, utf16_col as int) == chars + char_col(
                line.skip(chars as int),
                utf16_col - units,
            ),
        decreases b - a - chars,
    {
        let c = v[a + chars];
        let ghost rest = line.skip(chars as int);
        assert(rest[0] == c);
        assert(rest.drop_first() =~= line.skip(chars + 1));
        assert(line.take(chars + 1).drop_last() =~= line.take(chars as int));
        assert(line.take(chars + 1).last() == c);
        let w: usize = if (c as u32) < 0x10000 {
            1
        } else {
            2
        };
        if w > utf16_col - units {
            return chars;
        }
        units = units + w;
        chars += 1;
    }
    assert(line.skip(chars as int).len() == 0);
    chars
}

/// Converting a column to UTF-16 code units and back gives the column
/// again (kept inside its row), as long as the code units fit in a `usize`.
pub proof fn lemma_utf16_round_trip(line: Seq<char>, col: int, r: int)
    requires
        0 <= col,
        0 <= r <= line.len(),
        utf16_len(line.take(if col < line.len() { col } else { line.len() as int }))
            <= usize::MAX,
        utf16_len(line.take(r)) <= utf16_len(
            line.take(if col < line.len() { col } else { line.len() as int }),
        ),
        r == line.len() || utf16_len(line.take(r + 1)) > utf16_len(
            line.take(if col < line.len() { col } else { line.len() as int }),
        ),
    ensures
        r == (if col < line.len() { col } else { line.len() as int }),
{
    let n = if col < line.len() {
        col
    } else {
        line.len() as int
    };
    if r < n {
        if r + 1 < n {
            lemma_utf16_prefix_grows(line, r + 1, n);
        }
    } else if r > n {
        lemma_utf16_prefix_grows(line, n, r);
    }
}


/// The code units of a string are those of its first character and of the
/// rest.
proof fn lemma_utf16_len_first(s: Seq<char>)
    requires
        s.len() > 0,
    ensures
        utf16_len(s) == utf16_width(s[0]) + utf16_len(s.drop_first()),
    decreases s.len(),
{
    if s.len() > 1 {
        lemma_utf16_len_first(s.drop_last());
        assert(s.drop_last().drop_first() =~= s.drop_first().drop_last());
        assert(s.drop_last()[0] == s[0]);
        assert(s.drop_first().last() == s.last());
        assert(utf16_len(s) == utf16_len(s.drop_last()) + utf16_width(s.last()));
        assert(utf16_len(s.drop_first()) == utf16_len(s.drop_first().drop_last()) + utf16_width(
            s.drop_first().last(),
        ));
    } else {
        assert(s.drop_last().len() == 0);
        assert(s.drop_first().len() == 0);
        assert(s.last() == s[0]);
        assert(utf16_len(s.drop_last()) == 0);
        assert(utf16_len(s.drop_first()) == 0);
        assert(utf16_len(s) == utf16_len(s.drop_last()) + utf16_width(s.last()));
    }
}

/// What `char_col` finds: the most characters whose code units fit in `u`.
proof fn lemma_char_col(line: Seq<char>, u: int)
    requires
        u >= 0,
    ensures
        0 <= char_col(line, u) <= line.len(),
        utf16_len(line.take(char_col(line, u))) <= u,
        char_col(line, u) == line.len() || utf16_len(line.take(char_col(line, u) + 1)) > u,
    decreases line.len(),
{
    if line.len() == 0 {
        assert(line.take(0).len() == 0);
    } else if utf16_width(line[0]) > u {
        assert(line.take(0).len() == 0);
        lemma_utf16_len_first(line.take(1));
        assert(line.take(1).drop_first().len() == 0);
    } else {
        let t = line.drop_first();
        let w = utf16_width(line[0]);
        lemma_char_col(t, u - w);
        let k = char_col(t, u - w);
        assert(line.take(1 + k).drop_first() =~= t.take(k));
        lemma_utf16_len_first(line.take(1 + k));
        if k < t.len() {
            assert(line.take(2 + k).drop_first() =~= t.take(k + 1));
            lemma_utf16_len_first(line.take(2 + k));
        }
    }
}

/// The column of a position counted in UTF-16 code units, as
/// `utf16_column` computes it (saturated at `usize::MAX`).
pub open spec fn utf16_column_spec(source: Seq<char>, row: int, col: int) -> int {
    let line = nth_line(source, row);
    let n = if col < line.len() { col } else { line.len() as int };
    if utf16_len(line.take(n)) <= usize::MAX {
        utf16_len(line.take(n)) as int
    } else {
        usize::MAX as int
    }
}

/// A column's code units lie between its count of characters and twice
/// that count.
pub proof fn lemma_utf16_len_bounds(s: Seq<char>)
    ensures
        s.len() <= utf16_len(s) <= 2 * s.len(),
    decreases s.len(),
{
    if s.len() > 0 {
        lemma_utf16_len_bounds(s.drop_last());
    }
}

/// Converting a column of a row to UTF-16 code units and back gives the
/// column again, kept inside its row: `char_column_from_utf16` undoes
/// `utf16_column` (whenever the code units fit in a `usize`, which every
/// row held in memory does).
pub proof fn law_utf16_column_round_trip(source: Seq<char>, row: int, col: int)
    requires
        0 <= col,
        ({
            let line = nth_line(source, row);
            utf16_len(line.take(if col < line.len() { col } else { line.len() as int }))
                <= usize::MAX
        }),
    ensures
        ({
            let line = nth_line(source, row);
            char_col(line, utf16_column_spec(source, row, col)) == if col < line.len() {
                col
            } else {
                line.len() as int
            }
        }),
{
    let line = nth_line(source, row);
    let u = utf16_column_spec(source, row, col);
    lemma_char_col(line, u);
    lemma_utf16_round_trip(line, col, char_col(line, u));
}

/// Moving right along a row never lowers its UTF-16 column, and a column's
/// code units are at least its characters and at most twice as many
/// (before saturation).
pub proof fn law_utf16_column_monotone(source: Seq<char>, row: int, c1: int, c2: int)
    requires
        0 <= c1 <= c2,
    ensures
        utf16_column_spec(source, row, c1) <= utf16_column_spec(source, row, c2),
        ({
            let line = nth_line(source, row);
            let n = if c1 < line.len() { c1 } else { line.len() as int };
            n <= utf16_len(line.take(n)) <= 2 * n
        }),
{
    let line = nth_line(source, row);
    let n1 = if c1 < line.len() { c1 } else { line.len() as int };
    let n2 = if c2 < line.len() { c2 } else { line.len() as int };
    if n1 < n2 {
        lemma_utf16_prefix_grows(line, n1, n2);
    }
    lemma_utf16_len_bounds(line.take(n1));
}

/// Whether `p` is a prefix of `s`.
pub open spec fn has_prefix(s: Seq<char>, p: Seq<char>) -> bool {
    p.len() <= s.len() && s.take(p.len() as int) == p
}

/// The code-fence mark of Markdown.
pub open spec fn fence() -> Seq<char> {
    seq!['`', '`', '`']
}

/// The hover summary's lines for the first `n` lines of a hover text, and
/// whether the last kept line was blank and whether a code fence is open.
/// Fence lines are kept trimmed and toggle the fence; inside a fence lines
/// lose only trailing white space; outside, runs of blank lines become one
/// empty line (none at the start) and other lines lose trailing white space.
pub open spec fn hover_scan(ls: Seq<Seq<char>>, n: int) -> (Seq<Seq<char>>, bool, bool)
    decreases n,
{
    if n <= 0 {
        (Seq::empty(), false, false)
    } else {
        let prev = hover_scan(ls, n - 1);
        let out = prev.0;
        let previous_blank = prev.1;
        let inside = prev.2;
        let line = ls[n - 1];
        if has_prefix(trim_start(line), fence()) {
            (out.push(trim(line)), false, !inside)
        } else if inside {
            (out.push(trim_end(line)), false, inside)
        } else if trim(trim_end(line)).len() == 0 {
            (
                if !previous_blank && out.len() > 0 {
                    out.push(Seq::empty())
                } else {
                    out
                },
                true,
                inside,
            )
        } else {
            (out.push(trim_end(line)), false, inside)
        }
    }
}

/// Inside an open code fence, a line that is not itself a fence is kept
/// with only its trailing white space removed: what is kept is the line's
/// own beginning, indentation included, and all that is cut off is white
/// space at its end.
pub proof fn law_fenced_lines_keep_indentation(ls: Seq<Seq<char>>, n: int)
    requires
        0 < n <= ls.len(),
        hover_scan(ls, n - 1).2,
        !has_prefix(trim_start(ls[n - 1]), fence()),
    ensures
        ({
            let kept = hover_scan(ls, n).0;
            let line = ls[n - 1];
            let k = kept.last();
            &&& kept == hover_scan(ls, n - 1).0.push(k)
            &&& k.len() <= line.len()
            &&& k == line.take(k.len() as int)
            &&& forall|j: int| k.len() <= j < line.len() ==> is_ws(#[trigger] line[j])
            &&& (k.len() == 0 || !is_ws(k.last()))
        }),
{
    lemma_trim_end_prefix(ls[n - 1]);
    lemma_trim_end_last(ls[n - 1]);
}

/// The lines a hover summary keeps never end in white space: fence lines
/// are trimmed and every other line loses its trailing white space.
pub proof fn law_hover_lines_trimmed_at_end(ls: Seq<Seq<char>>, n: int)
    ensures
        forall|k: int|
            0 <= k < hover_scan(ls, n).0.len() ==> (#[trigger] hover_scan(ls, n).0[k]).len() == 0
                || !is_ws(hover_scan(ls, n).0[k].last()),
    decreases n,
{
    if n > 0 {
        law_hover_lines_trimmed_at_end(ls, n - 1);
        let line = ls[n - 1];
        lemma_trim_end_last(line);
        lemma_trim_end_last(trim_start(line));
        let prev = hover_scan(ls, n - 1).0;
        let r = hover_scan(ls, n).0;
        assert forall|k: int| 0 <= k < r.len() implies (#[trigger] r[k]).len() == 0 || !is_ws(r[k].last()) by {
            if k < prev.len() {
                assert(r[k] == prev[k]);
            }
        }
    }
}

/// The longest hover summary, in lines and in characters.
pub open spec fn hover_max_lines() -> int {
    10
}

/// See `hover_max_lines`.
pub open spec fn hover_max_chars() -> int {
    320
}

/// A short summary of a hover text for the editor: its lines normalized by
/// `hover_scan`, at most ten of them, joined by line breaks, and at most
/// 320 characters; a cut summary ends in `...`. `None` when no line is left.
pub open spec fn hover_summary_spec(text: Seq<char>) -> Option<Seq<char>> {
    let ls = lines(text);
    let kept = hover_scan(ls, ls.len() as int).0;
    if kept.len() == 0 {
        None
    } else {
        let cut_lines = kept.len() > hover_max_lines();
        let joined = join(
            if cut_lines {
                kept.take(hover_max_lines())
            } else {
                kept
            },
            seq!['\n'],
        );
        if joined.len() <= hover_max_chars() && !cut_lines {
            Some(joined)
        } else {
            let cut = if joined.len() > hover_max_chars() {
                joined.take(hover_max_chars() - 3)
            } else {
                joined
            };
            if cut.len() >= 3 && cut.skip(cut.len() - 3) == seq!['.', '.', '.'] {
                Some(cut)
            } else {
                Some(cut + seq!['.', '.', '.'])
            }
        }
    }
}

/// Summarizes a hover text for the editor (see `hover_summary_spec`).
pub fn summarize_hover_text(text: &str) -> (r: Option<String>)
    ensures
        r is Some <==> hover_summary_spec(text@) is Some,
        r matches Some(s) ==> s@ == hover_summary_spec(text@)->0,
{
    let v = chars_of(text);
    let ls = line_ranges(&v, 0, v.len());
    assert(v@.subrange(0, v@.len() as int) =~= v@);
    let ghost lines_v = lines(v@);
    let fence_v = chars_of("```");
    proof {
        reveal_strlit("```");
    }
    assert(fence_v@ =~= fence());
    let mut out: Vec<(usize, usize)> = Vec::new();
    let mut previous_blank = false;
    let mut inside = false;
    let mut k: usize = 0;
    while k < ls.len()
        invariant
            0 <= k <= ls@.len(),
            ranges_within(ls@, 0, v@.len() as int),
            range_texts(v@, ls@) == lines_v,
            lines_v == lines(text@),
            fence_v@ == fence(),
            ranges_within(out@, 0, v@.len() as int),
            hover_scan(lines_v, k as int) == (range_texts(v@, out@), previous_blank, inside),
        decreases ls@.len() - k,
    {
        let (a, b) = ls[k];
        assert(0 <= ls@[k as int].0 <= ls@[k as int].1 <= v@.len());
        let ghost line = v@.subrange(a as int, b as int);
        assert(lines_v[k as int] == line);
        let ghost old_out = range_texts(v@, out@);
        let start = skip_ws_forward(&v, a, b);
        assert(trim_start(line) == v@.subrange(start as int, b as int));
        let is_fence = crate::text::range_starts_with(&v, start, b, &fence_v);
        if is_fence {
            assert(trim_start(line).take(3) =~= v@.subrange(start as int, start + 3));
        } else if b - start >= 3 {
            assert(trim_start(line).take(3) =~= v@.subrange(start as int, start + 3));
        }
        let end = skip_ws_backward(&v, a, b);
        assert(trim_end(line) == v@.subrange(a as int, end as int));
        if is_fence {
            let e2 = skip_ws_backward(&v, start, b);
            proof {
                crate::text::lemma_trim_end_fixed(v@.subrange(start as int, e2 as int));
            }
            assert(trim(line) == v@.subrange(start as int, e2 as int));
            out.push((start, e2));
            inside = !inside;
            previous_blank = false;
        } else if inside {
            out.push((a, end));
            previous_blank = false;
        } else {
            let s2 = skip_ws_forward(&v, a, end);
            if s2 == end {
                assert(trim(trim_end(line)).len() == 0) by {
                    let te = v@.subrange(a as int, end as int);
                    assert(trim_start(te) == v@.subrange(s2 as int, end as int));
                }
                if !previous_blank && out.len() > 0 {
                    out.push((0, 0));
                    assert(v@.subrange(0, 0) =~= Seq::<char>::empty());
                }
                previous_blank = true;
            } else {
                assert(trim(trim_end(line)).len() > 0) by {
                    let te = v@.subrange(a as int, end as int);
                    assert(trim_start(te) == v@.subrange(s2 as int, end as int));
                    assert(!is_ws(v@[s2 as int]));
                    assert(trim_start(te).len() > 0);
                    assert(!is_ws(trim_start(te).last()));
                    crate::text::lemma_trim_end_fixed(trim_start(te));
                }
                out.push((a, end));
                previous_blank = false;
            }
        }
        assert(range_texts(v@, out@) =~~= hover_scan(lines_v, k + 1).0);
        k += 1;
    }
    if out.len() == 0 {
        return None;
    }
    let cut_lines = out.len() > 10;
    let mut kept: Vec<(usize, usize)> = Vec::new();
    let limit = if cut_lines {
        10
    } else {
        out.len()
    };
    let mut j: usize = 0;
    while j < limit
        invariant
            0 <= j <= limit <= out@.len(),
            ranges_within(out@, 0, v@.len() as int),
            kept@ == out@.take(j as int),
        decreases limit - j,
    {
        kept.push(out[j]);
        j += 1;
        assert(kept@ =~= out@.take(j as int));
    }
    assert(ranges_within(kept@, 0, v@.len() as int));
    let ghost all_kept = range_texts(v@, out@);
    assert(range_texts(v@, kept@) =~= (if cut_lines {
        all_kept.take(10)
    } else {
        all_kept
    }));
    let nl = chars_of("\n");
    proof {
        reveal_strlit("\n");
    }
    assert(nl@ =~= seq!['\n']);
    let joined_s = join_ranges(&v, &kept, &nl);
    let joined = chars_of(joined_s.as_str());
    if joined.len() <= 320 && !cut_lines {
        return Some(joined_s);
    }
    let cut_len = if joined.len() > 320 {
        317
    } else {
        joined.len()
    };
    let mut summary = string_of_range(&joined, 0, cut_len);
    let ghost cut = joined@.subrange(0, cut_len as int);
    assert(cut =~= (if joined@.len() > 320 {
        joined@.take(317)
    } else {
        joined@
    }));
    let dots = chars_of("...");
    proof {
        reveal_strlit("...");
    }
    assert(dots@ =~= seq!['.', '.', '.']);
    let ends = cut_len >= 3 && crate::text::range_equals(&joined, cut_len - 3, cut_len, &dots);
    if cut_len >= 3 {
        assert(cut.skip(cut.len() - 3) =~= joined@.subrange(cut_len - 3, cut_len as int));
    }
    if !ends {
        push_all(&mut summary, &dots);
    }
    Some(summary)
}


/// The number of ASCII digits at the start of `s`.
pub open spec fn digit_run(s: Seq<char>) -> int
    decreases s.len(),
{
    if s.len() > 0 && is_digit(s[0]) {
        1 + digit_run(s.drop_first())
    } else {
        0
    }
}

/// `digit_run` stays inside the string.
pub proof fn lemma_digit_run_bounds(s: Seq<char>)
    ensures
        0 <= digit_run(s) <= s.len(),
    decreases s.len(),
{
    if s.len() > 0 && is_digit(s[0]) {
        lemma_digit_run_bounds(s.drop_first());
    }
}

/// The text a snippet inserts (LSP snippet syntax): `\x` is `x`, `${...}`
/// is the text of its placeholder, `$` followed by digits (a tab stop) is
/// nothing, and every other character is itself.
pub open spec fn snippet_text(s: Seq<char>) -> Seq<char>
    decreases s.len(),
{
    if s.len() == 0 {
        Seq::empty()
    } else if s[0] == '\\' {
        if s.len() >= 2 {
            seq![s[1]] + snippet_text(s.skip(2))
        } else {
            Seq::empty()
        }
    } else if s[0] == '$' && s.len() >= 2 && s[1] == '{' {
        let body = s.skip(2);
        match find(body, seq!['}']) {
            Some(i) => if 0 <= i < body.len() {
                placeholder_text(body.take(i)) + snippet_text(body.skip(i + 1))
            } else {
                Seq::empty()
            },
            None => placeholder_text(body),
        }
    } else if s[0] == '$' && s.len() >= 2 && is_digit(s[1]) {
        let rest = s.skip(1);
        let n = digit_run(rest);
        if 0 < n <= rest.len() {
            snippet_text(rest.skip(n))
        } else {
            Seq::empty()
        }
    } else {
        seq![s[0]] + snippet_text(s.drop_first())
    }
}

/// The text of a snippet placeholder: after `:` the default text (itself a
/// snippet); for a choice `|a,b|` the first option; otherwise nothing.
pub open spec fn placeholder_text(p: Seq<char>) -> Seq<char>
    decreases p.len(),
{
    match find(p, seq![':']) {
        Some(i) => if 0 <= i < p.len() {
            snippet_text(p.skip(i + 1))
        } else {
            Seq::empty()
        },
        None => match find(p, seq!['|']) {
            Some(j) => if 0 <= j < p.len() {
                split_on(trim_char_end(p.skip(j + 1), '|'), ',')[0]
            } else {
                Seq::empty()
            },
            None => Seq::empty(),
        },
    }
}

/// Writes the text of the snippet `v[lo..hi]` after `out`.
fn snippet_range(v: &Vec<char>, lo: usize, hi: usize, out: &mut String)
    requires
        lo <= hi <= v@.len(),
    ensures
        final(out)@ == old(out)@ + snippet_text(v@.subrange(lo as int, hi as int)),
    decreases hi - lo, 1int,
{
    let ghost whole = v@.subrange(lo as int, hi as int);
    let ghost start = out@;
    let close = chars_of("}");
    proof {
        reveal_strlit("}");
    }
    assert(close@ =~= seq!['}']);
    let mut i = lo;
    while i < hi
        invariant
            lo <= i <= hi <= v@.len(),
            close@ == seq!['}'],
            whole == v@.subrange(lo as int, hi as int),
            start + snippet_text(whole) == out@ + snippet_text(v@.subrange(i as int, hi as int)),
        decreases hi - i,
    {
        let ghost t = v@.subrange(i as int, hi as int);
        let c = v[i];
        if c == '\\' {
            if i + 1 < hi {
                push_char(out, v[i + 1]);
                assert(t.skip(2) =~= v@.subrange(i + 2, hi as int));
                i = i + 2;
            } else {
                assert(snippet_text(t) == Seq::<char>::empty());
                assert(v@.subrange(hi as int, hi as int) =~= Seq::<char>::empty());
                i = hi;
            }
        } else if c == '$' && i + 1 < hi && v[i + 1] == '{' {
            let ghost body = t.skip(2);
            assert(body =~= v@.subrange(i + 2, hi as int));
            match find_in_range(v, i + 2, hi, &close) {
                Some(k) => {
                    proof {
                        lemma_find_from_found(body, seq!['}'], 0);
                    }
                    assert(body.take(k as int) =~= v@.subrange(i + 2, i + 2 + k));
                    placeholder_range(v, i + 2, i + 2 + k, out);
                    assert(body.skip(k + 1) =~= v@.subrange(i + 3 + k, hi as int));
                    i = i + 3 + k;
                },
                None => {
                    placeholder_range(v, i + 2, hi, out);
                    assert(v@.subrange(hi as int, hi as int) =~= Seq::<char>::empty());
                    i = hi;
                },
            }
        } else if c == '$' && i + 1 < hi && '0' <= v[i + 1] && v[i + 1] <= '9' {
            let ghost rest = t.skip(1);
            assert(rest =~= v@.subrange(i + 1, hi as int));
            let mut j = i + 1;
            while j < hi && '0' <= v[j] && v[j] <= '9'
                invariant
                    i + 1 <= j <= hi <= v@.len(),
                    rest == v@.subrange(i + 1, hi as int),
                    digit_run(rest) == (j - (i + 1)) + digit_run(v@.subrange(j as int, hi as int)),
                decreases hi - j,
            {
                assert(v@.subrange(j as int, hi as int).drop_first() =~= v@.subrange(j + 1, hi as int));
                j += 1;
            }
            proof {
                lemma_digit_run_bounds(rest);
                if j < hi {
                    assert(v@.subrange(j as int, hi as int)[0] == v@[j as int]);
                }
            }
            assert(rest.skip(digit_run(rest)) =~= v@.subrange(j as int, hi as int));
            i = j;
        } else {
            push_char(out, c);
            assert(t.drop_first() =~= v@.subrange(i + 1, hi as int));
            i = i + 1;
        }
    }
    assert(v@.subrange(hi as int, hi as int) =~= Seq::<char>::empty());
}

/// Writes the text of the placeholder `v[lo..hi]` after `out`.
fn placeholder_range(v: &Vec<char>, lo: usize, hi: usize, out: &mut String)
    requires
        lo <= hi <= v@.len(),
    ensures
        final(out)@ == old(out)@ + placeholder_text(v@.subrange(lo as int, hi as int)),
    decreases hi - lo, 0int,
{
    let ghost p = v@.subrange(lo as int, hi as int);
    let colon = chars_of(":");
    let bar = chars_of("|");
    proof {
        reveal_strlit(":");
        reveal_strlit("|");
    }
    assert(colon@ =~= seq![':']);
    assert(bar@ =~= seq!['|']);
    match find_in_range(v, lo, hi, &colon) {
        Some(i) => {
            proof {
                lemma_find_from_found(p, seq![':'], 0);
            }
            assert(p.skip(i + 1) =~= v@.subrange(lo + i + 1, hi as int));
            snippet_range(v, lo + i + 1, hi, out);
        },
        None => match find_in_range(v, lo, hi, &bar) {
            Some(j) => {
                proof {
                    lemma_find_from_found(p, seq!['|'], 0);
                }
                assert(p.skip(j + 1) =~= v@.subrange(lo + j + 1, hi as int));
                let end = trim_char_end_range(v, lo + j + 1, hi, '|');
                let pieces = split_ranges(v, lo + j + 1, end, ',');
                proof {
                    lemma_split_on_nonempty(v@.subrange(lo + j + 1, end as int), ',');
                }
                let (a, b) = pieces[0];
                assert(lo + j + 1 <= pieces@[0].0 <= pieces@[0].1 <= end);
                assert(range_texts(v@, pieces@)[0] == v@.subrange(a as int, b as int));
                let mut k = a;
                while k < b
                    invariant
                        a <= k <= b <= v@.len(),
                        out@ == old(out)@ + v@.subrange(a as int, k as int),
                    decreases b - k,
                {
                    push_char(out, v[k]);
                    k += 1;
                    assert(out@ =~= old(out)@ + v@.subrange(a as int, k as int));
                }
            },
            None => {
                assert(out@ =~= old(out)@ + placeholder_text(p));
            },
        },
    }
}

/// The text a completion snippet inserts (see `snippet_text`).
pub fn normalize_completion_snippet(source: &str) -> (r: String)
    ensures
        r@ == snippet_text(source@),
{
    let v = chars_of(source);
    let mut out = String::new();
    snippet_range(&v, 0, v.len(), &mut out);
    assert(v@.subrange(0, v@.len() as int) =~= v@);
    out
}


/// Whether a character is alphabetic or numeric in Unicode, as
/// `char::is_alphanumeric` decides it.
pub uninterp spec fn alphanumeric(c: char) -> bool;

/// `char::is_alphanumeric`. Its Unicode tables are not restated here; for
/// ASCII the answer is the letters and digits.
#[verifier::external_body]
fn is_alphanumeric(c: char) -> (r: bool)
    ensures
        r == alphanumeric(c),
        (c as u32) < 128 ==> (r <==> ('a' <= c <= 'z' || 'A' <= c <= 'Z' || '0' <= c <= '9')),
{
    c.is_alphanumeric()
}

/// Whether a character belongs to a completion symbol: `_` or alphanumeric.
pub open spec fn is_symbol_char(c: char) -> bool {
    c == '_' || alphanumeric(c)
}

/// Whether a character belongs to a completion symbol.
pub fn is_completion_symbol_char(c: char) -> (r: bool)
    ensures
        r == is_symbol_char(c),
{
    c == '_' || is_alphanumeric(c)
}

/// The start of the symbol that ends at index `p` of `line`.
pub open spec fn symbol_start(line: Seq<char>, p: int) -> int
    decreases p,
{
    if 0 < p <= line.len() && is_symbol_char(line[p - 1]) {
        symbol_start(line, p - 1)
    } else {
        p
    }
}

/// The end of the symbol that starts at index `p` of `line`.
pub open spec fn symbol_end(line: Seq<char>, p: int) -> int
    decreases line.len() - p,
{
    if 0 <= p < line.len() && is_symbol_char(line[p]) {
        symbol_end(line, p + 1)
    } else {
        p
    }
}

/// The range a completion replaces when the server gives none: the symbol
/// around the cursor on its row (the cursor kept inside the row).
pub open spec fn default_range_spec(source: Seq<char>, position: EditorPosition) -> (
    EditorPosition,
    EditorPosition,
) {
    let line = nth_line(source, position.row as int);
    let p = if position.col < line.len() {
        position.col as int
    } else {
        line.len() as int
    };
    (
        EditorPosition { row: position.row, col: symbol_start(line, p) as usize },
        EditorPosition { row: position.row, col: symbol_end(line, p) as usize },
    )
}

/// The range a completion replaces by default (see `default_range_spec`).
pub fn default_completion_range(source: &str, position: EditorPosition) -> (r: (
    EditorPosition,
    EditorPosition,
))
    ensures
        r == default_range_spec(source@, position),
{
    let v = chars_of(source);
    let (a, b) = nth_line_range(&v, position.row);
    let ghost line = v@.subrange(a as int, b as int);
    let len = b - a;
    let p = if position.col < len {
        position.col
    } else {
        len
    };
    let mut start = p;
    while start > 0 && is_completion_symbol_char(v[a + start - 1])
        invariant
            a <= b <= v@.len(),
            len == b - a,
            line == v@.subrange(a as int, b as int),
            0 <= start <= p <= len,
            symbol_start(line, p as int) == symbol_start(line, start as int),
        decreases start,
    {
        assert(line[start - 1] == v@[a + start - 1]);
        start -= 1;
    }
    if start > 0 {
        assert(line[start - 1] == v@[a + start - 1]);
    }
    let mut end = p;
    while end < len && is_completion_symbol_char(v[a + end])
        invariant
            a <= b <= v@.len(),
            len == b - a,
            line == v@.subrange(a as int, b as int),
            p <= end <= len,
            symbol_end(line, p as int) == symbol_end(line, end as int),
        decreases len - end,
    {
        assert(line[end as int] == v@[a + end]);
        end += 1;
    }
    if end < len {
        assert(line[end as int] == v@[a + end]);
    }
    (EditorPosition { row: position.row, col: start }, EditorPosition { row: position.row, col: end })
}

/// A position as the server writes it: a line and a UTF-16 column.
#[derive(Debug, Clone, Copy, PartialEq, Eq, Structural)]
pub struct LspPosition {
    pub line: usize,
    pub character: usize,
}

/// A range as the server writes it.
#[derive(Debug, Clone, Copy, PartialEq, Eq, Structural)]
pub struct LspRange {
    pub start: LspPosition,
    pub end: LspPosition,
}

/// The editor position of a server position in `source`.
pub open spec fn editor_position_of(source: Seq<char>, p: LspPosition) -> EditorPosition {
    EditorPosition {
        row: p.line,
        col: char_col(nth_line(source, p.line as int), p.character as int) as usize,
    }
}

/// The editor range of a server range in `source`.
pub fn parse_lsp_range(source: &str, range: LspRange) -> (r: (EditorPosition, EditorPosition))
    ensures
        r == (editor_position_of(source@, range.start), editor_position_of(source@, range.end)),
{
    let start_col = char_column_from_utf16(source, range.start.line, range.start.character);
    let end_col = char_column_from_utf16(source, range.end.line, range.end.character);
    (
        EditorPosition { row: range.start.line, col: start_col },
        EditorPosition { row: range.end.line, col: end_col },
    )
}

/// The edit a completion item asks for.
#[derive(Debug, Clone)]
pub enum CompletionTextEdit {
    Range { range: LspRange, new_text: String },
    InsertReplace { insert: LspRange, replace: LspRange, new_text: String },
}

/// A completion item as the server sends it.
#[derive(Debug, Clone)]
pub struct CompletionItem {
    pub label: String,
    pub detail: Option<String>,
    pub preselect: bool,
    pub insert_text_format: Option<u64>,
    pub insert_text: Option<String>,
    pub text_edit: Option<CompletionTextEdit>,
}

/// A completion the editor can apply.
#[derive(Debug, Clone, PartialEq, Eq)]
pub struct EditorCompletionItem {
    pub label: String,
    pub detail: Option<String>,
    pub insert_text: String,
    pub replace_start: EditorPosition,
    pub replace_end: EditorPosition,
    pub preselected: bool,
}

/// An editor completion as plain values.
pub type EditorCompletionView = (
    Seq<char>,
    Option<Seq<char>>,
    Seq<char>,
    EditorPosition,
    EditorPosition,
    bool,
);

impl View for EditorCompletionItem {
    type V = EditorCompletionView;

    open spec fn view(&self) -> EditorCompletionView {
        (
            self.label@,
            match self.detail {
                Some(d) => Some(d@),
                None => None,
            },
            self.insert_text@,
            self.replace_start,
            self.replace_end,
            self.preselected,
        )
    }
}

/// The range and text of a completion's edit: the server's edit (its
/// replace range for an insert-or-replace edit), or the symbol around the
/// cursor and the insert text (the label when there is none).
pub open spec fn edit_spec(
    item: CompletionItem,
    label: Seq<char>,
    source: Seq<char>,
    position: EditorPosition,
) -> (EditorPosition, EditorPosition, Seq<char>) {
    match item.text_edit {
        Some(CompletionTextEdit::Range { range, new_text }) => (
            editor_position_of(source, range.start),
            editor_position_of(source, range.end),
            new_text@,
        ),
        Some(CompletionTextEdit::InsertReplace { insert, replace, new_text }) => (
            editor_position_of(source, replace.start),
            editor_position_of(source, replace.end),
            new_text@,
        ),
        None => {
            let d = default_range_spec(source, position);
            (
                d.0,
                d.1,
                match item.insert_text {
                    Some(t) => t@,
                    None => label,
                },
            )
        },
    }
}

/// What the editor makes of a completion item: none for a blank label;
/// otherwise the trimmed label, the trimmed detail (when not blank), the
/// edit's text (as a snippet when the item says so) and range, and whether
/// the item is preselected.
pub open spec fn completion_spec(item: CompletionItem, source: Seq<char>, position: EditorPosition) -> Option<
    EditorCompletionView,
> {
    let label = trim(item.label@);
    if label.len() == 0 {
        None
    } else {
        let detail = match item.detail {
            Some(d) => if trim(d@).len() > 0 {
                Some(trim(d@))
            } else {
                None
            },
            None => None,
        };
        let e = edit_spec(item, label, source, position);
        let text = if item.insert_text_format == Some(2u64) {
            snippet_text(e.2)
        } else {
            e.2
        };
        Some((label, detail, text, e.0, e.1, item.preselect))
    }
}

/// A trimmed copy of a string.
fn trimmed(s: &str) -> (r: String)
    ensures
        r@ == trim(s@),
{
    let v = chars_of(s);
    let (a, b) = crate::text::trim_range(&v, 0, v.len());
    assert(v@.subrange(0, v@.len() as int) =~= v@);
    string_of_range(&v, a, b)
}

/// What the editor makes of a completion item (see `completion_spec`).
pub fn parse_completion_item(item: &CompletionItem, source: &str, position: EditorPosition) -> (r:
    Option<EditorCompletionItem>)
    ensures
        r is Some <==> completion_spec(*item, source@, position) is Some,
        r matches Some(c) ==> c@ == completion_spec(*item, source@, position)->0,
{
    let label = trimmed(item.label.as_str());
    if label.as_str().is_empty() {
        return None;
    }
    let detail = match &item.detail {
        Some(d) => {
            let t = trimmed(d.as_str());
            if t.as_str().is_empty() {
                None
            } else {
                Some(t)
            }
        },
        None => None,
    };
    let (start, end, text) = match &item.text_edit {
        Some(CompletionTextEdit::Range { range, new_text }) => {
            let (a, b) = parse_lsp_range(source, *range);
            (a, b, new_text.clone())
        },
        Some(CompletionTextEdit::InsertReplace { insert, replace, new_text }) => {
            let (a, b) = parse_lsp_range(source, *replace);
            (a, b, new_text.clone())
        },
        None => {
            let (a, b) = default_completion_range(source, position);
            let t = match &item.insert_text {
                Some(t) => t.clone(),
                None => label.clone(),
            };
            (a, b, t)
        },
    };
    let insert_text = match item.insert_text_format {
        Some(f) => if f == 2 {
            normalize_completion_snippet(text.as_str())
        } else {
            text
        },
        None => text,
    };
    Some(
        EditorCompletionItem {
            label,
            detail,
            insert_text,
            replace_start: start,
            replace_end: end,
            preselected: item.preselect,
        },
    )
}

/// The completions of the first `n` items, in order, without those that
/// yield none.
pub open spec fn completions_spec(
    items: Seq<CompletionItem>,
    source: Seq<char>,
    position: EditorPosition,
    n: int,
) -> Seq<EditorCompletionView>
    decreases n,
{
    if n <= 0 {
        Seq::empty()
    } else {
        let prev = completions_spec(items, source, position, n - 1);
        match completion_spec(items[n - 1], source, position) {
            Some(c) => prev.push(c),
            None => prev,
        }
    }
}

/// The completions the editor offers for the items of a response.
pub fn parse_completion_items(
    items: &Vec<CompletionItem>,
    source: &str,
    position: EditorPosition,
) -> (r: Vec<EditorCompletionItem>)
    ensures
        r@.map_values(|c: EditorCompletionItem| c@) == completions_spec(
            items@,
            source@,
            position,
            items@.len() as int,
        ),
{
    let mut out: Vec<EditorCompletionItem> = Vec::new();
    let mut i: usize = 0;
    while i < items.len()
        invariant
            0 <= i <= items@.len(),
            out@.map_values(|c: EditorCompletionItem| c@) == completions_spec(
                items@,
                source@,
                position,
                i as int,
            ),
        decreases items@.len() - i,
    {
        let ghost before = out@;
        match parse_completion_item(&items[i], source, position) {
            Some(c) => {
                out.push(c);
                assert(out@.map_values(|c: EditorCompletionItem| c@) =~= before.map_values(
                    |c: EditorCompletionItem| c@,
                ).push(c@));
            },
            None => {},
        }
        i += 1;
    }
    out
}


/// The contents of a hover response.
#[derive(Debug)]
pub enum HoverContents {
    /// Plain or Markdown text.
    Text(String),
    /// Code in a language (none or blank: plain text).
    Marked { language: Option<String>, value: String },
    /// Several parts.
    Many(Vec<HoverContents>),
}

/// The text of hover contents: text as it is; code in a language as a
/// fenced code block; several parts as the texts of those that have a
/// non-blank one, separated by blank lines (none when no part has one).
pub open spec fn hover_text_spec(h: HoverContents) -> Option<Seq<char>>
    decreases h, 0int,
{
    match h {
        HoverContents::Text(t) => Some(t@),
        HoverContents::Marked { language, value } => {
            let lang = match language {
                Some(l) => trim(l@),
                None => Seq::empty(),
            };
            if lang.len() == 0 {
                Some(value@)
            } else {
                Some(fence() + lang + seq!['\n'] + value@ + seq!['\n'] + fence())
            }
        },
        HoverContents::Many(items) => {
            let parts = hover_parts(items@, items@.len() as int);
            if join(parts, seq!['\n', '\n']).len() > 0 {
                Some(join(parts, seq!['\n', '\n']))
            } else {
                None
            }
        },
    }
}

/// The non-blank texts of the first `n` parts.
pub open spec fn hover_parts(items: Seq<HoverContents>, n: int) -> Seq<Seq<char>>
    decreases items, n,
{
    if n <= 0 || n > items.len() {
        Seq::empty()
    } else {
        let prev = hover_parts(items, n - 1);
        match hover_text_spec(items[n - 1]) {
            Some(t) => if trim(t).len() > 0 {
                prev.push(t)
            } else {
                prev
            },
            None => prev,
        }
    }
}

/// Whether a text is blank.
fn is_blank_text(t: &String) -> (r: bool)
    ensures
        r == (trim(t@).len() == 0),
{
    let v = chars_of(t.as_str());
    let (a, b) = crate::text::trim_range(&v, 0, v.len());
    assert(v@.subrange(0, v@.len() as int) =~= v@);
    a == b
}

/// The text of hover contents (see `hover_text_spec`).
pub fn hover_contents_to_text(value: &HoverContents) -> (r: Option<String>)
    ensures
        r is Some <==> hover_text_spec(*value) is Some,
        r matches Some(t) ==> t@ == hover_text_spec(*value)->0,
    decreases value,
{
    match value {
        HoverContents::Text(t) => Some(t.clone()),
        HoverContents::Marked { language, value } => {
            let lang = match language {
                Some(l) => trimmed(l.as_str()),
                None => String::new(),
            };
            if lang.as_str().is_empty() {
                Some(value.clone())
            } else {
                let mut r = String::new();
                push_str(&mut r, "```");
                push_str(&mut r, lang.as_str());
                push_char(&mut r, '\n');
                push_str(&mut r, value.as_str());
                push_char(&mut r, '\n');
                push_str(&mut r, "```");
                proof {
                    reveal_strlit("```");
                }
                assert(r@ =~= fence() + lang@ + seq!['\n'] + value@ + seq!['\n'] + fence());
                Some(r)
            }
        },
        HoverContents::Many(items) => {
            let mut parts: Vec<String> = Vec::new();
            let mut i: usize = 0;
            while i < items.len()
                invariant
                    0 <= i <= items@.len(),
                    *value == HoverContents::Many(*items),
                    parts@.map_values(|p: String| p@) == hover_parts(items@, i as int),
                decreases items@.len() - i,
            {
                let ghost before = parts@;
                assert(decreases_to!(*value => (*value)->Many_0));
                assert(decreases_to!(*items => items@));
                assert(decreases_to!(items@ => items@[i as int]));
                assert(decreases_to!(*value => items@[i as int]));
                match hover_contents_to_text(&items[i]) {
                    Some(t) => {
                        if !is_blank_text(&t) {
                            parts.push(t);
                            assert(parts@.map_values(|p: String| p@) =~= before.map_values(
                                |p: String| p@,
                            ).push(t@));
                        }
                    },
                    None => {},
                }
                i += 1;
            }
            let mut joined = String::new();
            let mut k: usize = 0;
            let ghost pv = parts@.map_values(|p: String| p@);
            while k < parts.len()
                invariant
                    0 <= k <= parts@.len(),
                    pv == parts@.map_values(|p: String| p@),
                    joined@ == join(pv.take(k as int), seq!['\n', '\n']),
                decreases parts@.len() - k,
            {
                assert(pv.take(k + 1).drop_last() =~= pv.take(k as int));
                if k > 0 {
                    push_char(&mut joined, '\n');
                    push_char(&mut joined, '\n');
                }
                push_str(&mut joined, parts[k].as_str());
                if k == 0 {
                    assert(joined@ =~= join(pv.take(1), seq!['\n', '\n']));
                } else {
                    assert(joined@ =~= join(pv.take(k as int), seq!['\n', '\n']) + seq!['\n', '\n']
                        + pv[k as int]);
                }
                k += 1;
            }
            assert(pv.take(k as int) =~= pv);
            if joined.as_str().is_empty() {
                None
            } else {
                Some(joined)
            }
        },
    }
}


/// A definition target as the server sends it.
#[derive(Debug, Clone)]
pub enum DefinitionCandidate {
    Location { uri: String, range: LspRange },
    Link { target_uri: String, target_selection_range: LspRange },
}

/// Where a definition is, as the server gave it.
#[derive(Debug, Clone)]
pub struct RawDefinitionLocation {
    pub uri: String,
    pub line: usize,
    pub character: usize,
}

/// The definition to jump to: the first target, at the start of its range
/// (of its selection range for a link).
pub fn definition_location(candidates: &Vec<DefinitionCandidate>) -> (r: Option<
    RawDefinitionLocation,
>)
    ensures
        candidates@.len() == 0 <==> r is None,
        r matches Some(l) ==> match candidates@[0] {
            DefinitionCandidate::Location { uri, range } => l.uri@ == uri@ && l.line
                == range.start.line && l.character == range.start.character,
            DefinitionCandidate::Link { target_uri, target_selection_range } => l.uri@
                == target_uri@ && l.line == target_selection_range.start.line && l.character
                == target_selection_range.start.character,
        },
{
    if candidates.len() == 0 {
        return None;
    }
    match &candidates[0] {
        DefinitionCandidate::Location { uri, range } => Some(
            RawDefinitionLocation {
                uri: uri.clone(),
                line: range.start.line,
                character: range.start.character,
            },
        ),
        DefinitionCandidate::Link { target_uri, target_selection_range } => Some(
            RawDefinitionLocation {
                uri: target_uri.clone(),
                line: target_selection_range.start.line,
                character: target_selection_range.start.character,
            },
        ),
    }
}

/// Why a definition cannot be opened.
#[derive(Debug, Clone, Copy, PartialEq, Eq, Structural)]
pub enum DefinitionError {
    /// The target's URI is not a URI.
    InvalidUri,
    /// The target is not a local file.
    NotLocalFile,
}

/// The local path of a `file:` URI as the `url` crate reads it
/// (`Url::parse`, then `Url::to_file_path`), or why there is none.
pub uninterp spec fn file_path_of(uri: Seq<char>) -> Result<Seq<char>, DefinitionError>;

/// The local path of a URI (`url::Url::parse` and `Url::to_file_path`).
/// What the crate accepts as a URI and as a local file is not restated
/// here; a path that is not valid UTF-8 counts as no local file.
#[verifier::external_body]
fn file_path_from_uri(uri: &str) -> (r: Result<String, DefinitionError>)
    ensures
        match r {
            Ok(p) => file_path_of(uri@) == Ok::<Seq<char>, DefinitionError>(p@),
            Err(e) => file_path_of(uri@) == Err::<Seq<char>, DefinitionError>(e),
        },
{
    match url::Url::parse(uri) {
        Err(_) => Err(DefinitionError::InvalidUri),
        Ok(u) => match u.to_file_path() {
            Err(_) => Err(DefinitionError::NotLocalFile),
            Ok(p) => match p.into_os_string().into_string() {
                Ok(s) => Ok(s),
                Err(_) => Err(DefinitionError::NotLocalFile),
            },
        },
    }
}

/// The file of a definition.
pub fn definition_path(location: &RawDefinitionLocation) -> (r: Result<String, DefinitionError>)
    ensures
        match r {
            Ok(p) => file_path_of(location.uri@) == Ok::<Seq<char>, DefinitionError>(p@),
            Err(e) => file_path_of(location.uri@) == Err::<Seq<char>, DefinitionError>(e),
        },
{
    file_path_from_uri(location.uri.as_str())
}

/// The editor position of a definition in the text of its file.
pub fn definition_position(location: &RawDefinitionLocation, source: &str) -> (r: EditorPosition)
    ensures
        r == editor_position_of(
            source@,
            LspPosition { line: location.line, character: location.character },
        ),
{
    let col = char_column_from_utf16(source, location.line, location.character);
    EditorPosition { row: location.line, col }
}

/// A text with every line ending made `'\n'`: `"\r\n"` and a lone `'\r'`
/// both become `'\n'`.
pub open spec fn normalize_newlines_spec(s: Seq<char>) -> Seq<char>
    decreases s.len(),
{
    if s.len() == 0 {
        Seq::empty()
    } else if s[0] == '\r' && s.len() >= 2 && s[1] == '\n' {
        seq!['\n'] + normalize_newlines_spec(s.skip(2))
    } else if s[0] == '\r' {
        seq!['\n'] + normalize_newlines_spec(s.drop_first())
    } else {
        seq![s[0]] + normalize_newlines_spec(s.drop_first())
    }
}

/// Makes every line ending `'\n'` (see `normalize_newlines_spec`).
pub fn normalize_newlines(source: &str) -> (r: String)
    ensures
        r@ == normalize_newlines_spec(source@),
{
    let v = chars_of(source);
    let mut out = String::new();
    let mut i: usize = 0;
    assert(v@.subrange(0, v@.len() as int) =~= v@);
    while i < v.len()
        invariant
            0 <= i <= v@.len(),
            v@ == source@,
            normalize_newlines_spec(source@) == out@ + normalize_newlines_spec(
                v@.subrange(i as int, v@.len() as int),
            ),
        decreases v@.len() - i,
    {
        let ghost t = v@.subrange(i as int, v@.len() as int);
        if v[i] == '\r' && i + 1 < v.len() && v[i + 1] == '\n' {
            push_char(&mut out, '\n');
            assert(t.skip(2) =~= v@.subrange(i + 2, v@.len() as int));
            i = i + 2;
        } else {
            if v[i] == '\r' {
                push_char(&mut out, '\n');
            } else {
                push_char(&mut out, v[i]);
            }
            assert(t.drop_first() =~= v@.subrange(i + 1, v@.len() as int));
            i = i + 1;
        }
    }
    assert(v@.subrange(v@.len() as int, v@.len() as int) =~= Seq::<char>::empty());
    out
}

} // verus!
