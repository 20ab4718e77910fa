//! The chat input box: how its text wraps and how tall it grows.
use vstd::prelude::*;
use crate::geometry::{max_int, min_int, sat_sub, Rect};
use crate::text::{chars_of, range_texts, ranges_within, split_on, split_ranges, string_of_range};

verus! {

/// A line cut into pieces of `width` characters; the last piece holds the
/// rest (an empty line stays one empty piece).
pub open spec fn chunks(line: Seq<char>, width: nat) -> Seq<Seq<char>>
    decreases line.len(),
{
    if width == 0 || line.len() <= width {
        seq![line]
    } else {
        seq![line.take(width as int)] + chunks(line.skip(width as int), width)
    }
}

/// The pieces of the first `n` lines.
pub open spec fn all_chunks(ls: Seq<Seq<char>>, width: nat, n: int) -> Seq<Seq<char>>
    decreases n,
{
    if n <= 0 {
        Seq::empty()
    } else {
        all_chunks(ls, width, n - 1) + chunks(ls[n - 1], width)
    }
}

/// The lines of the input box: every line of the input cut into pieces of
/// `width` characters (at least one).
pub open spec fn wrapped_spec(input: Seq<char>, width: int) -> Seq<Seq<char>> {
    let ls = split_on(input, '\n');
    all_chunks(ls, max_int(width, 1) as nat, ls.len() as int)
}

/// The plain views of a list of strings.
pub open spec fn strings_view(v: Seq<String>) -> Seq<Seq<char>> {
    v.map_values(|s: String| s@)
}

/// Every line yields at least one piece.
pub proof fn lemma_chunks_nonempty(line: Seq<char>, width: nat)
    ensures
        chunks(line, width).len() >= 1,
    decreases line.len(),
{
    if width > 0 && line.len() > width {
        lemma_chunks_nonempty(line.skip(width as int), width);
    }
}

/// Adds the pieces of `v[lo..hi]` to `out`.
fn push_chunks(v: &Vec<char>, lo: usize, hi: usize, width: usize, out: &mut Vec<String>)
    requires
        lo <= hi <= v@.len(),
        width >= 1,
    ensures
        strings_view(final(out)@) == strings_view(old(out)@) + chunks(
            v@.subrange(lo as int, hi as int),
            width as nat,
        ),
    decreases hi - lo,
{
    let ghost line = v@.subrange(lo as int, hi as int);
    let ghost start = strings_view(out@);
    if hi - lo <= width {
        let piece = string_of_range(v, lo, hi);
        out.push(piece);
        assert(strings_view(out@) =~= start + chunks(line, width as nat));
    } else {
        let piece = string_of_range(v, lo, lo + width);
        out.push(piece);
        assert(line.take(width as int) =~= v@.subrange(lo as int, lo + width));
        assert(line.skip(width as int) =~= v@.subrange(lo + width, hi as int));
        assert(strings_view(out@) =~= start.push(line.take(width as int)));
        push_chunks(v, lo + width, hi, width, out);
        assert(strings_view(out@) =~= start + chunks(line, width as nat));
    }
}

/// The lines of the input box (see `wrapped_spec`); there is always at
/// least one.
pub fn wrapped_chat_input_lines(input: &str, width: u16) -> (r: Vec<String>)
    ensures
        strings_view(r@) == wrapped_spec(input@, width as int),
        r@.len() >= 1,
{
    let w: usize = if width < 1 {
        1
    } else {
        width as usize
    };
    let v = chars_of(input);
    let pieces = split_ranges(&v, 0, v.len(), '\n');
    assert(v@.subrange(0, v@.len() as int) =~= v@);
    let ghost ls = split_on(input@, '\n');
    let mut out: Vec<String> = Vec::new();
    let mut k: usize = 0;
    while k < pieces.len()
        invariant
            0 <= k <= pieces@.len(),
            w >= 1,
            w == max_int(width as int, 1),
            ranges_within(pieces@, 0, v@.len() as int),
            range_texts(v@, pieces@) == ls,
            strings_view(out@) == all_chunks(ls, w as nat, k as int),
        decreases pieces@.len() - k,
    {
        let (a, b) = pieces[k];
        assert(0 <= pieces@[k as int].0 <= pieces@[k as int].1 <= v@.len());
        assert(ls[k as int] == v@.subrange(a as int, b as int));
        push_chunks(&v, a, b, w, &mut out);
        k += 1;
    }
    proof {
        crate::text::lemma_split_on_nonempty(input@, '\n');
        lemma_chunks_nonempty(ls[ls.len() - 1], w as nat);
        lemma_all_chunks_len(ls, w as nat, ls.len() as int);
    }
    out
}

/// All pieces of `n >= 1` lines are at least one.
pub proof fn lemma_all_chunks_len(ls: Seq<Seq<char>>, width: nat, n: int)
    requires
        1 <= n <= ls.len(),
    ensures
        all_chunks(ls, width, n).len() >= 1,
    decreases n,
{
    lemma_chunks_nonempty(ls[n - 1], width);
}

/// Wrapping loses and adds nothing: the pieces of a line, put back
/// together, are the line.
pub proof fn law_chunks_rejoin(line: Seq<char>, width: nat)
    ensures
        chunks(line, width).flatten() == line,
    decreases line.len(),
{
    let c = chunks(line, width);
    if width == 0 || line.len() <= width {
        seq![line].lemma_flatten_one_element();
    } else {
        let w = width as int;
        law_chunks_rejoin(line.skip(w), width);
        assert(c.first() == line.take(w));
        assert(c.drop_first() =~= chunks(line.skip(w), width));
        assert(line.take(w) + line.skip(w) =~= line);
    }
}

/// With a width of at least one, every piece of a line holds at most
/// `width` characters, and every piece but the last holds exactly `width`.
pub proof fn law_chunks_fit_width(line: Seq<char>, width: nat)
    requires
        width >= 1,
    ensures
        forall|i: int|
            0 <= i < chunks(line, width).len() ==> (#[trigger] chunks(line, width)[i]).len()
                <= width,
        forall|i: int|
            0 <= i < chunks(line, width).len() - 1 ==> (#[trigger] chunks(line, width)[i]).len()
                == width,
    decreases line.len(),
{
    if line.len() > width {
        let w = width as int;
        let rest = line.skip(w);
        law_chunks_fit_width(rest, width);
        let c = chunks(line, width);
        assert forall|i: int| 0 < i < c.len() implies c[i] == chunks(rest, width)[i - 1] by {}
    }
}

/// Every line of the input box holds at most `max(width, 1)` characters:
/// no piece of a long line overflows the box.
pub proof fn law_wrapped_lines_fit(input: Seq<char>, width: int)
    ensures
        forall|i: int|
            0 <= i < wrapped_spec(input, width).len() ==> (#[trigger] wrapped_spec(
                input,
                width,
            )[i]).len() <= max_int(width, 1),
{
    let ls = split_on(input, '\n');
    lemma_all_chunks_fit(ls, max_int(width, 1) as nat, ls.len() as int);
}

/// Every piece of the first `n` lines holds at most `width` characters.
proof fn lemma_all_chunks_fit(ls: Seq<Seq<char>>, width: nat, n: int)
    requires
        width >= 1,
        n <= ls.len(),
    ensures
        forall|i: int|
            0 <= i < all_chunks(ls, width, n).len() ==> (#[trigger] all_chunks(ls, width, n)[i]).len()
                <= width,
    decreases n,
{
    if n > 0 {
        lemma_all_chunks_fit(ls, width, n - 1);
        law_chunks_fit_width(ls[n - 1], width);
        let a = all_chunks(ls, width, n - 1);
        let c = chunks(ls[n - 1], width);
        assert forall|i: int| 0 <= i < all_chunks(ls, width, n).len() implies (
        #[trigger] all_chunks(ls, width, n)[i]).len() <= width by {
            if i < a.len() {
                assert(all_chunks(ls, width, n)[i] == a[i]);
            } else {
                assert(all_chunks(ls, width, n)[i] == c[i - a.len()]);
            }
        }
    }
}

/// The height of the chat input box in a main area: as many rows as its
/// wrapped lines plus the border, kept between three rows (or less when the
/// area is that small) and one row less than the area leaves.
pub open spec fn input_height_spec(input: Seq<char>, main_area: Rect) -> int {
    let available = sat_sub(main_area.height as int, 3);
    if available == 0 {
        0
    } else {
        let n = (wrapped_spec(input, sat_sub(main_area.width as int, 2)).len() as usize).saturating_add(2);
        let desired = (n % 65536) as int;
        let min_height = min_int(available, 3);
        let max_height = max_int(sat_sub(available, 1), min_height);
        if desired < min_height {
            min_height
        } else if desired > max_height {
            max_height
        } else {
            desired
        }
    }
}

/// The height of the chat input box (see `input_height_spec`).
pub fn height_for_main_area(input: &str, main_area: Rect) -> (r: u16)
    ensures
        r == input_height_spec(input@, main_area),
{
    let available = main_area.height.saturating_sub(3);
    if available == 0 {
        return 0;
    }
    let lines = wrapped_chat_input_lines(input, main_area.width.saturating_sub(2));
    let n = lines.len().saturating_add(2);
    let desired = (n % 65536) as u16;
    let min_height = if available < 3 {
        available
    } else {
        3
    };
    let below = available.saturating_sub(1);
    let max_height = if below >= min_height {
        below
    } else {
        min_height
    };
    if desired < min_height {
        min_height
    } else if desired > max_height {
        max_height
    } else {
        desired
    }
}

} // verus!
