//! The framing of language-server messages: a `Content-Length` header,
//! a blank line, then the JSON body.
use vstd::prelude::*;
use crate::text::{
    chars_of, decimal, digits_value, find, find_in_range, is_digits, lemma_decimal_reads_back,
    lemma_find_from_found, parse_decimal, push_all, push_str, range_eq_ignore_ascii_case, trim,
    trim_range, eq_ignore_ascii_case, occurs_at, find_from,
};

verus! {

/// The header name that carries the body's length.
pub open spec fn content_length_name() -> Seq<char> {
    "Content-Length"@
}

/// The header block written before a body of `len` bytes.
pub open spec fn frame_header_spec(len: nat) -> Seq<char> {
    "Content-Length: "@ + decimal(len) + "\r\n\r\n"@
}

/// The header block written before a body of `len` bytes.
pub fn frame_header(len: usize) -> (r: String)
    ensures
        r@ == frame_header_spec(len as nat),
{
    let mut r = String::new();
    push_str(&mut r, "Content-Length: ");
    let digits = crate::text::decimal_chars(len as u64);
    push_all(&mut r, &digits);
    push_str(&mut r, "\r\n\r\n");
    r
}

/// Why a message could not be read.
#[derive(Debug, Clone, Copy, PartialEq, Eq, Structural)]
pub enum FrameError {
    /// The stream ended inside the header.
    StreamClosed,
    /// A `Content-Length` header does not hold a length.
    InvalidContentLength,
    /// The header ended without a `Content-Length`.
    MissingContentLength,
}

/// What a header line means for the reader.
#[derive(Debug, Clone, Copy, PartialEq, Eq, Structural)]
pub enum HeaderStep {
    /// Read the next header line.
    Continue,
    /// The header is complete: read this many bytes of body.
    Body(usize),
    /// Stop with this error.
    Failed(FrameError),
}

/// The length a `Content-Length` value gives: decimal digits after an
/// optional `+`, fitting in a `usize` (`str::parse::<usize>`).
pub open spec fn parse_length_spec(s: Seq<char>) -> Option<usize> {
    let d = if s.len() > 0 && s[0] == '+' {
        s.drop_first()
    } else {
        s
    };
    if is_digits(d) && digits_value(d) <= usize::MAX {
        Some(digits_value(d) as usize)
    } else {
        None
    }
}

/// The effect of a header line (with its line ending, as read): the
/// length it sets (`Some(Some(n))`), an invalid length (`Some(None)`), or
/// no effect (`None`). Only a line whose name before the first `:` is
/// `Content-Length`, in any ASCII case, sets the length.
pub open spec fn header_line_length(line: Seq<char>) -> Option<Option<usize>> {
    match find(line, seq![':']) {
        None => None,
        Some(i) => if eq_ignore_ascii_case(line.take(i), content_length_name()) {
            Some(parse_length_spec(trim(line.skip(i + 1))))
        } else {
            None
        },
    }
}

/// The reader of a message header, fed one line at a time.
pub struct HeaderReader {
    pub content_length: Option<usize>,
}

impl HeaderReader {
    /// A reader at the start of a header.
    pub fn new() -> (r: HeaderReader)
        ensures
            r.content_length is None,
    {
        HeaderReader { content_length: None }
    }

    /// Takes the next line of the header, with its line ending; an empty
    /// line means that the stream ended. A blank line (`"\r\n"` or `"\n"`)
    /// ends the header; a `Content-Length` line sets the length; other
    /// lines are ignored.
    pub fn feed_line(&mut self, line: &str) -> (r: HeaderStep)
        ensures
            line@.len() == 0 ==> r == HeaderStep::Failed(FrameError::StreamClosed),
            line@.len() > 0 && (line@ == "\r\n"@ || line@ == "\n"@) ==> (match old(
                self,
            ).content_length {
                Some(n) => r == HeaderStep::Body(n),
                None => r == HeaderStep::Failed(FrameError::MissingContentLength),
            }) && final(self).content_length == old(self).content_length,
            line@.len() > 0 && !(line@ == "\r\n"@ || line@ == "\n"@) ==> (match header_line_length(
                line@,
            ) {
                None => r == HeaderStep::Continue && final(self).content_length == old(
                    self,
                ).content_length,
                Some(None) => r == HeaderStep::Failed(FrameError::InvalidContentLength),
                Some(Some(n)) => r == HeaderStep::Continue && final(self).content_length == Some(
                    n,
                ),
            }),
    {
        let v = chars_of(line);
        if v.len() == 0 {
            return HeaderStep::Failed(FrameError::StreamClosed);
        }
        let crlf = chars_of("\r\n");
        let lf = chars_of("\n");
        assert(v@.subrange(0, v@.len() as int) =~= v@);
        if crate::text::range_equals(&v, 0, v.len(), &crlf) || crate::text::range_equals(
            &v,
            0,
            v.len(),
            &lf,
        ) {
            return match self.content_length {
                Some(n) => HeaderStep::Body(n),
                None => HeaderStep::Failed(FrameError::MissingContentLength),
            };
        }
        let colon = chars_of(":");
        proof {
            reveal_strlit(":");
        }
        assert(colon@ =~= seq![':']);
        match find_in_range(&v, 0, v.len(), &colon) {
            None => HeaderStep::Continue,
            Some(i) => {
                proof {
                    lemma_find_from_found(v@, seq![':'], 0);
                }
                assert(v@.take(i as int) =~= v@.subrange(0, i as int));
                let name = chars_of("Content-Length");
                if !range_eq_ignore_ascii_case(&v, 0, i, &name) {
                    return HeaderStep::Continue;
                }
                assert(v@.skip(i + 1) =~= v@.subrange(i + 1, v@.len() as int));
                let (a, b) = trim_range(&v, i + 1, v.len());
                let ghost t = v@.subrange(a as int, b as int);
                let start = if a < b && v[a] == '+' {
                    a + 1
                } else {
                    a
                };
                if a < b {
                    assert(t.drop_first() =~= v@.subrange(a + 1, b as int));
                }
                match parse_decimal(&v, start, b, usize::MAX as u64) {
                    Some(n) => {
                        self.content_length = Some(n as usize);
                        HeaderStep::Continue
                    },
                    None => HeaderStep::Failed(FrameError::InvalidContentLength),
                }
            },
        }
    }
}

/// The header lines that `frame_header` writes.
pub open spec fn header_lines(len: nat) -> (Seq<char>, Seq<char>) {
    ("Content-Length: "@ + decimal(len) + "\r\n"@, "\r\n"@)
}

/// The header that `frame_header` writes is its two header lines.
proof fn lemma_frame_header_lines(len: nat)
    ensures
        frame_header_spec(len) == header_lines(len).0 + header_lines(len).1,
{
    reveal_strlit("\r\n\r\n");
    reveal_strlit("\r\n");
    assert(frame_header_spec(len) =~= header_lines(len).0 + header_lines(len).1);
}

/// Reading back a written header: the header `frame_header` writes is two
/// lines; its first line sets the length that was written, and the blank
/// line after it ends the header with that length.
pub proof fn lemma_frame_header_reads_back(len: usize)
    ensures
        frame_header_spec(len as nat) == header_lines(len as nat).0 + header_lines(len as nat).1,
        header_line_length(header_lines(len as nat).0) == Some(Some(len)),
        header_lines(len as nat).1 == "\r\n"@,
{
    lemma_frame_header_lines(len as nat);
    reveal_strlit("Content-Length: ");
    reveal_strlit("Content-Length");
    reveal_strlit("\r\n");
    let line = header_lines(len as nat).0;
    let d = decimal(len as nat);
    lemma_decimal_reads_back(len as nat);
    let head = "Content-Length: "@;
    assert(head.len() == 16);
    assert(line[14] == ':');
    assert forall|k: int| 0 <= k < 14 implies line[k] != ':' by {
        assert(line[k] == head[k]);
    }
    assert(find(line, seq![':']) == Some(14int)) by {
        assert forall|k: int| 0 <= k < 14 implies !occurs_at(line, seq![':'], k) by {
            assert(line.subrange(k, k + 1)[0] == line[k]);
        }
        assert(line.subrange(14, 15) =~= seq![':']);
        lemma_find_steps(line, seq![':'], 14);
    }
    assert(line.take(14) =~= content_length_name());
    let rest = line.skip(15);
    assert(rest =~= seq![' '] + d + "\r\n"@);
    assert(!crate::text::is_ws(d[0]));
    assert(!crate::text::is_ws(d.last()));
    assert(trim(rest) == d) by {
        let t = d + "\r\n"@;
        assert("\r\n"@ =~= seq!['\r', '\n']);
        assert(rest[0] == ' ');
        assert(rest.drop_first() =~= t);
        assert(crate::text::trim_start(rest) == crate::text::trim_start(t));
        assert(t[0] == d[0]);
        assert(crate::text::trim_start(t) == t);
        assert(t.last() == '\n');
        assert(t.drop_last() =~= d + seq!['\r']);
        assert(crate::text::trim_end(t) == crate::text::trim_end(d + seq!['\r']));
        assert((d + seq!['\r']).last() == '\r');
        assert((d + seq!['\r']).drop_last() =~= d);
        assert(crate::text::trim_end(d + seq!['\r']) == crate::text::trim_end(d));
        crate::text::lemma_trim_end_fixed(d);
    }
    assert(d.len() > 0 && d[0] != '+');
}

/// `find_from` from the start reaches the first occurrence `i` when none
/// comes before it.
pub proof fn lemma_find_steps(s: Seq<char>, pat: Seq<char>, i: int)
    requires
        0 <= i,
        occurs_at(s, pat, i),
        forall|k: int| 0 <= k < i ==> !occurs_at(s, pat, k),
    ensures
        find(s, pat) == Some(i),
{
    lemma_find_from_steps(s, pat, 0, i);
}

/// `find_from(s, pat, j)` reaches `i` when nothing in `[j, i)` matches.
pub proof fn lemma_find_from_steps(s: Seq<char>, pat: Seq<char>, j: int, i: int)
    requires
        0 <= j <= i,
        occurs_at(s, pat, i),
        forall|k: int| j <= k < i ==> !occurs_at(s, pat, k),
    ensures
        find_from(s, pat, j) == Some(i),
    decreases i - j,
{
    if j < i {
        lemma_find_from_steps(s, pat, j + 1, i);
    }
}

} // verus!
