//! Cutting a text into lines.
//!
//! A line ends at a line feed, or at the end of the text. A carriage return
//! directly before the line feed belongs to the line ending. Text that ends
//! with a line ending has no empty last line.

use crate::text::{lemma_boundary_after_ascii, line_range, utf8, CARRIAGE_RETURN, NEWLINE};
use vstd::prelude::*;
use vstd::utf8::*;

verus! {

/// The position of the first line feed from `at` on, or the length of the text
/// if there is none.
pub open spec fn line_stop(bytes: Seq<u8>, at: int) -> int
    decreases bytes.len() - at,
{
    if 0 <= at < bytes.len() && bytes[at] != NEWLINE {
        line_stop(bytes, at + 1)
    } else {
        at
    }
}

/// The end of the content of the line that starts at `at`: its line ending is
/// left out.
pub open spec fn line_end(bytes: Seq<u8>, at: int) -> int {
    let stop = line_stop(bytes, at);
    if at < stop < bytes.len() && bytes[stop - 1] == CARRIAGE_RETURN {
        stop - 1
    } else {
        stop
    }
}

/// The lines of the text from byte `at` on, a line starting at `at`.
pub open spec fn lines_from(bytes: Seq<u8>, at: int) -> Seq<Seq<u8>>
    decreases bytes.len() + 1 - at,
    via lines_from_decreases
{
    if 0 <= at < bytes.len() {
        seq![bytes.subrange(at, line_end(bytes, at))] + lines_from(bytes, line_stop(bytes, at) + 1)
    } else {
        Seq::empty()
    }
}

#[via_fn]
proof fn lines_from_decreases(bytes: Seq<u8>, at: int) {
    if 0 <= at < bytes.len() {
        lemma_line_stop(bytes, at);
    }
}

/// The lines of a text.
pub open spec fn lines_of(bytes: Seq<u8>) -> Seq<Seq<u8>> {
    lines_from(bytes, 0)
}

/// The bytes of each of some texts.
pub open spec fn texts_bytes(texts: Seq<&str>) -> Seq<Seq<u8>> {
    texts.map_values(|text: &str| utf8(text@))
}

/// A line stops within the text, at its first line feed.
pub proof fn lemma_line_stop(bytes: Seq<u8>, at: int)
    requires
        0 <= at <= bytes.len(),
    ensures
        at <= line_stop(bytes, at) <= bytes.len(),
        forall|i: int| at <= i < line_stop(bytes, at) ==> #[trigger] bytes[i] != NEWLINE,
        line_stop(bytes, at) < bytes.len() ==> bytes[line_stop(bytes, at)] == NEWLINE,
    decreases bytes.len() - at,
{
    if at < bytes.len() && bytes[at] != NEWLINE {
        lemma_line_stop(bytes, at + 1);
    }
}

/// No line holds a line feed.
pub proof fn lemma_lines_hold_no_newline(bytes: Seq<u8>, at: int)
    requires
        0 <= at,
    ensures
        forall|k: int, i: int|
            0 <= k < lines_from(bytes, at).len() && 0 <= i < lines_from(bytes, at)[k].len()
                ==> #[trigger] lines_from(bytes, at)[k][i] != NEWLINE,
    decreases bytes.len() + 1 - at,
{
    if at < bytes.len() {
        lemma_line_stop(bytes, at);
        lemma_lines_hold_no_newline(bytes, line_stop(bytes, at) + 1);
        let rest = lines_from(bytes, line_stop(bytes, at) + 1);
        assert forall|k: int, i: int|
            0 <= k < lines_from(bytes, at).len() && 0 <= i < lines_from(bytes, at)[k].len()
            implies #[trigger] lines_from(bytes, at)[k][i] != NEWLINE by {
        }
    }
}

fn scan_line(bytes: &[u8], at: usize) -> (stop: usize)
    requires
        at <= bytes@.len(),
    ensures
        stop == line_stop(bytes@, at as int),
        at <= stop <= bytes@.len(),
{
    let mut stop = at;
    while stop < bytes.len() && bytes[stop] != NEWLINE
        invariant
            at <= stop <= bytes@.len(),
            line_stop(bytes@, stop as int) == line_stop(bytes@, at as int),
        decreases bytes@.len() - stop,
    {
        stop += 1;
    }
    stop
}

/// Cuts `source` into its lines.
pub fn split_lines<'a>(source: &'a str) -> (lines: Vec<&'a str>)
    ensures
        texts_bytes(lines@) == lines_of(utf8(source@)),
        forall|k: int, i: int|
            0 <= k < lines@.len() && 0 <= i < utf8(lines@[k]@).len() ==> #[trigger] utf8(
                lines@[k]@,
            )[i] != NEWLINE,
{
    broadcast use encode_utf8_valid_utf8;

    let bytes = source.as_bytes();
    let len = bytes.len();
    let mut lines: Vec<&'a str> = Vec::new();
    let mut at: usize = 0;
    while at < len
        invariant
            bytes@ == utf8(source@),
            valid_utf8(bytes@),
            len == bytes@.len(),
            at <= len,
            is_char_boundary(bytes@, at as int),
            texts_bytes(lines@) + lines_from(bytes@, at as int) == lines_of(bytes@),
        decreases len - at,
    {
        let stop = scan_line(bytes, at);
        let end = if at < stop && stop < len && bytes[stop - 1] == CARRIAGE_RETURN {
            stop - 1
        } else {
            stop
        };
        proof {
            lemma_line_stop(bytes@, at as int);
            is_char_boundary_start_end_of_seq(bytes@);
            if stop < len {
                lemma_boundary_after_ascii(bytes@, stop as int);
            }
            if end < stop {
                lemma_boundary_after_ascii(bytes@, end as int);
            }
        }
        let line = line_range(source, at, end);
        lines.push(line);
        proof {
            if stop == len {
                assert(lines_from(bytes@, stop + 1) =~= lines_from(bytes@, len as int));
            }
        }
        at = if stop < len {
            stop + 1
        } else {
            len
        };
    }
    proof {
        lemma_lines_hold_no_newline(bytes@, 0);
        assert forall|k: int, i: int|
            0 <= k < lines@.len() && 0 <= i < utf8(lines@[k]@).len() implies #[trigger] utf8(
            lines@[k]@,
        )[i] != NEWLINE by {
            assert(texts_bytes(lines@)[k] == utf8(lines@[k]@));
        }
    }
    lines
}

} // verus!
