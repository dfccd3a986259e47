//! Small text predicates and the escape table of string literals.

use crate::text::{
    alnum_byte, digit_byte, is_alnum, is_digit, is_letter, lemma_boundary_after_ascii,
    lemma_utf8_concat, lemma_utf8_single_ascii, letter_byte, line_range, utf8, BACKSLASH,
};
use vstd::prelude::*;
use vstd::string::StringExecFns;
use vstd::utf8::*;

verus! {

/// `part` stands in `line` at byte offset `start`, between two character
/// boundaries.
pub open spec fn matches_at(line: Seq<u8>, start: int, part: Seq<u8>) -> bool {
    &&& start + part.len() <= line.len()
    &&& is_char_boundary(line, start)
    &&& is_char_boundary(line, start + part.len())
    &&& line.subrange(start, start + part.len()) == part
}

/// The control byte that a backslash followed by `letter` stands for.
pub open spec fn escape_code(letter: u8) -> Option<u8> {
    if letter == 98 {
        Some(8u8)
    } else if letter == 102 {
        Some(12u8)
    } else if letter == 110 {
        Some(10u8)
    } else if letter == 114 {
        Some(13u8)
    } else if letter == 116 {
        Some(9u8)
    } else {
        None
    }
}

/// `bytes` with every escape sequence of the table replaced by its control
/// byte, read from left to right. A backslash before any other byte stays as
/// it is.
pub open spec fn unescaped(bytes: Seq<u8>) -> Seq<u8>
    decreases bytes.len(),
{
    if bytes.len() == 0 {
        bytes
    } else if bytes.len() >= 2 && bytes[0] == BACKSLASH && escape_code(bytes[1]) is Some {
        seq![escape_code(bytes[1])->0] + unescaped(bytes.skip(2))
    } else {
        seq![bytes[0]] + unescaped(bytes.skip(1))
    }
}

/// One step of `unescaped`, taken in the middle of a sequence.
pub proof fn lemma_unescaped_step(bytes: Seq<u8>, i: int)
    requires
        0 <= i < bytes.len(),
    ensures
        i + 1 < bytes.len() && bytes[i] == BACKSLASH && escape_code(bytes[i + 1]) is Some
            ==> unescaped(bytes.skip(i)) == seq![escape_code(bytes[i + 1])->0] + unescaped(
            bytes.skip(i + 2),
        ),
        !(i + 1 < bytes.len() && bytes[i] == BACKSLASH && escape_code(bytes[i + 1]) is Some)
            ==> unescaped(bytes.skip(i)) == seq![bytes[i]] + unescaped(bytes.skip(i + 1)),
{
    let rest = bytes.skip(i);
    assert(rest.skip(1) =~= bytes.skip(i + 1));
    if i + 1 < bytes.len() {
        assert(rest.skip(2) =~= bytes.skip(i + 2));
    }
}

/// A text that holds no backslash has no escape sequence to replace.
pub proof fn lemma_unescaped_without_backslash(bytes: Seq<u8>)
    requires
        forall|i: int| 0 <= i < bytes.len() ==> #[trigger] bytes[i] != BACKSLASH,
    ensures
        unescaped(bytes) == bytes,
    decreases bytes.len(),
{
    if bytes.len() > 0 {
        lemma_unescaped_without_backslash(bytes.skip(1));
    }
}

/// Whether `next_chars` stands in `line` at byte offset `start`. The answer
/// is no where the line is too short, and where the part asked for does not
/// lie between two character boundaries.
pub fn rest_matches(start: usize, line: &str, next_chars: &str) -> (found: bool)
    ensures
        found == matches_at(utf8(line@), start as int, utf8(next_chars@)),
{
    let line_bytes = line.as_bytes();
    let part_bytes = next_chars.as_bytes();
    let line_len = line_bytes.len();
    let part_len = part_bytes.len();
    if start > line_len || part_len > line_len - start {
        return false;
    }
    if !line.is_char_boundary(start) || !line.is_char_boundary(start + part_len) {
        return false;
    }
    let mut i: usize = 0;
    while i < part_len
        invariant
            i <= part_len,
            line_bytes@ == utf8(line@),
            part_bytes@ == utf8(next_chars@),
            part_len == part_bytes@.len(),
            line_len == line_bytes@.len(),
            start + part_len <= line_len,
            is_char_boundary(line_bytes@, start as int),
            is_char_boundary(line_bytes@, start + part_len),
            line_bytes@.subrange(start as int, start + i) == part_bytes@.subrange(0, i as int),
        decreases part_len - i,
    {
        if line_bytes[start + i] != part_bytes[i] {
            return false;
        }
        i += 1;
    }
    assert(part_bytes@.subrange(0, part_len as int) =~= part_bytes@);
    true
}

/// Whether the text holds nothing but ASCII digits. The empty text does.
pub fn is_numeric(str: &str) -> (all: bool)
    ensures
        all == (forall|i: int| 0 <= i < utf8(str@).len() ==> is_digit(#[trigger] utf8(str@)[i])),
{
    let bytes = str.as_bytes();
    let mut i: usize = 0;
    while i < bytes.len()
        invariant
            i <= bytes@.len(),
            bytes@ == utf8(str@),
            forall|j: int| 0 <= j < i ==> is_digit(#[trigger] bytes@[j]),
        decreases bytes@.len() - i,
    {
        if !digit_byte(bytes[i]) {
            return false;
        }
        i += 1;
    }
    true
}

/// Whether the text holds nothing but ASCII letters. The empty text does.
pub fn is_alpha(str: &str) -> (all: bool)
    ensures
        all == (forall|i: int| 0 <= i < utf8(str@).len() ==> is_letter(#[trigger] utf8(str@)[i])),
{
    let bytes = str.as_bytes();
    let mut i: usize = 0;
    while i < bytes.len()
        invariant
            i <= bytes@.len(),
            bytes@ == utf8(str@),
            forall|j: int| 0 <= j < i ==> is_letter(#[trigger] bytes@[j]),
        decreases bytes@.len() - i,
    {
        if !letter_byte(bytes[i]) {
            return false;
        }
        i += 1;
    }
    true
}

/// Whether the text holds nothing but ASCII letters and digits. The empty
/// text does.
pub fn is_alphanumeric(str: &str) -> (all: bool)
    ensures
        all == (forall|i: int| 0 <= i < utf8(str@).len() ==> is_alnum(#[trigger] utf8(str@)[i])),
{
    let bytes = str.as_bytes();
    let mut i: usize = 0;
    while i < bytes.len()
        invariant
            i <= bytes@.len(),
            bytes@ == utf8(str@),
            forall|j: int| 0 <= j < i ==> is_alnum(#[trigger] bytes@[j]),
        decreases bytes@.len() - i,
    {
        if !alnum_byte(bytes[i]) {
            return false;
        }
        i += 1;
    }
    true
}

/// The one-character text that an escape letter stands for.
fn control_text(letter: u8) -> (text: Option<&'static str>)
    ensures
        match text {
            Some(t) => escape_code(letter) is Some && utf8(t@) == seq![escape_code(letter)->0],
            None => escape_code(letter) is None,
        },
{
    if letter == 98 {
        proof {
            reveal_strlit("\u{8}");
            lemma_utf8_single_ascii('\u{8}');
            assert("\u{8}"@ =~= seq!['\u{8}']);
        }
        Some("\u{8}")
    } else if letter == 102 {
        proof {
            reveal_strlit("\u{c}");
            lemma_utf8_single_ascii('\u{c}');
            assert("\u{c}"@ =~= seq!['\u{c}']);
        }
        Some("\u{c}")
    } else if letter == 110 {
        proof {
            reveal_strlit("\n");
            lemma_utf8_single_ascii('\n');
            assert("\n"@ =~= seq!['\n']);
        }
        Some("\n")
    } else if letter == 114 {
        proof {
            reveal_strlit("\r");
            lemma_utf8_single_ascii('\r');
            assert("\r"@ =~= seq!['\r']);
        }
        Some("\r")
    } else if letter == 116 {
        proof {
            reveal_strlit("\t");
            lemma_utf8_single_ascii('\t');
            assert("\t"@ =~= seq!['\t']);
        }
        Some("\t")
    } else {
        None
    }
}

/// Replaces the escape sequences `\b`, `\f`, `\n`, `\r` and `\t` by the
/// control characters they stand for: backspace, form feed, line feed,
/// carriage return and tab. Every other backslash stays, with what follows it.
pub fn invert_escape(src: String) -> (out: String)
    ensures
        utf8(out@) == unescaped(utf8(src@)),
{
    broadcast use encode_utf8_valid_utf8;

    let text = src.as_str();
    let bytes = text.as_bytes();
    let len = bytes.len();
    let mut out = String::new();
    let mut kept: usize = 0;
    let mut i: usize = 0;
    proof {
        assert(bytes@.skip(0) =~= bytes@);
    }
    while i < len
        invariant
            bytes@ == utf8(text@),
            valid_utf8(bytes@),
            len == bytes@.len(),
            kept <= i <= len,
            is_char_boundary(bytes@, kept as int),
            utf8(out@) + bytes@.subrange(kept as int, i as int) + unescaped(bytes@.skip(i as int))
                == unescaped(bytes@),
        decreases len - i,
    {
        proof {
            lemma_unescaped_step(bytes@, i as int);
        }
        let control = if bytes[i] == BACKSLASH && i + 1 < len {
            control_text(bytes[i + 1])
        } else {
            None
        };
        match control {
            Some(replacement) => {
                let ghost at = i as int;
                proof {
                    lemma_boundary_after_ascii(bytes@, at);
                    lemma_boundary_after_ascii(bytes@, at + 1);
                }
                let verbatim = line_range(text, kept, i);
                proof {
                    lemma_utf8_concat(out@, verbatim@);
                }
                out.append(verbatim);
                proof {
                    lemma_utf8_concat(out@, replacement@);
                }
                out.append(replacement);
                i += 2;
                kept = i;
            },
            None => {
                i += 1;
            },
        }
    }
    proof {
        is_char_boundary_start_end_of_seq(bytes@);
    }
    let verbatim = line_range(text, kept, len);
    proof {
        lemma_utf8_concat(out@, verbatim@);
    }
    out.append(verbatim);
    out
}

} // verus!
