//! Text as UTF-8 bytes.
//!
//! Every column handled by this crate is a byte offset, so the contracts speak
//! of a text through the sequence of its UTF-8 bytes.

use vstd::prelude::*;
use vstd::string::StringSliceAdditionalSpecFns;
use vstd::utf8::*;

verus! {

/// The UTF-8 bytes of a text. Columns are indices into this sequence.
pub open spec fn utf8(text: Seq<char>) -> Seq<u8> {
    encode_utf8(text)
}

/// The line feed.
pub const NEWLINE: u8 = 10;

/// The carriage return.
pub const CARRIAGE_RETURN: u8 = 13;

/// The double quote, which opens and closes a string literal.
pub const QUOTE: u8 = 34;

/// The opening parenthesis.
pub const LEFT_PAREN: u8 = 40;

/// The closing parenthesis.
pub const RIGHT_PAREN: u8 = 41;

/// The full stop.
pub const DOT: u8 = 46;

/// The equal sign.
pub const EQUALS: u8 = 61;

/// The backslash, which opens an escape sequence.
pub const BACKSLASH: u8 = 92;

/// An ASCII decimal digit.
pub open spec fn is_digit(b: u8) -> bool {
    48 <= b <= 57
}

/// An ASCII letter, upper or lower case.
pub open spec fn is_letter(b: u8) -> bool {
    65 <= b <= 90 || 97 <= b <= 122
}

/// An ASCII letter or digit.
pub open spec fn is_alnum(b: u8) -> bool {
    is_digit(b) || is_letter(b)
}

/// Whether `b` is an ASCII decimal digit.
pub fn digit_byte(b: u8) -> (r: bool)
    ensures
        r == is_digit(b),
{
    48 <= b && b <= 57
}

/// Whether `b` is an ASCII letter.
pub fn letter_byte(b: u8) -> (r: bool)
    ensures
        r == is_letter(b),
{
    (65 <= b && b <= 90) || (97 <= b && b <= 122)
}

/// Whether `b` is an ASCII letter or digit.
pub fn alnum_byte(b: u8) -> (r: bool)
    ensures
        r == is_alnum(b),
{
    digit_byte(b) || letter_byte(b)
}

/// Two texts with the same bytes are the same text.
pub proof fn lemma_utf8_injective(a: Seq<char>, b: Seq<char>)
    requires
        utf8(a) == utf8(b),
    ensures
        a == b,
{
    encode_utf8_decode_utf8(a);
    encode_utf8_decode_utf8(b);
}

/// The bytes of a concatenation are the concatenation of the bytes.
pub proof fn lemma_utf8_concat(a: Seq<char>, b: Seq<char>)
    ensures
        utf8(a + b) == utf8(a) + utf8(b),
    decreases a.len(),
{
    if a.len() > 0 {
        lemma_utf8_concat(a.drop_first(), b);
        assert((a + b).drop_first() =~= a.drop_first() + b);
    }
}

/// A text of one ASCII character has that character's code as its only byte.
pub proof fn lemma_utf8_single_ascii(c: char)
    requires
        c <= '\u{7f}',
    ensures
        utf8(seq![c]) == seq![c as u8],
{
    is_ascii_chars_encode_utf8(seq![c]);
}

/// A position just behind an ASCII byte starts a character (or ends the text).
pub proof fn lemma_boundary_after_ascii(bytes: Seq<u8>, i: int)
    requires
        valid_utf8(bytes),
        0 <= i < bytes.len(),
        bytes[i] < 0x80,
    ensures
        is_char_boundary(bytes, i),
        is_char_boundary(bytes, i + 1),
    decreases bytes.len(),
{
    reveal_with_fuel(is_char_boundary, 2);
    if i > 0 {
        lemma_boundary_after_ascii(pop_first_scalar(bytes), i - length_of_first_scalar(bytes));
    }
}

/// The position just behind the character that starts at a boundary is a
/// boundary too.
pub proof fn lemma_boundary_after_scalar(bytes: Seq<u8>, at: int)
    requires
        valid_utf8(bytes),
        0 <= at < bytes.len(),
        is_char_boundary(bytes, at),
    ensures
        is_char_boundary(
            bytes,
            at + length_of_first_scalar(bytes.subrange(at, bytes.len() as int)),
        ),
        at + length_of_first_scalar(bytes.subrange(at, bytes.len() as int)) <= bytes.len(),
    decreases bytes.len(),
{
    reveal_with_fuel(is_char_boundary, 2);
    if at > 0 {
        lemma_boundary_after_scalar(pop_first_scalar(bytes), at - length_of_first_scalar(bytes));
    }
}

/// The part of `line` from byte `start` up to byte `end`, both of which are
/// character boundaries.
pub fn line_range<'a>(line: &'a str, start: usize, end: usize) -> (part: &'a str)
    requires
        start <= end <= utf8(line@).len(),
        is_char_boundary(utf8(line@), start as int),
        is_char_boundary(utf8(line@), end as int),
    ensures
        utf8(part@) == utf8(line@).subrange(start as int, end as int),
{
    broadcast use group_utf8_lib;
    let ghost bytes = utf8(line@);
    let (head, _) = line.split_at(end);
    proof {
        let prefix = bytes.subrange(0, end as int);
        if start < end {
            is_char_boundary_iff_not_is_continuation_byte(prefix, start as int);
        }
    }
    let (_, part) = head.split_at(start);
    part
}

/// An optional text as plain mathematical data.
pub open spec fn optional_text(text: Option<String>) -> Option<Seq<char>> {
    match text {
        Some(text) => Some(text@),
        None => None,
    }
}

/// The bytes of each of some owned texts.
pub open spec fn strings_bytes(texts: Seq<String>) -> Seq<Seq<u8>> {
    texts.map_values(|text: String| utf8(text@))
}

/// The bytes of each of some texts.
pub open spec fn each_utf8(texts: Seq<Seq<char>>) -> Seq<Seq<u8>> {
    texts.map_values(|text: Seq<char>| utf8(text))
}

/// Whether `text` begins with `prefix`, byte for byte. The empty prefix begins
/// every text.
pub fn starts_with(text: &str, prefix: &str) -> (found: bool)
    ensures
        found == utf8(prefix@).is_prefix_of(utf8(text@)),
{
    let text_bytes = text.as_bytes();
    let prefix_bytes = prefix.as_bytes();
    let n = prefix_bytes.len();
    if n > text_bytes.len() {
        return false;
    }
    let mut i: usize = 0;
    while i < n
        invariant
            i <= n,
            n == prefix_bytes@.len(),
            n <= text_bytes@.len(),
            text_bytes@ == utf8(text@),
            prefix_bytes@ == utf8(prefix@),
            forall|j: int| 0 <= j < i ==> text_bytes@[j] == prefix_bytes@[j],
        decreases n - i,
    {
        if text_bytes[i] != prefix_bytes[i] {
            return false;
        }
        i += 1;
    }
    true
}

} // verus!
