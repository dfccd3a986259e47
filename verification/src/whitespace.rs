//! White space, as characters and as UTF-8 bytes.
//!
//! The white-space characters are those that Unicode marks as `White_Space`.
//! Six of them are ASCII; the others are encoded in two or three bytes, so a
//! byte of a line is white space when it is part of the encoding of such a
//! character.

use crate::text::lemma_boundary_after_scalar;
use vstd::prelude::*;
use vstd::utf8::*;

verus! {

/// The code of a white-space character.
pub open spec fn is_white_space_code(code: u32) -> bool {
    ||| 0x09 <= code <= 0x0d
    ||| code == 0x20
    ||| code == 0x85
    ||| code == 0xa0
    ||| code == 0x1680
    ||| 0x2000 <= code <= 0x200a
    ||| code == 0x2028
    ||| code == 0x2029
    ||| code == 0x202f
    ||| code == 0x205f
    ||| code == 0x3000
}

/// A white-space character.
pub open spec fn is_white_space(c: char) -> bool {
    is_white_space_code(c as u32)
}

/// An ASCII white-space character as its one byte: tab, line feed, vertical
/// tab, form feed, carriage return or space.
pub open spec fn is_space(b: u8) -> bool {
    0x09 <= b <= 0x0d || b == 0x20
}

/// The two bytes of U+0085 or of U+00A0.
pub open spec fn is_space_of_two(b0: u8, b1: u8) -> bool {
    b0 == 0xc2 && (b1 == 0x85 || b1 == 0xa0)
}

/// The three bytes of U+1680, of U+2000 to U+200A, of U+2028, U+2029,
/// U+202F, U+205F or of U+3000.
pub open spec fn is_space_of_three(b0: u8, b1: u8, b2: u8) -> bool {
    ||| b0 == 0xe1 && b1 == 0x9a && b2 == 0x80
    ||| b0 == 0xe2 && b1 == 0x80 && (0x80 <= b2 <= 0x8a || b2 == 0xa8 || b2 == 0xa9 || b2 == 0xaf)
    ||| b0 == 0xe2 && b1 == 0x81 && b2 == 0x9f
    ||| b0 == 0xe3 && b1 == 0x80 && b2 == 0x80
}

/// The number of bytes of the white-space character whose encoding starts at
/// `at`; 0 where none starts there.
pub open spec fn space_width(bytes: Seq<u8>, at: int) -> int {
    if at < 0 || at >= bytes.len() {
        0
    } else if is_space(bytes[at]) {
        1
    } else if at + 1 < bytes.len() && is_space_of_two(bytes[at], bytes[at + 1]) {
        2
    } else if at + 2 < bytes.len() && is_space_of_three(bytes[at], bytes[at + 1], bytes[at + 2]) {
        3
    } else {
        0
    }
}

/// The byte at `i` is part of a white-space character.
pub open spec fn in_space(bytes: Seq<u8>, i: int) -> bool {
    space_width(bytes, i) >= 1 || space_width(bytes, i - 1) >= 2 || space_width(bytes, i - 2) >= 3
}

/// The encoding of a white-space character is recognised as one, whatever
/// follows it.
pub proof fn lemma_white_space_encoding(c: char, rest: Seq<u8>)
    requires
        is_white_space(c),
    ensures
        space_width(encode_scalar(c as u32) + rest, 0) == encode_scalar(c as u32).len(),
        encode_scalar(c as u32).len() >= 1,
{
    let code = c as u32;
    if has_width_1_encoding(code) {
        assert(is_space(leading_byte_width_1(code))) by (bit_vector)
            requires
                0x09 <= code <= 0x0d || code == 0x20,
        ;
    } else if has_width_2_encoding(code) {
        assert(is_space_of_two(leading_byte_width_2(code), last_continuation_byte(code)))
            by (bit_vector)
            requires
                code == 0x85 || code == 0xa0,
        ;
    } else {
        assert(is_space_of_three(
            leading_byte_width_3(code),
            second_last_continuation_byte(code),
            last_continuation_byte(code),
        )) by (bit_vector)
            requires
                code == 0x1680 || 0x2000 <= code <= 0x200a || code == 0x2028 || code == 0x2029
                    || code == 0x202f || code == 0x205f || code == 0x3000,
        ;
    }
}

/// What is recognised as a white-space character at `at` decodes to one, of
/// the width that was recognised.
pub proof fn lemma_recognised_space_decodes(bytes: Seq<u8>, at: int)
    requires
        space_width(bytes, at) >= 1,
    ensures
        is_white_space_code(decode_first_scalar(bytes.subrange(at, bytes.len() as int))),
        length_of_first_scalar(bytes.subrange(at, bytes.len() as int)) == space_width(bytes, at),
        valid_first_scalar(bytes.subrange(at, bytes.len() as int)),
{
    let tail = bytes.subrange(at, bytes.len() as int);
    let b0 = tail[0];
    if is_space(b0) {
        assert(is_white_space_code(codepoint_width_1(b0))) by (bit_vector)
            requires
                is_space(b0),
        ;
    } else if at + 1 < bytes.len() && is_space_of_two(bytes[at], bytes[at + 1]) {
        let b1 = tail[1];
        assert(is_white_space_code(codepoint_width_2(b0, b1)) && 0x80 <= codepoint_width_2(b0, b1))
            by (bit_vector)
            requires
                is_space_of_two(b0, b1),
        ;
    } else {
        let b1 = tail[1];
        let b2 = tail[2];
        assert(is_white_space_code(codepoint_width_3(b0, b1, b2)) && 0x800 <= codepoint_width_3(
            b0,
            b1,
            b2,
        ) < 0xd800) by (bit_vector)
            requires
                is_space_of_three(b0, b1, b2),
        ;
    }
}

/// In a text, a white-space character that is recognised at `at` stands
/// between two character boundaries.
pub proof fn lemma_space_between_boundaries(bytes: Seq<u8>, at: int)
    requires
        valid_utf8(bytes),
        space_width(bytes, at) >= 1,
    ensures
        is_char_boundary(bytes, at),
        is_char_boundary(bytes, at + space_width(bytes, at)),
        at + space_width(bytes, at) <= bytes.len(),
{
    is_char_boundary_iff_not_is_continuation_byte(bytes, at);
    lemma_boundary_after_scalar(bytes, at);
}

fn space_byte(b: u8) -> (r: bool)
    ensures
        r == is_space(b),
{
    (0x09 <= b && b <= 0x0d) || b == 0x20
}

fn space_of_three(b0: u8, b1: u8, b2: u8) -> (r: bool)
    ensures
        r == is_space_of_three(b0, b1, b2),
{
    (b0 == 0xe1 && b1 == 0x9a && b2 == 0x80) || (b0 == 0xe2 && b1 == 0x80 && ((0x80 <= b2 && b2
        <= 0x8a) || b2 == 0xa8 || b2 == 0xa9 || b2 == 0xaf)) || (b0 == 0xe2 && b1 == 0x81 && b2
        == 0x9f) || (b0 == 0xe3 && b1 == 0x80 && b2 == 0x80)
}

/// The width of the white-space character that starts at `at`, if one does.
pub fn space_width_at(bytes: &[u8], at: usize) -> (width: usize)
    requires
        at < bytes@.len(),
    ensures
        width == space_width(bytes@, at as int),
{
    let len = bytes.len();
    if space_byte(bytes[at]) {
        1
    } else if at + 1 < len && bytes[at] == 0xc2 && (bytes[at + 1] == 0x85 || bytes[at + 1] == 0xa0) {
        2
    } else if at + 1 < len && at + 2 < len && space_of_three(bytes[at], bytes[at + 1], bytes[at + 2]) {
        3
    } else {
        0
    }
}

/// Whether the byte at `i` is part of a white-space character.
pub fn in_space_at(bytes: &[u8], i: usize) -> (r: bool)
    requires
        i < bytes@.len(),
    ensures
        r == in_space(bytes@, i as int),
{
    space_width_at(bytes, i) >= 1 || (i >= 1 && space_width_at(bytes, i - 1) >= 2) || (i >= 2
        && space_width_at(bytes, i - 2) >= 3)
}

} // verus!
