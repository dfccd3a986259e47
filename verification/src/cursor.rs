//! The word under the cursor.
//!
//! A word is a run of bytes that holds no delimiter. White space and `(`
//! delimit a word on both sides; `)` delimits it on the right only.

use crate::text::{lemma_boundary_after_ascii, line_range, utf8, LEFT_PAREN, RIGHT_PAREN};
use crate::whitespace::{
    in_space, in_space_at, is_white_space, lemma_space_between_boundaries,
    lemma_white_space_encoding, space_width,
};
use vstd::prelude::*;
use vstd::utf8::*;

verus! {

/// The byte at `i` is one that a word cannot reach back over.
pub open spec fn is_left_delimiter(bytes: Seq<u8>, i: int) -> bool {
    in_space(bytes, i) || bytes[i] == LEFT_PAREN
}

/// The byte at `i` is one that a word cannot reach forward over.
pub open spec fn is_right_delimiter(bytes: Seq<u8>, i: int) -> bool {
    in_space(bytes, i) || bytes[i] == LEFT_PAREN || bytes[i] == RIGHT_PAREN
}

/// Where the word that touches `cursor` starts: just behind the nearest left
/// delimiter before the cursor, or at the start of the line.
pub open spec fn word_start(bytes: Seq<u8>, cursor: int) -> int
    decreases cursor,
{
    if 0 < cursor <= bytes.len() && !is_left_delimiter(bytes, cursor - 1) {
        word_start(bytes, cursor - 1)
    } else {
        cursor
    }
}

/// Where the word that touches `cursor` ends: at the nearest right delimiter
/// from the cursor on, or at the end of the line.
pub open spec fn word_end(bytes: Seq<u8>, cursor: int) -> int
    decreases bytes.len() - cursor,
{
    if 0 <= cursor < bytes.len() && !is_right_delimiter(bytes, cursor) {
        word_end(bytes, cursor + 1)
    } else {
        cursor
    }
}

/// The answer where the cursor touches no word.
pub open spec fn no_word() -> (Seq<u8>, int, int) {
    (Seq::empty(), 0, 0)
}

/// The word that the cursor touches in a line, with the columns at which it
/// starts and ends.
pub open spec fn word_at(bytes: Seq<u8>, cursor: int) -> (Seq<u8>, int, int) {
    if cursor > bytes.len() {
        no_word()
    } else {
        let start = word_start(bytes, cursor);
        let end = word_end(bytes, cursor);
        if start >= bytes.len() || start >= end {
            no_word()
        } else {
            (bytes.subrange(start, end), start, end)
        }
    }
}

/// A word match as plain mathematical data.
pub open spec fn word_view(found: (String, usize, usize)) -> (Seq<u8>, int, int) {
    (utf8(found.0@), found.1 as int, found.2 as int)
}

/// The start of a word lies at the start of the line or behind a delimiter,
/// and nothing between it and the cursor delimits.
pub proof fn lemma_word_start(bytes: Seq<u8>, cursor: int)
    requires
        0 <= cursor <= bytes.len(),
    ensures
        0 <= word_start(bytes, cursor) <= cursor,
        word_start(bytes, cursor) == 0 || is_left_delimiter(bytes, word_start(bytes, cursor) - 1),
        forall|i: int|
            word_start(bytes, cursor) <= i < cursor ==> !#[trigger] is_left_delimiter(bytes, i),
    decreases cursor,
{
    if 0 < cursor && !is_left_delimiter(bytes, cursor - 1) {
        lemma_word_start(bytes, cursor - 1);
    }
}

/// The end of a word lies at the end of the line or on a delimiter, and
/// nothing between the cursor and it delimits.
pub proof fn lemma_word_end(bytes: Seq<u8>, cursor: int)
    requires
        0 <= cursor <= bytes.len(),
    ensures
        cursor <= word_end(bytes, cursor) <= bytes.len(),
        word_end(bytes, cursor) == bytes.len() || is_right_delimiter(
            bytes,
            word_end(bytes, cursor),
        ),
        forall|i: int|
            cursor <= i < word_end(bytes, cursor) ==> !#[trigger] is_right_delimiter(bytes, i),
    decreases bytes.len() - cursor,
{
    if cursor < bytes.len() && !is_right_delimiter(bytes, cursor) {
        lemma_word_end(bytes, cursor + 1);
    }
}

/// A word that is not empty starts and ends at character boundaries of the
/// line, wherever the cursor stands.
pub proof fn lemma_word_between_boundaries(bytes: Seq<u8>, cursor: int)
    requires
        valid_utf8(bytes),
        0 <= cursor <= bytes.len(),
        word_start(bytes, cursor) < word_end(bytes, cursor),
    ensures
        is_char_boundary(bytes, word_start(bytes, cursor)),
        is_char_boundary(bytes, word_end(bytes, cursor)),
{
    let start = word_start(bytes, cursor);
    let end = word_end(bytes, cursor);
    lemma_word_start(bytes, cursor);
    lemma_word_end(bytes, cursor);
    is_char_boundary_start_end_of_seq(bytes);
    assert forall|i: int| start <= i < end implies !in_space(bytes, i) by {
        if i < cursor {
            assert(!is_left_delimiter(bytes, i));
        } else {
            assert(!is_right_delimiter(bytes, i));
        }
    }
    if start > 0 {
        assert(!in_space(bytes, start));
        if bytes[start - 1] == LEFT_PAREN {
            lemma_boundary_after_ascii(bytes, start - 1);
        } else if space_width(bytes, start - 1) >= 1 {
            lemma_space_between_boundaries(bytes, start - 1);
        } else if space_width(bytes, start - 2) >= 2 {
            lemma_space_between_boundaries(bytes, start - 2);
        } else {
            lemma_space_between_boundaries(bytes, start - 3);
        }
    }
    if end < bytes.len() {
        assert(!in_space(bytes, end - 1));
        if bytes[end] == LEFT_PAREN || bytes[end] == RIGHT_PAREN {
            lemma_boundary_after_ascii(bytes, end);
        } else {
            lemma_space_between_boundaries(bytes, end);
        }
    }
}

/// A cursor behind the end of the line touches no word.
pub proof fn lemma_no_word_past_the_line(bytes: Seq<u8>, cursor: int)
    requires
        cursor > bytes.len(),
    ensures
        word_at(bytes, cursor) == no_word(),
{
}

/// At the start of a line that holds nothing but white space, the cursor
/// touches no word.
pub proof fn lemma_no_word_in_blank_line(line: Seq<char>)
    requires
        forall|i: int| 0 <= i < line.len() ==> is_white_space(#[trigger] line[i]),
    ensures
        word_at(utf8(line), 0) == no_word(),
{
    if line.len() > 0 {
        lemma_white_space_encoding(line[0], utf8(line.drop_first()));
    }
}

fn left_delimiter_at(bytes: &[u8], i: usize) -> (r: bool)
    requires
        i < bytes@.len(),
    ensures
        r == is_left_delimiter(bytes@, i as int),
{
    in_space_at(bytes, i) || bytes[i] == LEFT_PAREN
}

fn right_delimiter_at(bytes: &[u8], i: usize) -> (r: bool)
    requires
        i < bytes@.len(),
    ensures
        r == is_right_delimiter(bytes@, i as int),
{
    in_space_at(bytes, i) || bytes[i] == LEFT_PAREN || bytes[i] == RIGHT_PAREN
}

/// Finds the word that the cursor touches in `line`.
pub fn get_word_in_line_col_position(line: String, cursor_column_position: usize) -> (found: (
    String,
    usize,
    usize,
))
    ensures
        word_view(found) == word_at(utf8(line@), cursor_column_position as int),
        cursor_column_position > utf8(line@).len() ==> word_view(found) == no_word(),
        cursor_column_position == 0 && (forall|i: int|
            0 <= i < line@.len() ==> is_white_space(#[trigger] line@[i])) ==> word_view(found)
            == no_word(),
{
    broadcast use encode_utf8_valid_utf8;

    let text = line.as_str();
    let bytes = text.as_bytes();
    let line_len = bytes.len();
    proof {
        if forall|i: int| 0 <= i < line@.len() ==> is_white_space(#[trigger] line@[i]) {
            lemma_no_word_in_blank_line(line@);
        }
    }
    if cursor_column_position > line_len {
        return (String::new(), 0, 0);
    }
    let mut start_word = cursor_column_position;
    while start_word > 0 && !left_delimiter_at(bytes, start_word - 1)
        invariant
            start_word <= cursor_column_position <= bytes@.len(),
            word_start(bytes@, start_word as int) == word_start(
                bytes@,
                cursor_column_position as int,
            ),
        decreases start_word,
    {
        start_word -= 1;
    }
    let mut end_word = cursor_column_position;
    while end_word < line_len && !right_delimiter_at(bytes, end_word)
        invariant
            cursor_column_position <= end_word <= line_len,
            line_len == bytes@.len(),
            word_end(bytes@, end_word as int) == word_end(bytes@, cursor_column_position as int),
        decreases line_len - end_word,
    {
        end_word += 1;
    }
    if start_word >= line_len || start_word >= end_word {
        return (String::new(), 0, 0);
    }
    proof {
        lemma_word_between_boundaries(bytes@, cursor_column_position as int);
    }
    let word = line_range(text, start_word, end_word);
    (word.to_owned(), start_word, end_word)
}

} // verus!
