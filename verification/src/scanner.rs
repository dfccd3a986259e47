//! The scanner: from source text to tokens.
//!
//! A source is cut into lines, every line is scanned on its own from left to
//! right over its bytes, and one end-of-file token closes the result. A
//! literal that cannot be scanned yields no token and costs one byte.

use crate::helpers::{invert_escape, unescaped};
use crate::keywords::{get_keywords_hash, keyword_of, lemma_keyword_table};
use crate::lines::{lines_of, split_lines, texts_bytes};
use crate::text::{
    digit_byte, is_digit, is_letter, lemma_boundary_after_ascii, lemma_utf8_injective,
    lemma_utf8_single_ascii, letter_byte, line_range, utf8, BACKSLASH, DOT,
    EQUALS, LEFT_PAREN, NEWLINE, QUOTE, RIGHT_PAREN,
};
use crate::types::{
    token_views, Literal, LiteralView, ScanError, ScanErrorView, ScanResult, Token, TokenType,
    TokenView,
};
use vstd::prelude::*;
use vstd::string::StringExecFns;
use vstd::utf8::*;

verus! {

/// Whether `b` may stand in a run: a digit, or, where `letters` is set, a
/// letter too.
pub open spec fn in_run(b: u8, letters: bool) -> bool {
    is_digit(b) || (letters && is_letter(b))
}

/// The end of the longest run that starts at `at`.
pub open spec fn run_end(bytes: Seq<u8>, at: int, letters: bool) -> int
    decreases bytes.len() - at,
{
    if 0 <= at < bytes.len() && in_run(bytes[at], letters) {
        run_end(bytes, at + 1, letters)
    } else {
        at
    }
}

/// Whether the byte at `p` ends the body of a string literal that starts at
/// `start`: a line feed, or a quote that no backslash stands directly before.
pub open spec fn ends_string(bytes: Seq<u8>, start: int, p: int) -> bool {
    bytes[p] == NEWLINE || (bytes[p] == QUOTE && !(p > start && bytes[p - 1] == BACKSLASH))
}

/// The first position from `p` on that ends the string body, or the length of
/// the line if there is none.
pub open spec fn string_stop(bytes: Seq<u8>, start: int, p: int) -> int
    decreases bytes.len() - p,
{
    if 0 <= p < bytes.len() && !ends_string(bytes, start, p) {
        string_stop(bytes, start, p + 1)
    } else {
        p
    }
}

/// A token without a literal.
pub open spec fn plain_token(token_type: TokenType, line: int, col: int) -> TokenView {
    TokenView { token_type, line, col, literal: None }
}

/// The token that ends every scan of a whole source.
pub open spec fn eof_token() -> TokenView {
    plain_token(TokenType::Eof, 0, 0)
}

/// What scanning a string literal gives, the opening quote being at `at`: the
/// token and the number of bytes it covers, quotes included. The token's
/// column is that of the first byte behind the opening quote.
pub open spec fn string_at(bytes: Seq<u8>, line: int, at: int) -> Result<
    (TokenView, int),
    ScanErrorView,
> {
    let start = at + 1;
    let stop = string_stop(bytes, start, start);
    if stop < bytes.len() && bytes[stop] == QUOTE {
        Ok(
            (
                TokenView {
                    token_type: TokenType::String,
                    line,
                    col: start,
                    literal: Some(LiteralView::String(unescaped(bytes.subrange(start, stop)))),
                },
                stop + 1 - at,
            ),
        )
    } else {
        Err(ScanErrorView { message: "Unterminated string"@, col: start })
    }
}

/// The error for a digit run that `found` spoils at column `col`.
pub open spec fn number_error(found: Seq<char>, col: int) -> ScanErrorView {
    ScanErrorView { message: "Expected a `number` instead `"@ + found + "`"@, col }
}

/// What scanning a number gives, its first digit being at `at`.
///
/// The run of digits is refused when a letter follows it, and when a dot
/// follows it that a letter or the end of the line follows in turn.
pub open spec fn number_at(bytes: Seq<u8>, line: int, at: int) -> Result<
    (TokenView, int),
    ScanErrorView,
> {
    let end = run_end(bytes, at, false);
    if end < bytes.len() && is_letter(bytes[end]) {
        Err(number_error(seq![bytes[end] as char], end))
    } else if end < bytes.len() && bytes[end] == DOT && end + 1 >= bytes.len() {
        Err(number_error(seq!['\0'], end + 1))
    } else if end < bytes.len() && bytes[end] == DOT && is_letter(bytes[end + 1]) {
        Err(number_error(seq![bytes[end + 1] as char], end + 1))
    } else {
        Ok(
            (
                TokenView {
                    token_type: TokenType::Number,
                    line,
                    col: at,
                    literal: Some(LiteralView::Number(bytes.subrange(at, end))),
                },
                end - at,
            ),
        )
    }
}

/// What scanning a word gives, its first letter being at `at`: a keyword's
/// token without a literal, or an identifier that carries the word.
pub open spec fn identifier_at(bytes: Seq<u8>, line: int, at: int) -> (TokenView, int) {
    let end = run_end(bytes, at, true);
    let word = bytes.subrange(at, end);
    (
        match keyword_of(word) {
            Some(token_type) => plain_token(token_type, line, at),
            None => TokenView {
                token_type: TokenType::Identifier,
                line,
                col: at,
                literal: Some(LiteralView::Identifier(word)),
            },
        },
        end - at,
    )
}

/// One step of the scan of a line: the token found at `at`, if any, and the
/// position at which the scan goes on.
pub struct Step {
    pub token: Option<TokenView>,
    pub next: int,
}

/// The step taken at `at`, by the first of these rules that applies:
/// a parenthesis is a token; an equal sign is a token unless another follows
/// it directly, in which case both are passed over; a quote opens a string, a
/// digit a number, a letter a word; every other byte, white space included,
/// is passed over. A string or number that cannot be scanned costs one byte.
pub open spec fn step_at(bytes: Seq<u8>, line: int, at: int) -> Step {
    let b = bytes[at];
    if b == LEFT_PAREN {
        Step { token: Some(plain_token(TokenType::LeftParen, line, at)), next: at + 1 }
    } else if b == RIGHT_PAREN {
        Step { token: Some(plain_token(TokenType::RightParen, line, at)), next: at + 1 }
    } else if b == EQUALS {
        if at + 1 < bytes.len() && bytes[at + 1] == EQUALS {
            Step { token: None, next: at + 2 }
        } else {
            Step { token: Some(plain_token(TokenType::Equal, line, at)), next: at + 1 }
        }
    } else if b == QUOTE {
        match string_at(bytes, line, at) {
            Ok((token, skip)) => Step { token: Some(token), next: at + skip },
            Err(_) => Step { token: None, next: at + 1 },
        }
    } else if is_digit(b) {
        match number_at(bytes, line, at) {
            Ok((token, skip)) => Step { token: Some(token), next: at + skip },
            Err(_) => Step { token: None, next: at + 1 },
        }
    } else if is_letter(b) {
        let (token, skip) = identifier_at(bytes, line, at);
        Step { token: Some(token), next: at + skip }
    } else {
        Step { token: None, next: at + 1 }
    }
}

/// The tokens of a line from byte `at` on.
pub open spec fn line_tokens_from(bytes: Seq<u8>, line: int, at: int) -> Seq<TokenView>
    decreases bytes.len() - at,
    via line_tokens_from_decreases
{
    if 0 <= at < bytes.len() {
        let step = step_at(bytes, line, at);
        let rest = line_tokens_from(bytes, line, step.next);
        match step.token {
            Some(token) => seq![token] + rest,
            None => rest,
        }
    } else {
        Seq::empty()
    }
}

#[via_fn]
proof fn line_tokens_from_decreases(bytes: Seq<u8>, line: int, at: int) {
    if 0 <= at < bytes.len() {
        lemma_step_advances(bytes, line, at);
    }
}

/// The tokens of one line, `line` being its number.
pub open spec fn line_tokens(bytes: Seq<u8>, line: int) -> Seq<TokenView> {
    line_tokens_from(bytes, line, 0)
}

/// A run ends within the line, holds only bytes of its class, and cannot be
/// made longer.
pub proof fn lemma_run_end(bytes: Seq<u8>, at: int, letters: bool)
    requires
        0 <= at <= bytes.len(),
    ensures
        at <= run_end(bytes, at, letters) <= bytes.len(),
        forall|i: int| at <= i < run_end(bytes, at, letters) ==> in_run(#[trigger] bytes[i], letters),
        run_end(bytes, at, letters) < bytes.len() ==> !in_run(
            bytes[run_end(bytes, at, letters)],
            letters,
        ),
        at < bytes.len() && in_run(bytes[at], letters) ==> at < run_end(bytes, at, letters),
    decreases bytes.len() - at,
{
    if at < bytes.len() && in_run(bytes[at], letters) {
        lemma_run_end(bytes, at + 1, letters);
    }
}

/// The body of a string stops within the line, at the first byte that ends it.
pub proof fn lemma_string_stop(bytes: Seq<u8>, start: int, p: int)
    requires
        0 <= p <= bytes.len(),
    ensures
        p <= string_stop(bytes, start, p) <= bytes.len(),
        forall|i: int| p <= i < string_stop(bytes, start, p) ==> !ends_string(bytes, start, i),
        string_stop(bytes, start, p) < bytes.len() ==> ends_string(
            bytes,
            start,
            string_stop(bytes, start, p),
        ),
    decreases bytes.len() - p,
{
    if p < bytes.len() && !ends_string(bytes, start, p) {
        lemma_string_stop(bytes, start, p + 1);
    }
}

/// Every step moves forward and stays within the line.
pub proof fn lemma_step_advances(bytes: Seq<u8>, line: int, at: int)
    requires
        0 <= at < bytes.len(),
    ensures
        at < step_at(bytes, line, at).next <= bytes.len(),
{
    lemma_run_end(bytes, at, false);
    lemma_run_end(bytes, at, true);
    lemma_string_stop(bytes, at + 1, at + 1);
}

/// The outcome of a sub-scanner as plain mathematical data.
pub open spec fn scanned_view(outcome: Result<(Token, usize), ScanError>) -> Result<
    (TokenView, int),
    ScanErrorView,
> {
    match outcome {
        Ok((token, skip)) => Ok((token@, skip as int)),
        Err(error) => Err(error@),
    }
}

fn in_run_byte(b: u8, letters: bool) -> (r: bool)
    ensures
        r == in_run(b, letters),
{
    digit_byte(b) || (letters && letter_byte(b))
}

fn scan_run(bytes: &[u8], at: usize, letters: bool) -> (end: usize)
    requires
        at <= bytes@.len(),
    ensures
        end == run_end(bytes@, at as int, letters),
{
    let mut end = at;
    while end < bytes.len() && in_run_byte(bytes[end], letters)
        invariant
            at <= end <= bytes@.len(),
            run_end(bytes@, end as int, letters) == run_end(bytes@, at as int, letters),
        decreases bytes@.len() - end,
    {
        end += 1;
    }
    end
}

fn ends_string_byte(bytes: &[u8], start: usize, p: usize) -> (r: bool)
    requires
        start <= p < bytes@.len(),
    ensures
        r == ends_string(bytes@, start as int, p as int),
{
    bytes[p] == NEWLINE || (bytes[p] == QUOTE && !(p > start && bytes[p - 1] == BACKSLASH))
}

fn scan_string_body(bytes: &[u8], start: usize) -> (stop: usize)
    requires
        start <= bytes@.len(),
    ensures
        stop == string_stop(bytes@, start as int, start as int),
        start <= stop <= bytes@.len(),
{
    let mut stop = start;
    while stop < bytes.len() && !ends_string_byte(bytes, start, stop)
        invariant
            start <= stop <= bytes@.len(),
            string_stop(bytes@, start as int, stop as int) == string_stop(
                bytes@,
                start as int,
                start as int,
            ),
        decreases bytes@.len() - stop,
    {
        stop += 1;
    }
    stop
}

/// Scans the string literal whose opening quote is at `start_param`.
pub fn string(line: &str, line_count: usize, start_param: usize) -> (outcome: Result<
    (Token, usize),
    ScanError,
>)
    requires
        start_param < utf8(line@).len(),
        utf8(line@)[start_param as int] == QUOTE,
    ensures
        scanned_view(outcome) == string_at(utf8(line@), line_count as int, start_param as int),
{
    broadcast use encode_utf8_valid_utf8;

    let bytes = line.as_bytes();
    let len = bytes.len();
    let start = start_param + 1;
    let stop = scan_string_body(bytes, start);
    if stop < len && bytes[stop] == QUOTE {
        proof {
            lemma_boundary_after_ascii(bytes@, start_param as int);
            lemma_boundary_after_ascii(bytes@, stop as int);
        }
        let body = line_range(line, start, stop);
        let text = invert_escape(body.to_owned());
        Ok(
            (
                Token {
                    token_type: TokenType::String,
                    line: line_count,
                    col: start,
                    literal: Some(Literal::String(text)),
                },
                stop + 1 - start_param,
            ),
        )
    } else {
        Err(ScanError { message: String::from_str("Unterminated string"), col: start })
    }
}

fn number_failure(found: &str, col: usize) -> (error: ScanError)
    ensures
        error@ == number_error(found@, col as int),
{
    let mut message = String::from_str("Expected a `number` instead `");
    message.append(found);
    message.append("`");
    ScanError { message, col }
}

/// The byte at `at`, which is ASCII, as a text of its own.
fn ascii_at(line: &str, at: usize) -> (found: &str)
    requires
        at < utf8(line@).len(),
        utf8(line@)[at as int] < 0x80,
    ensures
        found@ == seq![utf8(line@)[at as int] as char],
{
    broadcast use encode_utf8_valid_utf8;

    let len = line.as_bytes().len();
    proof {
        lemma_boundary_after_ascii(utf8(line@), at as int);
    }
    let found = line_range(line, at, at + 1);
    proof {
        let b = utf8(line@)[at as int];
        let c = b as char;
        lemma_utf8_single_ascii(c);
        lemma_utf8_injective(found@, seq![c]);
    }
    found
}

/// Scans the number whose first digit is at `start_param`.
pub fn number(line: &str, line_count: usize, start_param: usize) -> (outcome: Result<
    (Token, usize),
    ScanError,
>)
    requires
        start_param < utf8(line@).len(),
        is_digit(utf8(line@)[start_param as int]),
    ensures
        scanned_view(outcome) == number_at(utf8(line@), line_count as int, start_param as int),
{
    broadcast use encode_utf8_valid_utf8;

    let bytes = line.as_bytes();
    let len = bytes.len();
    let end = scan_run(bytes, start_param, false);
    proof {
        lemma_run_end(bytes@, start_param as int, false);
    }
    if end < len && letter_byte(bytes[end]) {
        Err(number_failure(ascii_at(line, end), end))
    } else if end < len && bytes[end] == DOT && end + 1 >= len {
        proof {
            reveal_strlit("\0");
            assert("\0"@ =~= seq!['\0']);
        }
        Err(number_failure("\0", end + 1))
    } else if end < len && bytes[end] == DOT && letter_byte(bytes[end + 1]) {
        Err(number_failure(ascii_at(line, end + 1), end + 1))
    } else {
        proof {
            lemma_boundary_after_ascii(bytes@, start_param as int);
            lemma_boundary_after_ascii(bytes@, end - 1);
        }
        let digits = line_range(line, start_param, end);
        Ok(
            (
                Token {
                    token_type: TokenType::Number,
                    line: line_count,
                    col: start_param,
                    literal: Some(Literal::Number(digits.to_owned())),
                },
                end - start_param,
            ),
        )
    }
}

/// Scans the word whose first letter is at `start_param`.
pub fn identifier(line: &str, line_count: usize, start_param: usize) -> (found: (Token, usize))
    requires
        start_param < utf8(line@).len(),
        is_letter(utf8(line@)[start_param as int]),
    ensures
        found.0@ == identifier_at(utf8(line@), line_count as int, start_param as int).0,
        found.1 == identifier_at(utf8(line@), line_count as int, start_param as int).1,
{
    broadcast use encode_utf8_valid_utf8;

    let bytes = line.as_bytes();
    let end = scan_run(bytes, start_param, true);
    proof {
        lemma_run_end(bytes@, start_param as int, true);
        lemma_boundary_after_ascii(bytes@, start_param as int);
        lemma_boundary_after_ascii(bytes@, end - 1);
    }
    let text = line_range(line, start_param, end);
    let keywords = get_keywords_hash();
    proof {
        lemma_keyword_table(text@);
    }
    match keywords.get(text) {
        Some(token_type) => (
            Token { token_type: *token_type, line: line_count, col: start_param, literal: None },
            end - start_param,
        ),
        None => (
            Token {
                token_type: TokenType::Identifier,
                line: line_count,
                col: start_param,
                literal: Some(Literal::Identifier(text.to_owned())),
            },
            end - start_param,
        ),
    }
}

/// Scans one line; `line_count` is the line's number, which every token
/// found carries.
pub fn scan_tokens_in_line(line: &str, line_count: usize) -> (tokens: Vec<Token>)
    ensures
        token_views(tokens@) == line_tokens(utf8(line@), line_count as int),
        forall|i: int|
            0 <= i < tokens@.len() ==> {
                let token = #[trigger] tokens@[i];
                &&& token@.well_formed()
                &&& token.token_type != TokenType::Eof
                &&& token.line == line_count
                &&& token.col <= utf8(line@).len()
            },
{
    let bytes = line.as_bytes();
    let end_of_line = bytes.len();
    let mut tokens: Vec<Token> = Vec::new();
    let mut index: usize = 0;
    while index < end_of_line
        invariant
            bytes@ == utf8(line@),
            end_of_line == bytes@.len(),
            index <= end_of_line,
            token_views(tokens@) + line_tokens_from(bytes@, line_count as int, index as int)
                == line_tokens(bytes@, line_count as int),
        decreases end_of_line - index,
    {
        proof {
            lemma_step_advances(bytes@, line_count as int, index as int);
        }
        let b = bytes[index];
        let mut found: Option<Token> = None;
        let mut skip: usize = 1;
        if b == LEFT_PAREN {
            found = Some(
                Token { token_type: TokenType::LeftParen, line: line_count, col: index, literal: None },
            );
        } else if b == RIGHT_PAREN {
            found = Some(
                Token { token_type: TokenType::RightParen, line: line_count, col: index, literal: None },
            );
        } else if b == EQUALS {
            if index + 1 < end_of_line && bytes[index + 1] == EQUALS {
                skip = 2;
            } else {
                found = Some(
                    Token { token_type: TokenType::Equal, line: line_count, col: index, literal: None },
                );
            }
        } else if b == QUOTE {
            match string(line, line_count, index) {
                Ok((token, covered)) => {
                    found = Some(token);
                    skip = covered;
                },
                Err(_) => {},
            }
        } else if digit_byte(b) {
            match number(line, line_count, index) {
                Ok((token, covered)) => {
                    found = Some(token);
                    skip = covered;
                },
                Err(_) => {},
            }
        } else if letter_byte(b) {
            let (token, covered) = identifier(line, line_count, index);
            found = Some(token);
            skip = covered;
        }
        if let Some(token) = found {
            tokens.push(token);
        }
        index += skip;
    }
    proof {
        lemma_line_tokens_sound(bytes@, line_count as int, 0);
        assert forall|i: int| 0 <= i < tokens@.len() implies {
            let token = #[trigger] tokens@[i];
            &&& token@.well_formed()
            &&& token.token_type != TokenType::Eof
            &&& token.line == line_count
            &&& token.col <= utf8(line@).len()
        } by {
            assert(token_views(tokens@)[i] == tokens@[i]@);
        }
    }
    tokens
}

/// The tokens of the first `n` of some lines, line after line.
pub open spec fn lines_tokens(lines: Seq<Seq<u8>>, n: int) -> Seq<TokenView>
    decreases n,
{
    if n <= 0 {
        Seq::empty()
    } else {
        lines_tokens(lines, n - 1) + line_tokens(lines[n - 1], n - 1)
    }
}

/// The tokens of a whole source: those of its lines, then the end-of-file
/// token.
pub open spec fn source_tokens(source: Seq<u8>) -> Seq<TokenView> {
    let lines = lines_of(source);
    lines_tokens(lines, lines.len() as int) + seq![eof_token()]
}

/// Every token found in a line is well formed and no end-of-file token; it
/// carries the line's number and a column within the line.
pub proof fn lemma_line_tokens_sound(bytes: Seq<u8>, line: int, at: int)
    requires
        0 <= at,
    ensures
        forall|i: int|
            0 <= i < line_tokens_from(bytes, line, at).len() ==> {
                let token = #[trigger] line_tokens_from(bytes, line, at)[i];
                &&& token.well_formed()
                &&& token.token_type != TokenType::Eof
                &&& token.line == line
                &&& at <= token.col <= bytes.len()
            },
    decreases bytes.len() - at,
{
    if at < bytes.len() {
        let step = step_at(bytes, line, at);
        lemma_step_advances(bytes, line, at);
        lemma_line_tokens_sound(bytes, line, step.next);
    }
}

/// Every token found in the first `n` lines is well formed and no end-of-file
/// token, and carries the number of one of these lines.
pub proof fn lemma_lines_tokens_sound(lines: Seq<Seq<u8>>, n: int)
    ensures
        forall|i: int|
            0 <= i < lines_tokens(lines, n).len() ==> {
                let token = #[trigger] lines_tokens(lines, n)[i];
                &&& token.well_formed()
                &&& token.token_type != TokenType::Eof
                &&& 0 <= token.line < n
            },
    decreases n,
{
    if n > 0 {
        lemma_lines_tokens_sound(lines, n - 1);
        lemma_line_tokens_sound(lines[n - 1], n - 1, 0);
    }
}

/// Whatever the source holds, its tokens end with the end-of-file token, and
/// no other token is one.
pub proof fn lemma_source_tokens_end_with_one_eof(source: Seq<u8>)
    ensures
        source_tokens(source).len() >= 1,
        source_tokens(source).last() == eof_token(),
        forall|i: int|
            0 <= i < source_tokens(source).len() - 1 ==> (#[trigger] source_tokens(
                source,
            )[i]).token_type != TokenType::Eof,
        forall|i: int|
            0 <= i < source_tokens(source).len() ==> (#[trigger] source_tokens(
                source,
            )[i]).well_formed(),
{
    let lines = lines_of(source);
    lemma_lines_tokens_sound(lines, lines.len() as int);
}

/// Scans a whole source.
pub fn scan_tokens(source: String) -> (result: ScanResult)
    ensures
        token_views(result.tokens@) == source_tokens(utf8(source@)),
        result.tokens@.len() >= 1,
        result.tokens@.last()@ == eof_token(),
        forall|i: int|
            0 <= i < result.tokens@.len() - 1 ==> (#[trigger] result.tokens@[i]).token_type
                != TokenType::Eof,
        forall|i: int|
            0 <= i < result.tokens@.len() ==> (#[trigger] result.tokens@[i])@.well_formed(),
{
    let lines = split_lines(source.as_str());
    let ghost parts = lines_of(utf8(source@));
    let mut tokens: Vec<Token> = Vec::new();
    let mut line_count: usize = 0;
    while line_count < lines.len()
        invariant
            line_count <= lines@.len(),
            texts_bytes(lines@) == parts,
            token_views(tokens@) == lines_tokens(parts, line_count as int),
        decreases lines@.len() - line_count,
    {
        let mut found = scan_tokens_in_line(lines[line_count], line_count);
        tokens.append(&mut found);
        line_count += 1;
    }
    let ghost body = tokens@;
    tokens.push(Token { token_type: TokenType::Eof, line: 0, col: 0, literal: None });
    proof {
        assert(token_views(tokens@) =~= token_views(body) + seq![eof_token()]);
        lemma_source_tokens_end_with_one_eof(utf8(source@));
        assert forall|i: int| 0 <= i < tokens@.len() - 1 implies (#[trigger] tokens@[i]).token_type
            != TokenType::Eof by {
            assert(token_views(tokens@)[i] == tokens@[i]@);
        }
        assert forall|i: int| 0 <= i < tokens@.len() implies (#[trigger] tokens@[i])@.well_formed() by {
            assert(token_views(tokens@)[i] == tokens@[i]@);
        }
    }
    ScanResult { tokens }
}

} // verus!
