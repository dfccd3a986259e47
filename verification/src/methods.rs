//! The editor-facing methods, from plain values to plain values.
//!
//! Reading the document is the caller's part: a method takes the document's
//! text, or nothing where it could not be read, and the cursor's position.

use crate::completion::{
    completion, completion_view, get_completion_items, CompletionItem, CompletionItemView,
};
use crate::cursor::{get_word_in_line_col_position, no_word, word_at};
use crate::hover::{get_hover_text, hover_text, lemma_no_hover_text_for_nothing};
use crate::lines::{lines_of, split_lines, texts_bytes};
use crate::parser::{get_vars, variables};
use crate::protocol::{
    missing_file, ErrorCode, Hover, HoverView, InitializeResult, Position, Range, RequestError,
    RequestErrorView, ServerCapabilities, ServerInfo, NO_FILE_OR_DIRECTORY, SERVER_NAME,
    SERVER_VERSION,
};
use crate::scanner::{scan_tokens, source_tokens};
use crate::text::{lemma_utf8_concat, lemma_utf8_single_ascii, utf8, NEWLINE};
use vstd::prelude::*;
use vstd::string::StringExecFns;

verus! {

/// The bytes of a document that was read, nothing for one that was not.
pub open spec fn file_bytes(file: Option<String>) -> Option<Seq<u8>> {
    match file {
        Some(text) => Some(utf8(text@)),
        None => None,
    }
}

/// The word that the cursor touches in a document, with its columns; no word
/// where the document has no such line.
pub open spec fn cursor_word(source: Seq<u8>, position: Position) -> (Seq<u8>, int, int) {
    let lines = lines_of(source);
    if position.line < lines.len() {
        word_at(lines[position.line as int], position.character as int)
    } else {
        no_word()
    }
}

/// The hover answer for a document that was read: the documentation of the
/// word under the cursor and the stretch that the word covers, or nothing
/// where that word has no documentation.
pub open spec fn hover_at(source: Seq<u8>, position: Position) -> Option<HoverView> {
    let (word, start, end) = cursor_word(source, position);
    match hover_text(word) {
        Some(contents) => Some(
            HoverView {
                contents,
                range: Range {
                    start: Position { line: position.line, character: start as u32 },
                    end: Position { line: position.line, character: end as u32 },
                },
            },
        ),
        None => None,
    }
}

/// The first `n` of some lines, each followed by a line feed.
pub open spec fn joined_lines(lines: Seq<Seq<u8>>, n: int) -> Seq<u8>
    decreases n,
{
    if n <= 0 {
        Seq::empty()
    } else {
        joined_lines(lines, n - 1) + lines[n - 1] + seq![NEWLINE]
    }
}

/// The number of lines that a completion request looks at: those up to the
/// cursor's line, that line included.
pub open spec fn lines_in_view(source: Seq<u8>, position: Position) -> int {
    let count = lines_of(source).len() as int;
    if position.line < count {
        position.line + 1
    } else {
        count
    }
}

/// The completion answer for a document that was read: the candidates for the
/// word under the cursor, the variables being those that the lines up to the
/// cursor's line declare.
pub open spec fn completion_at(source: Seq<u8>, position: Position) -> Option<
    Seq<CompletionItemView>,
> {
    let seen = joined_lines(lines_of(source), lines_in_view(source, position));
    completion(cursor_word(source, position).0, variables(source_tokens(seen)))
}

/// A hover outcome as plain mathematical data.
pub open spec fn hover_outcome(outcome: Result<Option<Hover>, RequestError>) -> Result<
    Option<HoverView>,
    RequestErrorView,
> {
    match outcome {
        Ok(Some(hover)) => Ok(Some(hover@)),
        Ok(None) => Ok(None),
        Err(error) => Err(error@),
    }
}

/// A completion outcome as plain mathematical data.
pub open spec fn completion_outcome(
    outcome: Result<Option<Vec<CompletionItem>>, RequestError>,
) -> Result<Option<Seq<CompletionItemView>>, RequestErrorView> {
    match outcome {
        Ok(answer) => Ok(completion_view(answer)),
        Err(error) => Err(error@),
    }
}

fn missing_file_error() -> (error: RequestError)
    ensures
        error@ == missing_file(),
{
    RequestError {
        code: ErrorCode::InvalidParams,
        message: String::from_str(NO_FILE_OR_DIRECTORY),
    }
}

/// The word under the cursor in a document cut into `lines`.
fn word_under_cursor(lines: &Vec<&str>, position: Position) -> (found: (String, usize, usize))
    ensures
        (utf8(found.0@), found.1 as int, found.2 as int) == if position.line < lines@.len() {
            word_at(texts_bytes(lines@)[position.line as int], position.character as int)
        } else {
            no_word()
        },
{
    let line = position.line as usize;
    if line < lines.len() {
        get_word_in_line_col_position(lines[line].to_owned(), position.character as usize)
    } else {
        (String::new(), 0, 0)
    }
}

/// Answers a hover request.
///
/// A document that could not be read fails the request. Otherwise the answer
/// is the documentation of the word under the cursor, or nothing where the
/// word has none or the document has no such line.
pub fn hover_method(file: Option<String>, position: Position) -> (outcome: Result<
    Option<Hover>,
    RequestError,
>)
    ensures
        hover_outcome(outcome) == match file_bytes(file) {
            Some(source) => Ok(hover_at(source, position)),
            None => Err(missing_file()),
        },
        file matches Some(text) && position.line >= lines_of(utf8(text@)).len() ==> outcome
            == Ok::<Option<Hover>, RequestError>(None),
{
    let text = match file {
        Some(text) => text,
        None => {
            return Err(missing_file_error());
        },
    };
    proof {
        lemma_no_hover_text_for_nothing();
    }
    let lines = split_lines(text.as_str());
    let (word, start_col, end_col) = word_under_cursor(&lines, position);
    match get_hover_text(word) {
        Some(contents) => Ok(
            Some(
                Hover {
                    contents,
                    range: Range {
                        start: Position {
                            line: position.line,
                            character: #[verifier::truncate]
                            (start_col as u32),
                        },
                        end: Position {
                            line: position.line,
                            character: #[verifier::truncate]
                            (end_col as u32),
                        },
                    },
                },
            ),
        ),
        None => Ok(None),
    }
}

/// The first `count` lines, each followed by a line feed, as one text.
fn join_lines(lines: &Vec<&str>, count: usize) -> (source: String)
    requires
        count <= lines@.len(),
    ensures
        utf8(source@) == joined_lines(texts_bytes(lines@), count as int),
{
    let mut source = String::new();
    let mut index: usize = 0;
    proof {
        reveal_strlit("\n");
        lemma_utf8_single_ascii('\n');
        assert("\n"@ =~= seq!['\n']);
    }
    while index < count
        invariant
            index <= count <= lines@.len(),
            utf8("\n"@) == seq![NEWLINE],
            utf8(source@) == joined_lines(texts_bytes(lines@), index as int),
        decreases count - index,
    {
        proof {
            lemma_utf8_concat(source@, lines@[index as int]@);
            lemma_utf8_concat(source@ + lines@[index as int]@, "\n"@);
        }
        source.append(lines[index]);
        source.append("\n");
        index += 1;
    }
    source
}

/// Answers a completion request.
///
/// A document that could not be read fails the request. Otherwise the answer
/// holds the candidates for the word under the cursor, or is nothing where
/// there is no candidate.
pub fn completion_method(file: Option<String>, position: Position) -> (outcome: Result<
    Option<Vec<CompletionItem>>,
    RequestError,
>)
    ensures
        completion_outcome(outcome) == match file_bytes(file) {
            Some(source) => Ok(completion_at(source, position)),
            None => Err(missing_file()),
        },
{
    let text = match file {
        Some(text) => text,
        None => {
            return Err(missing_file_error());
        },
    };
    let lines = split_lines(text.as_str());
    let line = position.line as usize;
    let in_view = if line < lines.len() {
        line + 1
    } else {
        lines.len()
    };
    let seen = join_lines(&lines, in_view);
    let scan_result = scan_tokens(seen);
    let variables = get_vars(scan_result.tokens);
    let (word_or_part_of_it, _, _) = word_under_cursor(&lines, position);
    Ok(get_completion_items(word_or_part_of_it, variables))
}

/// Answers the request that opens a session: the server offers hover and
/// completion, and says who it is.
pub fn initialize() -> (outcome: Result<InitializeResult, RequestError>)
    ensures
        outcome matches Ok(answer) && answer.capabilities == (ServerCapabilities {
            hover_provider: true,
            completion_provider: true,
        }) && answer.server_info.name@ == SERVER_NAME@ && answer.server_info.version@
            == SERVER_VERSION@,
{
    Ok(
        InitializeResult {
            capabilities: ServerCapabilities { hover_provider: true, completion_provider: true },
            server_info: ServerInfo {
                name: String::from_str(SERVER_NAME),
                version: String::from_str(SERVER_VERSION),
            },
        },
    )
}

} // verus!
