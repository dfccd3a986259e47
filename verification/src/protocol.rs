//! The plain values that the editor-facing methods take and return.

use vstd::prelude::*;

verus! {

/// The name under which the server announces itself.
pub const SERVER_NAME: &'static str = "severo-lsp";

/// The version under which the server announces itself.
pub const SERVER_VERSION: &'static str = "0.1.0";

/// The message of the error for a document that cannot be read.
pub const NO_FILE_OR_DIRECTORY: &'static str = "No such file or directory";

/// A place in a document: a line number and a byte offset within that line,
/// both counted from zero.
#[derive(PartialEq, Eq, Clone, Copy, Debug, Structural)]
pub struct Position {
    pub line: u32,
    pub character: u32,
}

/// A stretch of a document, from `start` up to `end`.
#[derive(PartialEq, Eq, Clone, Copy, Debug, Structural)]
pub struct Range {
    pub start: Position,
    pub end: Position,
}

/// The documentation shown for the word under the cursor, as Markdown, and
/// the stretch of the document that the word covers.
#[derive(PartialEq, Eq, Debug)]
pub struct Hover {
    pub contents: String,
    pub range: Range,
}

/// The kinds of failure that a request can end in.
#[derive(PartialEq, Eq, Clone, Copy, Debug, Structural)]
pub enum ErrorCode {
    /// The request names something that cannot be served.
    InvalidParams,
}

/// A failed request.
#[derive(PartialEq, Eq, Debug)]
pub struct RequestError {
    pub code: ErrorCode,
    pub message: String,
}

/// What the server can do.
#[derive(PartialEq, Eq, Clone, Copy, Debug, Structural)]
pub struct ServerCapabilities {
    pub hover_provider: bool,
    pub completion_provider: bool,
}

/// Who the server is.
#[derive(PartialEq, Eq, Debug)]
pub struct ServerInfo {
    pub name: String,
    pub version: String,
}

/// The answer to the request that opens a session.
#[derive(PartialEq, Eq, Debug)]
pub struct InitializeResult {
    pub capabilities: ServerCapabilities,
    pub server_info: ServerInfo,
}

/// A hover answer as plain mathematical data.
pub struct HoverView {
    pub contents: Seq<char>,
    pub range: Range,
}

/// A failed request as plain mathematical data.
pub struct RequestErrorView {
    pub code: ErrorCode,
    pub message: Seq<char>,
}

impl View for Hover {
    type V = HoverView;

    open spec fn view(&self) -> HoverView {
        HoverView { contents: self.contents@, range: self.range }
    }
}

impl View for RequestError {
    type V = RequestErrorView;

    open spec fn view(&self) -> RequestErrorView {
        RequestErrorView { code: self.code, message: self.message@ }
    }
}

/// The error for a document that cannot be read.
pub open spec fn missing_file() -> RequestErrorView {
    RequestErrorView { code: ErrorCode::InvalidParams, message: NO_FILE_OR_DIRECTORY@ }
}

} // verus!
