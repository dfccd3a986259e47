//! Tokens, scan results and scan errors, with their mathematical views.

use crate::text::utf8;
use vstd::prelude::*;

verus! {

/// The kind of a lexical token.
#[derive(PartialEq, Eq, Clone, Copy, Debug, Structural)]
pub enum TokenType {
    /// The keyword that introduces a declaration.
    Var,
    Identifier,
    String,
    Number,
    /// The built-in print function.
    Print,
    Equal,
    LeftParen,
    RightParen,
    /// The sentinel that ends every scan of a whole source.
    Eof,
}

/// The value carried by an identifier, string or number token.
///
/// A number keeps the decimal digits it was written with; turning them into a
/// numeric value is left to the caller.
#[derive(PartialEq, Eq, Debug)]
pub enum Literal {
    Identifier(String),
    String(String),
    Number(String),
}

/// A lexical token: its kind, where it was found and what it carries.
///
/// `col` is a byte offset within the line.
#[derive(Debug)]
pub struct Token {
    pub token_type: TokenType,
    pub line: usize,
    pub col: usize,
    pub literal: Option<Literal>,
}

/// The tokens of a scanned source, in source order.
#[derive(Debug)]
pub struct ScanResult {
    pub tokens: Vec<Token>,
}

/// Why a string or number literal could not be scanned.
#[derive(Debug)]
pub struct ScanError {
    pub message: String,
    pub col: usize,
}

/// A literal as the UTF-8 bytes of its text.
pub enum LiteralView {
    Identifier(Seq<u8>),
    String(Seq<u8>),
    Number(Seq<u8>),
}

/// A token as plain mathematical data.
pub struct TokenView {
    pub token_type: TokenType,
    pub line: int,
    pub col: int,
    pub literal: Option<LiteralView>,
}

/// A scan error as plain mathematical data.
pub struct ScanErrorView {
    pub message: Seq<char>,
    pub col: int,
}

impl View for Literal {
    type V = LiteralView;

    open spec fn view(&self) -> LiteralView {
        match self {
            Literal::Identifier(text) => LiteralView::Identifier(utf8(text@)),
            Literal::String(text) => LiteralView::String(utf8(text@)),
            Literal::Number(text) => LiteralView::Number(utf8(text@)),
        }
    }
}

impl View for Token {
    type V = TokenView;

    open spec fn view(&self) -> TokenView {
        TokenView {
            token_type: self.token_type,
            line: self.line as int,
            col: self.col as int,
            literal: match self.literal {
                Some(literal) => Some(literal@),
                None => None,
            },
        }
    }
}

impl View for ScanError {
    type V = ScanErrorView;

    open spec fn view(&self) -> ScanErrorView {
        ScanErrorView { message: self.message@, col: self.col as int }
    }
}

impl TokenView {
    /// A token carries a literal exactly when it is an identifier, a string or
    /// a number, and then one of the matching kind.
    pub open spec fn well_formed(self) -> bool {
        match self.token_type {
            TokenType::Identifier => self.literal matches Some(LiteralView::Identifier(_)),
            TokenType::String => self.literal matches Some(LiteralView::String(_)),
            TokenType::Number => self.literal matches Some(LiteralView::Number(_)),
            _ => self.literal is None,
        }
    }
}

/// The views of a sequence of tokens, in the same order.
pub open spec fn token_views(tokens: Seq<Token>) -> Seq<TokenView> {
    tokens.map_values(|token: Token| token@)
}

} // verus!
