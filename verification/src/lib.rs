//! Lexical analysis and cursor-context resolution for the Severo scripting
//! language, as used by an editor backend for hover and completion.
//!
//! A request is served from scratch: the source is scanned into tokens
//! ([`scanner`]), the declared variables are read off the tokens ([`parser`]),
//! the word under the cursor is found in its line ([`cursor`]), and the word
//! is completed ([`completion`]) or documented ([`hover`]). The functions of
//! [`methods`] put these steps together for the editor-facing requests.
//!
//! Texts are modelled by their UTF-8 bytes ([`text`]), since every column is
//! a byte offset.

pub mod completion;
pub mod cursor;
pub mod helpers;
pub mod hover;
pub mod keywords;
pub mod lines;
pub mod methods;
pub mod parser;
pub mod paths;
pub mod protocol;
pub mod scanner;
pub mod text;
pub mod types;
pub mod whitespace;
