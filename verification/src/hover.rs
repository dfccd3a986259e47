//! Hover documentation for the words of the language.

use crate::text::{lemma_utf8_injective, optional_text, utf8};
use vstd::prelude::*;
use vstd::string::StringExecFns;

verus! {

/// The documentation of the keyword that declares a variable.
pub const VAR: &'static str =
    "\n### severo\n\nIt's a keyword to declare a variable. Here are some examples:\n```severo\nsevero hello = \"Hello World\"\nsevero num = 10\n```";

/// The documentation of the built-in print function.
pub const PRINT: &'static str =
    "\n### print\n\nIt's print something. Here are some examples:\n```severo\nsevero hello = \"Hello World\"\nprint(hello)\n```";

/// The documentation of the word with the given bytes, if it has any. Only
/// the exact word is documented: no other casing and no part of it.
pub open spec fn hover_text(word: Seq<u8>) -> Option<Seq<char>> {
    if word == utf8("severo"@) {
        Some(VAR@)
    } else if word == utf8("print"@) {
        Some(PRINT@)
    } else {
        None
    }
}

/// The empty word has no documentation.
pub proof fn lemma_no_hover_text_for_nothing()
    ensures
        hover_text(Seq::empty()) is None,
{
    reveal_strlit("severo");
    reveal_strlit("print");
}

/// Looks up the documentation of a word.
pub fn get_hover_text(word: String) -> (text: Option<String>)
    ensures
        optional_text(text) == hover_text(utf8(word@)),
{
    proof {
        if utf8(word@) == utf8("severo"@) {
            lemma_utf8_injective(word@, "severo"@);
        }
        if utf8(word@) == utf8("print"@) {
            lemma_utf8_injective(word@, "print"@);
        }
    }
    if word == String::from_str("severo") {
        Some(String::from_str(VAR))
    } else if word == String::from_str("print") {
        Some(String::from_str(PRINT))
    } else {
        None
    }
}

} // verus!
