//! The fixed vocabulary of the language: its keywords and built-in functions.

use crate::text::{lemma_utf8_injective, utf8};
use crate::types::TokenType;
use vstd::hash_map::StringHashMap;
use vstd::prelude::*;
use vstd::string::StringExecFns;

verus! {

/// The keywords offered for completion.
pub open spec fn keyword_names() -> Seq<Seq<char>> {
    seq!["severo"@]
}

/// The built-in functions offered for completion.
pub open spec fn builtin_function_names() -> Seq<Seq<char>> {
    seq!["print"@]
}

/// The reserved words of the scanner, each with the token type it yields.
pub open spec fn keyword_table() -> Map<Seq<char>, TokenType> {
    Map::<Seq<char>, TokenType>::empty().insert("severo"@, TokenType::Var).insert(
        "print"@,
        TokenType::Print,
    )
}

/// The token type of a reserved word given by its bytes, if it is one.
pub open spec fn keyword_of(word: Seq<u8>) -> Option<TokenType> {
    if word == utf8("severo"@) {
        Some(TokenType::Var)
    } else if word == utf8("print"@) {
        Some(TokenType::Print)
    } else {
        None
    }
}

/// Looking a word up in the keyword table is the same as classifying its bytes.
pub proof fn lemma_keyword_table(word: Seq<char>)
    ensures
        keyword_table().contains_key(word) <==> keyword_of(utf8(word)) is Some,
        keyword_table().contains_key(word) ==> keyword_of(utf8(word)) == Some(
            keyword_table()[word],
        ),
{
    reveal_strlit("severo");
    reveal_strlit("print");
    if utf8(word) == utf8("severo"@) {
        lemma_utf8_injective(word, "severo"@);
    }
    if utf8(word) == utf8("print"@) {
        lemma_utf8_injective(word, "print"@);
    }
}

/// The keywords offered for completion.
pub fn get_keywords() -> (names: Vec<String>)
    ensures
        names@.len() == keyword_names().len(),
        forall|i: int| 0 <= i < names@.len() ==> names@[i]@ == keyword_names()[i],
{
    let mut names: Vec<String> = Vec::new();
    names.push(String::from_str("severo"));
    names
}

/// The built-in functions offered for completion.
pub fn get_builtin_functions() -> (names: Vec<String>)
    ensures
        names@.len() == builtin_function_names().len(),
        forall|i: int| 0 <= i < names@.len() ==> names@[i]@ == builtin_function_names()[i],
{
    let mut names: Vec<String> = Vec::new();
    names.push(String::from_str("print"));
    names
}

/// The table of reserved words that the scanner looks words up in.
pub fn get_keywords_hash() -> (table: StringHashMap<TokenType>)
    ensures
        table@ == keyword_table(),
{
    let mut table: StringHashMap<TokenType> = StringHashMap::new();
    table.insert(String::from_str("severo"), TokenType::Var);
    table.insert(String::from_str("print"), TokenType::Print);
    table
}

} // verus!
