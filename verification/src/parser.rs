//! The symbol extractor: from tokens to the names of the declared variables.

use crate::text::strings_bytes;
use crate::types::{token_views, Literal, LiteralView, Token, TokenType, TokenView};
use vstd::prelude::*;

verus! {

/// The token at `i` declares a variable: it is the declaring keyword, and the
/// very next token is an identifier that carries its name.
pub open spec fn declares_at(tokens: Seq<TokenView>, i: int) -> bool {
    &&& 0 <= i
    &&& i + 1 < tokens.len()
    &&& tokens[i].token_type == TokenType::Var
    &&& tokens[i + 1].token_type == TokenType::Identifier
    &&& tokens[i + 1].literal matches Some(LiteralView::Identifier(_))
}

/// The name that the declaration at `i` introduces.
pub open spec fn declared_name(tokens: Seq<TokenView>, i: int) -> Seq<u8> {
    match tokens[i + 1].literal {
        Some(LiteralView::Identifier(name)) => name,
        _ => Seq::empty(),
    }
}

/// The names declared by the first `n` tokens, in the order of their
/// declarations; a name declared twice stands twice.
pub open spec fn declared_names(tokens: Seq<TokenView>, n: int) -> Seq<Seq<u8>>
    decreases n,
{
    if n <= 0 {
        Seq::empty()
    } else if declares_at(tokens, n - 1) {
        declared_names(tokens, n - 1).push(declared_name(tokens, n - 1))
    } else {
        declared_names(tokens, n - 1)
    }
}

/// The names of all the variables that the tokens declare.
pub open spec fn variables(tokens: Seq<TokenView>) -> Seq<Seq<u8>> {
    declared_names(tokens, tokens.len() as int)
}

/// Collects the names of the declared variables.
pub fn get_vars(tokens: Vec<Token>) -> (vars: Vec<String>)
    ensures
        strings_bytes(vars@) == variables(token_views(tokens@)),
{
    let mut vars: Vec<String> = Vec::new();
    let mut index: usize = 0;
    let ghost views = token_views(tokens@);
    while index < tokens.len()
        invariant
            index <= tokens@.len(),
            views == token_views(tokens@),
            strings_bytes(vars@) == declared_names(views, index as int),
        decreases tokens@.len() - index,
    {
        match tokens[index].token_type {
            TokenType::Var => {
                if index + 1 < tokens.len() {
                    let next_token = &tokens[index + 1];
                    match next_token.token_type {
                        TokenType::Identifier => {
                            match &next_token.literal {
                                Some(Literal::Identifier(var_name)) => {
                                    vars.push(var_name.clone());
                                },
                                _ => {},
                            }
                        },
                        _ => {},
                    }
                }
            },
            _ => {},
        }
        index += 1;
    }
    vars
}

} // verus!
