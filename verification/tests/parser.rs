use severo_lsp::parser::get_vars;
use severo_lsp::scanner::scan_tokens;
use severo_lsp::types::{Literal, Token, TokenType};

#[test]
fn should_found_a_variable() {
    let variable_name = "variableName".to_string();
    let tokens = vec![
        Token {
            token_type: TokenType::Var,
            line: 0,
            col: 0,
            literal: None,
        },
        Token {
            token_type: TokenType::Identifier,
            line: 0,
            col: 0,
            literal: Some(Literal::Identifier(variable_name.clone())),
        },
    ];
    let found_vars = get_vars(tokens);
    let expected_vars = vec![variable_name];
    assert_eq!(expected_vars, found_vars);
}

#[test]
fn should_return_empty_when_a_variable_is_incomplete() {
    let tokens = vec![Token {
        token_type: TokenType::Var,
        line: 0,
        col: 0,
        literal: None,
    }];
    let found_vars = get_vars(tokens);
    let expected_vars: Vec<String> = vec![];
    assert_eq!(expected_vars, found_vars);
}

#[test]
fn should_return_empty_when_not_has_a_variable() {
    let tokens = vec![
        Token {
            token_type: TokenType::Print,
            line: 0,
            col: 0,
            literal: None,
        },
        Token {
            token_type: TokenType::LeftParen,
            line: 0,
            col: 0,
            literal: None,
        },
        Token {
            token_type: TokenType::Var,
            line: 0,
            col: 0,
            literal: None,
        },
        Token {
            token_type: TokenType::RightParen,
            line: 0,
            col: 0,
            literal: None,
        },
    ];
    let found_vars = get_vars(tokens);
    let expected_vars: Vec<String> = vec![];
    assert_eq!(expected_vars, found_vars);
}

#[test]
fn declarations_come_in_order_and_twice_if_made_twice() {
    let source = "severo b = 1\nsevero a = 2\nprint(b)\nsevero b = 3\n";
    let found = get_vars(scan_tokens(source.to_string()).tokens);
    assert_eq!(found, vec!["b".to_string(), "a".to_string(), "b".to_string()]);
}

#[test]
fn a_declaration_needs_its_name_in_the_very_next_token() {
    let found = get_vars(scan_tokens("severo = x".to_string()).tokens);
    assert_eq!(found, Vec::<String>::new());
    let found = get_vars(scan_tokens("severo severo y".to_string()).tokens);
    assert_eq!(found, vec!["y".to_string()]);
    let found = get_vars(scan_tokens("severo\nz".to_string()).tokens);
    assert_eq!(found, vec!["z".to_string()]);
    let found = get_vars(scan_tokens("severo".to_string()).tokens);
    assert_eq!(found, Vec::<String>::new());
}

#[test]
fn an_identifier_token_without_its_name_declares_nothing() {
    let tokens = vec![
        Token { token_type: TokenType::Var, line: 0, col: 0, literal: None },
        Token { token_type: TokenType::Identifier, line: 0, col: 0, literal: None },
        Token { token_type: TokenType::Var, line: 0, col: 0, literal: None },
        Token {
            token_type: TokenType::Identifier,
            line: 0,
            col: 0,
            literal: Some(Literal::String("text".to_string())),
        },
        Token { token_type: TokenType::Var, line: 0, col: 0, literal: None },
        Token {
            token_type: TokenType::String,
            line: 0,
            col: 0,
            literal: Some(Literal::Identifier("name".to_string())),
        },
    ];
    assert_eq!(get_vars(tokens), Vec::<String>::new());
}

#[test]
fn tokenizing_a_declaration_and_extracting_its_name() {
    let tokens = scan_tokens("severo x = 10".to_string()).tokens;
    let kinds: Vec<TokenType> = tokens.iter().map(|token| token.token_type).collect();
    assert_eq!(
        kinds,
        vec![
            TokenType::Var,
            TokenType::Identifier,
            TokenType::Equal,
            TokenType::Number,
            TokenType::Eof
        ]
    );
    assert_eq!(tokens[0].literal, None);
    assert_eq!(tokens[1].literal, Some(Literal::Identifier("x".to_string())));
    assert_eq!(tokens[2].literal, None);
    match &tokens[3].literal {
        Some(Literal::Number(digits)) => assert_eq!(digits.parse::<f64>().unwrap(), 10.0),
        other => panic!("no number: {:?}", other),
    }
    assert_eq!(tokens[4].literal, None);
    assert_eq!(get_vars(tokens), vec!["x".to_string()]);
}
