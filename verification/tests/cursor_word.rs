use severo_lsp::cursor::get_word_in_line_col_position;

#[test]
fn should_return_empty_when_cursor_is_bigger_than_line_len() {
    let line = "severo value = 10".to_string();
    let (found_word, start, end) = get_word_in_line_col_position(line.clone(), line.len() + 1);
    let expected_word = "".to_string();
    assert_eq!(expected_word, found_word);
    assert_eq!(start, 0);
    assert_eq!(end, 0);
}

#[test]
fn should_found_word_when_cursor_is_in_start_of_word() {
    let line = "severo value = 10".to_string();
    let (found_word, _, _) = get_word_in_line_col_position(line, 0);
    let expected_word = "severo".to_string();
    assert_eq!(expected_word, found_word);
}

#[test]
fn should_found_word_when_cursor_is_between_start_and_end_of_word() {
    let line = "severo value = 10".to_string();
    let (found_word, _, _) = get_word_in_line_col_position(line, 3);
    let expected_word = "severo".to_string();
    assert_eq!(expected_word, found_word);
}

#[test]
fn should_found_word_when_cursor_is_in_end_of_word() {
    let line = "severo value = 10".to_string();
    let (found_word, _, _) = get_word_in_line_col_position(line, 6);
    let expected_word = "severo".to_string();
    assert_eq!(expected_word, found_word);
}

#[test]
fn should_found_word_when_word_is_forward_from_start() {
    let line = "severo value = 10".to_string();
    let (found_word, _, _) = get_word_in_line_col_position(line, 12);
    let expected_word = "value".to_string();
    assert_eq!(expected_word, found_word);
}

#[test]
fn should_found_word_when_is_the_last_in_line() {
    let line = "severo sum = fun".to_string();
    let (found_word, _, _) = get_word_in_line_col_position(line, 16);
    let expected_word = "fun".to_string();
    assert_eq!(expected_word, found_word);
}

#[test]
fn should_found_word_when_is_a_builtin_function() {
    let line = "print(\"Hello World\")".to_string();
    let (found_word, _, _) = get_word_in_line_col_position(line, 3);
    let expected_word = "print".to_string();
    assert_eq!(expected_word, found_word);
}

#[test]
fn should_found_word_when_is_inside_call_of_function() {
    let line = "print(var)".to_string();
    let (found_word, _, _) = get_word_in_line_col_position(line, 7);
    let expected_word = "var".to_string();
    assert_eq!(expected_word, found_word);
}

#[test]
fn test_no_word_found() {
    let line = "   ";
    let (found_word, start, end) = get_word_in_line_col_position(line.to_string(), 0);
    let expected_word = "".to_string();
    assert_eq!(expected_word, found_word);
    assert_eq!(start, 0);
    assert_eq!(end, 0);
}

#[test]
fn word_inside_a_call_comes_with_its_columns() {
    let found = get_word_in_line_col_position("print(var)".to_string(), 7);
    assert_eq!(found, ("var".to_string(), 6, 9));
}

#[test]
fn word_before_a_call_comes_with_its_columns() {
    let found = get_word_in_line_col_position("print(\"Hello World\")".to_string(), 3);
    assert_eq!(found, ("print".to_string(), 0, 5));
}

#[test]
fn cursor_far_behind_the_line_touches_no_word() {
    for line in ["", "a", "severo value = 10", "   "] {
        for extra in [1usize, 2, 100] {
            let found = get_word_in_line_col_position(line.to_string(), line.len() + extra);
            assert_eq!(found, ("".to_string(), 0, 0));
        }
    }
    let found = get_word_in_line_col_position("abc".to_string(), usize::MAX);
    assert_eq!(found, ("".to_string(), 0, 0));
}

#[test]
fn blank_lines_hold_no_word_at_their_start() {
    for line in ["", " ", "\t", " \t \r", "\n", "\u{b}\u{c}", "          "] {
        let found = get_word_in_line_col_position(line.to_string(), 0);
        assert_eq!(found, ("".to_string(), 0, 0));
    }
}

#[test]
fn cursor_at_the_end_of_the_line_touches_the_last_word() {
    let found = get_word_in_line_col_position("severo sum = fun".to_string(), 16);
    assert_eq!(found, ("fun".to_string(), 13, 16));
}

#[test]
fn cursor_on_a_delimiter_touches_the_word_before_it() {
    let found = get_word_in_line_col_position("ab cd".to_string(), 2);
    assert_eq!(found, ("ab".to_string(), 0, 2));
    let found = get_word_in_line_col_position("print(var)".to_string(), 5);
    assert_eq!(found, ("print".to_string(), 0, 5));
}

#[test]
fn cursor_between_two_delimiters_touches_no_word() {
    let found = get_word_in_line_col_position("a  b".to_string(), 2);
    assert_eq!(found, ("".to_string(), 0, 0));
    let found = get_word_in_line_col_position("f((x".to_string(), 2);
    assert_eq!(found, ("".to_string(), 0, 0));
}

#[test]
fn closing_parenthesis_delimits_on_the_right_only() {
    let found = get_word_in_line_col_position("f(a)b c".to_string(), 5);
    assert_eq!(found, ("a)b".to_string(), 2, 5));
    let found = get_word_in_line_col_position("f(a)b c".to_string(), 3);
    assert_eq!(found, ("a".to_string(), 2, 3));
}

#[test]
fn columns_count_bytes() {
    let line = "é sévère(x".to_string();
    assert_eq!(line.len(), 13);
    let found = get_word_in_line_col_position(line.clone(), 5);
    assert_eq!(found, ("sévère".to_string(), 3, 11));
    let found = get_word_in_line_col_position(line.clone(), 1);
    assert_eq!(found, ("é".to_string(), 0, 2));
    let found = get_word_in_line_col_position(line, 13);
    assert_eq!(found, ("x".to_string(), 12, 13));
}

#[test]
fn blank_lines_of_any_white_space_hold_no_word_at_their_start() {
    let lines = [
        "\u{85}",
        "\u{a0}\u{a0}",
        "\u{1680} \u{2000}\u{2001}\u{2002}\u{2003}\u{2004}\u{2005}",
        "\u{2006}\u{2007}\u{2008}\u{2009}\u{200a}\t",
        "\u{2028}\u{2029}\u{202f}\u{205f}\u{3000}",
    ];
    for line in lines {
        assert!(line.chars().all(|c| c.is_whitespace()));
        let found = get_word_in_line_col_position(line.to_string(), 0);
        assert_eq!(found, ("".to_string(), 0, 0));
    }
}

#[test]
fn white_space_is_what_the_standard_library_calls_so() {
    for code in 0..=0x10ffffu32 {
        let c = match char::from_u32(code) {
            Some(c) => c,
            None => continue,
        };
        let line = format!("a{}b", c);
        let found = get_word_in_line_col_position(line.clone(), 0);
        if c.is_whitespace() || c == '(' || c == ')' {
            assert_eq!(found, ("a".to_string(), 0, 1), "U+{:04X}", code);
        } else {
            assert_eq!(found, (line.clone(), 0, line.len()), "U+{:04X}", code);
        }
        let found = get_word_in_line_col_position(line.clone(), line.len());
        if c.is_whitespace() || c == '(' {
            assert_eq!(found, ("b".to_string(), line.len() - 1, line.len()), "U+{:04X}", code);
        } else {
            assert_eq!(found, (line.clone(), 0, line.len()), "U+{:04X}", code);
        }
    }
}

#[test]
fn a_cursor_inside_a_white_space_character_touches_no_word() {
    let line = "ab\u{3000}cd".to_string();
    assert_eq!(get_word_in_line_col_position(line.clone(), 2), ("ab".to_string(), 0, 2));
    assert_eq!(get_word_in_line_col_position(line.clone(), 3), ("".to_string(), 0, 0));
    assert_eq!(get_word_in_line_col_position(line.clone(), 4), ("".to_string(), 0, 0));
    assert_eq!(get_word_in_line_col_position(line.clone(), 5), ("cd".to_string(), 5, 7));
}
