use severo_lsp::hover::{get_hover_text, PRINT, VAR};

#[test]
fn test_get_hover_text_for_severo() {
    let word = "severo".to_string();
    let expected = Some(VAR.to_string());
    assert_eq!(get_hover_text(word), expected);
}

#[test]
fn test_get_hover_text_for_print() {
    let word = "print".to_string();
    let expected = Some(PRINT.to_string());
    assert_eq!(get_hover_text(word), expected);
}

#[test]
fn test_get_hover_text_for_unknown_keyword() {
    let word = "unknown".to_string();
    let expected = None;
    assert_eq!(get_hover_text(word), expected);
}

#[test]
fn test_get_hover_text_empty_string() {
    let word = "".to_string();
    let expected = None;
    assert_eq!(get_hover_text(word), expected);
}

#[test]
fn test_get_hover_text_case_sensitivity() {
    let word = "SeVeRo".to_string();
    let expected = None;
    assert_eq!(get_hover_text(word), expected);
}

#[test]
fn test_get_hover_text_special_characters() {
    let word = "severo!".to_string();
    let expected = None;
    assert_eq!(get_hover_text(word), expected);
}

#[test]
fn hover_texts_are_the_fixed_markdown() {
    assert_eq!(
        VAR,
        "\n### severo\n\nIt's a keyword to declare a variable. Here are some examples:\n```severo\nsevero hello = \"Hello World\"\nsevero num = 10\n```"
    );
    assert_eq!(
        PRINT,
        "\n### print\n\nIt's print something. Here are some examples:\n```severo\nsevero hello = \"Hello World\"\nprint(hello)\n```"
    );
    assert_eq!(get_hover_text("severo".to_string()).unwrap(), VAR);
}

#[test]
fn hover_text_needs_the_whole_word() {
    for word in ["sev", "sever", "severoo", "prin", "printt", "Print", "PRINT", " severo", "severo "] {
        assert_eq!(get_hover_text(word.to_string()), None);
    }
}
