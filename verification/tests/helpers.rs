use severo_lsp::helpers::{invert_escape, is_alpha, is_alphanumeric, is_numeric, rest_matches};

#[test]
fn test_rest_matches() {
    let line = "Hello, world!";
    assert!(rest_matches(0, line, "Hello"));
}

#[test]
fn test_rest_not_matches() {
    let line = "Hello, world!";
    assert!(!rest_matches(0, line, "Hellow"));
}

#[test]
fn test_rest_not_has_valid_index() {
    let line = "Hello, world!";
    assert!(!rest_matches(line.len(), line, "!"));
}

#[test]
fn rest_matches_in_the_middle_and_at_the_end() {
    let line = "Hello, world!";
    assert!(rest_matches(7, line, "world"));
    assert!(rest_matches(12, line, "!"));
    assert!(rest_matches(13, line, ""));
    assert!(rest_matches(0, line, ""));
    assert!(!rest_matches(14, line, ""));
    assert!(!rest_matches(8, line, "world"));
    assert!(!rest_matches(usize::MAX, line, "world"));
    assert!(!rest_matches(9, line, "rld!!"));
}

#[test]
fn rest_matches_agrees_with_slicing() {
    let line = "aé=b";
    for start in 0..8 {
        for part in ["", "a", "é", "=", "é=", "=b", "b", "aé=b"] {
            let expected = line.get(start..start + part.len()) == Some(part);
            assert_eq!(rest_matches(start, line, part), expected);
        }
    }
}

#[test]
fn digits_letters_and_both() {
    assert!(is_numeric("0123456789"));
    assert!(is_numeric(""));
    assert!(!is_numeric("12a"));
    assert!(!is_numeric("1.2"));
    assert!(!is_numeric("١"));
    assert!(is_alpha("azAZ"));
    assert!(is_alpha(""));
    assert!(!is_alpha("a1"));
    assert!(!is_alpha("é"));
    assert!(!is_alpha("a_b"));
    assert!(is_alphanumeric("az09AZ"));
    assert!(is_alphanumeric(""));
    assert!(!is_alphanumeric("a b"));
    assert!(!is_alphanumeric("é1"));
}

#[test]
fn escapes_of_the_table_become_control_characters() {
    assert_eq!(invert_escape("a\\nb".to_string()), "a\nb");
    assert_eq!(invert_escape("\\b\\f\\n\\r\\t".to_string()), "\u{8}\u{c}\n\r\t");
    assert_eq!(invert_escape("".to_string()), "");
    assert_eq!(invert_escape("plain".to_string()), "plain");
}

#[test]
fn other_escapes_stay_as_they_are() {
    assert_eq!(invert_escape("a\\\"b".to_string()), "a\\\"b");
    assert_eq!(invert_escape("\\x\\0\\\\".to_string()), "\\x\\0\\\\");
    assert_eq!(invert_escape("end\\".to_string()), "end\\");
    assert_eq!(invert_escape("\\\\n".to_string()), "\\\n");
    assert_eq!(invert_escape("é\\té".to_string()), "é\té");
}

#[test]
fn invert_escape_agrees_with_replacing_pattern_by_pattern() {
    let samples = [
        "",
        "\\",
        "\\\\",
        "\\b",
        "\\\\b\\f",
        "a\\nb\\rc\\td",
        "\\\\\\n",
        "\\n\\n\\n",
        "b\\",
        "\\bb\\ff\\nn\\rr\\tt",
        "日本\\n語\\q",
    ];
    for sample in samples {
        let expected = sample
            .replace("\\b", "\x08")
            .replace("\\f", "\x0c")
            .replace("\\n", "\n")
            .replace("\\r", "\r")
            .replace("\\t", "\t");
        assert_eq!(invert_escape(sample.to_string()), expected);
    }
}
