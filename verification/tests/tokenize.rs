use clik::split_line;

#[test]
fn test_no_split() {
    let line = "help";
    assert_eq!(split_line(line), vec!["help".to_string()]);
}

#[test]
fn test_split_spaces() {
    let line = "help cmd";
    assert_eq!(split_line(line), vec!["help".to_string(), "cmd".to_string()])
}

#[test]
fn test_quotes_no_split() {
    let line = "\"help\"";
    assert_eq!(split_line(line), vec!["help".to_string()]);
}

#[test]
fn test_quotes_split_spaces() {
    let line = "\"help\" \"cmd\"";
    assert_eq!(split_line(line), vec!["help".to_string(), "cmd".to_string()]);
}

#[test]
fn test_empty_line() {
    assert_eq!(split_line(""), Vec::<String>::new());
}

#[test]
fn test_spaces_only() {
    assert_eq!(split_line("   "), Vec::<String>::new());
}

#[test]
fn test_repeated_spaces_collapse() {
    assert_eq!(
        split_line("  a   b "),
        vec!["a".to_string(), "b".to_string()]
    );
}

#[test]
fn test_quoted_span_keeps_space() {
    assert_eq!(
        split_line("\"a b\" c"),
        vec!["a b".to_string(), "c".to_string()]
    );
}

#[test]
fn test_unterminated_quote_is_permissive() {
    assert_eq!(split_line("\"a b"), vec!["a b".to_string()]);
}

#[test]
fn test_quotes_inside_word_are_dropped() {
    assert_eq!(split_line("a\"b c\"d"), vec!["ab cd".to_string()]);
}
