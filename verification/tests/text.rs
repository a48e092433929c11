use autothesis::text::{collapse_whitespace, join_strings, trim_string, truncate_chars};

#[test]
fn collapse_whitespace_joins_words_with_single_spaces() {
    assert_eq!(collapse_whitespace("  a \t b\n\nc  "), "a b c");
    assert_eq!(collapse_whitespace(""), "");
    assert_eq!(collapse_whitespace(" \u{00a0}\u{3000} "), "");
    assert_eq!(collapse_whitespace("one"), "one");
    assert_eq!(collapse_whitespace("x\u{2003}y"), "x y");
}

#[test]
fn truncate_chars_counts_characters() {
    assert_eq!(truncate_chars("héllo", 2), "hé");
    assert_eq!(truncate_chars("abc", 10), "abc");
    assert_eq!(truncate_chars("abc", 0), "");
}

#[test]
fn trim_matches_std() {
    for s in ["  x  ", "\u{2028}y\u{85}", "", "   ", "a b"] {
        assert_eq!(trim_string(s), s.trim());
    }
}

#[test]
fn join_strings_puts_one_space_between_parts() {
    let parts = vec!["a".to_string(), "".to_string(), "b c".to_string()];
    assert_eq!(join_strings(&parts), "a  b c");
    assert_eq!(join_strings(&vec!["only".to_string()]), "only");
    assert_eq!(join_strings(&Vec::new()), "");
}
