use selected_text::tokenize::split_file_paths;

fn tokens(input: &str) -> Vec<String> {
    split_file_paths(input)
}

#[test]
fn quoted_paths_tokenize() {
    assert_eq!(tokens("'/a/b' '/c d/e'"), vec!["'/a/b'".to_string(), "'/c d/e'".to_string()]);
}

#[test]
fn unquoted_paths_tokenize() {
    assert_eq!(tokens("/a/b /c/d"), vec!["/a/b".to_string(), "/c/d".to_string()]);
}

#[test]
fn quoted_space_is_not_a_separator() {
    assert_eq!(tokens("'/a b'"), vec!["'/a b'".to_string()]);
}

#[test]
fn unterminated_quote_still_yields_token() {
    assert_eq!(tokens("'/a/b"), vec!["'/a/b".to_string()]);
}

#[test]
fn empty_input_yields_no_tokens() {
    assert_eq!(tokens(""), Vec::<String>::new());
}

#[test]
fn repeated_spaces_yield_no_empty_tokens() {
    assert_eq!(tokens("a  b"), vec!["a".to_string(), "b".to_string()]);
}

#[test]
fn closing_quote_ends_its_token() {
    assert_eq!(tokens("'a'x y"), vec!["'a'".to_string(), "x".to_string(), "y".to_string()]);
}

#[test]
fn quotes_are_preserved_in_tokens() {
    let t = tokens("'/Users/one' two");
    assert_eq!(t, vec!["'/Users/one'".to_string(), "two".to_string()]);
    assert!(t[0].starts_with('\'') && t[0].ends_with('\''));
}

#[test]
fn rejoining_tokens_reconstructs_canonical_input() {
    let input = "'/a/b' '/c d/e' plain";
    assert_eq!(tokens(input).join(" "), input);
}

#[test]
fn non_separator_characters_survive_in_order() {
    assert_eq!(tokens("''x  'a b' c").concat(), "''x'a b'c");
    assert_eq!(tokens("one 'two three' four").concat(), "one'two three'four");
}
