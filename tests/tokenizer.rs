use minishell::tokenizer::{tokenize, Cursor, Quote, Token};

fn words(line: &str) -> Vec<String> {
    tokenize(line).words
}

fn target(line: &str) -> Option<String> {
    tokenize(line).stdout
}

#[test]
fn new_token_is_empty() {
    let t = Token::new();
    assert!(t.words.is_empty());
    assert_eq!(t.stdout, None);
}

#[test]
fn new_cursor_is_at_rest() {
    let c = Cursor::new();
    assert_eq!(c.word, "");
    assert_eq!(c.quote, Quote::Unquoted);
    assert!(!c.started);
    assert!(!c.pending);
}

#[test]
fn plain_line_splits_on_whitespace_runs() {
    assert_eq!(words("  ls   -l\t/tmp  "), vec!["ls", "-l", "/tmp"]);
    assert_eq!(target("  ls   -l\t/tmp  "), None);
}

#[test]
fn empty_and_blank_lines_give_no_words() {
    assert!(words("").is_empty());
    assert!(words("   \t ").is_empty());
    assert_eq!(target(""), None);
}

#[test]
fn single_quotes_keep_spaces() {
    assert_eq!(words("'a b' c"), vec!["a b", "c"]);
    assert_eq!(target("'a b' c"), None);
}

#[test]
fn escaped_quote_inside_double_quotes() {
    assert_eq!(words("echo \"hello\\\"world\""), vec!["echo", "hello\"world"]);
}

#[test]
fn redirect_with_bare_operator() {
    assert_eq!(words("echo hi > out.txt"), vec!["echo", "hi"]);
    assert_eq!(target("echo hi > out.txt"), Some("out.txt".to_string()));
}

#[test]
fn redirect_with_numbered_operator() {
    assert_eq!(words("echo hi 1> out.txt"), vec!["echo", "hi"]);
    assert_eq!(target("echo hi 1> out.txt"), Some("out.txt".to_string()));
}

#[test]
fn redirect_operator_ends_a_word() {
    assert_eq!(words("echo hi>out.txt"), vec!["echo", "hi"]);
    assert_eq!(target("echo hi>out.txt"), Some("out.txt".to_string()));
}

#[test]
fn one_without_redirect_is_literal() {
    assert_eq!(words("echo 1 12 a1"), vec!["echo", "1", "12", "a1"]);
    assert_eq!(target("echo 1 12 a1"), None);
}

#[test]
fn stray_redirect_leaves_target_empty() {
    assert_eq!(words("echo hi >"), vec!["echo", "hi"]);
    assert_eq!(target("echo hi >"), None);
}

#[test]
fn quoted_segments_join_adjacent_text() {
    assert_eq!(words("foo'bar'\"baz\"qux"), vec!["foobarbazqux"]);
}

#[test]
fn backslash_outside_quotes_takes_next_char() {
    assert_eq!(words("a\\ b c\\>d"), vec!["a b", "c>d"]);
    assert_eq!(target("a\\ b c\\>d"), None);
}

#[test]
fn trailing_backslash_is_dropped() {
    assert_eq!(words("abc\\"), vec!["abc"]);
    assert!(words("\\").is_empty());
}

#[test]
fn backslash_is_literal_in_single_quotes() {
    assert_eq!(words("'a\\nb'"), vec!["a\\nb"]);
}

#[test]
fn double_quotes_escape_only_some_chars() {
    assert_eq!(words("\"a\\nb\""), vec!["a\\nb"]);
    assert_eq!(words("\"\\$x \\\\ \\`\""), vec!["$x \\ `"]);
}

#[test]
fn empty_quotes_give_an_empty_word() {
    assert_eq!(words("echo '' \"\""), vec!["echo", "", ""]);
}

#[test]
fn quoted_redirect_is_literal() {
    assert_eq!(words("echo '>' \"1>\""), vec!["echo", ">", "1>"]);
    assert_eq!(target("echo '>' \"1>\""), None);
}

#[test]
fn quoted_target() {
    assert_eq!(words("echo hi > 'my file'"), vec!["echo", "hi"]);
    assert_eq!(target("echo hi > 'my file'"), Some("my file".to_string()));
}

#[test]
fn words_after_the_target_stay_arguments() {
    assert_eq!(words("echo a > f b"), vec!["echo", "a", "b"]);
    assert_eq!(target("echo a > f b"), Some("f".to_string()));
}

#[test]
fn requoted_words_round_trip() {
    let original = vec!["a b", "", "x\"y", "1>", "c\\d", "e>f"];
    let line = original
        .iter()
        .map(|w| format!("'{}'", w))
        .collect::<Vec<_>>()
        .join(" ");
    assert_eq!(words(&line), original);
    assert_eq!(target(&line), None);
}

#[test]
fn requoting_tokenized_words_round_trips() {
    let first = words("echo \"a  b\" c\\ d 'e'");
    let line = first.iter().map(|w| format!("'{}'", w)).collect::<Vec<_>>().join(" ");
    assert_eq!(words(&line), first);
}

#[test]
fn unicode_characters_pass_through() {
    assert_eq!(words("écho 'ü ß' 日本"), vec!["écho", "ü ß", "日本"]);
}

#[test]
fn vertical_tab_and_unicode_spaces_separate_words() {
    assert_eq!(words("a\u{0B}b"), vec!["a", "b"]);
    assert_eq!(words("a\u{A0}b\u{3000}c\u{2028}d\u{85}e"), vec!["a", "b", "c", "d", "e"]);
    assert_eq!(words("'a\u{A0}b'"), vec!["a\u{A0}b"]);
}

#[test]
fn every_plain_character_splits_like_split_whitespace() {
    for code in 0u32..=0x10FFFF {
        if let Some(c) = char::from_u32(code) {
            if c == '\'' || c == '"' || c == '\\' || c == '>' {
                continue;
            }
            let line = format!(" a{}b {}", c, c);
            let expected: Vec<String> = line.split_whitespace().map(String::from).collect();
            assert_eq!(words(&line), expected, "character U+{:04X}", code);
        }
    }
}
