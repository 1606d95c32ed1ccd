use minishell::tokenizer::{tokenize, transform_input};

fn words(items: &[&str]) -> Vec<String> {
    items.iter().map(|s| s.to_string()).collect()
}

#[test]
fn quotes_escapes_and_home() {
    let tokens = tokenize("echo 'a b' \"c\\\"d\" ~x", "/home/u");
    assert_eq!(tokens, words(&["echo", "a b", "c\"d", "/home/ux"]));
}

#[test]
fn escaped_tilde_is_literal() {
    let tokens = tokenize("echo 'a b' \"c\\\"d\" \\~x", "/home/u");
    assert_eq!(tokens, words(&["echo", "a b", "c\"d", "~x"]));
}

#[test]
fn tilde_expands_mid_token() {
    assert_eq!(tokenize("a~b", "/h"), words(&["a/hb"]));
    assert_eq!(tokenize("ls ~/src", "/home/u"), words(&["ls", "/home/u/src"]));
}

#[test]
fn tilde_in_quotes_is_literal() {
    assert_eq!(tokenize("echo '~' \"~\"", "/home/u"), words(&["echo", "~", "~"]));
}

#[test]
fn whitespace_separates_and_empty_tokens_are_dropped() {
    assert_eq!(tokenize("a  b\tc\nd\re\x0Cf", "/h"), words(&["a", "b", "c", "d", "e", "f"]));
    assert_eq!(tokenize("", "/h"), words(&[]));
    assert_eq!(tokenize("   ", "/h"), words(&[]));
    assert_eq!(tokenize("'' \"\"", "/h"), words(&[]));
}

#[test]
fn vertical_tab_is_no_separator() {
    assert_eq!(tokenize("a\x0Bb", "/h"), words(&["a\x0Bb"]));
}

#[test]
fn empty_home_leaves_no_empty_token() {
    assert_eq!(tokenize("~ a", ""), words(&["a"]));
}

#[test]
fn single_quotes_keep_backslashes() {
    assert_eq!(tokenize("'a\\nb' 'c\\'", "/h"), words(&["a\\nb", "c\\"]));
}

#[test]
fn double_quotes_escape_only_quote_and_backslash() {
    assert_eq!(tokenize("\"a\\\\b\"", "/h"), words(&["a\\b"]));
    assert_eq!(tokenize("\"a\\\"b\"", "/h"), words(&["a\"b"]));
    assert_eq!(tokenize("\"a\\nb\"", "/h"), words(&["a\\nb"]));
    assert_eq!(tokenize("\"a\\'b\"", "/h"), words(&["a\\'b"]));
}

#[test]
fn unquoted_backslash_escapes_anything() {
    assert_eq!(tokenize("a\\ b", "/h"), words(&["a b"]));
    assert_eq!(tokenize("\\'x\\\"", "/h"), words(&["'x\""]));
    assert_eq!(tokenize("a\\\\b", "/h"), words(&["a\\b"]));
    assert_eq!(tokenize("\\|", "/h"), words(&["|"]));
}

#[test]
fn adjacent_quoted_parts_join_into_one_token() {
    assert_eq!(tokenize("'a'\"b\"c", "/h"), words(&["abc"]));
}

#[test]
fn open_quote_at_end_is_let_pass() {
    assert_eq!(tokenize("echo 'a b", "/h"), words(&["echo", "a b"]));
    assert_eq!(tokenize("echo \"a b", "/h"), words(&["echo", "a b"]));
    assert_eq!(tokenize("echo a\\", "/h"), words(&["echo", "a"]));
}

#[test]
fn operators_are_tokens_of_their_own_only_when_spaced() {
    assert_eq!(tokenize("a | b > c", "/h"), words(&["a", "|", "b", ">", "c"]));
    assert_eq!(tokenize("a|b>c", "/h"), words(&["a|b>c"]));
}

#[test]
fn no_token_is_empty() {
    for line in ["a b", " '' x \"\" ", "~", "\\ ", "a '' b"] {
        for token in tokenize(line, "") {
            assert!(!token.is_empty());
        }
    }
}

#[test]
fn input_is_trimmed_before_it_is_split() {
    assert_eq!(transform_input("  echo hi  \n", "/h"), words(&["echo", "hi"]));
    // The trailing space goes before the backslash can escape it.
    assert_eq!(transform_input("echo a\\ ", "/h"), words(&["echo", "a"]));
    assert_eq!(tokenize("echo a\\ ", "/h"), words(&["echo", "a "]));
    // So does white space inside a quote that is left open.
    assert_eq!(transform_input("'a  ", "/h"), words(&["a"]));
    assert_eq!(tokenize("'a  ", "/h"), words(&["a  "]));
}

#[test]
fn trimming_takes_unicode_white_space() {
    assert_eq!(transform_input("\u{a0}\u{2003}ls\u{3000}", "/h"), words(&["ls"]));
    assert_eq!(tokenize("\u{a0}ls", "/h"), words(&["\u{a0}ls"]));
}
