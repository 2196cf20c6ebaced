use codecrafters_shell::lexer::{is_whitespace, parse_quotes};

fn toks(line: &str) -> Vec<String> {
    parse_quotes(line)
}

#[test]
fn plain_line_splits_on_whitespace_runs() {
    assert_eq!(toks("  ls  -la "), vec!["ls", "-la"]);
    assert_eq!(toks("a\tb\n c"), vec!["a", "b", "c"]);
}

#[test]
fn blank_line_gives_no_token() {
    assert!(toks("").is_empty());
    assert!(toks("   \t ").is_empty());
}

#[test]
fn single_quotes_keep_backslash() {
    assert_eq!(toks("echo 'a\\b'"), vec!["echo", "a\\b"]);
    assert_eq!(toks("echo 'a   \"b\"'"), vec!["echo", "a   \"b\""]);
}

#[test]
fn double_quotes_collapse_escaped_specials() {
    assert_eq!(toks("echo \"a\\\"b\""), vec!["echo", "a\"b"]);
    assert_eq!(toks("echo \"\\$x \\\\\""), vec!["echo", "$x \\"]);
}

#[test]
fn double_quotes_keep_backslash_before_other_chars() {
    assert_eq!(toks("echo \"a\\nb\""), vec!["echo", "a\\nb"]);
}

#[test]
fn adjacent_fragments_join() {
    assert_eq!(toks("echo hello' 'world"), vec!["echo", "hello world"]);
    assert_eq!(toks("a\"b c\"'d'e"), vec!["ab cde"]);
}

#[test]
fn backslash_outside_quotes_makes_next_literal() {
    assert_eq!(toks("echo a\\ b \\'x\\\""), vec!["echo", "a b", "'x\""]);
    assert_eq!(toks("a\\nb"), vec!["anb"]);
}

#[test]
fn empty_quotes_alone_give_no_token() {
    assert_eq!(toks("echo '' \"\" x"), vec!["echo", "x"]);
    assert_eq!(toks("a''b"), vec!["ab"]);
}

#[test]
fn unterminated_quote_and_trailing_escape_are_tolerated() {
    assert_eq!(toks("echo 'abc"), vec!["echo", "abc"]);
    assert_eq!(toks("echo \"ab"), vec!["echo", "ab"]);
    assert_eq!(toks("echo ab\\"), vec!["echo", "ab"]);
    assert_eq!(toks("echo \\"), vec!["echo"]);
}

#[test]
fn whitespace_matches_std() {
    for c in ['\t', '\n', '\u{b}', '\u{c}', '\r', ' ', '\u{85}', '\u{a0}', '\u{1680}', '\u{2000}', '\u{200a}', '\u{2028}', '\u{2029}', '\u{202f}', '\u{205f}', '\u{3000}', 'a', '\u{200b}', '\u{1f}', '_'] {
        assert_eq!(is_whitespace(c), c.is_whitespace());
    }
}
