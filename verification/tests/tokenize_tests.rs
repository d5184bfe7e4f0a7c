use minishell::tokenize::split_command;
use minishell::tokenize::tokenize;

#[test]
fn splits_single_spaces() {
    let toks = tokenize("echo a b c");
    assert_eq!(toks, vec!["echo", "a", "b", "c"]);
}

#[test]
fn collapses_runs_of_whitespace() {
    let toks = tokenize("echo   a \t b     c");
    assert_eq!(toks, vec!["echo", "a", "b", "c"]);
}

#[test]
fn trims_leading_and_trailing_whitespace() {
    let toks = tokenize("  type  foo  ");
    assert_eq!(toks, vec!["type", "foo"]);
}

#[test]
fn empty_line_has_no_tokens() {
    let toks = tokenize("");
    assert!(toks.is_empty());
}

#[test]
fn blank_line_has_no_tokens() {
    let toks = tokenize(" \t  \r\n");
    assert!(toks.is_empty());
}

#[test]
fn single_token_with_newline() {
    let toks = tokenize("pwd\n");
    assert_eq!(toks, vec!["pwd"]);
}

#[test]
fn keeps_argument_order() {
    let toks = tokenize("cmd z y x");
    assert_eq!(toks, vec!["cmd", "z", "y", "x"]);
}

#[test]
fn splits_vertical_whitespace() {
    let toks = tokenize("a\u{b}b\u{c}c");
    assert_eq!(toks, vec!["a", "b", "c"]);
}

#[test]
fn first_token_names_the_command() {
    let parts = split_command(tokenize("type  foo bar"));
    let (name, args) = parts.expect("a non-blank line dispatches");
    assert_eq!(name, "type");
    assert_eq!(args, vec!["foo", "bar"]);
}

#[test]
fn blank_line_dispatches_nothing() {
    assert!(split_command(tokenize("   ")).is_none());
    assert!(split_command(tokenize("")).is_none());
}
