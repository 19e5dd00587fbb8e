use hjpsh::lexer::{lex, Token};

#[test]
fn test_single_command() {
    let input = "ls";
    let expected = vec![Token::Command("ls".to_string())];
    assert_eq!(lex(input), expected);
}

#[test]
fn test_command_with_arg() {
    let input = "echo hello";
    let expected = vec![
        Token::Command("echo".to_string()),
        Token::Arg("hello".to_string()),
    ];
    assert_eq!(lex(input), expected);
}

#[test]
fn test_redirect_output() {
    let input = "echo hello > output.txt";
    let expected = vec![
        Token::Command("echo".to_string()),
        Token::Arg("hello".to_string()),
        Token::RedirectOutput,
        Token::File("output.txt".to_string()),
    ];
    assert_eq!(lex(input), expected);
}

#[test]
fn test_append_output() {
    let input = "echo hello >> output.txt";
    let expected = vec![
        Token::Command("echo".to_string()),
        Token::Arg("hello".to_string()),
        Token::AppendOutput,
        Token::File("output.txt".to_string()),
    ];
    assert_eq!(lex(input), expected);
}

#[test]
fn lexer_test_pipe() {
    let input = "ls | grep txt";
    let expected = vec![
        Token::Command("ls".to_string()),
        Token::Pipe,
        Token::Command("grep".to_string()),
        Token::Arg("txt".to_string()),
    ];
    assert_eq!(lex(input), expected);
}

#[test]
fn test_complex_command() {
    let input = "cat file.txt | grep 'search' > result.txt";
    let expected = vec![
        Token::Command("cat".to_string()),
        Token::Arg("file.txt".to_string()),
        Token::Pipe,
        Token::Command("grep".to_string()),
        Token::Arg("'search'".to_string()),
        Token::RedirectOutput,
        Token::File("result.txt".to_string()),
    ];
    assert_eq!(lex(input), expected);
}

#[test]
fn test_multiple_args() {
    let input = "cp file1.txt file2.txt";
    let expected = vec![
        Token::Command("cp".to_string()),
        Token::Arg("file1.txt".to_string()),
        Token::Arg("file2.txt".to_string()),
    ];
    assert_eq!(lex(input), expected);
}

#[test]
fn lex_ignores_extra_whitespace() {
    let input = "  echo \t hello  ";
    let expected = vec![
        Token::Command("echo".to_string()),
        Token::Arg("hello".to_string()),
    ];
    assert_eq!(lex(input), expected);
}

#[test]
fn lex_empty_line_has_no_tokens() {
    assert_eq!(lex(""), Vec::<Token>::new());
    assert_eq!(lex("   "), Vec::<Token>::new());
}

#[test]
fn lex_splits_on_the_whole_unicode_whitespace_set() {
    // A line of nothing but whitespace — including characters beyond
    // ASCII, such as vertical tab, NEL and ideographic space — holds no
    // words at all.
    assert_eq!(lex("\u{000B}"), Vec::<Token>::new());
    assert_eq!(lex("\u{000C}\u{0085}\u{00A0}\u{2003}\u{3000}"), Vec::<Token>::new());
    let input = "echo\u{00A0}hello\u{3000}world";
    let expected = vec![
        Token::Command("echo".to_string()),
        Token::Arg("hello".to_string()),
        Token::Arg("world".to_string()),
    ];
    assert_eq!(lex(input), expected);
}

#[test]
fn lex_command_after_every_pipe() {
    let input = "a | b | c";
    let expected = vec![
        Token::Command("a".to_string()),
        Token::Pipe,
        Token::Command("b".to_string()),
        Token::Pipe,
        Token::Command("c".to_string()),
    ];
    assert_eq!(lex(input), expected);
}
