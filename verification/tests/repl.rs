use frontend::repl::{is_exit_command, tokenize};
use frontend::token::Token;

#[test]
fn exit_commands() {
    assert!(is_exit_command(".quit"));
    assert!(is_exit_command(".exit"));
}

#[test]
fn other_lines_do_not_end_the_session() {
    for line in [
        "", ".", "quit", "exit", ".quit ", " .quit", ".exit\n", ".QUIT", ".Exit", ".quit.exit",
        ".quits", ".exi", "let x = 5;",
    ] {
        assert!(!is_exit_command(line), "line {:?}", line);
    }
}

#[test]
fn tokenize_ends_with_eof() {
    assert_eq!(tokenize(""), vec![Token::Eof]);
    assert_eq!(tokenize("   \n"), vec![Token::Eof]);
    assert_eq!(
        tokenize("let x = 5;\n"),
        vec![
            Token::Let,
            Token::Identifier("x"),
            Token::Assign,
            Token::Int(5),
            Token::Semicolon,
            Token::Eof,
        ]
    );
    assert_eq!(
        tokenize("a != b == $"),
        vec![
            Token::Identifier("a"),
            Token::NotEq,
            Token::Identifier("b"),
            Token::Eq,
            Token::Illegal,
            Token::Eof,
        ]
    );
}

#[test]
fn tokenize_agrees_with_the_lexer() {
    let line = "if (x < 10) { return true; } else { return false; } fn 42 _y @";
    let tokens = tokenize(line);
    let mut lexer = frontend::lexer::Lexer::new(line);
    for token in &tokens {
        assert_eq!(lexer.next_token(), *token);
    }
    assert_eq!(tokens.last(), Some(&Token::Eof));
    assert_eq!(
        tokens.iter().filter(|t| **t == Token::Eof).count(),
        1
    );
}
