use frontend::token::{get_identifier_or_keyword, Token};

fn all_plain_tokens() -> Vec<(Token<'static>, &'static str)> {
    vec![
        (Token::Illegal, "Illegal"),
        (Token::Eof, "Eof"),
        (Token::Assign, "Assign"),
        (Token::Plus, "Plus"),
        (Token::Minus, "Minus"),
        (Token::Bang, "Bang"),
        (Token::Asterisk, "Asterisk"),
        (Token::Slash, "Slash"),
        (Token::Lt, "Lt"),
        (Token::Gt, "Gt"),
        (Token::Eq, "Eq"),
        (Token::NotEq, "NotEq"),
        (Token::Comma, "Comma"),
        (Token::Semicolon, "Semicolon"),
        (Token::LParen, "LParen"),
        (Token::RParen, "RParen"),
        (Token::LBrace, "LBrace"),
        (Token::RBrace, "RBrace"),
        (Token::Function, "Function"),
        (Token::Let, "Let"),
        (Token::True, "True"),
        (Token::False, "False"),
        (Token::If, "If"),
        (Token::Else, "Else"),
        (Token::Return, "Return"),
    ]
}

#[test]
fn plain_tokens_are_written_as_their_names() {
    for (token, name) in all_plain_tokens() {
        assert_eq!(token.to_string(), name);
        assert_eq!(token.kind_name(), name);
    }
}

#[test]
fn identifier_is_written_with_its_text() {
    assert_eq!(Token::Identifier("foobar").to_string(), "Identifier(foobar)");
    assert_eq!(Token::Identifier("x").to_string(), "Identifier(x)");
    assert_eq!(Token::Identifier("").to_string(), "Identifier()");
    assert_eq!(Token::Identifier("foobar").kind_name(), "Identifier");
}

#[test]
fn integer_is_written_with_its_value() {
    assert_eq!(Token::Int(0).to_string(), "Int(0)");
    assert_eq!(Token::Int(5).to_string(), "Int(5)");
    assert_eq!(Token::Int(10).to_string(), "Int(10)");
    assert_eq!(Token::Int(12345).to_string(), "Int(12345)");
    assert_eq!(Token::Int(1000000).to_string(), "Int(1000000)");
    assert_eq!(Token::Int(i32::MAX).to_string(), "Int(2147483647)");
    assert_eq!(Token::Int(5).kind_name(), "Int");
}

#[test]
fn negative_integer_is_written_with_a_sign() {
    assert_eq!(Token::Int(-1).to_string(), "Int(-1)");
    assert_eq!(Token::Int(-12).to_string(), "Int(-12)");
    assert_eq!(Token::Int(-100).to_string(), "Int(-100)");
    assert_eq!(Token::Int(i32::MIN).to_string(), "Int(-2147483648)");
}

#[test]
fn same_kind_ignores_what_a_token_carries() {
    assert!(Token::Identifier("").same_kind(&Token::Identifier("foobar")));
    assert!(Token::Identifier("a").same_kind(&Token::Identifier("b")));
    assert!(Token::Int(1).same_kind(&Token::Int(2)));
    assert!(!Token::Int(1).same_kind(&Token::Identifier("1")));
    assert!(!Token::Identifier("let").same_kind(&Token::Let));
}

#[test]
fn same_kind_tells_plain_tokens_apart() {
    let tokens = all_plain_tokens();
    for (i, (a, _)) in tokens.iter().enumerate() {
        for (j, (b, _)) in tokens.iter().enumerate() {
            assert_eq!(a.same_kind(b), i == j, "{:?} and {:?}", a, b);
        }
        assert!(!a.same_kind(&Token::Identifier("x")));
        assert!(!a.same_kind(&Token::Int(0)));
    }
}

#[test]
fn equality_compares_kind_and_content() {
    assert_eq!(Token::Identifier("abc"), Token::Identifier("abc"));
    assert_ne!(Token::Identifier("abc"), Token::Identifier("abd"));
    assert_ne!(Token::Identifier("abc"), Token::Identifier("ab"));
    assert_ne!(Token::Identifier("abc"), Token::Identifier(""));
    assert_eq!(Token::Int(7), Token::Int(7));
    assert_ne!(Token::Int(7), Token::Int(8));
    assert_ne!(Token::Int(7), Token::Identifier("7"));
    assert_ne!(Token::Assign, Token::Eq);
    assert_ne!(Token::Let, Token::Identifier("let"));
    let tokens = all_plain_tokens();
    for (i, (a, _)) in tokens.iter().enumerate() {
        for (j, (b, _)) in tokens.iter().enumerate() {
            assert_eq!(a == b, i == j, "{:?} and {:?}", a, b);
        }
    }
}

#[test]
fn equality_does_not_depend_on_the_buffer() {
    let first = String::from("name");
    let second = String::from("a name");
    assert_eq!(Token::Identifier(&first), Token::Identifier(&second[2..]));
}

#[test]
fn keyword_table() {
    assert_eq!(get_identifier_or_keyword("fn"), Token::Function);
    assert_eq!(get_identifier_or_keyword("let"), Token::Let);
    assert_eq!(get_identifier_or_keyword("true"), Token::True);
    assert_eq!(get_identifier_or_keyword("false"), Token::False);
    assert_eq!(get_identifier_or_keyword("if"), Token::If);
    assert_eq!(get_identifier_or_keyword("else"), Token::Else);
    assert_eq!(get_identifier_or_keyword("return"), Token::Return);
}

#[test]
fn other_words_are_identifiers() {
    for word in [
        "letx", "Let", "FN", "Fn", "True", "iF", "elsee", "retur", "returnn", "", "x", "foobar",
        "fn ", " fn",
    ] {
        assert_eq!(get_identifier_or_keyword(word), Token::Identifier(word));
    }
}

#[test]
fn token_is_copied_by_value() {
    let token = Token::Identifier("abc");
    let copy = token;
    let clone = token.clone();
    assert_eq!(token, copy);
    assert_eq!(token, clone);
}
