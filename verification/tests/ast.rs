use frontend::ast::{Expression, LetStmt, Program, ReturnStmt, Statement};
use frontend::token::Token;

#[test]
fn expression_literals() {
    assert_eq!(
        Expression::Identifier(Token::Identifier("x")).token_literal(),
        "IDENT"
    );
    assert_eq!(Expression::Integer(Token::Int(5)).token_literal(), "INT");
}

#[test]
fn statement_literals() {
    let let_stmt = Statement::Let(LetStmt {
        name: Token::Identifier("x"),
        expr: None,
    });
    let return_stmt = Statement::Return(ReturnStmt { expr: None });
    assert_eq!(let_stmt.token_literal(), "let");
    assert_eq!(return_stmt.token_literal(), "return");
}

#[test]
fn program_literal_is_that_of_its_first_statement() {
    let empty = Program { statements: vec![] };
    assert_eq!(empty.token_literal(), "");

    let starts_with_let = Program {
        statements: vec![
            Statement::Let(LetStmt {
                name: Token::Identifier("x"),
                expr: None,
            }),
            Statement::Return(ReturnStmt { expr: None }),
        ],
    };
    assert_eq!(starts_with_let.token_literal(), "let");

    let starts_with_return = Program {
        statements: vec![
            Statement::Return(ReturnStmt { expr: None }),
            Statement::Let(LetStmt {
                name: Token::Identifier("x"),
                expr: None,
            }),
        ],
    };
    assert_eq!(starts_with_return.token_literal(), "return");
}

#[test]
fn default_program_is_empty() {
    let program = Program::default();
    assert!(program.statements.is_empty());
    assert_eq!(program.token_literal(), "");
}

#[test]
fn clone_keeps_every_statement() {
    let program = Program {
        statements: vec![
            Statement::Let(LetStmt {
                name: Token::Identifier("answer"),
                expr: Some(Expression::Integer(Token::Int(42))),
            }),
            Statement::Return(ReturnStmt {
                expr: Some(Expression::Identifier(Token::Identifier("answer"))),
            }),
            Statement::Return(ReturnStmt { expr: None }),
        ],
    };
    let copy = program.clone();
    assert_eq!(copy.statements.len(), 3);
    match &copy.statements[0] {
        Statement::Let(stmt) => {
            assert_eq!(stmt.name, Token::Identifier("answer"));
            match &stmt.expr {
                Some(Expression::Integer(token)) => assert_eq!(*token, Token::Int(42)),
                other => panic!("unexpected expression {:?}", other),
            }
        }
        other => panic!("unexpected statement {:?}", other),
    }
    match &copy.statements[1] {
        Statement::Return(stmt) => match &stmt.expr {
            Some(Expression::Identifier(token)) => {
                assert_eq!(*token, Token::Identifier("answer"))
            }
            other => panic!("unexpected expression {:?}", other),
        },
        other => panic!("unexpected statement {:?}", other),
    }
    match &copy.statements[2] {
        Statement::Return(stmt) => assert!(stmt.expr.is_none()),
        other => panic!("unexpected statement {:?}", other),
    }
    assert_eq!(program.statements.len(), 3);
}
