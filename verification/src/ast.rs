//! The syntax tree: a program is an ordered list of statements. Expressions
//! have a place in the tree, which the parser does not fill yet.

use vstd::prelude::*;
use crate::token::{Token, TokenView};

verus! {

/// An expression. The parser builds none so far; the type fixes the shape
/// that statements reserve for one.
#[derive(Debug)]
pub enum Expression<'src> {
    Identifier(Token<'src>),
    Integer(Token<'src>),
}

/// What an expression means.
pub enum ExpressionView {
    Identifier(TokenView),
    Integer(TokenView),
}

impl ExpressionView {
    /// The literal that names the kind of expression.
    pub open spec fn token_literal(self) -> Seq<char> {
        match self {
            ExpressionView::Identifier(_) => "IDENT"@,
            ExpressionView::Integer(_) => "INT"@,
        }
    }
}

impl<'src> View for Expression<'src> {
    type V = ExpressionView;

    open spec fn view(&self) -> ExpressionView {
        match *self {
            Expression::Identifier(token) => ExpressionView::Identifier(token@),
            Expression::Integer(token) => ExpressionView::Integer(token@),
        }
    }
}

impl<'src> DeepView for Expression<'src> {
    type V = ExpressionView;

    open spec fn deep_view(&self) -> ExpressionView {
        self@
    }
}

impl<'src> Clone for Expression<'src> {
    fn clone(&self) -> (copy: Self)
        ensures
            copy == *self,
    {
        match self {
            Expression::Identifier(token) => Expression::Identifier(*token),
            Expression::Integer(token) => Expression::Integer(*token),
        }
    }
}

/// A copy of an expression slot.
fn clone_slot<'src>(slot: &Option<Expression<'src>>) -> (copy: Option<Expression<'src>>)
    ensures
        copy == *slot,
{
    match slot {
        Some(expr) => Some(expr.clone()),
        None => None,
    }
}

impl<'src> Expression<'src> {
    /// The literal that names the kind of expression.
    pub fn token_literal(&self) -> (literal: &str)
        ensures
            literal@ == self@.token_literal(),
    {
        match self {
            Expression::Identifier(_) => "IDENT",
            Expression::Integer(_) => "INT",
        }
    }
}

/// `let <name> = <expr>;`
#[derive(Debug)]
pub struct LetStmt<'src> {
    pub name: Token<'src>,
    pub expr: Option<Expression<'src>>,
}

/// What a `let` statement means.
pub struct LetStmtView {
    pub name: TokenView,
    pub expr: Option<ExpressionView>,
}

impl<'src> View for LetStmt<'src> {
    type V = LetStmtView;

    open spec fn view(&self) -> LetStmtView {
        LetStmtView { name: self.name@, expr: self.expr.deep_view() }
    }
}

impl<'src> DeepView for LetStmt<'src> {
    type V = LetStmtView;

    open spec fn deep_view(&self) -> LetStmtView {
        self@
    }
}

impl<'src> Clone for LetStmt<'src> {
    fn clone(&self) -> (copy: Self)
        ensures
            copy == *self,
    {
        LetStmt { name: self.name, expr: clone_slot(&self.expr) }
    }
}

/// `return <expr>;`
#[derive(Debug)]
pub struct ReturnStmt<'src> {
    pub expr: Option<Expression<'src>>,
}

/// What a `return` statement means.
pub struct ReturnStmtView {
    pub expr: Option<ExpressionView>,
}

impl<'src> View for ReturnStmt<'src> {
    type V = ReturnStmtView;

    open spec fn view(&self) -> ReturnStmtView {
        ReturnStmtView { expr: self.expr.deep_view() }
    }
}

impl<'src> DeepView for ReturnStmt<'src> {
    type V = ReturnStmtView;

    open spec fn deep_view(&self) -> ReturnStmtView {
        self@
    }
}

impl<'src> Clone for ReturnStmt<'src> {
    fn clone(&self) -> (copy: Self)
        ensures
            copy == *self,
    {
        ReturnStmt { expr: clone_slot(&self.expr) }
    }
}

/// A top-level statement.
#[derive(Debug)]
pub enum Statement<'src> {
    Let(LetStmt<'src>),
    Return(ReturnStmt<'src>),
}

/// What a statement means.
pub enum StatementView {
    Let(LetStmtView),
    Return(ReturnStmtView),
}

impl StatementView {
    /// The keyword that the statement begins with.
    pub open spec fn token_literal(self) -> Seq<char> {
        match self {
            StatementView::Let(_) => "let"@,
            StatementView::Return(_) => "return"@,
        }
    }
}

impl<'src> View for Statement<'src> {
    type V = StatementView;

    open spec fn view(&self) -> StatementView {
        match *self {
            Statement::Let(stmt) => StatementView::Let(stmt@),
            Statement::Return(stmt) => StatementView::Return(stmt@),
        }
    }
}

impl<'src> DeepView for Statement<'src> {
    type V = StatementView;

    open spec fn deep_view(&self) -> StatementView {
        self@
    }
}

impl<'src> Clone for Statement<'src> {
    fn clone(&self) -> (copy: Self)
        ensures
            copy == *self,
    {
        match self {
            Statement::Let(stmt) => Statement::Let(stmt.clone()),
            Statement::Return(stmt) => Statement::Return(stmt.clone()),
        }
    }
}

impl<'src> Statement<'src> {
    /// The keyword that the statement begins with.
    pub fn token_literal(&self) -> (literal: &str)
        ensures
            literal@ == self@.token_literal(),
    {
        match self {
            Statement::Let(_) => "let",
            Statement::Return(_) => "return",
        }
    }
}

/// A program: its statements in the order in which they were parsed.
#[derive(Debug)]
pub struct Program<'src> {
    pub statements: Vec<Statement<'src>>,
}

/// The literal of a sequence of statements: that of the first one, and the
/// empty text where there is none.
pub open spec fn first_token_literal(statements: Seq<StatementView>) -> Seq<char> {
    if statements.len() > 0 {
        statements[0].token_literal()
    } else {
        Seq::empty()
    }
}

impl<'src> View for Program<'src> {
    type V = Seq<StatementView>;

    open spec fn view(&self) -> Seq<StatementView> {
        self.statements.deep_view()
    }
}

impl<'src> DeepView for Program<'src> {
    type V = Seq<StatementView>;

    open spec fn deep_view(&self) -> Seq<StatementView> {
        self@
    }
}

impl<'src> Clone for Program<'src> {
    fn clone(&self) -> (copy: Self)
        ensures
            copy.statements@ == self.statements@,
            copy@ == self@,
    {
        let mut statements: Vec<Statement<'src>> = Vec::new();
        let mut i: usize = 0;
        while i < self.statements.len()
            invariant
                i <= self.statements@.len(),
                statements@ == self.statements@.take(i as int),
            decreases self.statements@.len() - i,
        {
            statements.push(self.statements[i].clone());
            i += 1;
            assert(statements@ =~= self.statements@.take(i as int));
        }
        assert(statements@ =~= self.statements@);
        Program { statements }
    }
}

impl<'src> Default for Program<'src> {
    /// The program without statements.
    fn default() -> (program: Self)
        ensures
            program@ == Seq::<StatementView>::empty(),
    {
        let program = Program { statements: Vec::new() };
        assert(program@ =~= Seq::<StatementView>::empty());
        program
    }
}

impl<'src> Program<'src> {
    /// The literal of the program's first statement, and the empty text for
    /// a program without statements.
    pub fn token_literal(&self) -> (literal: &str)
        ensures
            literal@ == first_token_literal(self@),
    {
        if self.statements.len() > 0 {
            self.statements[0].token_literal()
        } else {
            proof {
                reveal_strlit("");
                assert(""@ =~= Seq::<char>::empty());
            }
            ""
        }
    }
}

} // verus!
