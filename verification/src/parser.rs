//! The parser: recursive descent at the statement level, over a window of two
//! tokens, with diagnostics collected on the way.

use vstd::prelude::*;
use vstd::string::StringExecFns;
use crate::ast::{LetStmt, Program, ReturnStmt, Statement, StatementView};
use crate::grammar::{
    advance, current, lemma_statement_rest_is_not_longer, let_statement, lookahead,
    mismatch_message, parse, return_statement, skip_to_semicolon, statement,
};
use crate::lexer::Lexer;
use crate::scan::{lemma_eof_is_terminal, lemma_token_end_advances, token_at, tokens_from};
use crate::token::{Token, TokenView};

verus! {

/// A parser over the tokens of a scanner, which it borrows for its lifetime.
pub struct Parser<'lex, 'src> {
    lexer: &'lex mut Lexer<'src>,
    curr_token: Token<'src>,
    peek_token: Token<'src>,
    errors: Vec<String>,
}

impl<'lex, 'src> Parser<'lex, 'src> {
    /// The parser is consistent: behind an `Eof` in its window comes nothing
    /// but `Eof`.
    pub closed spec fn wf(&self) -> bool {
        &&& self.lexer.wf()
        &&& self.curr_token@ is Eof ==> self.peek_token@ is Eof
        &&& self.peek_token@ is Eof ==> token_at(self.lexer.source(), self.lexer.cursor()) is Eof
    }

    /// The tokens that are still to be parsed, from the current one to the
    /// last one of the source.
    pub closed spec fn pending(&self) -> Seq<TokenView> {
        if self.curr_token@ is Eof {
            Seq::empty()
        } else if self.peek_token@ is Eof {
            seq![self.curr_token@]
        } else {
            seq![self.curr_token@, self.peek_token@] + tokens_from(
                self.lexer.source(),
                self.lexer.cursor(),
            )
        }
    }

    /// The diagnostics raised so far, oldest first.
    pub closed spec fn diagnostics(&self) -> Seq<Seq<char>> {
        self.errors.deep_view()
    }

    /// The window shows the first two pending tokens.
    proof fn lemma_window(&self)
        requires
            self.wf(),
        ensures
            self.curr_token@ == current(self.pending()),
            self.peek_token@ == lookahead(self.pending()),
            self.pending().len() > 0 ==> self.pending()[0] !is Eof,
    {
    }

    /// A parser at the scanner's position, with the window filled and no
    /// diagnostics.
    pub fn new(lexer: &'lex mut Lexer<'src>) -> (parser: Self)
        requires
            old(lexer).wf(),
        ensures
            parser.wf(),
            parser.pending() == tokens_from(old(lexer).source(), old(lexer).cursor()),
            parser.diagnostics() == Seq::<Seq<char>>::empty(),
    {
        let mut parser = Parser {
            lexer,
            curr_token: Token::Illegal,
            peek_token: Token::Illegal,
            errors: Vec::<String>::new(),
        };
        assert(parser.diagnostics() =~= Seq::<Seq<char>>::empty());
        // Load both curr and peek token
        parser.next_token();
        parser.next_token();
        parser
    }

    /// The diagnostics raised so far, oldest first.
    pub fn errors(&self) -> (errors: &Vec<String>)
        ensures
            errors.deep_view() == self.diagnostics(),
    {
        &self.errors
    }

    /// Moves the window one token forward.
    pub fn next_token(&mut self)
        requires
            old(self).wf(),
        ensures
            final(self).wf(),
            final(self).pending() == advance(old(self).pending()),
            final(self).diagnostics() == old(self).diagnostics(),
    {
        proof {
            self.lexer.lemma_cursor_in_source();
            let src = self.lexer.source();
            let pos = self.lexer.cursor();
            if token_at(src, pos) is Eof {
                lemma_eof_is_terminal(src, pos);
            } else {
                lemma_token_end_advances(src, pos);
            }
        }
        self.curr_token = self.peek_token;
        self.peek_token = self.lexer.next_token();
        assert(final(self).pending() =~= advance(old(self).pending()));
    }

    /// Parses the pending tokens to the end: one attempt at a statement at
    /// each position that is reached, then one step forward. Statements that
    /// fail to parse are left out of the program; their diagnostics are kept.
    pub fn parse_program(&mut self) -> (program: Program<'src>)
        requires
            old(self).wf(),
        ensures
            final(self).wf(),
            program@ == parse(old(self).pending()).statements,
            final(self).diagnostics() == old(self).diagnostics() + parse(
                old(self).pending(),
            ).errors,
            final(self).pending() == Seq::<TokenView>::empty(),
    {
        let mut statements = Vec::<Statement>::new();
        assert(statements.deep_view() =~= Seq::empty());
        while self.curr_token != Token::Eof
            invariant
                self.wf(),
                statements.deep_view() + parse(self.pending()).statements == parse(
                    old(self).pending(),
                ).statements,
                self.diagnostics() + parse(self.pending()).errors == old(self).diagnostics()
                    + parse(old(self).pending()).errors,
            decreases self.pending().len(),
        {
            let ghost before = self.pending();
            let ghost before_errors = self.diagnostics();
            let ghost before_statements = statements.deep_view();
            proof {
                self.lemma_window();
                lemma_statement_rest_is_not_longer(before);
            }
            if let Some(stmt) = self.parse_statement() {
                statements.push(stmt);
                assert(statements.deep_view() =~= before_statements.push(stmt@));
            }
            self.next_token();
            proof {
                let first = statement(before);
                let others = parse(advance(first.rest));
                assert(statements.deep_view() + others.statements =~= before_statements + parse(
                    before,
                ).statements);
                assert(self.diagnostics() + others.errors =~= before_errors + parse(
                    before,
                ).errors);
            }
        }
        proof {
            self.lemma_window();
            assert(statements.deep_view() + Seq::<StatementView>::empty()
                =~= statements.deep_view());
            assert(self.diagnostics() + Seq::<Seq<char>>::empty() =~= self.diagnostics());
        }
        Program { statements }
    }

    /// Attempts to parse the statement that the current token begins. A token
    /// that begins no statement gives none and is left in place.
    pub fn parse_statement(&mut self) -> (stmt: Option<Statement<'src>>)
        requires
            old(self).wf(),
        ensures
            final(self).wf(),
            stmt.deep_view() == statement(old(self).pending()).result,
            final(self).pending() == statement(old(self).pending()).rest,
            final(self).diagnostics() == old(self).diagnostics() + statement(
                old(self).pending(),
            ).errors,
    {
        proof {
            self.lemma_window();
        }
        match self.curr_token {
            Token::Let => match self.parse_let_statement() {
                Some(stmt) => Some(Statement::Let(stmt)),
                None => None,
            },
            Token::Return => match self.parse_return_statement() {
                Some(stmt) => Some(Statement::Return(stmt)),
                None => None,
            },
            _ => {
                assert(self.diagnostics() + Seq::<Seq<char>>::empty() =~= self.diagnostics());
                None
            },
        }
    }

    /// Parses a `let` statement whose keyword is the current token. Where the
    /// identifier or the `=` is missing, the statement is given up at that
    /// point with one diagnostic.
    pub fn parse_let_statement(&mut self) -> (stmt: Option<LetStmt<'src>>)
        requires
            old(self).wf(),
        ensures
            final(self).wf(),
            stmt.deep_view() == let_statement(old(self).pending()).result,
            final(self).pending() == let_statement(old(self).pending()).rest,
            final(self).diagnostics() == old(self).diagnostics() + let_statement(
                old(self).pending(),
            ).errors,
    {
        let ghost before = self.diagnostics();
        proof {
            reveal_strlit("");
            assert(""@ =~= Seq::<char>::empty());
        }
        if !self.expect_peek_and_advance(Token::Identifier("")) {
            assert(self.diagnostics() =~= before + let_statement(old(self).pending()).errors);
            return None;
        }
        proof {
            self.lemma_window();
        }
        let stmt = LetStmt { name: self.curr_token, expr: None };

        if !self.expect_peek_and_advance(Token::Assign) {
            assert(self.diagnostics() =~= before + let_statement(old(self).pending()).errors);
            return None;
        }
        self.skip_to_semicolon();
        assert(self.diagnostics() =~= before + let_statement(old(self).pending()).errors);
        Some(stmt)
    }

    /// Parses a `return` statement whose keyword is the current token.
    pub fn parse_return_statement(&mut self) -> (stmt: Option<ReturnStmt<'src>>)
        requires
            old(self).wf(),
        ensures
            final(self).wf(),
            stmt.deep_view() == return_statement(old(self).pending()).result,
            final(self).pending() == return_statement(old(self).pending()).rest,
            final(self).diagnostics() == old(self).diagnostics() + return_statement(
                old(self).pending(),
            ).errors,
    {
        let stmt = ReturnStmt { expr: None };

        self.next_token();
        self.skip_to_semicolon();
        assert(self.diagnostics() + Seq::<Seq<char>>::empty() =~= self.diagnostics());
        Some(stmt)
    }

    /// Moves the window forward until the current token is a semicolon, or
    /// the source is used up.
    fn skip_to_semicolon(&mut self)
        requires
            old(self).wf(),
        ensures
            final(self).wf(),
            final(self).pending() == skip_to_semicolon(old(self).pending()),
            final(self).diagnostics() == old(self).diagnostics(),
    {
        proof {
            self.lemma_window();
        }
        while self.curr_token != Token::Semicolon && self.curr_token != Token::Eof
            invariant
                self.wf(),
                skip_to_semicolon(self.pending()) == skip_to_semicolon(old(self).pending()),
                self.diagnostics() == old(self).diagnostics(),
                self.curr_token@ == current(self.pending()),
                self.pending().len() > 0 ==> self.pending()[0] !is Eof,
            decreases self.pending().len(),
        {
            self.next_token();
            proof {
                self.lemma_window();
            }
        }
    }

    /// Requires that the lookahead token be of the kind of `token`, whatever
    /// either carries. On a match the window moves one token forward. On a
    /// mismatch nothing moves and one diagnostic is raised.
    pub fn expect_peek_and_advance(&mut self, token: Token<'src>) -> (matched: bool)
        requires
            old(self).wf(),
        ensures
            final(self).wf(),
            matched == lookahead(old(self).pending()).same_kind(token@),
            matched ==> final(self).pending() == advance(old(self).pending())
                && final(self).diagnostics() == old(self).diagnostics(),
            !matched ==> final(self).pending() == old(self).pending()
                && final(self).diagnostics() == old(self).diagnostics().push(
                mismatch_message(token@, lookahead(old(self).pending())),
            ),
    {
        proof {
            self.lemma_window();
        }
        if self.peek_token.same_kind(&token) {
            self.next_token();
            true
        } else {
            self.peek_error(token);
            false
        }
    }

    /// Raises the diagnostic that a token of the kind of `token` was expected
    /// where the lookahead token stands.
    pub fn peek_error(&mut self, token: Token<'src>)
        requires
            old(self).wf(),
        ensures
            final(self).wf(),
            final(self).pending() == old(self).pending(),
            final(self).diagnostics() == old(self).diagnostics().push(
                mismatch_message(token@, lookahead(old(self).pending())),
            ),
    {
        proof {
            self.lemma_window();
        }
        let mut msg = String::from_str("expected next token to be ");
        msg.append(token.kind_name());
        msg.append(", got ");
        let found = self.peek_token.to_string();
        msg.append(found.as_str());
        msg.append(" instead");
        self.errors.push(msg);
        assert(final(self).diagnostics() =~= old(self).diagnostics().push(
            mismatch_message(token@, lookahead(old(self).pending())),
        ));
    }
}

} // verus!
