//! What an interactive session decides: which lines end it, and which tokens
//! it shows for a line. Reading and printing are left to the caller.

use vstd::prelude::*;
use vstd::string::StringSliceAdditionalSpecFns;
use crate::ascii::str_eq;
use crate::lexer::Lexer;
use crate::scan::{lemma_eof_is_terminal, lemma_token_end_advances, token_at, tokens_from};
use crate::token::{Token, TokenView};

verus! {

/// The commands that end a session.
pub open spec fn is_exit_word(command: Seq<char>) -> bool {
    command == ".quit"@ || command == ".exit"@
}

/// Tells whether a line, given without the white space around it, ends the
/// session.
pub fn is_exit_command(command: &str) -> (exit: bool)
    ensures
        exit == is_exit_word(command@),
{
    str_eq(command, ".quit") || str_eq(command, ".exit")
}

/// The tokens that a session shows for a line: all tokens of the line in
/// order, and the `Eof` that ends them.
pub fn tokenize<'a>(line: &'a str) -> (tokens: Vec<Token<'a>>)
    ensures
        tokens.deep_view() == tokens_from(line.spec_bytes(), 0).push(TokenView::Eof),
{
    let ghost src = line.spec_bytes();
    let mut lexer = Lexer::new(line);
    let mut tokens: Vec<Token<'a>> = Vec::new();
    assert(tokens.deep_view() + tokens_from(src, 0) =~= tokens_from(src, 0));
    loop
        invariant_except_break
            lexer.wf(),
            lexer.source() == src,
            tokens.deep_view() + tokens_from(src, lexer.cursor()) == tokens_from(src, 0),
        ensures
            tokens.deep_view() == tokens_from(src, 0).push(TokenView::Eof),
        decreases src.len() - lexer.cursor(),
    {
        let ghost before = tokens.deep_view();
        let ghost pos = lexer.cursor();
        proof {
            lexer.lemma_cursor_in_source();
            if token_at(src, pos) is Eof {
                lemma_eof_is_terminal(src, pos);
            } else {
                lemma_token_end_advances(src, pos);
            }
        }
        let tok = lexer.next_token();
        tokens.push(tok);
        assert(tokens.deep_view() =~= before.push(tok@));
        if tok == Token::Eof {
            assert(tokens.deep_view() =~= tokens_from(src, 0).push(TokenView::Eof));
            break;
        }
        assert(tokens.deep_view() + tokens_from(src, lexer.cursor()) =~= before + tokens_from(
            src,
            pos,
        ));
    }
    tokens
}

} // verus!
