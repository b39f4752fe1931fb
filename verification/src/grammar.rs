//! The statement-level grammar, stated over the sequence of tokens that are
//! still to be parsed.
//!
//! The sequence begins with the current token and ends with the last token
//! of the source; `Eof` is not part of it. Beyond its end every token reads
//! as `Eof`.

use vstd::prelude::*;
use crate::ast::{LetStmtView, ReturnStmtView, StatementView};
use crate::scan::{is_blank, lemma_blank_source_has_no_tokens, tokens_from};
use crate::token::TokenView;

verus! {

/// The token under the parser's hand.
pub open spec fn current(tokens: Seq<TokenView>) -> TokenView {
    if tokens.len() > 0 {
        tokens[0]
    } else {
        TokenView::Eof
    }
}

/// The token after the current one.
pub open spec fn lookahead(tokens: Seq<TokenView>) -> TokenView {
    if tokens.len() > 1 {
        tokens[1]
    } else {
        TokenView::Eof
    }
}

/// The tokens that are left once the current one has been passed. At the end
/// there is nothing to pass.
pub open spec fn advance(tokens: Seq<TokenView>) -> Seq<TokenView> {
    if tokens.len() > 0 {
        tokens.drop_first()
    } else {
        tokens
    }
}

/// The tokens from the first semicolon on. Where there is no semicolon,
/// nothing is left.
pub open spec fn skip_to_semicolon(tokens: Seq<TokenView>) -> Seq<TokenView>
    decreases tokens.len(),
{
    if tokens.len() == 0 || tokens[0] is Semicolon {
        tokens
    } else {
        skip_to_semicolon(tokens.drop_first())
    }
}

/// The diagnostic for a token that was expected and not found.
pub open spec fn mismatch_message(expected: TokenView, found: TokenView) -> Seq<char> {
    "expected next token to be "@ + expected.kind_name() + ", got "@ + found.display()
        + " instead"@
}

/// What an attempt to parse one construct comes to: the construct, if there
/// is one, the tokens that are left, and the diagnostics that were raised.
pub struct Outcome<T> {
    pub result: Option<T>,
    pub rest: Seq<TokenView>,
    pub errors: Seq<Seq<char>>,
}

/// The outcome of parsing a `let` statement whose keyword is the current
/// token. The keyword must be followed by an identifier and then by `=`:
/// where either is missing, the attempt ends in front of the token that was
/// found in its place, with one diagnostic and no statement. What stands
/// between `=` and the next semicolon is passed over, so that the semicolon
/// is the current token afterwards; where no semicolon follows, the statement
/// ends with the source.
pub open spec fn let_statement(tokens: Seq<TokenView>) -> Outcome<LetStmtView> {
    let name = lookahead(tokens);
    let named = advance(tokens);
    if !(name is Identifier) {
        Outcome {
            result: None,
            rest: tokens,
            errors: seq![mismatch_message(TokenView::Identifier(Seq::empty()), name)],
        }
    } else if !(lookahead(named) is Assign) {
        Outcome {
            result: None,
            rest: named,
            errors: seq![mismatch_message(TokenView::Assign, lookahead(named))],
        }
    } else {
        Outcome {
            result: Some(LetStmtView { name, expr: None }),
            rest: skip_to_semicolon(advance(named)),
            errors: Seq::empty(),
        }
    }
}

/// The outcome of parsing a `return` statement whose keyword is the current
/// token: what stands between the keyword and the next semicolon is passed
/// over, as in a `let` statement.
pub open spec fn return_statement(tokens: Seq<TokenView>) -> Outcome<ReturnStmtView> {
    Outcome {
        result: Some(ReturnStmtView { expr: None }),
        rest: skip_to_semicolon(advance(tokens)),
        errors: Seq::empty(),
    }
}

/// The outcome of parsing one statement: the current token alone decides
/// which. A token that begins no statement gives none, moves nothing and
/// raises nothing.
pub open spec fn statement(tokens: Seq<TokenView>) -> Outcome<StatementView> {
    match current(tokens) {
        TokenView::Let => {
            let parsed = let_statement(tokens);
            Outcome {
                result: match parsed.result {
                    Some(stmt) => Some(StatementView::Let(stmt)),
                    None => None,
                },
                rest: parsed.rest,
                errors: parsed.errors,
            }
        },
        TokenView::Return => {
            let parsed = return_statement(tokens);
            Outcome {
                result: match parsed.result {
                    Some(stmt) => Some(StatementView::Return(stmt)),
                    None => None,
                },
                rest: parsed.rest,
                errors: parsed.errors,
            }
        },
        _ => Outcome { result: None, rest: tokens, errors: Seq::empty() },
    }
}

/// What parsing a whole token sequence comes to.
pub struct Parsed {
    pub statements: Seq<StatementView>,
    pub errors: Seq<Seq<char>>,
}

/// The statement of an outcome as a sequence of at most one element.
pub open spec fn found<T>(result: Option<T>) -> Seq<T> {
    match result {
        Some(item) => seq![item],
        None => Seq::empty(),
    }
}

/// The program and the diagnostics that a token sequence gives: one attempt
/// at a statement at each position that is reached, followed by one step
/// forward, until the tokens are used up. A failed attempt adds its
/// diagnostics and no statement.
pub open spec fn parse(tokens: Seq<TokenView>) -> Parsed
    decreases tokens.len(),
{
    if tokens.len() == 0 {
        Parsed { statements: Seq::empty(), errors: Seq::empty() }
    } else {
        let first = statement(tokens);
        proof {
            lemma_statement_rest_is_not_longer(tokens);
        }
        let others = parse(advance(first.rest));
        Parsed {
            statements: found(first.result) + others.statements,
            errors: first.errors + others.errors,
        }
    }
}

/// The program and the diagnostics that a source text gives when it is
/// scanned and parsed from its beginning.
pub open spec fn parse_source(src: Seq<u8>) -> Parsed {
    parse(tokens_from(src, 0))
}

/// Passing over tokens leaves a suffix of them.
pub proof fn lemma_skip_to_semicolon_is_suffix(tokens: Seq<TokenView>)
    ensures
        skip_to_semicolon(tokens).len() <= tokens.len(),
        skip_to_semicolon(tokens) == tokens.skip(
            tokens.len() - skip_to_semicolon(tokens).len(),
        ),
        skip_to_semicolon(tokens).len() > 0 ==> skip_to_semicolon(tokens)[0] is Semicolon,
    decreases tokens.len(),
{
    if tokens.len() == 0 || tokens[0] is Semicolon {
        assert(tokens.skip(0) =~= tokens);
    } else {
        let tail = tokens.drop_first();
        lemma_skip_to_semicolon_is_suffix(tail);
        let left = skip_to_semicolon(tail).len();
        assert(tail.skip(tail.len() - left) =~= tokens.skip(tokens.len() - left));
    }
}

/// An attempt at a statement never yields more tokens than it was given.
pub proof fn lemma_statement_rest_is_not_longer(tokens: Seq<TokenView>)
    ensures
        statement(tokens).rest.len() <= tokens.len(),
{
    lemma_skip_to_semicolon_is_suffix(advance(tokens));
    lemma_skip_to_semicolon_is_suffix(advance(advance(tokens)));
}

/// A source of white space alone gives the empty program and no
/// diagnostics.
pub proof fn lemma_blank_source_parses_to_nothing(src: Seq<u8>)
    requires
        is_blank(src),
    ensures
        parse_source(src).statements == Seq::<StatementView>::empty(),
        parse_source(src).errors == Seq::<Seq<char>>::empty(),
{
    lemma_blank_source_has_no_tokens(src);
}

} // verus!
