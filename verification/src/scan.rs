//! The lexical grammar, stated over the bytes of the source text.
//!
//! A token is found in two steps: white space is skipped, then the lexeme
//! that starts at the first other byte is read. Words and numbers extend over
//! the longest run of bytes of their class. `==` and `!=` are the only
//! operators of two bytes.
//!
//! Nothing stops the scan. A byte that begins no lexeme, which includes every
//! byte outside ASCII, is an `Illegal` token by itself. So is a number that
//! does not fit an `i32`, with all its digits.

use vstd::prelude::*;
use crate::ascii::{
    ascii_text, ByteClass, ASTERISK, BANG, COMMA, EQUALS, GREATER_THAN, LEFT_BRACE, LEFT_PAREN,
    LESS_THAN, MINUS, PLUS, RIGHT_BRACE, RIGHT_PAREN, SEMICOLON, SLASH,
};
use crate::decimal::decimal_value;
use crate::token::{word_token, TokenView};

verus! {

/// The byte at `pos`, if `pos` lies inside the source.
pub open spec fn byte_at(src: Seq<u8>, pos: int) -> Option<u8> {
    if 0 <= pos < src.len() {
        Some(src[pos])
    } else {
        None
    }
}

/// Where the longest run of `class` bytes that begins at `pos` ends: the
/// first position from `pos` on that holds no byte of the class.
pub open spec fn run_end(src: Seq<u8>, pos: int, class: ByteClass) -> int
    decreases src.len() - pos,
{
    if 0 <= pos < src.len() && class.has(src[pos]) {
        run_end(src, pos + 1, class)
    } else {
        pos
    }
}

/// `end` closes a run of `class` bytes that begins at `pos` and cannot be
/// extended: every byte before `end` is of the class, and the byte at `end`,
/// if there is one, is not.
pub open spec fn is_maximal_run(src: Seq<u8>, pos: int, end: int, class: ByteClass) -> bool {
    &&& pos <= end <= src.len()
    &&& forall|i: int| pos <= i < end ==> class.has(#[trigger] src[i])
    &&& end < src.len() ==> !class.has(src[end])
}

/// The token that a punctuation byte stands for when it is read alone.
pub open spec fn symbol_token(b: u8) -> Option<TokenView> {
    if b == EQUALS {
        Some(TokenView::Assign)
    } else if b == PLUS {
        Some(TokenView::Plus)
    } else if b == MINUS {
        Some(TokenView::Minus)
    } else if b == BANG {
        Some(TokenView::Bang)
    } else if b == ASTERISK {
        Some(TokenView::Asterisk)
    } else if b == SLASH {
        Some(TokenView::Slash)
    } else if b == GREATER_THAN {
        Some(TokenView::Gt)
    } else if b == LESS_THAN {
        Some(TokenView::Lt)
    } else if b == LEFT_PAREN {
        Some(TokenView::LParen)
    } else if b == RIGHT_PAREN {
        Some(TokenView::RParen)
    } else if b == LEFT_BRACE {
        Some(TokenView::LBrace)
    } else if b == RIGHT_BRACE {
        Some(TokenView::RBrace)
    } else if b == COMMA {
        Some(TokenView::Comma)
    } else if b == SEMICOLON {
        Some(TokenView::Semicolon)
    } else {
        None
    }
}

/// A two-byte operator begins at `start`: `=` or `!`, directly followed by `=`.
pub open spec fn is_compound(src: Seq<u8>, start: int) -> bool {
    &&& 0 <= start
    &&& start + 1 < src.len()
    &&& src[start] == EQUALS || src[start] == BANG
    &&& src[start + 1] == EQUALS
}

/// The token for a number: its value where that fits an `i32`, and `Illegal`
/// where it does not.
pub open spec fn number_token(value: nat) -> TokenView {
    if value <= i32::MAX {
        TokenView::Int(value as int)
    } else {
        TokenView::Illegal
    }
}

/// Where the lexeme that begins at `start` ends. At the end of the source
/// nothing is consumed.
pub open spec fn lexeme_end(src: Seq<u8>, start: int) -> int {
    if !(0 <= start < src.len()) {
        start
    } else if is_compound(src, start) {
        start + 2
    } else if ByteClass::Letter.has(src[start]) {
        run_end(src, start, ByteClass::Word)
    } else if ByteClass::Digit.has(src[start]) {
        run_end(src, start, ByteClass::Digit)
    } else {
        start + 1
    }
}

/// The token that the lexeme beginning at `start` stands for. `start` holds
/// no white space.
pub open spec fn lexeme(src: Seq<u8>, start: int) -> TokenView {
    if !(0 <= start < src.len()) {
        TokenView::Eof
    } else if is_compound(src, start) {
        if src[start] == EQUALS {
            TokenView::Eq
        } else {
            TokenView::NotEq
        }
    } else if let Some(token) = symbol_token(src[start]) {
        token
    } else if ByteClass::Letter.has(src[start]) {
        word_token(ascii_text(src.subrange(start, lexeme_end(src, start))))
    } else if ByteClass::Digit.has(src[start]) {
        number_token(decimal_value(src.subrange(start, lexeme_end(src, start))))
    } else {
        TokenView::Illegal
    }
}

/// Where the next token begins when the cursor stands at `pos`: behind the
/// white space, if any.
pub open spec fn token_start(src: Seq<u8>, pos: int) -> int {
    run_end(src, pos, ByteClass::Space)
}

/// The next token when the cursor stands at `pos`.
pub open spec fn token_at(src: Seq<u8>, pos: int) -> TokenView {
    lexeme(src, token_start(src, pos))
}

/// Where the cursor stands once the token at `pos` has been read.
pub open spec fn token_end(src: Seq<u8>, pos: int) -> int {
    lexeme_end(src, token_start(src, pos))
}

/// The tokens from `pos` to the end of the source, without the final `Eof`.
pub open spec fn tokens_from(src: Seq<u8>, pos: int) -> Seq<TokenView>
    decreases src.len() - pos,
{
    if 0 <= pos && token_start(src, pos) < src.len() {
        proof {
            lemma_token_end_advances(src, pos);
        }
        seq![token_at(src, pos)] + tokens_from(src, token_end(src, pos))
    } else {
        Seq::empty()
    }
}

/// Where the cursor stands after `n` tokens have been read from `pos`.
pub open spec fn cursor_after(src: Seq<u8>, pos: int, n: nat) -> int
    decreases n,
{
    if n == 0 {
        pos
    } else {
        token_end(src, cursor_after(src, pos, (n - 1) as nat))
    }
}

/// The source consists of white space alone.
pub open spec fn is_blank(src: Seq<u8>) -> bool {
    forall|i: int| 0 <= i < src.len() ==> ByteClass::Space.has(#[trigger] src[i])
}

/// A run ends at or after its beginning, and inside the source when it
/// begins there.
pub proof fn lemma_run_end_bounds(src: Seq<u8>, pos: int, class: ByteClass)
    ensures
        pos <= run_end(src, pos, class),
        pos <= src.len() ==> run_end(src, pos, class) <= src.len(),
    decreases src.len() - pos,
{
    if 0 <= pos < src.len() && class.has(src[pos]) {
        lemma_run_end_bounds(src, pos + 1, class);
    }
}

/// Scanning is maximal munch: the run that `run_end` closes cannot be
/// extended.
pub proof fn lemma_run_end_is_maximal(src: Seq<u8>, pos: int, class: ByteClass)
    requires
        0 <= pos <= src.len(),
    ensures
        is_maximal_run(src, pos, run_end(src, pos, class), class),
    decreases src.len() - pos,
{
    if pos < src.len() && class.has(src[pos]) {
        lemma_run_end_is_maximal(src, pos + 1, class);
    }
}

/// There is only one maximal run from a position: whatever closes one is
/// `run_end`.
pub proof fn lemma_maximal_run_is_run_end(src: Seq<u8>, pos: int, end: int, class: ByteClass)
    requires
        0 <= pos,
        is_maximal_run(src, pos, end, class),
    ensures
        end == run_end(src, pos, class),
    decreases end - pos,
{
    if pos < end {
        assert(class.has(src[pos]));
        lemma_maximal_run_is_run_end(src, pos + 1, end, class);
    }
}

/// A word never stands for the end of the source.
pub proof fn lemma_word_token_is_no_eof(word: Seq<char>)
    ensures
        word_token(word) !is Eof,
{
}

/// Reading a token moves the cursor forward, unless the source is exhausted.
pub proof fn lemma_token_end_advances(src: Seq<u8>, pos: int)
    requires
        0 <= pos,
        token_start(src, pos) < src.len(),
    ensures
        pos < token_end(src, pos) <= src.len(),
        token_at(src, pos) !is Eof,
{
    let start = token_start(src, pos);
    lemma_run_end_bounds(src, pos, ByteClass::Space);
    lemma_run_end_bounds(src, start, ByteClass::Word);
    lemma_run_end_bounds(src, start, ByteClass::Digit);
    lemma_run_end_bounds(src, start + 1, ByteClass::Word);
    lemma_run_end_bounds(src, start + 1, ByteClass::Digit);
    lemma_word_token_is_no_eof(ascii_text(src.subrange(start, lexeme_end(src, start))));
}

/// `Eof` is terminal: once the token at the cursor is `Eof`, reading it
/// leaves the cursor at a place where the token is `Eof` again.
pub proof fn lemma_eof_is_terminal(src: Seq<u8>, pos: int)
    requires
        0 <= pos <= src.len(),
        token_at(src, pos) is Eof,
    ensures
        token_end(src, pos) == src.len(),
        token_at(src, token_end(src, pos)) is Eof,
        tokens_from(src, pos) == Seq::<TokenView>::empty(),
{
    lemma_run_end_bounds(src, pos, ByteClass::Space);
    if token_start(src, pos) < src.len() {
        lemma_token_end_advances(src, pos);
    }
}

/// Terminal idempotence: once a read gives `Eof`, every later read gives
/// `Eof`, however many tokens are asked for.
pub proof fn lemma_eof_forever(src: Seq<u8>, pos: int, n: nat)
    requires
        0 <= pos <= src.len(),
        token_at(src, pos) is Eof,
    ensures
        0 <= cursor_after(src, pos, n) <= src.len(),
        token_at(src, cursor_after(src, pos, n)) is Eof,
    decreases n,
{
    if n > 0 {
        lemma_eof_forever(src, pos, (n - 1) as nat);
        lemma_eof_is_terminal(src, cursor_after(src, pos, (n - 1) as nat));
    }
}

/// A punctuation byte that begins no two-byte operator is one token by
/// itself, of the kind that the byte stands for.
pub proof fn lemma_symbol_lexeme(src: Seq<u8>, start: int)
    requires
        0 <= start < src.len(),
        symbol_token(src[start]) is Some,
        !is_compound(src, start),
    ensures
        lexeme(src, start) == symbol_token(src[start])->0,
        lexeme_end(src, start) == start + 1,
{
}

/// `=` or `!` directly followed by `=` is one token, `Eq` or `NotEq`, which
/// takes up both bytes.
pub proof fn lemma_compound_lexeme(src: Seq<u8>, start: int)
    requires
        is_compound(src, start),
    ensures
        src[start] == EQUALS ==> lexeme(src, start) == TokenView::Eq,
        src[start] == BANG ==> lexeme(src, start) == TokenView::NotEq,
        lexeme_end(src, start) == start + 2,
{
}

/// Maximal munch for words: a lexeme that begins with a letter takes up the
/// longest run of word bytes from there, and is classified by all of it.
pub proof fn lemma_word_lexeme(src: Seq<u8>, start: int)
    requires
        0 <= start < src.len(),
        ByteClass::Letter.has(src[start]),
    ensures
        start < lexeme_end(src, start),
        is_maximal_run(src, start, lexeme_end(src, start), ByteClass::Word),
        lexeme(src, start) == word_token(
            ascii_text(src.subrange(start, lexeme_end(src, start))),
        ),
{
    lemma_run_end_is_maximal(src, start, ByteClass::Word);
    lemma_run_end_bounds(src, start + 1, ByteClass::Word);
}

/// Maximal munch for numbers: a lexeme that begins with a digit takes up the
/// longest run of digits from there, and its value is that of all of them.
pub proof fn lemma_number_lexeme(src: Seq<u8>, start: int)
    requires
        0 <= start < src.len(),
        ByteClass::Digit.has(src[start]),
    ensures
        start < lexeme_end(src, start),
        is_maximal_run(src, start, lexeme_end(src, start), ByteClass::Digit),
        lexeme(src, start) == number_token(
            decimal_value(src.subrange(start, lexeme_end(src, start))),
        ),
{
    lemma_run_end_is_maximal(src, start, ByteClass::Digit);
    lemma_run_end_bounds(src, start + 1, ByteClass::Digit);
}

/// A source of white space alone holds no token.
pub proof fn lemma_blank_source_has_no_tokens(src: Seq<u8>)
    requires
        is_blank(src),
    ensures
        token_at(src, 0) is Eof,
        tokens_from(src, 0) == Seq::<TokenView>::empty(),
{
    lemma_maximal_run_is_run_end(src, 0, src.len() as int, ByteClass::Space);
}

} // verus!
