//! The scanner: a forward-only cursor over the source buffer that hands out
//! one token per call.

use vstd::prelude::*;
use vstd::slice::slice_subrange;
use vstd::string::StringSliceAdditionalSpecFns;
use crate::ascii::{
    all_ascii, ascii_slice, ascii_text, is_digit, ByteClass, ASTERISK, BANG, COMMA, EQUALS,
    GREATER_THAN, LEFT_BRACE, LEFT_PAREN, LESS_THAN, MINUS, PLUS, RIGHT_BRACE, RIGHT_PAREN,
    SEMICOLON, SLASH,
};
use crate::decimal::{all_digits, decimal_value, parse_decimal};
use crate::scan::{
    byte_at, lemma_eof_is_terminal, lemma_run_end_bounds, lemma_run_end_is_maximal, run_end,
    token_at, token_end,
};
use crate::token::{get_identifier_or_keyword, Token};

verus! {

/// A scanner over a source text. It never rewinds: each token is read once.
pub struct Lexer<'a> {
    text: &'a str,
    input: &'a [u8],
    pos: usize,
}

impl<'a> Lexer<'a> {
    /// The scanner is consistent: it looks at the bytes of its text, and its
    /// cursor lies inside them or at their end.
    pub closed spec fn wf(&self) -> bool {
        &&& self.input@ == self.text.spec_bytes()
        &&& self.pos <= self.input@.len()
    }

    /// The bytes of the source text.
    pub closed spec fn source(&self) -> Seq<u8> {
        self.input@
    }

    /// The position of the next byte to read.
    pub closed spec fn cursor(&self) -> int {
        self.pos as int
    }

    /// A scanner at the beginning of `input`.
    pub fn new(input: &'a str) -> (lexer: Self)
        ensures
            lexer.wf(),
            lexer.source() == input.spec_bytes(),
            lexer.cursor() == 0,
    {
        Lexer { text: input, input: input.as_bytes(), pos: 0 }
    }

    /// The cursor stays inside the source.
    pub proof fn lemma_cursor_in_source(&self)
        requires
            self.wf(),
        ensures
            0 <= self.cursor() <= self.source().len(),
    {
    }

    /// The byte under the cursor, which stays where it is.
    fn peek(&self) -> (b: Option<u8>)
        requires
            self.wf(),
        ensures
            b == byte_at(self.source(), self.cursor()),
    {
        if self.pos < self.input.len() {
            Some(self.input[self.pos])
        } else {
            None
        }
    }

    /// The byte under the cursor, which moves past it.
    fn next_char(&mut self) -> (b: Option<u8>)
        requires
            old(self).wf(),
        ensures
            final(self).wf(),
            final(self).source() == old(self).source(),
            b == byte_at(old(self).source(), old(self).cursor()),
            b is Some ==> final(self).cursor() == old(self).cursor() + 1,
            b is None ==> final(self).cursor() == old(self).cursor(),
    {
        if self.pos < self.input.len() {
            let ch = self.input[self.pos];
            self.pos += 1;
            Some(ch)
        } else {
            None
        }
    }

    /// Moves the cursor to the end of the run of `class` bytes under it.
    fn skip_run(&mut self, class: ByteClass)
        requires
            old(self).wf(),
        ensures
            final(self).wf(),
            final(self).source() == old(self).source(),
            final(self).cursor() == run_end(old(self).source(), old(self).cursor(), class),
    {
        loop
            invariant
                self.wf(),
                self.source() == old(self).source(),
                run_end(self.source(), self.cursor(), class) == run_end(
                    old(self).source(),
                    old(self).cursor(),
                    class,
                ),
            ensures
                self.cursor() == run_end(old(self).source(), old(self).cursor(), class),
            decreases self.source().len() - self.cursor(),
        {
            match self.peek() {
                Some(ch) => {
                    if class.contains(ch) {
                        self.next_char();
                    } else {
                        break;
                    }
                },
                None => {
                    break;
                },
            }
        }
    }

    /// Moves the cursor past white space.
    fn skip_whitespace(&mut self)
        requires
            old(self).wf(),
        ensures
            final(self).wf(),
            final(self).source() == old(self).source(),
            final(self).cursor() == run_end(
                old(self).source(),
                old(self).cursor(),
                ByteClass::Space,
            ),
    {
        self.skip_run(ByteClass::Space);
    }

    /// Reads the rest of a word whose first byte lies just before the cursor,
    /// and returns the whole word.
    fn read_identifier(&mut self) -> (word: &'a str)
        requires
            old(self).wf(),
            old(self).cursor() >= 1,
            ByteClass::Letter.has(old(self).source()[old(self).cursor() - 1]),
        ensures
            final(self).wf(),
            final(self).source() == old(self).source(),
            final(self).cursor() == run_end(
                old(self).source(),
                old(self).cursor() - 1,
                ByteClass::Word,
            ),
            word@ == ascii_text(
                old(self).source().subrange(old(self).cursor() - 1, final(self).cursor()),
            ),
    {
        let start = self.pos - 1;
        self.skip_run(ByteClass::Word);
        proof {
            let src = self.source();
            lemma_run_end_bounds(src, start + 1, ByteClass::Word);
            lemma_run_end_is_maximal(src, start as int, ByteClass::Word);
            let run = src.subrange(start as int, self.pos as int);
            assert forall|i: int| 0 <= i < run.len() implies #[trigger] run[i] < 0x80 by {
                assert(ByteClass::Word.has(src[start + i]));
            }
            assert(all_ascii(run));
        }
        ascii_slice(self.text, start, self.pos)
    }

    /// Reads the rest of a number whose first digit lies just before the
    /// cursor, and returns the value of the whole number, or `None` where it
    /// does not fit an `i32`.
    fn read_number(&mut self) -> (value: Option<i32>)
        requires
            old(self).wf(),
            old(self).cursor() >= 1,
            ByteClass::Digit.has(old(self).source()[old(self).cursor() - 1]),
        ensures
            final(self).wf(),
            final(self).source() == old(self).source(),
            final(self).cursor() == run_end(
                old(self).source(),
                old(self).cursor() - 1,
                ByteClass::Digit,
            ),
            ({
                let number = decimal_value(
                    old(self).source().subrange(old(self).cursor() - 1, final(self).cursor()),
                );
                value == if number <= i32::MAX {
                    Some(number as i32)
                } else {
                    None
                }
            }),
    {
        let start = self.pos - 1;
        self.skip_run(ByteClass::Digit);
        proof {
            let src = self.source();
            lemma_run_end_bounds(src, start + 1, ByteClass::Digit);
            lemma_run_end_is_maximal(src, start as int, ByteClass::Digit);
            let run = src.subrange(start as int, self.pos as int);
            assert forall|i: int| 0 <= i < run.len() implies is_digit(#[trigger] run[i]) by {
                assert(ByteClass::Digit.has(src[start + i]));
            }
            assert(all_digits(run));
        }
        parse_decimal(slice_subrange(self.input, start, self.pos))
    }

    /// Reads the next token: skips white space, then reads one lexeme. The
    /// text of an identifier is a slice of the source. At the end of the
    /// source the token is `Eof`, on this call and on every later one.
    pub fn next_token(&mut self) -> (token: Token<'a>)
        requires
            old(self).wf(),
        ensures
            final(self).wf(),
            final(self).source() == old(self).source(),
            token@ == token_at(old(self).source(), old(self).cursor()),
            final(self).cursor() == token_end(old(self).source(), old(self).cursor()),
            token@ is Eof ==> token_at(final(self).source(), final(self).cursor()) is Eof,
    {
        proof {
            if token_at(self.source(), self.cursor()) is Eof {
                lemma_eof_is_terminal(self.source(), self.cursor());
            }
        }
        self.skip_whitespace();
        proof {
            lemma_run_end_bounds(old(self).source(), old(self).cursor(), ByteClass::Space);
        }
        match self.next_char() {
            Some(ch) => {
                if ch == EQUALS {
                    match self.peek() {
                        Some(next) => {
                            if next == EQUALS {
                                self.next_char();
                                Token::Eq
                            } else {
                                Token::Assign
                            }
                        },
                        None => Token::Assign,
                    }
                } else if ch == PLUS {
                    Token::Plus
                } else if ch == MINUS {
                    Token::Minus
                } else if ch == BANG {
                    match self.peek() {
                        Some(next) => {
                            if next == EQUALS {
                                self.next_char();
                                Token::NotEq
                            } else {
                                Token::Bang
                            }
                        },
                        None => Token::Bang,
                    }
                } else if ch == ASTERISK {
                    Token::Asterisk
                } else if ch == SLASH {
                    Token::Slash
                } else if ch == GREATER_THAN {
                    Token::Gt
                } else if ch == LESS_THAN {
                    Token::Lt
                } else if ch == LEFT_PAREN {
                    Token::LParen
                } else if ch == RIGHT_PAREN {
                    Token::RParen
                } else if ch == LEFT_BRACE {
                    Token::LBrace
                } else if ch == RIGHT_BRACE {
                    Token::RBrace
                } else if ch == COMMA {
                    Token::Comma
                } else if ch == SEMICOLON {
                    Token::Semicolon
                } else if ByteClass::Letter.contains(ch) {
                    let literal = self.read_identifier();
                    get_identifier_or_keyword(literal)
                } else if ByteClass::Digit.contains(ch) {
                    match self.read_number() {
                        Some(value) => Token::Int(value),
                        None => Token::Illegal,
                    }
                } else {
                    Token::Illegal
                }
            },
            None => Token::Eof,
        }
    }
}

} // verus!
