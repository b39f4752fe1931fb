//! The closed set of lexical categories, their mathematical view, how a token
//! is written out, and the keyword table.

use vstd::prelude::*;
use vstd::string::StringExecFns;
use crate::ascii::str_eq;
use crate::decimal::{int_text, push_int};

verus! {

/// An indivisible lexical unit of the source text.
///
/// The text of an `Identifier` is borrowed from the source buffer; an `Int`
/// holds the decoded value of its digits.
#[derive(Debug, Clone, Copy)]
pub enum Token<'a> {
    Illegal,
    Eof,
    // Identifiers, literals
    Identifier(&'a str),
    Int(i32),
    // Operators
    Assign,
    Plus,
    Minus,
    Bang,
    Asterisk,
    Slash,
    Lt,
    Gt,
    Eq,
    NotEq,
    // Delimiters
    Comma,
    Semicolon,
    LParen,
    RParen,
    LBrace,
    RBrace,
    // Keywords
    Function,
    Let,
    True,
    False,
    If,
    Else,
    Return,
}

/// What a token means, free of the buffer it came from: an identifier is its
/// characters, an integer literal is its value.
pub enum TokenView {
    Illegal,
    Eof,
    Identifier(Seq<char>),
    Int(int),
    Assign,
    Plus,
    Minus,
    Bang,
    Asterisk,
    Slash,
    Lt,
    Gt,
    Eq,
    NotEq,
    Comma,
    Semicolon,
    LParen,
    RParen,
    LBrace,
    RBrace,
    Function,
    Let,
    True,
    False,
    If,
    Else,
    Return,
}

impl<'a> View for Token<'a> {
    type V = TokenView;

    open spec fn view(&self) -> TokenView {
        match *self {
            Token::Illegal => TokenView::Illegal,
            Token::Eof => TokenView::Eof,
            Token::Identifier(text) => TokenView::Identifier(text@),
            Token::Int(value) => TokenView::Int(value as int),
            Token::Assign => TokenView::Assign,
            Token::Plus => TokenView::Plus,
            Token::Minus => TokenView::Minus,
            Token::Bang => TokenView::Bang,
            Token::Asterisk => TokenView::Asterisk,
            Token::Slash => TokenView::Slash,
            Token::Lt => TokenView::Lt,
            Token::Gt => TokenView::Gt,
            Token::Eq => TokenView::Eq,
            Token::NotEq => TokenView::NotEq,
            Token::Comma => TokenView::Comma,
            Token::Semicolon => TokenView::Semicolon,
            Token::LParen => TokenView::LParen,
            Token::RParen => TokenView::RParen,
            Token::LBrace => TokenView::LBrace,
            Token::RBrace => TokenView::RBrace,
            Token::Function => TokenView::Function,
            Token::Let => TokenView::Let,
            Token::True => TokenView::True,
            Token::False => TokenView::False,
            Token::If => TokenView::If,
            Token::Else => TokenView::Else,
            Token::Return => TokenView::Return,
        }
    }
}

impl<'a> DeepView for Token<'a> {
    type V = TokenView;

    open spec fn deep_view(&self) -> TokenView {
        self@
    }
}

impl TokenView {
    /// The name of the token's category.
    pub open spec fn kind_name(self) -> Seq<char> {
        match self {
            TokenView::Illegal => "Illegal"@,
            TokenView::Eof => "Eof"@,
            TokenView::Identifier(_) => "Identifier"@,
            TokenView::Int(_) => "Int"@,
            TokenView::Assign => "Assign"@,
            TokenView::Plus => "Plus"@,
            TokenView::Minus => "Minus"@,
            TokenView::Bang => "Bang"@,
            TokenView::Asterisk => "Asterisk"@,
            TokenView::Slash => "Slash"@,
            TokenView::Lt => "Lt"@,
            TokenView::Gt => "Gt"@,
            TokenView::Eq => "Eq"@,
            TokenView::NotEq => "NotEq"@,
            TokenView::Comma => "Comma"@,
            TokenView::Semicolon => "Semicolon"@,
            TokenView::LParen => "LParen"@,
            TokenView::RParen => "RParen"@,
            TokenView::LBrace => "LBrace"@,
            TokenView::RBrace => "RBrace"@,
            TokenView::Function => "Function"@,
            TokenView::Let => "Let"@,
            TokenView::True => "True"@,
            TokenView::False => "False"@,
            TokenView::If => "If"@,
            TokenView::Else => "Else"@,
            TokenView::Return => "Return"@,
        }
    }

    /// How the token is written out: the name of its category, followed for
    /// an identifier by its text and for an integer by its decimal notation,
    /// in round brackets.
    pub open spec fn display(self) -> Seq<char> {
        match self {
            TokenView::Identifier(name) => "Identifier("@ + name + ")"@,
            TokenView::Int(value) => "Int("@ + int_text(value) + ")"@,
            _ => self.kind_name(),
        }
    }

    /// The two tokens belong to the same category, whatever they carry.
    pub open spec fn same_kind(self, other: TokenView) -> bool {
        match (self, other) {
            (TokenView::Identifier(_), TokenView::Identifier(_)) => true,
            (TokenView::Int(_), TokenView::Int(_)) => true,
            _ => self == other,
        }
    }
}

impl<'a> Token<'a> {
    /// The name of the token's category.
    pub fn kind_name(&self) -> (name: &'static str)
        ensures
            name@ == self@.kind_name(),
    {
        match self {
            Token::Illegal => "Illegal",
            Token::Eof => "Eof",
            Token::Identifier(_) => "Identifier",
            Token::Int(_) => "Int",
            Token::Assign => "Assign",
            Token::Plus => "Plus",
            Token::Minus => "Minus",
            Token::Bang => "Bang",
            Token::Asterisk => "Asterisk",
            Token::Slash => "Slash",
            Token::Lt => "Lt",
            Token::Gt => "Gt",
            Token::Eq => "Eq",
            Token::NotEq => "NotEq",
            Token::Comma => "Comma",
            Token::Semicolon => "Semicolon",
            Token::LParen => "LParen",
            Token::RParen => "RParen",
            Token::LBrace => "LBrace",
            Token::RBrace => "RBrace",
            Token::Function => "Function",
            Token::Let => "Let",
            Token::True => "True",
            Token::False => "False",
            Token::If => "If",
            Token::Else => "Else",
            Token::Return => "Return",
        }
    }

    /// Writes the token out.
    pub fn to_string(&self) -> (s: String)
        ensures
            s@ == self@.display(),
    {
        match self {
            Token::Identifier(name) => {
                let mut s = String::from_str("Identifier(");
                s.append(name);
                s.append(")");
                s
            },
            Token::Int(value) => {
                let mut s = String::from_str("Int(");
                push_int(&mut s, *value);
                s.append(")");
                s
            },
            _ => String::from_str(self.kind_name()),
        }
    }

    /// Tells whether two tokens belong to the same category, whatever they
    /// carry.
    pub fn same_kind(&self, other: &Token) -> (r: bool)
        ensures
            r == self@.same_kind(other@),
    {
        match (self, other) {
            (Token::Illegal, Token::Illegal) => true,
            (Token::Eof, Token::Eof) => true,
            (Token::Identifier(_), Token::Identifier(_)) => true,
            (Token::Int(_), Token::Int(_)) => true,
            (Token::Assign, Token::Assign) => true,
            (Token::Plus, Token::Plus) => true,
            (Token::Minus, Token::Minus) => true,
            (Token::Bang, Token::Bang) => true,
            (Token::Asterisk, Token::Asterisk) => true,
            (Token::Slash, Token::Slash) => true,
            (Token::Lt, Token::Lt) => true,
            (Token::Gt, Token::Gt) => true,
            (Token::Eq, Token::Eq) => true,
            (Token::NotEq, Token::NotEq) => true,
            (Token::Comma, Token::Comma) => true,
            (Token::Semicolon, Token::Semicolon) => true,
            (Token::LParen, Token::LParen) => true,
            (Token::RParen, Token::RParen) => true,
            (Token::LBrace, Token::LBrace) => true,
            (Token::RBrace, Token::RBrace) => true,
            (Token::Function, Token::Function) => true,
            (Token::Let, Token::Let) => true,
            (Token::True, Token::True) => true,
            (Token::False, Token::False) => true,
            (Token::If, Token::If) => true,
            (Token::Else, Token::Else) => true,
            (Token::Return, Token::Return) => true,
            _ => false,
        }
    }
}

impl<'a> PartialEq for Token<'a> {
    /// Two tokens are equal when they belong to the same category and carry
    /// the same text or value.
    fn eq(&self, other: &Self) -> (r: bool) {
        match (self, other) {
            (Token::Identifier(a), Token::Identifier(b)) => str_eq(a, b),
            (Token::Int(a), Token::Int(b)) => *a == *b,
            _ => self.same_kind(other),
        }
    }
}

impl<'a> vstd::std_specs::cmp::PartialEqSpecImpl for Token<'a> {
    open spec fn obeys_eq_spec() -> bool {
        true
    }

    open spec fn eq_spec(&self, other: &Self) -> bool {
        self@ == other@
    }
}

/// The token that a word stands for: the keyword with exactly that spelling,
/// and an identifier for every other word.
pub open spec fn word_token(word: Seq<char>) -> TokenView {
    if word == "fn"@ {
        TokenView::Function
    } else if word == "let"@ {
        TokenView::Let
    } else if word == "true"@ {
        TokenView::True
    } else if word == "false"@ {
        TokenView::False
    } else if word == "if"@ {
        TokenView::If
    } else if word == "else"@ {
        TokenView::Else
    } else if word == "return"@ {
        TokenView::Return
    } else {
        TokenView::Identifier(word)
    }
}

/// `word` is one of the seven keywords, spelled exactly.
pub open spec fn is_keyword(word: Seq<char>) -> bool {
    ||| word == "fn"@
    ||| word == "let"@
    ||| word == "true"@
    ||| word == "false"@
    ||| word == "if"@
    ||| word == "else"@
    ||| word == "return"@
}

/// Keyword exactness: a word that is no keyword stands for the identifier
/// with that very text, and a keyword never stands for an identifier.
pub proof fn lemma_keywords_are_exact(word: Seq<char>)
    ensures
        !is_keyword(word) ==> word_token(word) == TokenView::Identifier(word),
        is_keyword(word) ==> word_token(word) !is Identifier,
{
}

/// Classifies a word as a keyword or an identifier.
pub fn get_identifier_or_keyword<'a>(candidate: &'a str) -> (token: Token<'a>)
    ensures
        token@ == word_token(candidate@),
{
    if str_eq(candidate, "fn") {
        Token::Function
    } else if str_eq(candidate, "let") {
        Token::Let
    } else if str_eq(candidate, "true") {
        Token::True
    } else if str_eq(candidate, "false") {
        Token::False
    } else if str_eq(candidate, "if") {
        Token::If
    } else if str_eq(candidate, "else") {
        Token::Else
    } else if str_eq(candidate, "return") {
        Token::Return
    } else {
        Token::Identifier(candidate)
    }
}

} // verus!
