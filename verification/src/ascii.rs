//! Byte classes of the source alphabet and zero-copy access to ASCII runs of
//! a UTF-8 string.
//!
//! The scanner works on bytes, while identifiers are handed out as `&str`
//! slices of the source buffer. The lemmas here connect the two: a run of
//! ASCII bytes inside valid UTF-8 starts and ends on character boundaries, and
//! its characters are exactly its bytes.

use vstd::prelude::*;
use vstd::string::StringSliceAdditionalSpecFns;
use vstd::utf8::*;

verus! {

// The bytes that the grammar names, by their ASCII codes.

pub const TAB: u8 = 0x09;

pub const LINE_FEED: u8 = 0x0a;

pub const CARRIAGE_RETURN: u8 = 0x0d;

pub const SPACE: u8 = 0x20;

pub const BANG: u8 = 0x21;

pub const LEFT_PAREN: u8 = 0x28;

pub const RIGHT_PAREN: u8 = 0x29;

pub const ASTERISK: u8 = 0x2a;

pub const PLUS: u8 = 0x2b;

pub const COMMA: u8 = 0x2c;

pub const MINUS: u8 = 0x2d;

pub const SLASH: u8 = 0x2f;

pub const DIGIT_ZERO: u8 = 0x30;

pub const DIGIT_NINE: u8 = 0x39;

pub const SEMICOLON: u8 = 0x3b;

pub const LESS_THAN: u8 = 0x3c;

pub const EQUALS: u8 = 0x3d;

pub const GREATER_THAN: u8 = 0x3e;

pub const UPPER_A: u8 = 0x41;

pub const UPPER_Z: u8 = 0x5a;

pub const UNDERSCORE: u8 = 0x5f;

pub const LOWER_A: u8 = 0x61;

pub const LOWER_Z: u8 = 0x7a;

pub const LEFT_BRACE: u8 = 0x7b;

pub const RIGHT_BRACE: u8 = 0x7d;

/// The sets of bytes that the scanner groups into runs.
#[derive(Debug, Clone, Copy)]
pub enum ByteClass {
    /// Space, tab, carriage return and line feed.
    Space,
    /// ASCII letters and the underscore: what an identifier starts with.
    Letter,
    /// ASCII letters, ASCII digits and the underscore: what an identifier goes on with.
    Word,
    /// ASCII digits.
    Digit,
}

/// `b` is an ASCII letter.
pub open spec fn is_alpha(b: u8) -> bool {
    (UPPER_A <= b <= UPPER_Z) || (LOWER_A <= b <= LOWER_Z)
}

/// `b` is an ASCII decimal digit.
pub open spec fn is_digit(b: u8) -> bool {
    DIGIT_ZERO <= b <= DIGIT_NINE
}

impl ByteClass {
    /// Membership of a byte in the class.
    pub open spec fn has(self, b: u8) -> bool {
        match self {
            ByteClass::Space => b == SPACE || b == TAB || b == LINE_FEED || b == CARRIAGE_RETURN,
            ByteClass::Letter => is_alpha(b) || b == UNDERSCORE,
            ByteClass::Word => is_alpha(b) || is_digit(b) || b == UNDERSCORE,
            ByteClass::Digit => is_digit(b),
        }
    }

    /// Tests membership of a byte in the class.
    pub fn contains(&self, b: u8) -> (r: bool)
        ensures
            r == self.has(b),
    {
        let alpha = (UPPER_A <= b && b <= UPPER_Z) || (LOWER_A <= b && b <= LOWER_Z);
        let digit = DIGIT_ZERO <= b && b <= DIGIT_NINE;
        match self {
            ByteClass::Space => b == SPACE || b == TAB || b == LINE_FEED || b == CARRIAGE_RETURN,
            ByteClass::Letter => alpha || b == UNDERSCORE,
            ByteClass::Word => alpha || digit || b == UNDERSCORE,
            ByteClass::Digit => digit,
        }
    }
}

/// Every byte of `bytes` is below 0x80.
pub open spec fn all_ascii(bytes: Seq<u8>) -> bool {
    forall|i: int| 0 <= i < bytes.len() ==> #[trigger] bytes[i] < 0x80
}

/// The characters that a sequence of ASCII bytes spells.
pub open spec fn ascii_text(bytes: Seq<u8>) -> Seq<char> {
    Seq::new(bytes.len(), |i: int| bytes[i] as char)
}

/// A string whose UTF-8 encoding consists of ASCII bytes spells those bytes.
pub proof fn lemma_ascii_bytes_spell_text(chars: Seq<char>, bytes: Seq<u8>)
    requires
        encode_utf8(chars) == bytes,
        all_ascii(bytes),
    ensures
        chars == ascii_text(bytes),
{
    let text = ascii_text(bytes);
    assert(is_ascii_chars(text)) by {
        assert forall|i: int| 0 <= i < text.len() implies '\0' <= #[trigger] text[i]
            <= '\u{7f}' by {
            assert(bytes[i] < 0x80);
        }
    }
    is_ascii_chars_encode_utf8(text);
    assert(encode_utf8(text) =~= bytes) by {
        assert forall|i: int| 0 <= i < bytes.len() implies encode_utf8(text)[i] == bytes[i] by {
            assert(bytes[i] < 0x80);
            assert(text[i] as u8 == encode_utf8(text)[i]);
        }
    }
    encode_utf8_decode_utf8(text);
    encode_utf8_decode_utf8(chars);
}

/// In valid UTF-8, a position that holds an ASCII byte is a character boundary.
pub proof fn lemma_ascii_byte_is_boundary(bytes: Seq<u8>, i: int)
    requires
        valid_utf8(bytes),
        0 <= i < bytes.len(),
        bytes[i] < 0x80,
    ensures
        is_char_boundary(bytes, i),
{
    is_char_boundary_iff_not_is_continuation_byte(bytes, i);
}

/// In valid UTF-8, the position after an ASCII byte is a character boundary.
pub proof fn lemma_boundary_after_ascii_byte(bytes: Seq<u8>, i: int)
    requires
        valid_utf8(bytes),
        0 <= i < bytes.len(),
        bytes[i] < 0x80,
    ensures
        is_char_boundary(bytes, i + 1),
{
    if i + 1 == bytes.len() {
        is_char_boundary_start_end_of_seq(bytes);
    } else {
        lemma_ascii_byte_is_boundary(bytes, i);
        valid_utf8_split(bytes, i);
        let tail = bytes.subrange(i, bytes.len() as int);
        assert(tail[0] == bytes[i]);
        let rest = pop_first_scalar(tail);
        assert(valid_utf8(rest));
        assert(rest =~= bytes.subrange(i + 1, bytes.len() as int));
        assert(rest[0] == bytes[i + 1]);
        is_char_boundary_iff_not_is_continuation_byte(rest, 0);
        is_char_boundary_iff_not_is_continuation_byte(bytes, i + 1);
    }
}

/// Borrows the part of `text` that occupies the bytes from `start` up to
/// `end`, which must all be ASCII.
pub(crate) fn ascii_slice<'a>(text: &'a str, start: usize, end: usize) -> (part: &'a str)
    requires
        start <= end <= text.spec_bytes().len(),
        all_ascii(text.spec_bytes().subrange(start as int, end as int)),
    ensures
        part@ == ascii_text(text.spec_bytes().subrange(start as int, end as int)),
{
    let ghost bytes = text.spec_bytes();
    let ghost run = bytes.subrange(start as int, end as int);
    if start == end {
        proof {
            reveal_strlit("");
            assert("".view() =~= ascii_text(run));
        }
        return "";
    }
    proof {
        encode_utf8_valid_utf8(text@);
        assert(run[end - 1 - start] < 0x80);
        lemma_boundary_after_ascii_byte(bytes, end - 1);
    }
    let (head, _) = text.split_at(end);
    proof {
        encode_utf8_valid_utf8(head@);
        assert(run[0] < 0x80);
        assert(head.spec_bytes()[start as int] == bytes[start as int]);
        lemma_ascii_byte_is_boundary(head.spec_bytes(), start as int);
    }
    let (_, part) = head.split_at(start);
    proof {
        assert(part.spec_bytes() =~= run);
        lemma_ascii_bytes_spell_text(part@, run);
    }
    part
}

/// Compares two byte slices element by element.
pub fn bytes_eq(a: &[u8], b: &[u8]) -> (r: bool)
    ensures
        r == (a@ == b@),
{
    if a.len() != b.len() {
        return false;
    }
    let mut i: usize = 0;
    while i < a.len()
        invariant
            a@.len() == b@.len(),
            i <= a@.len(),
            forall|k: int| 0 <= k < i ==> a@[k] == b@[k],
        decreases a@.len() - i,
    {
        if a[i] != b[i] {
            return false;
        }
        i += 1;
    }
    assert(a@ =~= b@);
    true
}

/// Compares two strings by their characters.
pub fn str_eq(a: &str, b: &str) -> (r: bool)
    ensures
        r == (a@ == b@),
{
    proof {
        encode_utf8_decode_utf8(a@);
        encode_utf8_decode_utf8(b@);
    }
    bytes_eq(a.as_bytes(), b.as_bytes())
}

} // verus!
