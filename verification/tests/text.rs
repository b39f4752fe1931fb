use frontend::ascii::{bytes_eq, str_eq, ByteClass};
use frontend::decimal::{push_decimal, push_int};

#[test]
fn byte_classes() {
    for b in 0..=255u8 {
        let c = b as char;
        assert_eq!(
            ByteClass::Space.contains(b),
            matches!(c, ' ' | '\t' | '\n' | '\r'),
            "byte {}",
            b
        );
        assert_eq!(
            ByteClass::Letter.contains(b),
            b.is_ascii_alphabetic() || c == '_',
            "byte {}",
            b
        );
        assert_eq!(
            ByteClass::Word.contains(b),
            b.is_ascii_alphanumeric() || c == '_',
            "byte {}",
            b
        );
        assert_eq!(ByteClass::Digit.contains(b), b.is_ascii_digit(), "byte {}", b);
    }
}

#[test]
fn byte_slices_compare_by_content() {
    assert!(bytes_eq(&[], &[]));
    assert!(bytes_eq(&[1, 2, 3], &[1, 2, 3]));
    assert!(!bytes_eq(&[1, 2, 3], &[1, 2, 4]));
    assert!(!bytes_eq(&[0, 2, 3], &[1, 2, 3]));
    assert!(!bytes_eq(&[1, 2, 3], &[1, 2]));
    assert!(!bytes_eq(&[], &[0]));
}

#[test]
fn strings_compare_by_content() {
    assert!(str_eq("", ""));
    assert!(str_eq("return", "return"));
    assert!(!str_eq("return", "returm"));
    assert!(!str_eq("let", "le"));
    assert!(!str_eq("let", "Let"));
    assert!(str_eq("\u{e9}t\u{e9}", "\u{e9}t\u{e9}"));
    assert!(!str_eq("\u{e9}", "\u{e8}"));
}

#[test]
fn decimal_notation_of_naturals() {
    for (n, text) in [
        (0u32, "0"),
        (1, "1"),
        (9, "9"),
        (10, "10"),
        (11, "11"),
        (99, "99"),
        (100, "100"),
        (101, "101"),
        (12345, "12345"),
        (1000000007, "1000000007"),
        (u32::MAX, "4294967295"),
    ] {
        let mut out = String::from("n=");
        push_decimal(&mut out, n);
        assert_eq!(out, format!("n={}", text));
    }
}

#[test]
fn decimal_notation_of_integers() {
    for v in [
        0,
        1,
        -1,
        9,
        -9,
        10,
        -10,
        12345,
        -12345,
        i32::MAX,
        i32::MIN,
        i32::MIN + 1,
    ] {
        let mut out = String::new();
        push_int(&mut out, v);
        assert_eq!(out, format!("{}", v));
    }
}
