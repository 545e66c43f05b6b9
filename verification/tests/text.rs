use nomi_log::text::append_decimal;
use nomi_log::text::append_zero_padded;
use nomi_log::text::char_is_whitespace;
use nomi_log::text::trim;

#[test]
fn whitespace_is_what_the_standard_library_calls_whitespace() {
    let mut count = 0;
    for code in 0..=0x10ffffu32 {
        if let Some(c) = char::from_u32(code) {
            assert_eq!(char_is_whitespace(c), c.is_whitespace(), "U+{:04X}", code);
            if char_is_whitespace(c) {
                count += 1;
            }
        }
    }
    assert_eq!(count, 25);
}

#[test]
fn trim_removes_surrounding_whitespace_only() {
    assert_eq!(trim("  pale ale \n"), "pale ale");
    assert_eq!(trim("\u{3000}日本酒\u{2003}"), "日本酒");
    assert_eq!(trim("a  b"), "a  b");
    assert_eq!(trim("x"), "x");
    assert_eq!(trim(""), "");
    assert_eq!(trim(" \t\r\n"), "");
}

#[test]
fn trim_agrees_with_the_standard_library() {
    for text in ["", " ", "  a", "a  ", " a b ", "\u{a0}é\u{85}", "\u{feff}a\u{feff}", "\u{200b}a "] {
        assert_eq!(trim(text), text.trim());
    }
}

#[test]
fn decimal_digits_are_appended() {
    for n in [0u128, 7, 10, 99, 100, 2024, u64::MAX as u128, u128::MAX] {
        let mut out = String::from("n=");
        append_decimal(&mut out, n);
        assert_eq!(out, format!("n={}", n));
    }
}

#[test]
fn numbers_are_padded_with_zeros_after_the_sign() {
    for (n, width) in [
        (0i128, 0usize),
        (0, 1),
        (0, 4),
        (7, 2),
        (12, 2),
        (123, 2),
        (-5, 4),
        (-5, 2),
        (-5, 1),
        (-12345, 4),
        (2024, 4),
        (i128::MAX, 50),
        (i128::MIN, 50),
        (i128::MIN, 3),
    ] {
        let mut out = String::new();
        append_zero_padded(&mut out, n, width);
        assert_eq!(out, format!("{:0width$}", n, width = width));
    }
}

#[test]
fn texts_are_ordered_like_their_bytes() {
    let texts = ["", "a", "A", "ab", "abc", "b", "é", "ビール", "ワイン", "𝄞", "\u{ffff}", "\u{10000}", " "];
    for a in texts {
        for b in texts {
            assert_eq!(nomi_log::text::text_at_most(a, b), a.as_bytes() <= b.as_bytes(), "{:?} {:?}", a, b);
            assert_eq!(nomi_log::text::text_at_most(a, b), a <= b);
        }
    }
}
