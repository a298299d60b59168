use remote_print::text::{
    chars_of, is_decimal_digit, is_whitespace, push_chars, push_decimal, read_decimal, to_lower,
    trim_bounds,
};

#[test]
fn white_space_is_what_the_standard_library_calls_white_space() {
    for code in 0..=0x10ffffu32 {
        if let Some(c) = char::from_u32(code) {
            assert_eq!(is_whitespace(c), c.is_whitespace());
        }
    }
}

#[test]
fn lower_case_is_the_ascii_lower_case() {
    for code in 0..=0x10ffffu32 {
        if let Some(c) = char::from_u32(code) {
            assert_eq!(to_lower(c), c.to_ascii_lowercase());
        }
    }
}

#[test]
fn digits_are_the_ascii_digits() {
    for code in 0..=0x10ffffu32 {
        if let Some(c) = char::from_u32(code) {
            assert_eq!(is_decimal_digit(c), c.is_ascii_digit());
        }
    }
}

#[test]
fn the_characters_of_a_string() {
    assert_eq!(chars_of(""), Vec::<char>::new());
    assert_eq!(chars_of("a\u{e9}\u{1f5a8}"), vec!['a', '\u{e9}', '\u{1f5a8}']);
}

#[test]
fn a_stretch_of_characters_is_appended() {
    let v = chars_of("printer");
    let mut out = "x".to_string();
    push_chars(&mut out, &v, 2, 5);
    assert_eq!(out, "xint");
    push_chars(&mut out, &v, 7, 7);
    assert_eq!(out, "xint");
}

#[test]
fn numbers_are_written_as_the_standard_library_writes_them() {
    for n in [0u32, 1, 9, 10, 11, 99, 100, 101, 65535, 1000000000, 4294967294, 4294967295] {
        let mut out = String::new();
        push_decimal(&mut out, n);
        assert_eq!(out, n.to_string());
    }
}

#[test]
fn written_numbers_read_back() {
    for n in [0u32, 5, 10, 4096, 4294967295] {
        let mut out = String::new();
        push_decimal(&mut out, n);
        let v = chars_of(&out);
        assert_eq!(read_decimal(&v, 0, v.len()), Some(n));
    }
}

#[test]
fn digits_are_read_in_base_ten() {
    let v = chars_of("x0042y4294967296");
    assert_eq!(read_decimal(&v, 1, 5), Some(42));
    assert_eq!(read_decimal(&v, 1, 1), Some(0));
    assert_eq!(read_decimal(&v, 6, 16), None);
    assert_eq!(read_decimal(&v, 6, 15), Some(429496729));
}

#[test]
fn the_outer_white_space_is_marked_off() {
    for text in ["", " ", "a", " a", "a ", "  a b \t\n", "\u{3000}x\u{a0}", " \t "] {
        let v = chars_of(text);
        let (lo, hi) = trim_bounds(&v);
        let kept: String = v[lo..hi].iter().collect();
        assert_eq!(kept, text.trim());
    }
}
