use weekly_usage_bar::text::{
    chars_of, contains, ends_with, find_char, from_utf16_lossy, is_white_space, join_words,
    push_decimal, push_two_places, slice_chars, starts_with, string_of, text_is, to_lower,
    to_upper, trim, wide,
};

#[test]
fn white_space_is_that_of_unicode() {
    for n in 0..=0x10_ffff_u32 {
        if let Some(c) = char::from_u32(n) {
            assert_eq!(is_white_space(c), c.is_whitespace(), "{n:x}");
        }
    }
}

#[test]
fn texts_are_trimmed_at_both_ends() {
    for text in ["", "  ", "a", " a", "a ", "\u{2003}a b\u{85}\n", "\u{200b} x"] {
        assert_eq!(string_of(&trim(&chars_of(text))), text.trim());
    }
}

#[test]
fn only_ascii_letters_change_case() {
    for text in ["", "AbZz@[`{09", "ÄäßŸ한字"] {
        assert_eq!(string_of(&to_lower(&chars_of(text))), text.to_ascii_lowercase());
        assert_eq!(string_of(&to_upper(&chars_of(text))), text.to_ascii_uppercase());
    }
}

#[test]
fn parts_of_texts_are_found() {
    let text = chars_of("abcabd");
    assert!(starts_with(&text, "abc") && starts_with(&text, "") && !starts_with(&text, "b"));
    assert!(ends_with(&text, "abd") && ends_with(&text, "") && !ends_with(&text, "xabcabd"));
    assert!(contains(&text, "cab") && contains(&text, "abd") && !contains(&text, "abda"));
    assert!(contains(&text, "") && contains(&chars_of(""), ""));
    assert!(text_is(&text, "abcabd") && !text_is(&text, "abcabe") && !text_is(&text, "abcab"));
    assert_eq!(find_char(&text, 'b', 2), Some(4));
    assert_eq!(find_char(&text, 'x', 0), None);
    assert_eq!(find_char(&text, 'a', 9), None);
    assert_eq!(string_of(&slice_chars(&text, 1, 4)), "bca");
}

#[test]
fn words_are_joined_with_one_space() {
    for text in ["", " ", "a", "  a  b\tc\n", "ab cd", "\u{3000}x\u{a0}\u{a0}y"] {
        let expected = text.split_whitespace().collect::<Vec<_>>().join(" ");
        assert_eq!(string_of(&join_words(&chars_of(text))), expected);
    }
}

#[test]
fn numbers_have_decimal_numerals() {
    for n in [0, 1, 9, 10, 42, 100, 10_080, u64::MAX] {
        let mut text = "n".to_string();
        push_decimal(&mut text, n);
        assert_eq!(text, format!("n{n}"));
        let mut text = String::new();
        push_two_places(&mut text, n);
        assert_eq!(text, format!("{n:02}"));
    }
}

#[test]
fn utf16_is_that_of_the_standard_library() {
    for text in ["", "ko-KR", "주간 · …", "a😀b\u{10ffff}\u{ffff}"] {
        let units = wide(text);
        let expected: Vec<u16> = text.encode_utf16().chain(Some(0)).collect();
        assert_eq!(units, expected);
        let back = from_utf16_lossy(&units, units.len() - 1);
        assert_eq!(string_of(&back), text);
    }
}

#[test]
fn lone_surrogates_are_replaced() {
    let cases: [&[u16]; 6] = [
        &[0xd800],
        &[0xdc00, 0x61],
        &[0xd800, 0x61],
        &[0xd800, 0xd800, 0xdc00],
        &[0xd83d, 0xde00, 0xdbff],
        &[0xd7ff, 0xe000, 0xfffd],
    ];
    for units in cases {
        let text = string_of(&from_utf16_lossy(&units.to_vec(), units.len()));
        assert_eq!(text, String::from_utf16_lossy(units));
    }
    let pair: Vec<u16> = vec![0xd83d, 0xde00];
    assert_eq!(string_of(&from_utf16_lossy(&pair, 1)), "\u{fffd}");
}
