use gearbox::text::{
    blank, contains_char, decimal, has_white_space, leading, same, trim_end, white_space,
};

#[test]
fn white_space_is_that_of_unicode() {
    for c in '\u{0}'..=char::MAX {
        assert_eq!(white_space(c), c.is_whitespace(), "{c:?}");
    }
}

#[test]
fn blank_texts_have_nothing_left_when_trimmed() {
    for text in ["", " ", "\t\n", "\u{3000}\u{a0}", " a", "a ", "\u{200b}", "你"] {
        assert_eq!(blank(text), text.trim().is_empty(), "{text:?}");
        assert_eq!(trim_end(text), text.trim_end(), "{text:?}");
        assert_eq!(
            has_white_space(text),
            text.chars().any(char::is_whitespace),
            "{text:?}"
        );
    }
    assert_eq!(trim_end("你 好 \n\u{2028}"), "你 好");
}

#[test]
fn leading_character_is_found_behind_white_space() {
    for text in ["{", " \n\t{}", "", "  ", "[{", "x{", "\u{3000}{", "\u{feff}{"] {
        assert_eq!(
            leading(text, '{'),
            text.trim_start().starts_with('{'),
            "{text:?}"
        );
        assert!(!leading(text, ' '), "{text:?}");
    }
}

#[test]
fn texts_are_compared_and_searched() {
    assert!(same("", ""));
    assert!(same("读取", "读取"));
    assert!(!same("读取", "读"));
    assert!(!same("a", "b"));
    assert!(contains_char("dir/file:stream", ':'));
    assert!(!contains_char("dir/file", ':'));
}

#[test]
fn numbers_are_written_in_decimal() {
    for n in [0, 1, 9, 10, 100, 16384, 4294967295, u128::from(u64::MAX), u128::MAX] {
        assert_eq!(decimal(n), n.to_string());
    }
}
