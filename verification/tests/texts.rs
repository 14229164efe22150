use notification_template::identifier::{
    all_distinct, valid_callers, valid_idempotency_key, valid_identifier, valid_instance,
    valid_opaque, valid_secret_reference, valid_variable_name,
};
use notification_template::locale::{locale_candidates, normalize_locale};
use notification_template::number::{hex_encode, integer_to_text, parse_integer};
use notification_template::text::{
    byte_len, has_char, is_ascii_alphabetic, is_ascii_alphanumeric, is_blank, is_control,
    is_whitespace, split_chars, to_lower, to_upper,
};

#[test]
fn locale_fallback_is_exact_then_language_then_configured() {
    assert_eq!(
        locale_candidates("fr-CA", &vec!["en-US".to_owned(), "en".to_owned()]),
        vec!["fr-CA", "fr", "en-US", "en"]
    );
    assert_eq!(normalize_locale("en-us").as_deref(), Some("en-US"));
    assert_eq!(normalize_locale("en_US"), None);
}

#[test]
fn no_locale_is_tried_twice() {
    assert_eq!(
        locale_candidates("en", &vec!["fr".to_owned(), "en".to_owned(), "fr".to_owned()]),
        vec!["en", "fr"]
    );
    assert_eq!(
        locale_candidates("en-GB", &vec!["en".to_owned()]),
        vec!["en-GB", "en"]
    );
    assert_eq!(
        locale_candidates("zh-hant-TW", &Vec::new()),
        vec!["zh-hant-TW", "zh"]
    );
}

#[test]
fn locales_have_a_canonical_form() {
    assert_eq!(normalize_locale("EN").as_deref(), Some("en"));
    assert_eq!(normalize_locale("zh-HANT-tw").as_deref(), Some("zh-hant-TW"));
    assert_eq!(normalize_locale("de-1996").as_deref(), Some("de-1996"));
    assert_eq!(normalize_locale("en-12").as_deref(), Some("en-12"));
    assert_eq!(normalize_locale("en-a1").as_deref(), Some("en-a1"));
    for canonical in ["en", "en-US", "zh-hant-TW", "sl-rozaj-biske-1994"] {
        assert_eq!(normalize_locale(canonical).as_deref(), Some(canonical));
    }
    for bad in [
        "", "e", "e1", "en-", "-en", "en--us", "en-u", "abcdefghi", "en-abcdefghi", "en US",
        "\u{e9}n", "en-\u{e9}\u{e9}",
    ] {
        assert_eq!(normalize_locale(bad), None, "{bad}");
    }
    assert!(normalize_locale("en-aaaaaaaa-bbbbbbbb-cccccccc-dd").is_some());
    assert!(normalize_locale("en-aaaaaaaa-bbbbbbbb-cccccccc-ddd").is_none());
}

#[test]
fn classes_of_characters_are_those_of_unicode() {
    for code in 0..=0x10_ffff {
        if let Some(c) = char::from_u32(code) {
            assert_eq!(is_whitespace(c), c.is_whitespace(), "{code:x}");
            assert_eq!(is_control(c), c.is_control(), "{code:x}");
            assert_eq!(is_ascii_alphabetic(c), c.is_ascii_alphabetic());
            assert_eq!(is_ascii_alphanumeric(c), c.is_ascii_alphanumeric());
            assert_eq!(to_lower(c), c.to_ascii_lowercase());
            assert_eq!(to_upper(c), c.to_ascii_uppercase());
        }
    }
}

#[test]
fn texts_are_measured_and_split() {
    assert_eq!(byte_len("a\u{e9}\u{20ac}\u{1f600}"), 10);
    assert!(is_blank(" \t\u{2028}") && is_blank("") && !is_blank(" a "));
    assert!(has_char("abc", 'c') && !has_char("abc", 'd'));
    let parts: Vec<String> = split_chars("a--b-", '-')
        .into_iter()
        .map(|part| part.into_iter().collect())
        .collect();
    assert_eq!(parts, vec!["a", "", "b", ""]);
}

#[test]
fn variable_names_are_short_and_lower_case() {
    assert!(valid_variable_name("a") && valid_variable_name("a1_b"));
    assert!(valid_variable_name(&"a".repeat(64)));
    assert!(!valid_variable_name(&"a".repeat(65)));
    for bad in ["", "1a", "_a", "A", "a-b", "a b", "\u{e9}"] {
        assert!(!valid_variable_name(bad), "{bad}");
    }
}

#[test]
fn identifiers_and_instances_are_exact() {
    assert!(valid_identifier("a.b_c-d:E9", 160));
    assert!(valid_identifier("abc", 3) && !valid_identifier("abcd", 3));
    assert!(!valid_identifier("", 160) && !valid_identifier("a/b", 160));
    assert!(valid_instance(&"a".repeat(256)) && !valid_instance(&"a".repeat(257)));
    assert!(valid_idempotency_key(&"a".repeat(240)) && !valid_idempotency_key(&"a".repeat(241)));
}

#[test]
fn opaque_texts_are_printable() {
    assert!(valid_opaque("usr_1 \u{e9}", 256));
    assert!(!valid_opaque("  ", 256) && !valid_opaque("", 256));
    assert!(!valid_opaque("a\u{7f}", 256) && !valid_opaque("a\0", 256));
    assert!(valid_opaque("abc", 3) && !valid_opaque("abcd", 3) && !valid_opaque("ab\u{e9}", 3));
}

#[test]
fn secret_references_are_relative_paths() {
    for good in ["a", "a/b", "a.b/c-d_e", ".../x"] {
        assert!(valid_secret_reference(good), "{good}");
    }
    for bad in ["", "/a", "a/", "a//b", ".", "..", "a/./b", "a/..", "a:b", "a b"] {
        assert!(!valid_secret_reference(bad), "{bad}");
    }
    assert!(valid_secret_reference(&"a".repeat(256)) && !valid_secret_reference(&"a".repeat(257)));
}

#[test]
fn caller_lists_are_bounded_and_unique() {
    let list = |count: usize| (0..count).map(|i| format!("c{i}")).collect::<Vec<_>>();
    assert!(valid_callers(&list(1)) && valid_callers(&list(64)));
    assert!(!valid_callers(&list(0)) && !valid_callers(&list(65)));
    assert!(!valid_callers(&vec!["a".to_owned(), "a".to_owned()]));
    assert!(!valid_callers(&vec!["a b".to_owned()]));
    assert!(all_distinct(&list(5)) && all_distinct(&Vec::new()));
}

#[test]
fn integers_are_read_as_they_are_written() {
    for value in [0, 1, -1, 10, 1_234_567_890, i64::MAX, i64::MIN] {
        assert_eq!(integer_to_text(value), value.to_string());
        assert_eq!(parse_integer(&integer_to_text(value)), Some(value));
    }
    for text in [
        "", "+", "-", "+7", "-0", "007", " 1", "1 ", "1e3", "9223372036854775807",
        "9223372036854775808", "-9223372036854775808", "-9223372036854775809", "\u{661}",
        "000000000000000000000000000000001",
    ] {
        assert_eq!(parse_integer(text), text.parse::<i64>().ok(), "{text}");
    }
}

#[test]
fn bytes_are_written_in_hexadecimal() {
    assert_eq!(hex_encode(&[0, 1, 0x9a, 0xff]), "00019aff");
    assert_eq!(hex_encode(&[]), "");
}
