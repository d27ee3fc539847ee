use dbx_web_auth::account::normalize_username;
use dbx_web_auth::text::{
    at_most, chars_of, contains, decimal, eq_ignore_ascii_case, is_whitespace, same_text,
    strip_prefix, trim, trim_end_matches,
};

const SAMPLES: [&str; 12] = [
    "", " ", "admin", " admin\t", "\u{3000}x\u{a0}", "a b", "\n\r", "K", "\u{212a}", "Straße", "aé", "zz",
];

#[test]
fn whitespace_is_that_of_unicode() {
    for c in '\0'..=char::MAX {
        assert_eq!(is_whitespace(c), c.is_whitespace(), "{:x}", c as u32);
    }
}

#[test]
fn text_functions_agree_with_std() {
    for a in SAMPLES {
        assert_eq!(chars_of(a), a.chars().collect::<Vec<char>>());
        assert_eq!(trim(a), a.trim());
        assert_eq!(trim_end_matches(a, 'z'), a.trim_end_matches('z'));
        for b in SAMPLES {
            assert_eq!(same_text(a, b), a == b);
            assert_eq!(at_most(a, b), a <= b);
            assert_eq!(contains(a, b), a.contains(b));
            assert_eq!(strip_prefix(a, b), a.strip_prefix(b));
            assert_eq!(eq_ignore_ascii_case(a, b), a.eq_ignore_ascii_case(b));
        }
    }
    assert!(eq_ignore_ascii_case("Alice", "aLICE"));
    assert!(!eq_ignore_ascii_case("Émile", "émile"));
    assert!(at_most("alice", "alicia") && !at_most("alicia", "alice"));
    assert!(at_most("\u{ffff}", "\u{10000}"));
}

#[test]
fn decimal_numerals() {
    for n in [0u128, 7, 10, 59, 60, 1000, 4096, u64::MAX as u128, u128::MAX] {
        assert_eq!(decimal(n), n.to_string());
    }
}

#[test]
fn usernames_are_normalized() {
    assert_eq!(normalize_username(None), "admin");
    assert_eq!(normalize_username(Some("")), "admin");
    assert_eq!(normalize_username(Some(" \u{2003}")), "admin");
    assert_eq!(normalize_username(Some(" Al ice ")), "Al ice");
}
