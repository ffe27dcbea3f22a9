use pirate_harbor::numfmt::{fmt_hex16, fmt_hex_width, fmt_i64, fmt_u64, parse_hex_u64, parse_i32, parse_i64};
use pirate_harbor::order::{sort_by_text, sort_desc_by_key, text_less};
use pirate_harbor::text::{
    contains_text, ends_with, eq_ignore_ascii_case, join, split_on, split_trimmed, starts_with, trim,
};

#[test]
fn decimal_and_hex_rendering() {
    assert_eq!(fmt_u64(0), "0");
    assert_eq!(fmt_u64(u64::MAX), u64::MAX.to_string());
    assert_eq!(fmt_i64(i64::MIN), i64::MIN.to_string());
    assert_eq!(fmt_i64(-42), "-42");
    assert_eq!(fmt_hex16(0xabc), "0000000000000abc");
    assert_eq!(fmt_hex_width(0xabc, 4), "0abc");
    assert_eq!(fmt_hex_width(0x8123, 4), "8123");
}

#[test]
fn integer_parsing_follows_std() {
    for s in ["0", "+7", "-7", "9223372036854775807", "-9223372036854775808", "9223372036854775808", "", "-", "1 ", "x"] {
        assert_eq!(parse_i64(s), s.parse::<i64>().ok(), "{}", s);
    }
    for s in ["2147483647", "2147483648", "-2147483648", "2020"] {
        assert_eq!(parse_i32(s), s.parse::<i32>().ok(), "{}", s);
    }
    assert_eq!(parse_hex_u64("ffffffffffffffff"), Some(u64::MAX));
    assert_eq!(parse_hex_u64("DeadBeef"), Some(0xdead_beef));
    assert_eq!(parse_hex_u64("10000000000000000"), None);
    assert_eq!(parse_hex_u64(""), None);
}

#[test]
fn trimming_and_splitting() {
    assert_eq!(trim("  a b \t\n"), "a b");
    assert_eq!(trim(" \u{3000}x\u{a0}"), " \u{3000}x\u{a0}".trim());
    assert_eq!(split_on("a,,b", ','), vec!["a".to_string(), "".to_string(), "b".to_string()]);
    assert_eq!(split_trimmed(" RPG , Action,"), vec!["RPG".to_string(), "Action".to_string(), "".to_string()]);
    assert_eq!(join(&vec!["a".to_string(), "b".to_string()], ", "), "a, b");
    assert_eq!(join(&Vec::new(), ", "), "");
}

#[test]
fn comparisons() {
    assert!(eq_ignore_ascii_case("RPG", "rpg"));
    assert!(!eq_ignore_ascii_case("RPG", "rpgs"));
    assert!(contains_text("CD Projekt RED", "projekt", true));
    assert!(!contains_text("CD Projekt RED", "projekt", false));
    assert!(starts_with("auto_1.phb", "auto_"));
    assert!(ends_with("auto_1.phb", ".phb"));
    assert!(text_less("abc", "abd"));
    assert!(text_less("ab", "abc"));
    assert!(!text_less("b", "abc"));
}

#[test]
fn stable_sorting() {
    assert_eq!(sort_desc_by_key(&vec![3, 9, 3, 1, 9]), vec![1, 4, 0, 2, 3]);
    let keys = vec!["b".to_string(), "a".to_string(), "b".to_string()];
    assert_eq!(sort_by_text(&keys, false), vec![1, 0, 2]);
    assert_eq!(sort_by_text(&keys, true), vec![0, 2, 1]);
}
