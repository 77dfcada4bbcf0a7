use open_workspace::text::{
    chars, find_char, is_blank, is_whitespace, join, keep_non_blank, parse_u64, same, starts_with,
    strip_prefix, to_decimal, trim, trim_end_matches,
};

#[test]
fn white_space_is_that_of_unicode() {
    for c in '\0'..=char::MAX {
        assert_eq!(is_whitespace(c), c.is_whitespace(), "{c:?}");
    }
}

#[test]
fn trimming_removes_white_space_at_both_ends() {
    for s in ["", " ", "a", " a b ", "\u{2003}ä\u{a0}", "\t\n", "x\u{200b} "] {
        assert_eq!(trim(s), s.trim());
        assert_eq!(is_blank(s), s.trim().is_empty());
    }
}

#[test]
fn numbers_are_read_as_std_reads_them() {
    for s in [
        "",
        "0",
        "+0",
        "+",
        "-1",
        "007",
        "1_0",
        " 1",
        "1 ",
        "12a",
        "++1",
        "٣",
        "18446744073709551615",
        "18446744073709551616",
        "00018446744073709551615",
        "99999999999999999999999",
    ] {
        assert_eq!(parse_u64(s), s.parse::<u64>().ok(), "{s:?}");
    }
}

#[test]
fn numbers_are_written_in_decimal_and_read_back() {
    for n in [0, 7, 10, 42, 1_000_000, u64::MAX] {
        assert_eq!(to_decimal(n), n.to_string());
        assert_eq!(parse_u64(&to_decimal(n)), Some(n));
    }
}

#[test]
fn prefixes_and_suffixes_are_taken_off() {
    assert!(starts_with("äb", "ä"));
    assert!(starts_with("x", ""));
    assert!(!starts_with("x", "xy"));
    assert_eq!(strip_prefix("ssh://h", "ssh://"), Some("h"));
    assert_eq!(strip_prefix("h", "ssh://"), None);
    assert_eq!(trim_end_matches("a/b//", '/'), "a/b");
    assert_eq!(trim_end_matches("//", '/'), "");
}

#[test]
fn characters_are_found_and_compared() {
    let v = chars("aäba");
    assert_eq!(v, vec!['a', 'ä', 'b', 'a']);
    assert_eq!(find_char(&v, 'a', 1), Some(3));
    assert_eq!(find_char(&v, 'x', 0), None);
    assert_eq!(find_char(&v, 'a', 9), None);
    assert!(same("ä", "ä"));
    assert!(!same("ä", "a"));
    assert!(!same("a", "ab"));
}

#[test]
fn lists_are_joined_and_blank_values_dropped() {
    assert_eq!(join(&Vec::new(), ", "), "");
    assert_eq!(join(&vec!["a".to_string()], ", "), "a");
    assert_eq!(
        join(&vec!["a".to_string(), "".to_string(), "c".to_string()], ", "),
        "a, , c"
    );
    assert_eq!(keep_non_blank(Some(" ".to_string())), None);
    assert_eq!(keep_non_blank(Some("x ".to_string())), Some("x ".to_string()));
    assert_eq!(keep_non_blank(None), None);
}
