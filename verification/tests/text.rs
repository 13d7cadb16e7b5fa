use flip_companion::text::{
    chars_of, contains, is_whitespace, parse_number, read_u32, same_text, split_words,
    starts_with, trim,
};

#[test]
fn whitespace_is_that_of_unicode() {
    for code in 0..=0x10FFFFu32 {
        if let Some(c) = char::from_u32(code) {
            assert_eq!(is_whitespace(c), c.is_whitespace(), "{:x}", code);
        }
    }
}

#[test]
fn words_are_split_at_any_white_space() {
    let samples = [
        "",
        "   ",
        "firefox",
        "  flatpak run  org.mozilla.firefox\t--kiosk\n",
        "a\u{a0}b\u{2003}c\u{3000}",
        "\u{200b}kept together",
    ];
    for s in samples {
        let expected: Vec<&str> = s.split_whitespace().collect();
        assert_eq!(split_words(s), expected);
    }
}

#[test]
fn joined_words_split_back() {
    let line = split_words(" one   two\tthree ");
    assert_eq!(line, vec!["one", "two", "three"]);
    assert_eq!(split_words(&line.join(" ")), line);
}

#[test]
fn numbers_follow_the_standard_rules() {
    let samples = [
        "", "+", "-", "-1", "0", "+7", "++7", "007", "4294967295", "4294967296", "99999999999999999999",
        "1a", "ff", "FF", "fF0", "FFFFFFFF", "100000000", " 1", "1 ", "g", "z", "\u{661}",
    ];
    for s in samples {
        assert_eq!(parse_number(s, 10), u32::from_str_radix(s, 10).ok(), "{:?}", s);
        assert_eq!(parse_number(s, 16), u32::from_str_radix(s, 16).ok(), "{:?}", s);
        assert_eq!(parse_number(s, 36), u32::from_str_radix(s, 36).ok(), "{:?}", s);
    }
}

#[test]
fn sysfs_numbers_are_trimmed() {
    assert_eq!(read_u32("65535\n"), Some(65535));
    assert_eq!(read_u32("  12 \t"), Some(12));
    assert_eq!(read_u32("\n"), None);
    assert_eq!(read_u32("1 2"), None);
    assert_eq!(read_u32("n/a"), None);
}

#[test]
fn trimming_keeps_inner_space() {
    for s in ["", " ", " a b ", "a", "\u{3000}a\u{85}"] {
        assert_eq!(trim(s), s.trim());
    }
}

#[test]
fn substrings_are_found_anywhere() {
    assert!(contains("/dev/input/event7", "event"));
    assert!(contains("event", "event"));
    assert!(!contains("/dev/input/mouse0", "event"));
    assert!(!contains("even", "event"));
    assert!(contains("anything", ""));
    assert!(contains("", ""));
    assert!(starts_with("--env=A", "--"));
    assert!(!starts_with("-e", "--"));
    assert!(!starts_with("-", "--"));
    assert!(same_text("run", "run"));
    assert!(!same_text("run", "Run"));
    assert_eq!(chars_of("a\u{e4}\u{1F600}"), vec!['a', '\u{e4}', '\u{1F600}']);
}
