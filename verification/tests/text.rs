use statusline::text::{
    before, chars_of, is_space, lines, same, split, starts_with, strip_prefix, trim, trim_end,
    trim_start_matches,
};

#[test]
fn white_space_is_what_the_standard_library_says() {
    for code in 0..=0x10ffffu32 {
        if let Some(c) = char::from_u32(code) {
            assert_eq!(is_space(c), c.is_whitespace(), "U+{:04X}", code);
        }
    }
}

#[test]
fn chars_of_gives_every_character() {
    assert_eq!(chars_of("a\u{e9}\u{1f600}z"), vec!['a', '\u{e9}', '\u{1f600}', 'z']);
    assert_eq!(chars_of(""), Vec::<char>::new());
}

#[test]
fn trim_end_removes_trailing_white_space_only() {
    for text in ["", " ", "73\n", "  a b \t\r\n", "x\u{a0}\u{3000}", "\n\nx", "\u{e9} \u{2003}"] {
        assert_eq!(trim_end(text), text.trim_end(), "{:?}", text);
    }
    assert_eq!(trim_end("  a b \t\r\n"), "  a b");
}

#[test]
fn trim_removes_white_space_on_both_sides() {
    for text in ["", " ", " 1 \n", "\t\u{2028}a b\u{85}", "ab", " \u{e9}\u{1f600} "] {
        assert_eq!(trim(text), text.trim(), "{:?}", text);
    }
    assert_eq!(trim(" 1 \n"), "1");
}

#[test]
fn starts_with_tests_the_front() {
    let cases = [("wlp3s0", "wlp"), ("wl", "wlp"), ("", ""), ("abc", ""), ("xwlp", "wlp"),
        ("\u{e9}t\u{e9}", "\u{e9}"), ("abc", "abc"), ("abc", "abcd")];
    for (text, prefix) in cases {
        assert_eq!(starts_with(text, prefix), text.starts_with(prefix), "{:?} {:?}", text, prefix);
    }
    assert!(starts_with("wlp3s0", "wlp"));
    assert!(!starts_with("eth0", "wlp"));
}

#[test]
fn strip_prefix_gives_what_follows_the_prefix() {
    let cases = [("\tssid Net", "\tssid "), ("\tbssid x", "\tssid "), ("abc", ""), ("", ""),
        ("", "a"), ("abab", "ab"), ("ab", "ab"), ("a", "ab"), ("xab", "ab"),
        ("\u{e9}t\u{e9}", "\u{e9}")];
    for (text, prefix) in cases {
        assert_eq!(strip_prefix(text, prefix), text.strip_prefix(prefix), "{:?} {:?}", text, prefix);
    }
    assert_eq!(strip_prefix("\tssid Net", "\tssid "), Some("Net"));
    assert_eq!(strip_prefix("abab", "ab"), Some("ab"));
    assert_eq!(strip_prefix("\tbssid x", "\tssid "), None);
}

#[test]
fn trim_start_matches_removes_every_leading_repetition() {
    let cases = [("\tssid Net", "\tssid "), ("ababc", "ab"), ("abc", ""), ("", "ab"),
        ("aaa", "a"), ("xab", "ab"), ("status: active", "status: "), ("abab", "abab"),
        ("aab", "aa")];
    for (text, pattern) in cases {
        assert_eq!(
            trim_start_matches(text, pattern),
            text.trim_start_matches(pattern),
            "{:?} {:?}",
            text,
            pattern
        );
    }
    assert_eq!(trim_start_matches("ababc", "ab"), "c");
}

#[test]
fn lines_are_those_of_the_standard_library() {
    let cases = ["", "a", "a\n", "a\nb", "a\n\nb\n", "\n", "\n\n", "a\r\nb\r\n", "a\r", "a\r\n",
        "\r\n", "a\r\r\nb", "a\rb\nc", "\u{e9}\n\u{1f600}"];
    for text in cases {
        let expected: Vec<&str> = text.lines().collect();
        assert_eq!(lines(text), expected, "{:?}", text);
    }
    assert_eq!(lines("a\r\nb\n\nc"), vec!["a", "b", "", "c"]);
}

#[test]
fn split_cuts_at_every_separator() {
    for text in ["", "a", "a\nb", "a\n", "\n", "\n\na", "12\n90\n1"] {
        let expected: Vec<&str> = text.split("\n").collect();
        assert_eq!(split(text, '\n'), expected, "{:?}", text);
    }
    assert_eq!(split("12\n90\n1", '\n'), vec!["12", "90", "1"]);
    assert_eq!(split("", '\n'), vec![""]);
}

#[test]
fn before_gives_what_stands_before_the_separator() {
    for text in ["", "a", "a b", " a", "a ", "my net chan 1", "\u{e9} x"] {
        assert_eq!(before(text, ' '), text.split_once(" ").map(|(head, _)| head), "{:?}", text);
    }
    assert_eq!(before("my net", ' '), Some("my"));
    assert_eq!(before("mynet", ' '), None);
}

#[test]
fn same_compares_the_characters() {
    assert!(same("active", "active"));
    assert!(!same("active", "activ"));
    assert!(!same("activ", "active"));
    assert!(!same("active", "Active"));
    assert!(same("", ""));
    assert!(!same("", "a"));
}
