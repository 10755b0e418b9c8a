use scada::text::{
    is_whitespace, lines, parse_usize, split_whitespace, strip_prefix, to_chars, trim, CharClass,
};

#[test]
fn white_space_agrees_with_the_standard_library() {
    for n in 0u32..=0x3100 {
        if let Some(c) = char::from_u32(n) {
            assert_eq!(is_whitespace(c), c.is_whitespace(), "U+{:04X}", n);
        }
    }
    assert!(!is_whitespace('\u{feff}'));
    assert!(!is_whitespace('\u{10ffff}'));
}

#[test]
fn classes_hold_their_characters() {
    assert!(CharClass::Quote.contains('"'));
    assert!(!CharClass::Quote.contains('\''));
    assert!(CharClass::Newline.contains('\n'));
    assert!(!CharClass::Newline.contains('\r'));
    assert!(CharClass::Whitespace.contains('\r'));
    assert!(!CharClass::Whitespace.contains('a'));
}

#[test]
fn chars_are_copied_in_order() {
    assert_eq!(to_chars("a\u{e9}z"), vec!['a', '\u{e9}', 'z']);
    assert_eq!(to_chars(""), Vec::<char>::new());
}

#[test]
fn trim_agrees_with_the_standard_library() {
    let samples = [
        "", " ", "a", "  a  ", "\t\n a b \r\n", "\u{a0}x\u{3000}", "   ", "a  b", "\u{2003}",
        "no-space", " leading", "trailing ",
    ];
    for s in samples {
        assert_eq!(trim(s, CharClass::Whitespace), s.trim(), "{:?}", s);
    }
}

#[test]
fn trim_of_quotes_agrees_with_the_standard_library() {
    let samples = ["", "\"", "\"\"", "\"a\"", "\"\"a\"b\"\"", "a\"", "\"a", "a", " \"a\" "];
    for s in samples {
        assert_eq!(trim(s, CharClass::Quote), s.trim_matches('"'), "{:?}", s);
    }
}

#[test]
fn strip_prefix_agrees_with_the_standard_library() {
    let cases = [
        ("cpu  1 2", "cpu"), ("cp", "cpu"), ("", "cpu"), ("cpu", "cpu"), ("xcpu", "cpu"),
        ("abc", ""), ("", ""), ("\u{e9}t\u{e9}", "\u{e9}"), ("PRETTY_NAME=x", "PRETTY_NAME="),
    ];
    for (s, p) in cases {
        assert_eq!(strip_prefix(s, p), s.strip_prefix(p), "{:?} {:?}", s, p);
    }
}

#[test]
fn lines_agree_with_the_standard_library() {
    let samples = [
        "", "\n", "a", "a\n", "a\nb", "a\n\nb\n", "a\r\nb\r\n", "a\rb\n", "a\r", "\r\n", "\r",
        "\n\n", "a\n\r\nb", "x\r\r\ny", "last line\r",
    ];
    for s in samples {
        let expected: Vec<&str> = s.lines().collect();
        assert_eq!(lines(s), expected, "{:?}", s);
    }
}

#[test]
fn words_agree_with_the_standard_library() {
    let samples = [
        "", " ", "a", " a ", "a b", "  a \t b\nc  ", "\u{a0}a\u{2003}b\u{3000}", "one",
        "Linux version 6.1.0 (gcc) #1 SMP",
    ];
    for s in samples {
        let expected: Vec<&str> = s.split_whitespace().collect();
        assert_eq!(split_whitespace(s), expected, "{:?}", s);
    }
}

#[test]
fn numbers_agree_with_the_standard_library() {
    let max = usize::MAX.to_string();
    let over = format!("{}0", max);
    let next = format!("{}9", &max[..max.len() - 1]);
    let samples = [
        "", "+", "-", "0", "7", "+7", "-7", "007", "12a", "a12", "1 2", " 1", "1 ", "++1", "+-1",
        "18446744073709551615", "18446744073709551616", "4294967295", "4294967296",
        "99999999999999999999999999", "\u{661}", "1_000", "0x10", max.as_str(), over.as_str(),
        next.as_str(),
    ];
    for s in samples {
        assert_eq!(parse_usize(s), s.parse::<usize>().ok(), "{:?}", s);
    }
}

#[test]
fn number_has_its_decimal_value() {
    assert_eq!(parse_usize("16250"), Some(16250));
    assert_eq!(parse_usize("+520"), Some(520));
    assert_eq!(parse_usize("000"), Some(0));
}

#[test]
fn every_word_is_non_empty_and_free_of_white_space() {
    let text = " \t cpu  4705\u{a0}150 \n 1120\r\n16250 \u{3000} end";
    let words = split_whitespace(text);
    assert_eq!(words, vec!["cpu", "4705", "150", "1120", "16250", "end"]);
    for word in words {
        assert!(!word.is_empty());
        assert!(word.chars().all(|c| !is_whitespace(c)));
    }
}

#[test]
fn no_line_holds_a_line_feed() {
    let text = "first\nsecond\r\n\nfourth\rstill fourth\n";
    let all = lines(text);
    assert_eq!(all, vec!["first", "second", "", "fourth\rstill fourth"]);
    for line in all {
        assert!(!line.contains('\n'));
    }
}

#[test]
fn trimmed_text_neither_begins_nor_ends_with_the_class() {
    let t = trim("\u{2003} inner  space \t", CharClass::Whitespace);
    assert_eq!(t, "inner  space");
    let q = trim("\"\"a \"quoted\" b\"", CharClass::Quote);
    assert_eq!(q, "a \"quoted\" b");
}
