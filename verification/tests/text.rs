use annoirc::text::{
    contains_char, ends_with, is_separator, join, parse_u64, push_decimal,
    push_two_digits, skip_chars, split_text, starts_with, to_chars, until_char,
};

#[test]
fn a_text_is_its_characters() {
    assert_eq!(to_chars("héllo…"), vec!['h', 'é', 'l', 'l', 'o', '…']);
    assert_eq!(to_chars(""), Vec::<char>::new());
}

#[test]
fn separators_are_white_space() {
    for c in [' ', '\t', '\n', '\u{c}', '\r'] {
        assert!(is_separator(c, true));
        assert!(is_separator(c, false));
    }
    for c in ['\u{b}', '\u{85}', '\u{a0}', '\u{1680}', '\u{2000}', '\u{200a}', '\u{2028}', '\u{2029}', '\u{202f}', '\u{205f}', '\u{3000}'] {
        assert!(!is_separator(c, true));
        assert!(is_separator(c, false));
    }
    for c in ['a', '\u{200b}', '\u{0}', '\u{1f}', '\u{2060}'] {
        assert!(!is_separator(c, true));
        assert!(!is_separator(c, false));
    }
}

#[test]
fn separators_agree_with_the_standard_library() {
    let mut n: u32 = 0;
    while n <= 0x3100 {
        if let Some(c) = char::from_u32(n) {
            assert_eq!(is_separator(c, false), c.is_whitespace());
            assert_eq!(is_separator(c, true), c.is_ascii_whitespace());
        }
        n += 1;
    }
}

#[test]
fn a_text_is_split_into_its_words() {
    assert_eq!(split_text(" foo  bar\tbaz ", true), vec!["foo", "bar", "baz"]);
    assert_eq!(split_text("foo", true), vec!["foo"]);
    assert_eq!(split_text("", true), Vec::<String>::new());
    assert_eq!(split_text(" \n ", true), Vec::<String>::new());
    assert_eq!(split_text("a\u{a0}b c", true), vec!["a\u{a0}b", "c"]);
    assert_eq!(split_text("a\u{a0}b c", false), vec!["a", "b", "c"]);
}

#[test]
fn words_are_joined_with_a_separator() {
    let words = vec!["a".to_string(), "b".to_string(), "c".to_string()];
    assert_eq!(join(&words, " "), "a b c");
    assert_eq!(join(&words, ", "), "a, b, c");
    assert_eq!(join(&vec!["a".to_string()], " "), "a");
    assert_eq!(join(&Vec::new(), " "), "");
    assert_eq!(join(&vec!["".to_string(), "a".to_string()], " "), " a");
}

#[test]
fn prefixes_and_suffixes() {
    assert!(starts_with("hello", "he"));
    assert!(starts_with("hello", ""));
    assert!(starts_with("hello", "hello"));
    assert!(!starts_with("hello", "hello!"));
    assert!(!starts_with("hello", "el"));
    assert!(ends_with("en.wikipedia.org", ".wikipedia.org"));
    assert!(ends_with("hello", ""));
    assert!(!ends_with("wikipedia.org", ".wikipedia.org"));
    assert!(!ends_with("hello", "hell"));
    assert!(contains_char("a\u{3}b", '\u{3}'));
    assert!(!contains_char("ab", '\u{3}'));
    assert!(!contains_char("", 'a'));
}

#[test]
fn parts_of_a_text() {
    assert_eq!(until_char("en.wikipedia.org", '.'), "en");
    assert_eq!(until_char("localhost", '.'), "localhost");
    assert_eq!(until_char(".org", '.'), "");
    assert_eq!(until_char("", '.'), "");
    assert_eq!(skip_chars("héllo", 2), "llo");
    assert_eq!(skip_chars("héllo", 0), "héllo");
    assert_eq!(skip_chars("héllo", 5), "");
    assert_eq!(skip_chars("héllo", 6), "");
}

#[test]
fn numbers_are_read_as_the_standard_library_reads_them() {
    for text in [
        "0", "7", "42", "+42", "007", "18446744073709551615", "18446744073709551616",
        "99999999999999999999", "", "+", "-1", "++1", "1+", "12a", " 1", "1 ", "١٢", "+0",
        "184467440737095516150",
    ] {
        assert_eq!(parse_u64(text), text.parse::<u64>().ok());
    }
    assert_eq!(parse_u64("18446744073709551615"), Some(u64::MAX));
    assert_eq!(parse_u64("18446744073709551616"), None);
}

#[test]
fn numbers_are_written_in_decimal() {
    for n in [0u64, 7, 10, 42, 100, 1234567890, u64::MAX] {
        let mut out = String::from("n=");
        push_decimal(&mut out, n);
        assert_eq!(out, format!("n={}", n));
    }
    for n in [0u64, 7, 10, 59, 99] {
        let mut out = String::new();
        push_two_digits(&mut out, n);
        assert_eq!(out, format!("{:02}", n));
    }
}

#[test]
fn splitting_agrees_with_the_standard_library() {
    for text in [
        "",
        " ",
        "one",
        " leading and trailing ",
        "tabs\tand\nlines\r\nand\u{c}feeds",
        "no\u{a0}break and\u{2003}wide\u{3000}spaces",
        "\u{85}next\u{2028}line\u{2029}",
        "zero\u{200b}width is no space",
        "  \u{1680} \u{205f}  ",
    ] {
        let unicode: Vec<String> = text.split_whitespace().map(|word| word.to_string()).collect();
        let ascii: Vec<String> =
            text.split_ascii_whitespace().map(|word| word.to_string()).collect();
        assert_eq!(split_text(text, false), unicode);
        assert_eq!(split_text(text, true), ascii);
    }
}

#[test]
fn joining_agrees_with_itertools() {
    for words in [vec![], vec!["a"], vec!["a", "b"], vec!["", "", "c"], vec!["é", "…", ""]] {
        let owned: Vec<String> = words.iter().map(|word| word.to_string()).collect();
        for sep in [" ", "", ", "] {
            assert_eq!(join(&owned, sep), itertools::join(words.iter(), sep));
        }
    }
}
