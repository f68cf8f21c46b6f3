use annoirc::irc_string::{fit, sanitize, truncate, IrcString, MaybeTruncated};

#[test]
fn vaguely_test_sanitize() {
    let tests = vec![
        (" foo  bar  baz ", "foo bar baz"),
        ("foo\nbar\tbaz", "foo bar baz"),
        ("Z̡̢̖͛̍ͫ̂̚͜A̸̶̡̩͖͉̟̞̺ͨ̎̓ͭ̇̂Ḻ̵͋́̃͝͡G̪̹͌̋ͅǪ̖̐ͭ̑!͚͙͈̐͢", "ZALGO!"),
        ("0123456789abcdefghijklm", "0123456789abcdef…"),
    ];

    for (src, tgt) in tests {
        assert_eq!(sanitize(src, 16), tgt);
    }
}

#[test]
fn sanitize_strips_control_codes() {
    assert_eq!(sanitize("a\u{3}04red\u{f} b", 100), "a04red b");
    assert_eq!(sanitize("zero\u{200b}width", 100), "zerowidth");
}

#[test]
fn sanitize_keeps_the_place_of_a_word_that_is_stripped_away() {
    assert_eq!(sanitize("\u{200b} foo", 100), " foo");
}

#[test]
fn sanitize_of_nothing_is_nothing() {
    assert_eq!(sanitize("", 16), "");
    assert_eq!(sanitize(" \t\n ", 16), "");
}

#[test]
fn truncate_keeps_a_text_that_fits() {
    match truncate("hello", 5) {
        MaybeTruncated::Nope(text) => assert_eq!(text, "hello"),
        MaybeTruncated::Yup(_) => panic!("a text that fits was cut"),
    }
}

#[test]
fn truncate_cuts_at_a_cluster() {
    // "e" followed by a combining acute accent is one cluster of three bytes.
    match truncate("ae\u{301}b", 2) {
        MaybeTruncated::Yup(text) => assert_eq!(text, "a"),
        MaybeTruncated::Nope(_) => panic!("a text that is too long was kept"),
    }
    match truncate("ae\u{301}b", 4) {
        MaybeTruncated::Yup(text) => assert_eq!(text, "ae\u{301}"),
        MaybeTruncated::Nope(_) => panic!("a text that is too long was kept"),
    }
}

#[test]
fn a_cut_to_nothing_is_marked() {
    match truncate("hello", 0) {
        MaybeTruncated::Yup(text) => assert_eq!(text, ""),
        MaybeTruncated::Nope(_) => panic!("a cut was not marked"),
    }
    assert_eq!(truncate("hello", 0).to_string(), "…");
    // The first cluster alone is too long.
    assert_eq!(truncate("e\u{301}\u{302}x", 3).to_string(), "…");
    assert_eq!(sanitize("hello", 0), "…");
    // Nothing is cut from an empty text.
    match truncate("", 0) {
        MaybeTruncated::Nope(text) => assert_eq!(text, ""),
        MaybeTruncated::Yup(_) => panic!("an empty text was cut"),
    }
    assert_eq!(sanitize("", 0), "");
}

#[test]
fn a_text_is_marked_exactly_where_something_is_lost() {
    for text in ["", "a", "hello world", "ae\u{301}b", "…", "日本語のテキスト"] {
        let mut max = 0;
        while max <= text.len() + 1 {
            match truncate(text, max) {
                MaybeTruncated::Yup(kept) => {
                    assert!(kept.len() < text.len());
                    assert!(kept.len() <= max);
                    assert!(text.starts_with(&kept));
                }
                MaybeTruncated::Nope(kept) => assert_eq!(kept, text),
            }
            max += 1;
        }
    }
}

#[test]
fn a_cut_is_marked_with_an_ellipsis() {
    assert_eq!(truncate("hello world", 5).to_string(), "hello…");
    assert_eq!(truncate("hello", 5).to_string(), "hello");
}

#[test]
fn irc_string_is_sanitized_and_cut() {
    let s = IrcString::from("  some \u{2}bold\u{2}   text ");
    assert_eq!(s.as_str(), "some bold text");
    assert!(!s.is_empty());
    assert_eq!(s.trunc(4).to_string(), "some…");
    assert_eq!(s.into_string(), "some bold text");

    let long = "x".repeat(500);
    let cut = IrcString::from(long.as_str());
    assert_eq!(cut.as_str().len(), 450 + "…".len());
    assert!(IrcString::from(" ").is_empty());
}

fn clusters(parts: &[&str]) -> Vec<String> {
    parts.iter().map(|part| part.to_string()).collect()
}

#[test]
fn clusters_are_kept_while_they_fit() {
    let parts = clusters(&["ab", "c", "de\u{301}", "f"]);
    assert_eq!(fit(&parts, 8, 100).to_string(), "abcde\u{301}f");
    assert_eq!(fit(&parts, 8, 8).to_string(), "abcde\u{301}f");
    assert_eq!(fit(&parts, 8, 7).to_string(), "abcde\u{301}…");
    assert_eq!(fit(&parts, 8, 6).to_string(), "abc…");
    assert_eq!(fit(&parts, 8, 3).to_string(), "abc…");
    assert_eq!(fit(&parts, 8, 2).to_string(), "ab…");
    assert_eq!(fit(&parts, 8, 1).to_string(), "…");
    assert_eq!(fit(&parts, 8, 0).to_string(), "…");
    assert_eq!(fit(&Vec::new(), 0, 5).to_string(), "");
    // A cluster that does not fit ends the text, whatever follows it.
    assert_eq!(fit(&clusters(&["a", "bcd", "e"]), 5, 2).to_string(), "a…");
}
