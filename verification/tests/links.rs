use annoirc::links::{
    candidates, parse_url, same_text, unique_urls, valid_patterns, ParseError, Url,
};

#[test]
fn the_parts_of_an_address_are_read() {
    let url = Url::parse("HTTPS://User@Example.COM:8443/a/b%20c/?x=1&y=a%20b&x=2#frag").unwrap();
    assert_eq!(url.as_str(), "https://User@example.com:8443/a/b%20c/?x=1&y=a%20b&x=2#frag");
    assert_eq!(url.host_str(), Some("example.com"));
    assert_eq!(url.domain(), Some("example.com"));
    assert_eq!(
        url.path_segments(),
        Some(&vec!["a".to_string(), "b%20c".to_string(), "".to_string()])
    );
    assert_eq!(
        url.query_pairs(),
        &vec![
            ("x".to_string(), "1".to_string()),
            ("y".to_string(), "a b".to_string()),
            ("x".to_string(), "2".to_string()),
        ]
    );
}

#[test]
fn an_address_may_lack_parts() {
    let url = Url::parse("http://127.0.0.1/").unwrap();
    assert_eq!(url.host_str(), Some("127.0.0.1"));
    assert_eq!(url.domain(), None);
    let url = Url::parse("mailto:someone@example.com").unwrap();
    assert_eq!(url.host_str(), None);
    assert_eq!(url.path_segments(), None);
    assert!(url.query_pairs().is_empty());
}

#[test]
fn a_text_that_is_no_address_is_an_error() {
    assert_eq!(Url::parse("example.com").unwrap_err(), ParseError::RelativeUrlWithoutBase);
    assert_eq!(Url::parse("").unwrap_err(), ParseError::RelativeUrlWithoutBase);
    assert_eq!(Url::parse("http://").unwrap_err(), ParseError::Other);
    assert_eq!(Url::parse("http://example.com:port/").unwrap_err(), ParseError::Other);
}

#[test]
fn a_text_of_a_message_is_read_as_an_address() {
    assert_eq!(parse_url("http://example.com", true).unwrap().as_str(), "http://example.com/");
    assert_eq!(parse_url("example.com/a", false).unwrap().as_str(), "http://example.com/a");
    assert_eq!(parse_url("example.com/a", true).unwrap_err(), ParseError::RelativeUrlWithoutBase);
    assert_eq!(parse_url("http://", false).unwrap_err(), ParseError::Other);
    assert_eq!(parse_url("http://", true).unwrap_err(), ParseError::Other);
    assert_eq!(parse_url("", false).unwrap_err(), ParseError::Other);
}

#[test]
fn the_social_network_is_read_through_its_mirror() {
    assert_eq!(
        parse_url("https://twitter.com/rustlang?lang=en#top", true).unwrap().as_str(),
        "https://uk.unofficialbird.com/rustlang?lang=en#top"
    );
    assert_eq!(
        parse_url("https://TWITTER.com:8443/", true).unwrap().as_str(),
        "https://uk.unofficialbird.com:8443/"
    );
    assert_eq!(
        parse_url("https://mobile.twitter.com/rustlang", true).unwrap().as_str(),
        "https://mobile.twitter.com/rustlang"
    );
    // A text without a scheme is not moved.
    assert_eq!(
        parse_url("twitter.com/rustlang", false).unwrap().as_str(),
        "http://twitter.com/rustlang"
    );
}

fn texts(urls: Vec<Url>) -> Vec<String> {
    urls.iter().map(|url| url.as_str().to_string()).collect()
}

#[test]
fn the_addresses_of_a_message_are_found() {
    let none: Vec<String> = Vec::new();
    let line = "see https://example.com/a, example.org and (http://example.net/b?c=d).";
    assert_eq!(
        texts(candidates(line, &none, false, 10)),
        vec!["https://example.com/a", "http://example.org/", "http://example.net/b?c=d"]
    );
    assert_eq!(
        texts(candidates(line, &none, true, 10)),
        vec!["https://example.com/a", "http://example.net/b?c=d"]
    );
    assert_eq!(texts(candidates(line, &none, false, 2)).len(), 2);
    assert!(candidates(line, &none, false, 0).is_empty());
    assert!(candidates("no links here", &none, false, 10).is_empty());
    assert!(candidates("", &none, false, 10).is_empty());
}

#[test]
fn patterns_that_are_none_ignore_nothing() {
    let broken = vec!["(".to_string()];
    assert!(!valid_patterns(&broken));
    assert_eq!(texts(candidates("http://example.com", &broken, true, 10)).len(), 1);
    assert!(valid_patterns(&Vec::new()));
    assert!(valid_patterns(&vec!["example".to_string()]));
    assert!(candidates("http://example.com", &vec!["example".to_string()], true, 10).is_empty());
}

#[test]
fn texts_are_compared() {
    assert!(same_text("", ""));
    assert!(same_text("abc", "abc"));
    assert!(!same_text("abc", "abd"));
    assert!(!same_text("abc", "ab"));
}

#[test]
fn an_address_that_repeats_an_earlier_one_is_dropped() {
    let urls = ["http://a.example/", "http://b.example/", "http://a.example", "http://A.example/x"]
        .iter()
        .map(|text| Url::parse(text).unwrap())
        .collect();
    assert_eq!(
        texts(unique_urls(urls)),
        vec!["http://a.example/", "http://b.example/", "http://a.example/x"]
    );
    assert!(unique_urls(Vec::new()).is_empty());
}
