use annoirc::command::{
    handle_url, plan, settle, BotCommand, CommandHandler, Fetch, Info, Lookup, Outcome, Response,
    QUEUE_DEPTH,
};
use annoirc::config::{BotConfig, CommandConfig};
use annoirc::error::Error;
use annoirc::links::{ParseError, Url};
use annoirc::omdb::Kind;
use annoirc::page::UrlInfo;
use annoirc::irc_string::IrcString;
use std::time::{Duration, Instant};

fn url(text: &str) -> Url {
    Url::parse(text).unwrap()
}

fn look(text: &str) -> BotCommand {
    BotCommand::Url(url(text))
}

fn conf(entries: u32, ttl: u32) -> CommandConfig {
    CommandConfig { cache_entries: entries, cache_time_secs: ttl, ..CommandConfig::default() }
}

fn wait(millis: u64) {
    let start = Instant::now();
    while start.elapsed() < Duration::from_millis(millis) {}
}

fn drain(handler: &mut CommandHandler) -> Vec<u64> {
    let mut handles = Vec::new();
    while let Some(job) = handler.next_job() {
        handles.push(job.handle);
        handler.job_done();
    }
    handles
}

#[test]
fn equal_commands_share_one_handle_and_one_job() {
    let mut handler = CommandHandler::new(&conf(256, 1800));
    let first = handler.spawn(look("http://example.com/"));
    let second = handler.spawn(look("http://example.com"));
    assert_eq!(first, Some(0));
    assert_eq!(second, first);
    let third = handler.spawn(BotCommand::Omdb("Any".to_string(), "x".to_string()));
    assert_eq!(third, Some(1));
    assert_eq!(handler.spawn(BotCommand::Omdb("Any".to_string(), "x".to_string())), third);
    assert_eq!(drain(&mut handler), vec![0, 1]);
}

#[test]
fn commands_of_different_kinds_with_the_same_text_are_different() {
    let mut handler = CommandHandler::new(&conf(256, 1800));
    assert_eq!(handler.spawn(BotCommand::YouTube("x".to_string())), Some(0));
    assert_eq!(handler.spawn(BotCommand::Wolfram("x".to_string())), Some(1));
    assert_eq!(handler.spawn(BotCommand::Omdb("x".to_string(), "".to_string())), Some(2));
    assert_eq!(handler.spawn(BotCommand::Omdb("".to_string(), "x".to_string())), Some(3));
    assert_eq!(handler.spawn(BotCommand::YouTube("x".to_string())), Some(0));
}

#[test]
fn an_expired_entry_is_not_served() {
    let mut handler = CommandHandler::new(&conf(256, 0));
    assert_eq!(handler.spawn(look("http://example.com/")), Some(0));
    wait(5);
    assert_eq!(handler.spawn(look("http://example.com/")), Some(1));
    assert_eq!(drain(&mut handler), vec![0, 1]);
}

#[test]
fn the_least_recently_used_entry_is_evicted() {
    let mut handler = CommandHandler::new(&conf(2, 1800));
    assert_eq!(handler.spawn(look("http://example.com/a")), Some(0));
    assert_eq!(handler.spawn(look("http://example.com/b")), Some(1));
    assert_eq!(handler.spawn(look("http://example.com/c")), Some(2));
    assert_eq!(handler.spawn(look("http://example.com/b")), Some(1));
    assert_eq!(handler.spawn(look("http://example.com/c")), Some(2));
    assert_eq!(handler.spawn(look("http://example.com/a")), Some(3));
}

#[test]
fn a_lookup_makes_an_entry_the_most_recently_used() {
    let mut handler = CommandHandler::new(&conf(2, 1800));
    assert_eq!(handler.spawn(look("http://example.com/a")), Some(0));
    assert_eq!(handler.spawn(look("http://example.com/b")), Some(1));
    assert_eq!(handler.spawn(look("http://example.com/a")), Some(0));
    assert_eq!(handler.spawn(look("http://example.com/c")), Some(2));
    assert_eq!(handler.spawn(look("http://example.com/a")), Some(0));
    assert_eq!(handler.spawn(look("http://example.com/b")), Some(3));
}

#[test]
fn handles_are_given_out_in_order() {
    let mut handler = CommandHandler::new(&conf(256, 1800));
    assert_eq!(handler.next_handle(), 0);
    handler.spawn(look("http://example.com/a"));
    handler.spawn(look("http://example.com/a"));
    assert_eq!(handler.next_handle(), 1);
    handler.spawn(look("http://example.com/b"));
    assert_eq!(handler.next_handle(), 2);
    handler.reconfigure(&conf(1, 1));
    assert_eq!(handler.next_handle(), 2);
}

#[test]
fn a_cache_without_room_holds_nothing() {
    let mut handler = CommandHandler::new(&conf(0, 1800));
    assert_eq!(handler.spawn(look("http://example.com/")), Some(0));
    assert_eq!(handler.spawn(look("http://example.com/")), Some(1));
    assert_eq!(drain(&mut handler), vec![0, 1]);
}

#[test]
fn a_cache_of_one_entry_holds_the_last_command() {
    let mut handler = CommandHandler::new(&conf(1, 1800));
    assert_eq!(handler.spawn(look("http://example.com/a")), Some(0));
    assert_eq!(handler.spawn(look("http://example.com/a")), Some(0));
    assert_eq!(handler.spawn(look("http://example.com/b")), Some(1));
    assert_eq!(handler.spawn(look("http://example.com/a")), Some(2));
}

#[test]
fn reconfiguration_empties_the_cache_and_keeps_the_queue() {
    let mut handler = CommandHandler::new(&conf(256, 1800));
    assert_eq!(handler.spawn(look("http://example.com/a")), Some(0));
    assert_eq!(handler.spawn(look("http://example.com/b")), Some(1));
    handler.reconfigure(&conf(16, 60));
    assert_eq!(handler.spawn(look("http://example.com/a")), Some(2));
    assert_eq!(handler.spawn(look("http://example.com/a")), Some(2));
    assert_eq!(drain(&mut handler), vec![0, 1, 2]);
}

#[test]
fn reconfiguration_changes_the_timeout_of_later_jobs_only() {
    let mut handler = CommandHandler::new(&CommandConfig::default());
    handler.spawn(look("http://example.com/a"));
    handler.reconfigure(&CommandConfig { max_runtime_secs: 3, ..CommandConfig::default() });
    handler.spawn(look("http://example.com/b"));
    let first = handler.next_job().unwrap();
    let second = handler.next_job().unwrap();
    assert_eq!(first.timeout_secs, 10);
    assert_eq!(second.timeout_secs, 3);
    assert_eq!(second.command, look("http://example.com/b"));
}

#[test]
fn a_full_queue_refuses_new_commands() {
    let mut handler = CommandHandler::new(&conf(256, 1800));
    let mut i = 0;
    while i < QUEUE_DEPTH {
        let handle = handler.spawn(BotCommand::YouTube(format!("{}", i)));
        assert_eq!(handle, Some(i as u64));
        i += 1;
    }
    assert_eq!(handler.spawn(BotCommand::YouTube("one more".to_string())), None);
    // A refusal uses no handle up, and leaves nothing in the cache.
    assert_eq!(handler.next_handle(), 64);
    assert_eq!(handler.spawn(BotCommand::YouTube("one more".to_string())), None);
    // A command that is cached is still answered.
    assert_eq!(handler.spawn(BotCommand::YouTube("0".to_string())), Some(0));
    assert_eq!(handler.spawn(BotCommand::YouTube("63".to_string())), Some(63));
    // With room in the queue the refused command is admitted afresh.
    assert_eq!(handler.next_job().map(|job| job.handle), Some(0));
    assert_eq!(handler.spawn(BotCommand::YouTube("one more".to_string())), Some(64));
    assert_eq!(handler.spawn(BotCommand::YouTube("one more".to_string())), Some(64));
    handler.job_done();
    assert_eq!(drain(&mut handler).len(), QUEUE_DEPTH);
}

#[test]
fn a_refused_command_evicts_nothing() {
    let mut handler = CommandHandler::new(&conf(QUEUE_DEPTH as u32, 1800));
    let mut i = 0;
    while i < QUEUE_DEPTH {
        handler.spawn(BotCommand::YouTube(format!("{}", i)));
        i += 1;
    }
    // The cache and the queue are full.
    assert_eq!(handler.spawn(BotCommand::YouTube("one more".to_string())), None);
    let mut i = 0;
    while i < QUEUE_DEPTH {
        assert_eq!(handler.spawn(BotCommand::YouTube(format!("{}", i))), Some(i as u64));
        i += 1;
    }
}

#[test]
fn an_answer_says_whether_its_handle_is_new() {
    let mut handler = CommandHandler::new(&conf(256, 1800));
    let first = handler.submit(look("http://example.com/a"));
    assert_eq!(first, Some(Lookup { handle: 0, is_new: true }));
    let again = handler.submit(look("http://example.com/a"));
    assert_eq!(again, Some(Lookup { handle: 0, is_new: false }));
    let other = handler.submit(look("http://example.com/b"));
    assert_eq!(other, Some(Lookup { handle: 1, is_new: true }));
    handler.reconfigure(&conf(256, 1800));
    let afresh = handler.submit(look("http://example.com/a"));
    assert_eq!(afresh, Some(Lookup { handle: 2, is_new: true }));
    assert_eq!(drain(&mut handler), vec![0, 1, 2]);
}

#[test]
fn no_more_jobs_run_than_the_width_allows() {
    let mut handler =
        CommandHandler::new(&CommandConfig { max_concurrency: 2, ..CommandConfig::default() });
    for name in ["a", "b", "c"] {
        handler.spawn(BotCommand::YouTube(name.to_string()));
    }
    assert_eq!(handler.next_job().map(|job| job.handle), Some(0));
    assert_eq!(handler.next_job().map(|job| job.handle), Some(1));
    assert!(handler.next_job().is_none());
    handler.job_done();
    assert_eq!(handler.next_job().map(|job| job.handle), Some(2));
    assert!(handler.next_job().is_none());
    handler.job_done();
    handler.job_done();
    handler.job_done();
    assert!(handler.next_job().is_none());
}

#[test]
fn a_new_width_holds_for_the_jobs_that_start_later() {
    let mut handler =
        CommandHandler::new(&CommandConfig { max_concurrency: 1, ..CommandConfig::default() });
    for name in ["a", "b", "c"] {
        handler.spawn(BotCommand::YouTube(name.to_string()));
    }
    assert!(handler.next_job().is_some());
    assert!(handler.next_job().is_none());
    handler.reconfigure(&CommandConfig { max_concurrency: 3, ..CommandConfig::default() });
    assert!(handler.next_job().is_some());
    assert!(handler.next_job().is_some());
    assert!(handler.next_job().is_none());
    handler.reconfigure(&CommandConfig { max_concurrency: 0, ..CommandConfig::default() });
    handler.spawn(BotCommand::YouTube("d".to_string()));
    handler.job_done();
    handler.job_done();
    handler.job_done();
    assert!(handler.next_job().is_none());
}

fn page() -> Info {
    Info::Url(UrlInfo {
        url: url("http://example.com/"),
        title: IrcString::from("Example Domain"),
        desc: None,
    })
}

#[test]
fn a_job_resolves_to_what_its_source_answered_or_to_a_timeout() {
    assert_eq!(settle(Outcome::TimedOut).unwrap_err(), Error::TimedOut);
    let failed = settle(Outcome::Finished(Err(Error::Status("404 Not Found".to_string()))));
    assert_eq!(failed.unwrap_err(), Error::Status("404 Not Found".to_string()));
    match settle(Outcome::Finished(Ok(page()))) {
        Ok(Info::Url(info)) => assert_eq!(info.title.as_str(), "Example Domain"),
        _ => panic!("the result changed"),
    }
}

#[test]
fn a_result_is_published_once() {
    let mut response = Response::new();
    assert!(response.get().is_none());
    assert!(response.resolve(settle(Outcome::TimedOut)));
    // The source answers after the time ran out: nothing changes.
    assert!(!response.resolve(settle(Outcome::Finished(Ok(page())))));
    match response.get() {
        Some(Err(e)) => assert_eq!(*e, Error::TimedOut),
        _ => panic!("the published result changed"),
    }
}

#[test]
fn commands_are_written_for_the_record() {
    assert_eq!(look("http://example.com").to_string(), "Url(http://example.com/)");
    assert_eq!(
        BotCommand::Omdb("Movie".to_string(), "the matrix".to_string()).to_string(),
        "Omdb(Movie, the matrix)"
    );
    assert_eq!(BotCommand::YouTube("a123456789Z".to_string()).to_string(), "YouTube(a123456789Z)");
    assert_eq!(BotCommand::Wolfram("1+1".to_string()).to_string(), "Wolfram(1+1)");
}

#[test]
fn cache_keys_tell_commands_apart() {
    assert_eq!(
        look("http://example.com").cache_key(),
        (0, "http://example.com/".to_string(), String::new())
    );
    assert_eq!(
        BotCommand::Omdb("Movie".to_string(), "x".to_string()).cache_key(),
        (1, "Movie".to_string(), "x".to_string())
    );
    assert_eq!(
        BotCommand::YouTube("x".to_string()).cache_key(),
        (2, "x".to_string(), String::new())
    );
    assert_eq!(
        BotCommand::Wolfram("x".to_string()).cache_key(),
        (3, "x".to_string(), String::new())
    );
}

fn configured() -> BotConfig {
    let mut config = BotConfig::default();
    config.twitter.bearer_token = Some("token".to_string());
    config.omdb.api_key = Some("key".to_string());
    config.youtube.api_key = Some("key".to_string());
    config.wolfram.app_id = Some("id".to_string());
    config
}

fn route(text: &str, config: &BotConfig) -> Fetch {
    handle_url(url(text), config).unwrap()
}

#[test]
fn addresses_of_the_social_network_lead_to_users_and_posts() {
    let config = configured();
    assert!(matches!(route("https://twitter.com/rustlang", &config), Fetch::Tweeter(name) if name == "rustlang"));
    assert!(matches!(route("https://twitter.com/rustlang/", &config), Fetch::Tweeter(name) if name == "rustlang"));
    assert!(matches!(route("https://twitter.com/", &config), Fetch::Tweeter(name) if name == ""));
    assert!(matches!(route("https://twitter.com/rustlang/status/1234", &config), Fetch::Tweet(1234)));
    assert!(matches!(route("https://twitter.com/rustlang/status/abc", &config), Fetch::Page(_)));
    assert!(matches!(route("https://twitter.com/rustlang/likes", &config), Fetch::Page(_)));
    assert!(matches!(route("https://twitter.com/a/status/1/photo", &config), Fetch::Page(_)));
    assert!(matches!(route("https://mobile.twitter.com/rustlang", &config), Fetch::Page(_)));
    assert!(matches!(route("https://twitter.com/rustlang", &BotConfig::default()), Fetch::Page(_)));
}

#[test]
fn addresses_of_the_movie_database_lead_to_titles() {
    let config = configured();
    assert!(matches!(route("https://www.imdb.com/title/tt0133093/", &config), Fetch::ImdbId(id) if id == "tt0133093"));
    assert!(matches!(route("https://www.imdb.com/title/tt0133093", &config), Fetch::ImdbId(id) if id == "tt0133093"));
    assert!(matches!(route("https://www.imdb.com/title", &config), Fetch::Page(_)));
    assert!(matches!(route("https://www.imdb.com/name/nm0000206", &config), Fetch::Page(_)));
    assert!(matches!(route("https://imdb.com/title/tt0133093", &config), Fetch::Page(_)));
    assert!(matches!(route("https://www.imdb.com/title/tt0133093", &BotConfig::default()), Fetch::Page(_)));
}

#[test]
fn addresses_of_the_encyclopedia_lead_to_summaries() {
    let config = BotConfig::default();
    match route("https://en.wikipedia.org/wiki/Rust_(programming_language)", &config) {
        Fetch::Wikipedia(summary) => assert_eq!(
            summary.as_str(),
            "https://en.wikipedia.org/api/rest_v1/page/summary/Rust_(programming_language)"
        ),
        other => panic!("no summary: {:?}", other),
    }
    match route("https://de.m.wikipedia.org/wiki/Rost", &config) {
        Fetch::Wikipedia(summary) => {
            assert_eq!(summary.as_str(), "https://de.wikipedia.org/api/rest_v1/page/summary/Rost")
        }
        other => panic!("no summary: {:?}", other),
    }
    assert!(matches!(route("https://en.wikipedia.org/w/index.php", &config), Fetch::Page(_)));
    assert!(matches!(route("https://en.wikipedia.org/wiki", &config), Fetch::Page(_)));
    assert!(matches!(route("https://wikipedia.org/wiki/Rust", &config), Fetch::Page(_)));
    assert!(matches!(route("https://example.com/wiki/Rust", &config), Fetch::Page(_)));
}

#[test]
fn any_other_address_is_a_page() {
    match route("http://example.com/a?b=c", &configured()) {
        Fetch::Page(page) => assert_eq!(page.as_str(), "http://example.com/a?b=c"),
        other => panic!("no page: {:?}", other),
    }
    assert!(matches!(route("mailto:someone@example.com", &configured()), Fetch::Page(_)));
}

#[test]
fn a_command_needs_its_source_configured() {
    let bare = BotConfig::default();
    let search = || BotCommand::Omdb("movie".to_string(), "the matrix".to_string());
    assert_eq!(plan(search(), &bare).unwrap_err(), Error::Unconfigured);
    assert_eq!(plan(BotCommand::YouTube("x".to_string()), &bare).unwrap_err(), Error::Unconfigured);
    assert_eq!(plan(BotCommand::Wolfram("x".to_string()), &bare).unwrap_err(), Error::Unconfigured);

    let config = configured();
    assert!(matches!(plan(search(), &config), Ok(Fetch::Omdb(Kind::Movie, query)) if query == "the matrix"));
    assert!(matches!(
        plan(BotCommand::Omdb("series".to_string(), "x".to_string()), &config),
        Ok(Fetch::Omdb(Kind::Series, _))
    ));
    assert_eq!(
        plan(BotCommand::Omdb("Movie".to_string(), "x".to_string()), &config).unwrap_err(),
        Error::UnknownType
    );
    assert!(matches!(plan(BotCommand::YouTube("x".to_string()), &config), Ok(Fetch::YouTube(id)) if id == "x"));
    assert!(matches!(plan(BotCommand::Wolfram("1+1".to_string()), &config), Ok(Fetch::Wolfram(q)) if q == "1+1"));
    assert!(matches!(plan(look("http://example.com"), &config), Ok(Fetch::Page(_))));
}

#[test]
fn errors_have_messages() {
    let cases = vec![
        (Error::TimedOut, "Timed out"),
        (Error::Unconfigured, "Unconfigured"),
        (Error::NotConfigured, "Not configured"),
        (Error::RateLimited, "Rate limited"),
        (Error::UnknownType, "Unknown type"),
        (Error::Status("404 Not Found".to_string()), "Status 404 Not Found"),
        (Error::RestrictedIp, "Restricted IP"),
        (Error::IgnoredMime("image/png".to_string()), "Ignoring mime type image/png"),
        (Error::NoTitle, "No title"),
        (Error::NoResponsePod, "No response pod"),
        (Error::NoItems, "No items in response"),
        (Error::ConfigTooLarge, "excessively large configuration"),
        (Error::Url(ParseError::RelativeUrlWithoutBase), "relative URL without a base"),
        (Error::Url(ParseError::Other), "invalid URL"),
        (Error::Other("connection reset".to_string()), "connection reset"),
    ];
    for (error, message) in cases {
        assert_eq!(error.message(), message);
    }
}
