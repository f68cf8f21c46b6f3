use annoirc::backoff::Backoff;
use annoirc::command::{BotCommand, CommandHandler, Info, Lookup};
use annoirc::config::{BotConfig, Network, NetworkConfig};
use annoirc::irc::{
    command_parts, commands_in, explicit_command, message_source, recognise, submit_all,
    submit_one, ChannelLimiter, Command, Connection, IrcTask, Message, Phase, Prefix, Quit,
    Reaction, CHANNEL_QUOTA,
};
use annoirc::irc_string::IrcString;
use annoirc::links::Url;
use annoirc::page::UrlInfo;
use annoirc::reply::reply;

fn network() -> NetworkConfig {
    NetworkConfig {
        server: "irc.example.net".to_string(),
        port: 6697,
        use_tls: true,
        nickname: "anno".to_string(),
        password: None,
        channels: vec!["#rust".to_string(), "#verus".to_string()],
        extra: vec![("username".to_string(), "anno".to_string())],
    }
}

fn ids(lookups: &[Lookup]) -> Vec<u64> {
    lookups.iter().map(|lookup| lookup.handle).collect()
}

fn config() -> BotConfig {
    let mut config = BotConfig::default();
    config.network.push(Network { name: "example".to_string(), config: network() });
    config
}

fn said(nick: &str, target: &str, content: &str) -> Message {
    Message {
        prefix: Some(Prefix::Nickname(nick.to_string())),
        command: Command::Privmsg(target.to_string(), content.to_string()),
    }
}

fn look(text: &str) -> BotCommand {
    BotCommand::Url(Url::parse(text).unwrap())
}

fn channels() -> Vec<String> {
    network().channels
}

#[test]
fn a_link_that_is_posted_twice_is_looked_up_once() {
    let config = config();
    assert!(config.url.max_per_message >= 2);
    let mut task = IrcTask::spawn("example".to_string());
    let mut connection = Connection::open(&config, "example").unwrap();
    let mut handler = CommandHandler::new(&config.command);
    let message = said("someone", "#rust", "check http://example.com and http://example.com");
    let reaction = task.on_message(&mut connection, &mut handler, &config, "anno", message);
    let handles = match reaction {
        Reaction::Lookups(handles, false) => handles,
        other => panic!("unexpected reaction: {:?}", other),
    };
    assert_eq!(handles, vec![Lookup { handle: 0, is_new: true }]);
    let job = handler.next_job().unwrap();
    assert_eq!(job.handle, 0);
    assert_eq!(job.command, look("http://example.com/"));
    assert!(handler.next_job().is_none());

    let fetched = Ok(Info::Url(UrlInfo {
        url: Url::parse("http://example.com/").unwrap(),
        title: IrcString::from("Example Domain"),
        desc: None,
    }));
    let lines = reply(&fetched, &config);
    assert_eq!(lines, vec!["[\u{3}03\u{2}\u{2}example.com\u{f}] \u{3}00\u{2}\u{2}Example Domain\u{f}"]);
}

#[test]
fn the_eleventh_lookup_of_a_minute_is_throttled() {
    let config = config();
    let mut task = IrcTask::spawn("example".to_string());
    let mut connection = Connection::open(&config, "example").unwrap();
    let mut handler = CommandHandler::new(&config.command);
    let mut dispatched = 0;
    let mut throttles = 0;
    let mut i = 0;
    while i < 11 {
        let message = said("someone", "#rust", &format!("see http://example.com/{}", i));
        match task.on_message(&mut connection, &mut handler, &config, "anno", message) {
            Reaction::Lookups(handles, throttled) => {
                dispatched += handles.len();
                if throttled {
                    throttles += 1;
                    assert_eq!(i, 10);
                    assert!(handles.is_empty());
                }
            }
            other => panic!("unexpected reaction: {:?}", other),
        }
        i += 1;
    }
    assert_eq!(dispatched, 10);
    assert_eq!(throttles, 1);
    // Another channel of the same network has a bucket of its own.
    let message = said("someone", "#verus", "see http://example.com/other");
    match task.on_message(&mut connection, &mut handler, &config, "anno", message) {
        Reaction::Lookups(handles, false) => assert_eq!(handles.len(), 1),
        other => panic!("unexpected reaction: {:?}", other),
    }
}

#[test]
fn a_channel_is_granted_its_quota_and_no_more() {
    let mut limiter = ChannelLimiter::new();
    let mut granted = 0;
    let mut i = 0;
    while i < CHANNEL_QUOTA {
        if limiter.check("#rust") {
            granted += 1;
        }
        i += 1;
    }
    assert_eq!(granted, CHANNEL_QUOTA);
    assert!(!limiter.check("#rust"));
    assert!(limiter.check("#verus"));
}

#[test]
fn a_throttled_line_loses_the_rest_of_its_links() {
    let mut config = config();
    config.url.max_per_message = 20;
    let mut limiter = ChannelLimiter::new();
    let mut handler = CommandHandler::new(&config.command);
    let mut line = String::new();
    let mut i = 0;
    while i < 12 {
        line.push_str(&format!("http://example.com/{} ", i));
        i += 1;
    }
    let commands = commands_in("someone", "anno", "#rust", &line, &channels(), &config);
    assert_eq!(commands.len(), 12);
    let (handles, throttled) = submit_all(&mut handler, &mut limiter, "#rust", commands);
    assert_eq!(ids(&handles), vec![0, 1, 2, 3, 4, 5, 6, 7, 8, 9]);
    assert!(handles.iter().all(|lookup| lookup.is_new));
    assert!(throttled);
    let (handles, throttled) = submit_all(&mut handler, &mut limiter, "#rust", Vec::new());
    assert!(handles.is_empty());
    assert!(!throttled);
}

#[test]
fn no_more_links_are_taken_from_a_line_than_allowed() {
    let config = config();
    assert_eq!(config.url.max_per_message, 3);
    let line = "http://a.example.com http://b.example.com http://a.example.com http://c.example.com";
    let commands = commands_in("someone", "anno", "#rust", line, &channels(), &config);
    assert_eq!(commands, vec![look("http://a.example.com/"), look("http://b.example.com/")]);

    let line = "example.com example.org example.net example.info";
    let commands = commands_in("someone", "anno", "#rust", line, &channels(), &config);
    assert_eq!(
        commands,
        vec![look("http://example.com/"), look("http://example.org/"), look("http://example.net/")]
    );
}

#[test]
fn ignored_links_are_passed_over_before_they_count() {
    let mut config = config();
    config.url.ignore_url_regex = vec!["^https?://ignored\\.".to_string()];
    config.url.max_per_message = 2;
    let line = "http://ignored.example.com http://a.example.com https://ignored.example.com/x http://b.example.com";
    let commands = commands_in("someone", "anno", "#rust", line, &channels(), &config);
    assert_eq!(commands, vec![look("http://a.example.com/"), look("http://b.example.com/")]);
}

#[test]
fn links_without_a_scheme_are_taken_unless_one_is_required() {
    let mut config = config();
    let commands = commands_in("someone", "anno", "#rust", "see example.com", &channels(), &config);
    assert_eq!(commands, vec![look("http://example.com/")]);
    config.url.scheme_required = true;
    let commands = commands_in("someone", "anno", "#rust", "see example.com", &channels(), &config);
    assert!(commands.is_empty());
}

#[test]
fn links_to_the_social_network_are_moved_to_the_mirror() {
    let config = config();
    let line = "https://twitter.com/rustlang/status/1";
    let commands = commands_in("someone", "anno", "#rust", line, &channels(), &config);
    assert_eq!(commands, vec![look("https://uk.unofficialbird.com/rustlang/status/1")]);
}

#[test]
fn some_lines_are_not_answered() {
    let config = config();
    let line = "see http://example.com";
    assert_eq!(commands_in("someone", "anno", "#rust", line, &channels(), &config).len(), 1);
    assert!(commands_in("anno", "anno", "#rust", line, &channels(), &config).is_empty());
    assert!(commands_in("someone", "anno", "#other", line, &channels(), &config).is_empty());
    assert!(commands_in("someone", "anno", "anno", line, &channels(), &config).is_empty());
    let ctcp = "\u{1}ACTION sees http://example.com\u{1}";
    assert!(commands_in("someone", "anno", "#rust", ctcp, &channels(), &config).is_empty());
    let coloured = "see \u{3}04http://example.com";
    assert!(commands_in("someone", "anno", "#rust", coloured, &channels(), &config).is_empty());
    assert!(commands_in("someone", "anno", "#rust", "", &channels(), &config).is_empty());
}

fn omdb(kind: &str, search: &str) -> Option<BotCommand> {
    Some(BotCommand::Omdb(kind.to_string(), search.to_string()))
}

#[test]
fn explicit_commands_are_recognised() {
    let mut config = config();
    config.omdb.api_key = Some("key".to_string());
    config.wolfram.app_id = Some("id".to_string());
    assert_eq!(explicit_command(".imdb The Matrix", &config), omdb("Any", "The Matrix"));
    assert_eq!(explicit_command(".omdb The Matrix", &config), omdb("Any", "The Matrix"));
    assert_eq!(explicit_command(".FILM  the \t matrix ", &config), omdb("Movie", "the matrix"));
    assert_eq!(explicit_command(".movie x", &config), omdb("Movie", "x"));
    assert_eq!(explicit_command(".show x", &config), omdb("Series", "x"));
    assert_eq!(explicit_command(".series x", &config), omdb("Series", "x"));
    assert_eq!(explicit_command(".tv x", &config), omdb("Series", "x"));
    assert_eq!(explicit_command(".ep x", &config), omdb("Episode", "x"));
    assert_eq!(explicit_command(".episode x", &config), omdb("Episode", "x"));
    assert_eq!(explicit_command(".game x", &config), omdb("Game", "x"));
    assert_eq!(explicit_command(". game x", &config), omdb("Game", "x"));
    assert_eq!(
        explicit_command(".wolfram 1 + 1", &config),
        Some(BotCommand::Wolfram("1 + 1".to_string()))
    );
    assert_eq!(explicit_command(".Calc pi", &config), Some(BotCommand::Wolfram("pi".to_string())));
    assert_eq!(explicit_command(".imdb", &config), None);
    assert_eq!(explicit_command(".imdb   ", &config), None);
    assert_eq!(explicit_command(".", &config), None);
    assert_eq!(explicit_command("", &config), None);
    assert_eq!(explicit_command(".unknown x", &config), None);
    assert_eq!(explicit_command("imdb x", &config), None);
    assert_eq!(explicit_command(" .imdb x", &config), None);
    assert_eq!(explicit_command(".imdb\u{a0}x", &config), None);

    config.command.prefix = "!!".to_string();
    assert_eq!(explicit_command("!!imdb x", &config), omdb("Any", "x"));
    assert_eq!(explicit_command(".imdb x", &config), None);
    config.command.prefix = String::new();
    assert_eq!(explicit_command("imdb x", &config), omdb("Any", "x"));
}

#[test]
fn an_explicit_command_needs_its_source_configured() {
    let mut config = config();
    assert_eq!(explicit_command(".imdb x", &config), None);
    assert_eq!(explicit_command(".calc x", &config), None);
    config.omdb.api_key = Some("key".to_string());
    assert_eq!(explicit_command(".imdb x", &config), omdb("Any", "x"));
    assert_eq!(explicit_command(".calc x", &config), None);
    config.omdb.api_key = None;
    config.wolfram.app_id = Some("id".to_string());
    assert_eq!(explicit_command(".imdb x", &config), None);
    assert_eq!(explicit_command(".calc x", &config), Some(BotCommand::Wolfram("x".to_string())));
}

#[test]
fn an_explicit_command_stands_before_the_links_of_its_line() {
    let mut config = config();
    config.omdb.api_key = Some("key".to_string());
    let line = ".imdb http://example.com";
    let commands = commands_in("someone", "anno", "#rust", line, &channels(), &config);
    assert_eq!(commands, vec![BotCommand::Omdb("Any".to_string(), "http://example.com".to_string())]);
    let line = ".unknown http://example.com";
    let commands = commands_in("someone", "anno", "#rust", line, &channels(), &config);
    assert_eq!(commands, vec![look("http://example.com/")]);
}

#[test]
fn the_source_of_a_message_is_its_sender() {
    let mut message = said("someone", "#rust", "hello");
    assert_eq!(message_source(&message), "someone");
    message.prefix = Some(Prefix::ServerName("irc.example.net".to_string()));
    assert_eq!(message_source(&message), "irc.example.net");
    message.prefix = None;
    assert_eq!(message_source(&message), "unknown");
}

#[test]
fn lines_of_servers_are_not_answered() {
    let config = config();
    let mut task = IrcTask::spawn("example".to_string());
    let mut connection = Connection::open(&config, "example").unwrap();
    let mut handler = CommandHandler::new(&config.command);
    let mut message = said("someone", "#rust", "see http://example.com");
    message.prefix = Some(Prefix::ServerName("irc.example.net".to_string()));
    let reaction = task.on_message(&mut connection, &mut handler, &config, "anno", message);
    assert!(matches!(reaction, Reaction::Nothing));
    let mut message = said("someone", "#rust", "see http://example.com");
    message.prefix = None;
    let reaction = task.on_message(&mut connection, &mut handler, &config, "anno", message);
    assert!(matches!(reaction, Reaction::Nothing));
    assert!(handler.next_job().is_none());
}

fn server_says(command: Command) -> Message {
    Message { prefix: Some(Prefix::ServerName("irc.example.net".to_string())), command }
}

#[test]
fn an_invitation_to_a_configured_channel_is_followed() {
    let config = config();
    let mut task = IrcTask::spawn("example".to_string());
    let mut connection = Connection::open(&config, "example").unwrap();
    let mut handler = CommandHandler::new(&config.command);
    let invite = |target: &str, channel: &str| Message {
        prefix: Some(Prefix::Nickname("someone".to_string())),
        command: Command::Invite(target.to_string(), channel.to_string()),
    };
    let reaction = task.on_message(&mut connection, &mut handler, &config, "anno", invite("anno", "#rust"));
    assert!(matches!(reaction, Reaction::Join(channel) if channel == "#rust"));
    let reaction = task.on_message(&mut connection, &mut handler, &config, "anno", invite("anno", "#other"));
    assert!(matches!(reaction, Reaction::Nothing));
    let reaction = task.on_message(&mut connection, &mut handler, &config, "anno", invite("other", "#rust"));
    assert!(matches!(reaction, Reaction::Nothing));
}

#[test]
fn other_messages_are_passed_over() {
    let config = config();
    let mut task = IrcTask::spawn("example".to_string());
    let mut connection = Connection::open(&config, "example").unwrap();
    let mut handler = CommandHandler::new(&config.command);
    for command in [
        Command::Error("closing link".to_string()),
        Command::Join("#rust".to_string()),
        Command::Kick("#rust".to_string(), "anno".to_string(), Some("bye".to_string())),
        Command::Other,
    ] {
        let reaction = task.on_message(&mut connection, &mut handler, &config, "anno", server_says(command));
        assert!(matches!(reaction, Reaction::Nothing));
    }
    assert_eq!(task.current(), Phase::Connecting);
}

#[test]
fn a_session_backs_off_until_the_handshake_succeeds() {
    let config = config();
    let mut task = IrcTask::spawn("example".to_string());
    assert_eq!(task.network_name(), "example");
    assert_eq!(task.current(), Phase::Connecting);
    // The connection cannot be made.
    assert_eq!(task.disconnected(false), Phase::Backoff(10));
    task.slept();
    assert_eq!(task.current(), Phase::Connecting);
    assert_eq!(task.disconnected(false), Phase::Backoff(10));
    task.slept();
    // This time the handshake is completed.
    task.connected();
    assert_eq!(task.current(), Phase::Active);
    let mut connection = Connection::open(&config, "example").unwrap();
    let mut handler = CommandHandler::new(&config.command);
    let reaction =
        task.on_message(&mut connection, &mut handler, &config, "anno", server_says(Command::EndOfMotd));
    assert!(matches!(reaction, Reaction::Connected));
    assert_eq!(task.current(), Phase::Active);
    // The next connection is made at once.
    assert_eq!(task.disconnected(false), Phase::Connecting);
    assert_eq!(task.disconnected(false), Phase::Backoff(10));
}

#[test]
fn a_session_ends_when_it_is_told_to_exit() {
    let mut task = IrcTask::spawn("example".to_string());
    task.connected();
    task.draining();
    assert_eq!(task.current(), Phase::Draining);
    assert_eq!(task.disconnected(true), Phase::Terminated);
    assert_eq!(task.disconnected(false), Phase::Terminated);
    task.slept();
    task.connected();
    task.config_closed();
    assert_eq!(task.current(), Phase::Terminated);
}

#[test]
fn a_session_that_waits_ends_when_the_configuration_closes() {
    let mut task = IrcTask::spawn("example".to_string());
    task.config_closed();
    assert_eq!(task.current(), Phase::Connecting);
    task.connected();
    task.config_closed();
    assert_eq!(task.current(), Phase::Active);
    task.slept();
    assert_eq!(task.current(), Phase::Active);
    task.draining();
    task.connected();
    assert_eq!(task.current(), Phase::Draining);
    let mut task = IrcTask::spawn("example".to_string());
    task.draining();
    assert_eq!(task.current(), Phase::Connecting);
    assert_eq!(task.disconnected(false), Phase::Backoff(10));
    task.config_closed();
    assert_eq!(task.current(), Phase::Terminated);
}

#[test]
fn a_connection_is_opened_for_a_configured_network_only() {
    let config = config();
    assert!(Connection::open(&config, "example").is_some());
    assert!(Connection::open(&config, "other").is_none());
    assert!(Connection::open(&BotConfig::default(), "example").is_none());
    assert!(!Connection::open(&config, "example").unwrap().shutdown());
}

#[test]
fn a_changed_network_is_left_to_come_back() {
    let config = config();
    let mut connection = Connection::open(&config, "example").unwrap();
    assert_eq!(connection.on_config("example", Some(&config)), None);
    let mut changed = config.clone();
    changed.network[0].config.port = 6667;
    assert_eq!(connection.on_config("example", Some(&changed)), Some(Quit::Reconnecting));
    assert!(!connection.shutdown());
    // The connection still differs from what is configured.
    assert_eq!(connection.on_config("example", Some(&changed)), Some(Quit::Reconnecting));
    let mut changed = config.clone();
    changed.network[0].config.channels.push("#more".to_string());
    assert_eq!(connection.on_config("example", Some(&changed)), Some(Quit::Reconnecting));
    let mut changed = config.clone();
    changed.network[0].config.password = Some("secret".to_string());
    assert_eq!(connection.on_config("example", Some(&changed)), Some(Quit::Reconnecting));
    let mut changed = config.clone();
    changed.network[0].config.extra[0].1 = "other".to_string();
    assert_eq!(connection.on_config("example", Some(&changed)), Some(Quit::Reconnecting));
    let mut changed = config.clone();
    changed.network[0].config.extra.clear();
    assert_eq!(connection.on_config("example", Some(&changed)), Some(Quit::Reconnecting));
    let mut changed = config.clone();
    changed.command.prefix = "!".to_string();
    changed.network.push(Network { name: "other".to_string(), config: network() });
    assert_eq!(connection.on_config("example", Some(&changed)), None);
    assert!(!connection.shutdown());
}

#[test]
fn a_removed_network_is_left_for_good() {
    let config = config();
    let mut connection = Connection::open(&config, "example").unwrap();
    assert_eq!(connection.on_config("example", Some(&BotConfig::default())), Some(Quit::Disconnecting));
    assert!(connection.shutdown());
    assert_eq!(connection.on_config("example", Some(&BotConfig::default())), None);
    assert_eq!(connection.on_config("example", Some(&config)), None);
    assert_eq!(connection.on_config("example", None), None);
    assert!(connection.shutdown());
}

#[test]
fn a_closed_configuration_ends_the_connection() {
    let config = config();
    let mut connection = Connection::open(&config, "example").unwrap();
    assert_eq!(connection.on_config("example", None), Some(Quit::Disconnecting));
    assert!(connection.shutdown());
    assert_eq!(Quit::Disconnecting.reason(), "Disconnecting");
    assert_eq!(Quit::Reconnecting.reason(), "Reconnecting");
}

#[test]
fn a_fresh_backoff_is_not_armed_by_a_session_that_exits() {
    let mut backoff = Backoff::new(1, 2);
    assert_eq!(backoff.next(), None);
    assert_eq!(backoff.next(), Some(1));
}

#[test]
fn a_line_is_split_into_its_command_word_and_its_arguments() {
    let parts = |word: &str, args: &str| Some((word.to_string(), args.to_string()));
    assert_eq!(command_parts(".Imdb  The \t Matrix ", "."), parts("Imdb", "The Matrix"));
    assert_eq!(command_parts(".imdb", "."), parts("imdb", ""));
    assert_eq!(command_parts(". imdb x", "."), parts("imdb", "x"));
    assert_eq!(command_parts("!!imdb x", "!!"), parts("imdb", "x"));
    assert_eq!(command_parts("imdb x", ""), parts("imdb", "x"));
    assert_eq!(command_parts("é–imdb x", "é–"), parts("imdb", "x"));
    assert_eq!(command_parts(".", "."), None);
    assert_eq!(command_parts(". \n", "."), None);
    assert_eq!(command_parts("imdb x", "."), None);
    assert_eq!(command_parts("", "."), None);
}

#[test]
fn a_command_word_and_its_arguments_are_read_as_a_command() {
    let args = || "the matrix".to_string();
    assert_eq!(recognise("movie", args(), true, true), omdb("Movie", "the matrix"));
    assert_eq!(recognise("movie", args(), true, false), omdb("Movie", "the matrix"));
    assert_eq!(recognise("movie", args(), false, true), None);
    assert_eq!(recognise("Movie", args(), true, true), None);
    assert_eq!(recognise("calc", args(), true, true), Some(BotCommand::Wolfram(args())));
    assert_eq!(recognise("calc", args(), true, false), None);
    assert_eq!(recognise("", args(), true, true), None);
    assert_eq!(recognise("movie", String::new(), true, true), None);
    assert_eq!(recognise("calc", String::new(), true, true), None);
}

#[test]
fn a_command_that_the_limiter_refused_is_not_submitted() {
    let mut handler = CommandHandler::new(&config().command);
    assert_eq!(submit_one(&mut handler, false, look("http://example.com/")), None);
    assert!(handler.next_job().is_none());
    assert_eq!(
        submit_one(&mut handler, true, look("http://example.com/")),
        Some(Some(Lookup { handle: 0, is_new: true }))
    );
    assert_eq!(
        submit_one(&mut handler, true, look("http://example.com/")),
        Some(Some(Lookup { handle: 0, is_new: false }))
    );
    assert_eq!(submit_one(&mut handler, false, look("http://example.com/")), None);
    assert_eq!(handler.next_job().map(|job| job.handle), Some(0));
    assert!(handler.next_job().is_none());
}

#[test]
fn the_first_command_of_a_channel_is_granted() {
    let mut limiter = ChannelLimiter::new();
    let mut handler = CommandHandler::new(&config().command);
    for channel in ["#a", "#b", "#c"] {
        assert!(limiter.check(channel));
        let (handles, throttled) =
            submit_all(&mut handler, &mut limiter, channel, vec![look("http://example.com/")]);
        assert_eq!(ids(&handles), vec![0]);
        assert_eq!(handles[0].is_new, channel == "#a");
        assert!(!throttled);
    }
    // A line without commands asks the limiter nothing.
    let mut fresh = ChannelLimiter::new();
    let mut i = 0;
    while i < 20 {
        let (handles, throttled) = submit_all(&mut handler, &mut fresh, "#rust", Vec::new());
        assert!(handles.is_empty());
        assert!(!throttled);
        i += 1;
    }
    let mut granted = 0;
    while fresh.check("#rust") {
        granted += 1;
    }
    assert_eq!(granted, CHANNEL_QUOTA);
}

#[test]
fn a_line_that_repeats_a_command_gets_one_new_handle() {
    let mut limiter = ChannelLimiter::new();
    let mut handler = CommandHandler::new(&config().command);
    let commands = vec![look("http://example.com/"), look("http://example.com/")];
    let (lookups, throttled) = submit_all(&mut handler, &mut limiter, "#rust", commands);
    assert_eq!(
        lookups,
        vec![Lookup { handle: 0, is_new: true }, Lookup { handle: 0, is_new: false }]
    );
    assert!(!throttled);
}
