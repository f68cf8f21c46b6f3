//! The configuration that the library reads, with its defaults.

use crate::error::Error;
use crate::links::{regex_set_match, same_text, valid_patterns};
use vstd::prelude::*;
use vstd::string::StringExecFns;

verus! {

/// The largest configuration file that is read, in bytes, and one byte more:
/// a file from which this many bytes could be read is refused.
pub const CONFIG_LIMIT: usize = 131072;

/// Access to the social network.
#[derive(Debug, Clone)]
pub struct TwitterConfig {
    pub bearer_token: Option<String>,
}

/// How web pages are fetched and which are looked at.
#[derive(Debug, Clone)]
pub struct UrlConfig {
    /// The number of addresses that are taken from one message at most.
    pub max_per_message: u8,
    /// The kilobytes of a page that are read at most.
    pub max_kb: u16,
    /// The number of chunks of a page that are read at most.
    pub max_chunks: u16,
    /// The seconds that a request may take.
    pub timeout_secs: u8,
    /// Whether pages from addresses that are not globally routable are
    /// refused.
    pub globally_routable_only: bool,
    /// Whether an address without a scheme is no address.
    pub scheme_required: bool,
    /// Whether the description of a page is sent after its title.
    pub include_description: bool,
    pub user_agent: String,
    pub accept_language: String,
    /// Patterns of addresses that are passed over.
    pub ignore_url_regex: Vec<String>,
}

/// Access to the movie database.
#[derive(Debug, Clone)]
pub struct OmdbConfig {
    pub api_key: Option<String>,
}

/// Access to the video platform.
#[derive(Debug, Clone)]
pub struct YouTubeConfig {
    pub api_key: Option<String>,
    pub lang: Option<String>,
}

/// Access to the computational engine.
#[derive(Debug, Clone)]
pub struct WolframConfig {
    pub app_id: Option<String>,
}

/// How commands are executed and cached.
#[derive(Debug, Clone)]
pub struct CommandConfig {
    /// The number of commands that may run at a time.
    pub max_concurrency: u8,
    /// The seconds after which a command is given up.
    pub max_runtime_secs: u8,
    /// The seconds that a result stays cached.
    pub cache_time_secs: u32,
    /// The number of results that the cache holds at most.
    pub cache_entries: u32,
    /// What a line starts with that holds an explicit command.
    pub prefix: String,
}

/// The templates of replies.
#[derive(Debug, Clone)]
pub struct TemplateConfig {
    pub title: String,
    pub tweet: String,
}

/// How one chat network is reached, and where the agent listens there.
#[derive(Debug, Clone)]
pub struct NetworkConfig {
    pub server: String,
    pub port: u16,
    pub use_tls: bool,
    pub nickname: String,
    pub password: Option<String>,
    pub channels: Vec<String>,
    /// Every further setting of the transport, each as a pair of its name
    /// and its value. A change in any of them is a change of the network.
    pub extra: Vec<(String, String)>,
}

/// What a configuration says of one chat network, or of all of them where
/// they say nothing themselves: any part may be left out.
#[derive(Debug, Clone)]
pub struct NetworkSettings {
    pub server: Option<String>,
    pub port: Option<u16>,
    pub use_tls: Option<bool>,
    pub nickname: Option<String>,
    pub password: Option<String>,
    pub channels: Option<Vec<String>>,
    /// The further settings of the transport that are given, each as a pair
    /// of its name and its value.
    pub extra: Vec<(String, String)>,
}

/// The port of chat networks that encrypt.
pub const TLS_PORT: u16 = 6697;

/// The port of chat networks that do not encrypt.
pub const PLAIN_PORT: u16 = 6667;

/// The nick of the agent, unless another is configured.
pub const NICKNAME: &'static str = "annoirc";

/// A chat network under its name.
#[derive(Debug, Clone)]
pub struct Network {
    pub name: String,
    pub config: NetworkConfig,
}

/// The whole configuration.
#[derive(Debug, Clone)]
pub struct BotConfig {
    pub command: CommandConfig,
    pub template: TemplateConfig,
    pub url: UrlConfig,
    pub twitter: TwitterConfig,
    pub omdb: OmdbConfig,
    pub youtube: YouTubeConfig,
    pub wolfram: WolframConfig,
    pub network: Vec<Network>,
}

/// The text that names the agent to web servers, unless another is
/// configured.
pub const USER_AGENT: &'static str =
    "Mozilla/5.0 (FreeBSD 14.0; FreeBSD; x64; rv:81) Gecko/20100101 annoirc/81";

/// The languages that are asked of web servers, unless others are
/// configured.
pub const ACCEPT_LANGUAGE: &'static str = "en,*;q=0.5";

/// The template of the line for a page, unless another is configured.
pub const TITLE_TEMPLATE: &'static str = "[{{ host }}] {{ title }}";

/// The template of the line for a post, unless another is configured.
pub const TWEET_TEMPLATE: &'static str =
    "[Twitter] {{ user.name }}{% if user.verified %}✓{% endif %} (@{{ user.screen_name }}) {{ tweet.text }} | {% if tweet.favorite_count > 0 %}❤️{{ tweet.favorite_count }} {% endif %}{{ tweet.created_at | date(\"%F %H:%M\") }}";

/// The defaults of commands: eight at a time, ten seconds each, and 256
/// results cached for half an hour; commands start with a dot.
pub open spec fn default_command(c: CommandConfig) -> bool {
    &&& c.max_concurrency == 8
    &&& c.max_runtime_secs == 10
    &&& c.cache_time_secs == 1800
    &&& c.cache_entries == 256
    &&& c.prefix@ == "."@
}

/// The defaults of pages: three addresses of a message, ten seconds, and
/// 256 kilobytes in 256 chunks of each page; only globally routable
/// addresses; addresses without a scheme count; descriptions are sent; no
/// address is passed over.
pub open spec fn default_url(c: UrlConfig) -> bool {
    &&& c.max_per_message == 3
    &&& c.timeout_secs == 10
    &&& c.max_kb == 256
    &&& c.max_chunks == 256
    &&& c.globally_routable_only
    &&& !c.scheme_required
    &&& c.include_description
    &&& c.user_agent@ == USER_AGENT@
    &&& c.accept_language@ == ACCEPT_LANGUAGE@
    &&& c.ignore_url_regex@.len() == 0
}

/// The default templates.
pub open spec fn default_template(c: TemplateConfig) -> bool {
    &&& c.title@ == TITLE_TEMPLATE@
    &&& c.tweet@ == TWEET_TEMPLATE@
}

/// The default configuration: the defaults of every part, access to no
/// source, and no network.
pub open spec fn default_config(c: BotConfig) -> bool {
    &&& default_command(c.command)
    &&& default_template(c.template)
    &&& default_url(c.url)
    &&& c.twitter.bearer_token is None
    &&& c.omdb.api_key is None
    &&& c.youtube.api_key is None
    &&& c.youtube.lang is None
    &&& c.wolfram.app_id is None
    &&& c.network@.len() == 0
}

impl Default for TwitterConfig {
    fn default() -> (c: TwitterConfig)
        ensures
            c.bearer_token is None,
    {
        TwitterConfig { bearer_token: None }
    }
}

impl Default for OmdbConfig {
    fn default() -> (c: OmdbConfig)
        ensures
            c.api_key is None,
    {
        OmdbConfig { api_key: None }
    }
}

impl Default for YouTubeConfig {
    fn default() -> (c: YouTubeConfig)
        ensures
            c.api_key is None,
            c.lang is None,
    {
        YouTubeConfig { api_key: None, lang: None }
    }
}

impl Default for WolframConfig {
    fn default() -> (c: WolframConfig)
        ensures
            c.app_id is None,
    {
        WolframConfig { app_id: None }
    }
}

impl Default for UrlConfig {
    fn default() -> (c: UrlConfig)
        ensures
            default_url(c),
    {
        UrlConfig {
            max_per_message: 3,
            timeout_secs: 10,
            max_kb: 256,
            max_chunks: 256,
            globally_routable_only: true,
            scheme_required: false,
            include_description: true,
            user_agent: String::from_str(USER_AGENT),
            accept_language: String::from_str(ACCEPT_LANGUAGE),
            ignore_url_regex: Vec::new(),
        }
    }
}

impl Default for CommandConfig {
    fn default() -> (c: CommandConfig)
        ensures
            default_command(c),
    {
        CommandConfig {
            max_concurrency: 8,
            max_runtime_secs: 10,
            cache_time_secs: 1800,
            cache_entries: 256,
            prefix: String::from_str("."),
        }
    }
}

impl Default for TemplateConfig {
    fn default() -> (c: TemplateConfig)
        ensures
            default_template(c),
    {
        TemplateConfig {
            title: String::from_str(TITLE_TEMPLATE),
            tweet: String::from_str(TWEET_TEMPLATE),
        }
    }
}

impl Default for BotConfig {
    fn default() -> (c: BotConfig)
        ensures
            default_config(c),
    {
        BotConfig {
            command: CommandConfig::default(),
            template: TemplateConfig::default(),
            url: UrlConfig::default(),
            twitter: TwitterConfig::default(),
            omdb: OmdbConfig::default(),
            youtube: YouTubeConfig::default(),
            wolfram: WolframConfig::default(),
            network: Vec::new(),
        }
    }
}

/// How a chat network is reached, as contracts see it.
pub struct NetworkView {
    pub server: Seq<char>,
    pub port: u16,
    pub use_tls: bool,
    pub nickname: Seq<char>,
    pub password: Option<Seq<char>>,
    pub channels: Seq<Seq<char>>,
    pub extra: Seq<(Seq<char>, Seq<char>)>,
}

impl View for NetworkConfig {
    type V = NetworkView;

    open spec fn view(&self) -> NetworkView {
        NetworkView {
            server: self.server@,
            port: self.port,
            use_tls: self.use_tls,
            nickname: self.nickname@,
            password: self.password.deep_view(),
            channels: self.channels.deep_view(),
            extra: self.extra.deep_view(),
        }
    }
}

/// Whether a text is in a list.
pub fn contains_text(list: &Vec<String>, text: &str) -> (r: bool)
    ensures
        r == list.deep_view().contains(text@),
{
    let mut i: usize = 0;
    while i < list.len()
        invariant
            i <= list.len(),
            forall|j: int| 0 <= j < i ==> list.deep_view()[j] != text@,
        decreases list.len() - i,
    {
        if same_text(list[i].as_str(), text) {
            assert(list.deep_view()[i as int] == text@);
            return true;
        }
        i = i + 1;
    }
    false
}

/// Whether two lists hold the same texts in the same order.
fn same_texts(a: &Vec<String>, b: &Vec<String>) -> (r: bool)
    ensures
        r == (a.deep_view() == b.deep_view()),
{
    if a.len() != b.len() {
        assert(a.deep_view().len() != b.deep_view().len());
        return false;
    }
    let mut i: usize = 0;
    while i < a.len()
        invariant
            i <= a.len(),
            a.len() == b.len(),
            forall|j: int| 0 <= j < i ==> a.deep_view()[j] == b.deep_view()[j],
        decreases a.len() - i,
    {
        if !same_text(a[i].as_str(), b[i].as_str()) {
            assert(a.deep_view()[i as int] != b.deep_view()[i as int]);
            return false;
        }
        i = i + 1;
    }
    assert(a.deep_view() =~= b.deep_view());
    true
}

/// A copy of a list of texts.
fn copy_texts(list: &Vec<String>) -> (r: Vec<String>)
    ensures
        r.deep_view() == list.deep_view(),
{
    let mut r: Vec<String> = Vec::new();
    let mut i: usize = 0;
    while i < list.len()
        invariant
            i <= list.len(),
            r.len() == i,
            forall|j: int| 0 <= j < i ==> r.deep_view()[j] == list.deep_view()[j],
        decreases list.len() - i,
    {
        r.push(list[i].clone());
        i = i + 1;
    }
    assert(r.deep_view() =~= list.deep_view());
    r
}

/// The first of two values that is there.
pub open spec fn either<A>(first: Option<A>, second: Option<A>) -> Option<A> {
    match first {
        Some(value) => Some(value),
        None => second,
    }
}

/// Whether one of the settings has the name.
pub open spec fn is_set(settings: Seq<(Seq<char>, Seq<char>)>, name: Seq<char>) -> bool {
    exists|i: int| 0 <= i < settings.len() && (#[trigger] settings[i]).0 == name
}

/// The settings of the defaults that a network leaves to them: those whose
/// name the network does not set itself, in their order.
pub open spec fn left_to_defaults(
    defaults: Seq<(Seq<char>, Seq<char>)>,
    own: Seq<(Seq<char>, Seq<char>)>,
) -> Seq<(Seq<char>, Seq<char>)>
    decreases defaults.len(),
{
    if defaults.len() == 0 {
        Seq::empty()
    } else {
        let before = left_to_defaults(defaults.drop_last(), own);
        if is_set(own, defaults.last().0) {
            before
        } else {
            before.push(defaults.last())
        }
    }
}

/// Whether one of the settings has the name.
fn has_setting(settings: &Vec<(String, String)>, name: &str) -> (r: bool)
    ensures
        r == is_set(settings.deep_view(), name@),
{
    let mut i: usize = 0;
    while i < settings.len()
        invariant
            i <= settings.len(),
            forall|j: int| 0 <= j < i ==> (#[trigger] settings.deep_view()[j]).0 != name@,
        decreases settings.len() - i,
    {
        if same_text(settings[i].0.as_str(), name) {
            assert(settings.deep_view()[i as int].0 == name@);
            return true;
        }
        i = i + 1;
    }
    false
}

/// Whether two lists hold the same settings in the same order.
fn same_settings(a: &Vec<(String, String)>, b: &Vec<(String, String)>) -> (r: bool)
    ensures
        r == (a.deep_view() == b.deep_view()),
{
    if a.len() != b.len() {
        assert(a.deep_view().len() != b.deep_view().len());
        return false;
    }
    let mut i: usize = 0;
    while i < a.len()
        invariant
            i <= a.len(),
            a.len() == b.len(),
            forall|j: int| 0 <= j < i ==> a.deep_view()[j] == b.deep_view()[j],
        decreases a.len() - i,
    {
        if !same_text(a[i].0.as_str(), b[i].0.as_str()) || !same_text(
            a[i].1.as_str(),
            b[i].1.as_str(),
        ) {
            assert(a.deep_view()[i as int] != b.deep_view()[i as int]);
            return false;
        }
        i = i + 1;
    }
    assert(a.deep_view() =~= b.deep_view());
    true
}

/// A copy of a list of settings.
fn copy_settings(list: &Vec<(String, String)>) -> (r: Vec<(String, String)>)
    ensures
        r.deep_view() == list.deep_view(),
{
    let mut r: Vec<(String, String)> = Vec::new();
    let mut i: usize = 0;
    while i < list.len()
        invariant
            i <= list.len(),
            r.len() == i,
            forall|j: int| 0 <= j < i ==> r.deep_view()[j] == list.deep_view()[j],
        decreases list.len() - i,
    {
        r.push((list[i].0.clone(), list[i].1.clone()));
        i = i + 1;
    }
    assert(r.deep_view() =~= list.deep_view());
    r
}

/// The settings of a network first, then those that it leaves to the
/// defaults.
fn merge_settings(own: &Vec<(String, String)>, defaults: &Vec<(String, String)>) -> (r: Vec<
    (String, String),
>)
    ensures
        r.deep_view() == own.deep_view() + left_to_defaults(defaults.deep_view(), own.deep_view()),
{
    let mut r = copy_settings(own);
    let mut i: usize = 0;
    assert(defaults.deep_view().take(0) =~= Seq::<(Seq<char>, Seq<char>)>::empty());
    assert(r.deep_view() =~= own.deep_view() + left_to_defaults(
        defaults.deep_view().take(0),
        own.deep_view(),
    ));
    while i < defaults.len()
        invariant
            i <= defaults.len(),
            r.deep_view() == own.deep_view() + left_to_defaults(
                defaults.deep_view().take(i as int),
                own.deep_view(),
            ),
        decreases defaults.len() - i,
    {
        let ghost all = defaults.deep_view();
        let ghost before = r.deep_view();
        assert(all.take(i + 1).drop_last() =~= all.take(i as int));
        assert(all.take(i + 1).last() == all[i as int]);
        if !has_setting(own, defaults[i].0.as_str()) {
            r.push((defaults[i].0.clone(), defaults[i].1.clone()));
            assert(r.deep_view() =~= before.push(all[i as int]));
            assert(r.deep_view() =~= own.deep_view() + left_to_defaults(
                all.take(i + 1),
                own.deep_view(),
            ));
        }
        i = i + 1;
    }
    assert(defaults.deep_view().take(defaults.len() as int) =~= defaults.deep_view());
    r
}

/// The configuration of a network: each part as the network says it, else
/// as the defaults say it. A network that names no server has an empty one;
/// connections are encrypted unless said otherwise, and go to the port that
/// is usual for that; the nick is [`NICKNAME`]; there is no password and no
/// channel. Of the further settings, those of the network come first, then
/// those that it leaves to the defaults.
pub open spec fn resolved(network: NetworkSettings, defaults: NetworkSettings) -> NetworkView {
    let use_tls = match either(network.use_tls, defaults.use_tls) {
        Some(use_tls) => use_tls,
        None => true,
    };
    NetworkView {
        server: match either(network.server, defaults.server) {
            Some(server) => server@,
            None => Seq::empty(),
        },
        port: match either(network.port, defaults.port) {
            Some(port) => port,
            None => if use_tls {
                TLS_PORT
            } else {
                PLAIN_PORT
            },
        },
        use_tls,
        nickname: match either(network.nickname, defaults.nickname) {
            Some(nickname) => nickname@,
            None => NICKNAME@,
        },
        password: match either(network.password, defaults.password) {
            Some(password) => Some(password@),
            None => None,
        },
        channels: match either(network.channels, defaults.channels) {
            Some(channels) => channels.deep_view(),
            None => Seq::empty(),
        },
        extra: network.extra.deep_view() + left_to_defaults(
            defaults.extra.deep_view(),
            network.extra.deep_view(),
        ),
    }
}

/// The first of two texts that is there.
fn either_text<'a>(first: &'a Option<String>, second: &'a Option<String>) -> (r: Option<&'a String>)
    ensures
        r is Some == either(*first, *second) is Some,
        r is Some ==> *r->0 == either(*first, *second)->0,
{
    match first {
        Some(value) => Some(value),
        None => match second {
            Some(value) => Some(value),
            None => None,
        },
    }
}

impl NetworkConfig {
    /// The configuration of a network that says `network` of itself, under
    /// the given defaults.
    pub fn resolve(network: &NetworkSettings, defaults: &NetworkSettings) -> (r: NetworkConfig)
        ensures
            r@ == resolved(*network, *defaults),
    {
        let use_tls = match network.use_tls {
            Some(use_tls) => use_tls,
            None => match defaults.use_tls {
                Some(use_tls) => use_tls,
                None => true,
            },
        };
        let port = match network.port {
            Some(port) => port,
            None => match defaults.port {
                Some(port) => port,
                None => if use_tls {
                    TLS_PORT
                } else {
                    PLAIN_PORT
                },
            },
        };
        let channels = match &network.channels {
            Some(channels) => copy_texts(channels),
            None => match &defaults.channels {
                Some(channels) => copy_texts(channels),
                None => Vec::new(),
            },
        };
        let r = NetworkConfig {
            server: match either_text(&network.server, &defaults.server) {
                Some(server) => server.clone(),
                None => String::new(),
            },
            port,
            use_tls,
            nickname: match either_text(&network.nickname, &defaults.nickname) {
                Some(nickname) => nickname.clone(),
                None => String::from_str(NICKNAME),
            },
            password: match either_text(&network.password, &defaults.password) {
                Some(password) => Some(password.clone()),
                None => None,
            },
            channels,
            extra: merge_settings(&network.extra, &defaults.extra),
        };
        proof {
            assert(r@.channels =~= resolved(*network, *defaults).channels);
            assert(r@.server =~= resolved(*network, *defaults).server);
        }
        r
    }

    /// Whether two networks are reached in the same way, with the same
    /// channels and the same further settings.
    pub fn same_as(&self, other: &NetworkConfig) -> (r: bool)
        ensures
            r == (self@ == other@),
    {
        let passwords = match (&self.password, &other.password) {
            (Some(a), Some(b)) => same_text(a.as_str(), b.as_str()),
            (None, None) => true,
            _ => false,
        };
        same_text(self.server.as_str(), other.server.as_str()) && self.port == other.port
            && self.use_tls == other.use_tls && same_text(
            self.nickname.as_str(),
            other.nickname.as_str(),
        ) && passwords && same_texts(&self.channels, &other.channels) && same_settings(
            &self.extra,
            &other.extra,
        )
    }

    /// A copy of the configuration.
    pub fn duplicate(&self) -> (r: NetworkConfig)
        ensures
            r@ == self@,
    {
        NetworkConfig {
            server: self.server.clone(),
            port: self.port,
            use_tls: self.use_tls,
            nickname: self.nickname.clone(),
            password: match &self.password {
                Some(p) => Some(p.clone()),
                None => None,
            },
            channels: copy_texts(&self.channels),
            extra: copy_settings(&self.extra),
        }
    }
}

/// The configuration of the first network with the name, as contracts see
/// it.
pub open spec fn network_of(networks: Seq<Network>, name: Seq<char>) -> Option<NetworkView>
    decreases networks.len(),
{
    if networks.len() == 0 {
        None
    } else if networks[0].name@ == name {
        Some(networks[0].config@)
    } else {
        network_of(networks.skip(1), name)
    }
}

impl BotConfig {
    /// The configuration of the network with the name, if there is one.
    pub fn network(&self, name: &str) -> (r: Option<&NetworkConfig>)
        ensures
            r is Some == network_of(self.network@, name@) is Some,
            r is Some ==> r->0@ == network_of(self.network@, name@)->0,
    {
        let mut i: usize = 0;
        assert(self.network@.skip(0) =~= self.network@);
        while i < self.network.len()
            invariant
                i <= self.network.len(),
                network_of(self.network@, name@) == network_of(self.network@.skip(i as int), name@),
            decreases self.network.len() - i,
        {
            let ghost rest = self.network@.skip(i as int);
            assert(rest[0] == self.network@[i as int]);
            assert(rest.skip(1) =~= self.network@.skip(i + 1));
            if same_text(self.network[i].name.as_str(), name) {
                return Some(&self.network[i].config);
            }
            i = i + 1;
        }
        None
    }
}

/// Whether a byte may stand in the value of a header: it is visible, a
/// space, a tab, or beyond ASCII.
pub open spec fn header_byte(b: u8) -> bool {
    (b >= 32 && b != 127) || b == 9
}

/// Whether a text may be the value of a header.
pub open spec fn header_value(text: Seq<char>) -> bool {
    forall|i: int|
        0 <= i < vstd::utf8::encode_utf8(text).len() ==> header_byte(
            #[trigger] vstd::utf8::encode_utf8(text)[i],
        )
}

/// Whether a text may be the value of a header.
pub fn is_header_value(text: &str) -> (r: bool)
    ensures
        r == header_value(text@),
{
    let bytes = text.as_bytes();
    let mut i: usize = 0;
    while i < bytes.len()
        invariant
            i <= bytes.len(),
            bytes@ == vstd::utf8::encode_utf8(text@),
            forall|j: int| 0 <= j < i ==> header_byte(#[trigger] bytes@[j]),
        decreases bytes.len() - i,
    {
        let b: u8 = bytes[i];
        if !((b >= 32 && b != 127) || b == 9) {
            assert(!header_byte(vstd::utf8::encode_utf8(text@)[i as int]));
            return false;
        }
        i = i + 1;
    }
    true
}

/// Why a configuration cannot be used.
#[derive(Clone, Copy, Debug, PartialEq, Eq, Structural)]
pub enum Invalid {
    /// The user agent cannot be the value of a header.
    UserAgent,
    /// The accepted languages cannot be the value of a header.
    AcceptLanguage,
    /// One of the patterns of addresses to pass over is no pattern.
    IgnoreUrlRegex,
}

impl UrlConfig {
    /// What is wrong with the configuration, if anything: the texts that
    /// are sent as headers have to be values of headers, and the patterns
    /// have to be patterns. The first fault found is reported.
    pub fn validate(&self) -> (r: Result<(), Invalid>)
        ensures
            !header_value(self.user_agent@) ==> r == Err::<(), Invalid>(Invalid::UserAgent),
            header_value(self.user_agent@) && !header_value(self.accept_language@) ==> r == Err::<
                (),
                Invalid,
            >(Invalid::AcceptLanguage),
            header_value(self.user_agent@) && header_value(self.accept_language@)
                && regex_set_match(self.ignore_url_regex.deep_view(), Seq::empty()) is None ==> r
                == Err::<(), Invalid>(Invalid::IgnoreUrlRegex),
            header_value(self.user_agent@) && header_value(self.accept_language@)
                && regex_set_match(self.ignore_url_regex.deep_view(), Seq::empty()) is Some ==> r
                is Ok,
    {
        if !is_header_value(self.user_agent.as_str()) {
            Err(Invalid::UserAgent)
        } else if !is_header_value(self.accept_language.as_str()) {
            Err(Invalid::AcceptLanguage)
        } else if !valid_patterns(&self.ignore_url_regex) {
            Err(Invalid::IgnoreUrlRegex)
        } else {
            Ok(())
        }
    }
}

/// A signal that the process received while it watches its configuration.
#[derive(Clone, Copy, Debug, PartialEq, Eq, Structural)]
pub enum Signal {
    Terminate,
    Interrupt,
    Hangup,
}

/// What is done about a signal.
#[derive(Clone, Copy, Debug, PartialEq, Eq, Structural)]
pub enum SignalAction {
    /// Close the configuration, which shuts every session down, and stop
    /// watching.
    Shutdown,
    /// Load the configuration file again.
    Reload,
}

/// Decides what is done about a signal: a hangup loads the configuration
/// again, any other signal shuts down.
pub fn on_signal(signal: Signal) -> (r: SignalAction)
    ensures
        r == if signal == Signal::Hangup {
            SignalAction::Reload
        } else {
            SignalAction::Shutdown
        },
{
    match signal {
        Signal::Hangup => SignalAction::Reload,
        Signal::Terminate => SignalAction::Shutdown,
        Signal::Interrupt => SignalAction::Shutdown,
    }
}

/// The configuration to distribute after a reload: the one that was loaded,
/// or none where loading failed, so that the old one stays in force.
pub fn reloaded(loaded: Result<BotConfig, Error>) -> (r: Option<BotConfig>)
    ensures
        loaded is Ok ==> r == Some(loaded->Ok_0),
        loaded is Err ==> r is None,
{
    match loaded {
        Ok(config) => Some(config),
        Err(_) => None,
    }
}

/// The names of the networks of a configuration that are not among
/// `running`, each once, in their order.
pub open spec fn missing(networks: Seq<Network>, running: Seq<Seq<char>>) -> Seq<Seq<char>>
    decreases networks.len(),
{
    if networks.len() == 0 {
        Seq::empty()
    } else {
        let before = missing(networks.drop_last(), running);
        let name = networks.last().name@;
        if running.contains(name) || before.contains(name) {
            before
        } else {
            before.push(name)
        }
    }
}

/// The sessions that run, and whether new ones are still started.
pub struct Supervisor {
    networks: Vec<String>,
    active: bool,
}

impl Supervisor {
    /// The names of the networks that have a session.
    pub closed spec fn running(&self) -> Seq<Seq<char>> {
        self.networks.deep_view()
    }

    /// Whether sessions are still started.
    pub closed spec fn active(&self) -> bool {
        self.active
    }

    /// A supervisor without sessions.
    pub fn new() -> (r: Supervisor)
        ensures
            r.running() == Seq::<Seq<char>>::empty(),
            r.active(),
    {
        let r = Supervisor { networks: Vec::new(), active: true };
        assert(r.networks.deep_view() =~= Seq::<Seq<char>>::empty());
        r
    }

    /// The networks for which a session has to be started under the
    /// configuration: those that have none yet. They count as running from
    /// now on. None is started once the configuration has closed.
    pub fn start_missing(&mut self, config: &BotConfig) -> (r: Vec<String>)
        ensures
            final(self).active() == old(self).active(),
            old(self).active() ==> r.deep_view() == missing(config.network@, old(self).running())
                && final(self).running() == old(self).running() + r.deep_view(),
            !old(self).active() ==> r.deep_view() == Seq::<Seq<char>>::empty()
                && final(self).running() == old(self).running(),
    {
        let mut started: Vec<String> = Vec::new();
        assert(started.deep_view() =~= Seq::<Seq<char>>::empty());
        if !self.active {
            return started;
        }
        let mut i: usize = 0;
        assert(config.network@.take(0) =~= Seq::<Network>::empty());
        assert(self.networks.deep_view() + started.deep_view() =~= self.networks.deep_view());
        while i < config.network.len()
            invariant
                i <= config.network.len(),
                self.active == old(self).active,
                started.deep_view() == missing(config.network@.take(i as int), old(self).running()),
                self.networks.deep_view() == old(self).running() + started.deep_view(),
            decreases config.network.len() - i,
        {
            assert(config.network@.take(i + 1).drop_last() =~= config.network@.take(i as int));
            assert(config.network@.take(i + 1).last() == config.network@[i as int]);
            let name = config.network[i].name.as_str();
            let ghost before = started.deep_view();
            let ghost listed = self.networks.deep_view();
            let known = contains_text(&self.networks, name);
            proof {
                let all = old(self).running() + before;
                if old(self).running().contains(name@) {
                    let j = choose|j: int|
                        0 <= j < old(self).running().len() && old(self).running()[j] == name@;
                    assert(all[j] == name@);
                }
                if before.contains(name@) {
                    let j = choose|j: int| 0 <= j < before.len() && before[j] == name@;
                    assert(all[old(self).running().len() + j] == name@);
                }
                if all.contains(name@) {
                    let j = choose|j: int| 0 <= j < all.len() && all[j] == name@;
                    if j < old(self).running().len() {
                        assert(old(self).running()[j] == name@);
                    } else {
                        assert(before[j - old(self).running().len()] == name@);
                    }
                }
            }
            if !known {
                self.networks.push(name.to_owned());
                started.push(name.to_owned());
                assert(started.deep_view() =~= before.push(name@));
                assert(self.networks.deep_view() =~= listed.push(name@));
                assert(self.networks.deep_view() =~= old(self).running() + started.deep_view());
            }
            i = i + 1;
        }
        assert(config.network@.take(config.network@.len() as int) =~= config.network@);
        started
    }

    /// Whether sessions are still started.
    pub fn is_active(&self) -> (r: bool)
        ensures
            r == self.active(),
    {
        self.active
    }

    /// The configuration closed: no session is started any more.
    pub fn config_closed(&mut self)
        ensures
            !final(self).active(),
            final(self).running() == old(self).running(),
    {
        self.active = false;
    }

    /// The session of a network has ended: the network runs no more.
    pub fn finished(&mut self, name: &str)
        ensures
            final(self).active() == old(self).active(),
            final(self).running() == old(self).running().filter(|n: Seq<char>| n != name@),
    {
        let mut kept: Vec<String> = Vec::new();
        let mut i: usize = 0;
        let ghost keep = |n: Seq<char>| n != name@;
        assert(self.networks.deep_view().take(0) =~= Seq::<Seq<char>>::empty());
        assert(kept.deep_view() =~= self.networks.deep_view().take(0).filter(keep));
        while i < self.networks.len()
            invariant
                i <= self.networks.len(),
                self.networks == old(self).networks,
                self.active == old(self).active,
                keep == |n: Seq<char>| n != name@,
                kept.deep_view() == self.networks.deep_view().take(i as int).filter(keep),
            decreases self.networks.len() - i,
        {
            let ghost all = self.networks.deep_view();
            let ghost before = kept.deep_view();
            assert(all.take(i + 1).drop_last() =~= all.take(i as int));
            assert(all.take(i + 1).last() == all[i as int]);
            proof {
                reveal(Seq::filter);
            }
            if !same_text(self.networks[i].as_str(), name) {
                kept.push(self.networks[i].clone());
                assert(kept.deep_view() =~= before.push(all[i as int]));
            }
            i = i + 1;
        }
        assert(self.networks.deep_view().take(self.networks.len() as int)
            =~= self.networks.deep_view());
        self.networks = kept;
    }

    /// Whether the supervisor is done: the configuration has closed, and
    /// every session has ended.
    pub fn done(&self) -> (r: bool)
        ensures
            r == (!self.active() && self.running().len() == 0),
    {
        !self.active && self.networks.len() == 0
    }
}

/// Whether a configuration file from which `read` bytes were read, with at
/// most [`CONFIG_LIMIT`] asked for, is small enough to be loaded.
pub fn check_size(read: usize) -> (r: Result<(), Error>)
    ensures
        r is Err <==> read == CONFIG_LIMIT,
        r is Err ==> r->Err_0 == Error::ConfigTooLarge,
{
    if read == CONFIG_LIMIT {
        Err(Error::ConfigTooLarge)
    } else {
        Ok(())
    }
}

} // verus!
