//! The supervision of one session: the cycle of connecting, serving and
//! backing off, and what is done with each message while the session is
//! active.

use crate::backoff::{delay_secs, next_post, success_post, Backoff};
use crate::cache::KeyView;
use crate::command::{
    answer_for, granted, handle_of, spawn_chain, spawn_post, BotCommand, CommandHandler,
    HandlerView, Lookup,
};
use crate::config::{contains_text, network_of, BotConfig, NetworkConfig, NetworkView};
use crate::links::{candidates, candidates_of, same_text, url_views, Url, UrlView};
use crate::text::{contains_char, join, joined, skip_chars, split_text, starts_with, words};
use governor::{DefaultKeyedRateLimiter, Quota, RateLimiter};
use std::num::NonZeroU32;
use vstd::prelude::*;
use vstd::string::StringExecFns;

verus! {

/// The number of commands that one channel may ask for in a minute.
pub const CHANNEL_QUOTA: u32 = 10;

/// The lowercase form of a text, as `str::to_lowercase` gives it.
pub uninterp spec fn lowercase_of(text: Seq<char>) -> Seq<char>;

/// `str::to_lowercase` gives the lowercase form that `lowercase_of` names.
pub assume_specification[ str::to_lowercase ](s: &str) -> (r: String)
    ensures
        r@ == lowercase_of(s@),
;

/// The rate limit of a session: one bucket for each channel, as
/// `governor::RateLimiter` keeps them. Contracts see the buckets through
/// `limiter_buckets`, and not the clock by which the limiter decides.
#[verifier::external_body]
pub struct ChannelLimiter {
    inner: DefaultKeyedRateLimiter<String>,
}

/// A bucket as contracts see it: the time, in nanoseconds since the limiter
/// was made, up to which the bucket is spoken for.
pub type Buckets = Map<Seq<char>, u64>;

/// The buckets that the limiter keeps: one for each channel that has asked
/// it, as the state store of `governor::RateLimiter` holds them.
pub uninterp spec fn limiter_buckets(limiter: ChannelLimiter) -> Buckets;

/// The number of commands in a minute that the limiter was made to allow
/// each channel.
pub uninterp spec fn limiter_quota(limiter: ChannelLimiter) -> nat;

/// No bucket at all.
pub open spec fn no_buckets() -> Buckets {
    Map::empty()
}

/// What one question to the limiter does to its buckets, whatever the clock
/// says. The channel has a bucket afterwards, and the buckets of all other
/// channels are as they were. A refusal changes nothing. A channel that had
/// no bucket is not refused.
pub open spec fn check_post(pre: Buckets, channel: Seq<char>, post: Buckets, allowed: bool) -> bool {
    &&& post.dom().contains(channel)
    &&& post.remove(channel) == pre.remove(channel)
    &&& !allowed ==> post == pre
    &&& !pre.dom().contains(channel) ==> allowed
}

/// `governor::RateLimiter::keyed` with `Quota::per_minute`: a limiter of
/// that quota which keeps no bucket yet. A quota of 0 is left out: there is
/// none.
#[verifier::external_body]
fn limiter_new(per_minute: u32) -> (made: ChannelLimiter)
    requires
        per_minute >= 1,
    ensures
        limiter_buckets(made) == no_buckets(),
        limiter_quota(made) == per_minute,
{
    ChannelLimiter { inner: RateLimiter::keyed(Quota::per_minute(NonZeroU32::new(per_minute).unwrap())) }
}

/// `governor::RateLimiter::check_key`: whether the channel may ask for one
/// more command now. The answer depends on the clock, so only that is
/// claimed which holds of every answer (`check_post`): the limiter reads
/// and writes the bucket of this channel alone, makes it on first use,
/// writes nothing when it refuses, and never refuses a channel without a
/// bucket.
#[verifier::external_body]
fn limiter_check(limiter: &mut ChannelLimiter, channel: &String) -> (allowed: bool)
    ensures
        check_post(
            limiter_buckets(*old(limiter)),
            channel@,
            limiter_buckets(*final(limiter)),
            allowed,
        ),
        limiter_quota(*final(limiter)) == limiter_quota(*old(limiter)),
{
    limiter.inner.check_key(channel).is_ok()
}

impl ChannelLimiter {
    /// The buckets that the limiter keeps.
    pub open spec fn buckets(&self) -> Buckets {
        limiter_buckets(*self)
    }

    /// The number of commands in a minute that each channel is allowed.
    pub open spec fn quota(&self) -> nat {
        limiter_quota(*self)
    }

    /// A limiter that allows each channel [`CHANNEL_QUOTA`] commands in a
    /// minute, and has been asked by no channel yet.
    pub fn new() -> (limiter: ChannelLimiter)
        ensures
            limiter.buckets() == no_buckets(),
            limiter.quota() == CHANNEL_QUOTA,
    {
        limiter_new(CHANNEL_QUOTA)
    }

    /// Asks for one more command for the channel: see `check_post`. A
    /// refusal neither waits nor queues: the caller decides what to do.
    pub fn check(&mut self, channel: &str) -> (allowed: bool)
        ensures
            check_post(old(self).buckets(), channel@, final(self).buckets(), allowed),
            final(self).quota() == old(self).quota(),
    {
        limiter_check(self, &channel.to_owned())
    }
}

/// The first use of a channel is granted, whatever other channels have
/// asked before.
pub proof fn lemma_first_use_granted(
    b0: Buckets,
    other: Seq<char>,
    b1: Buckets,
    first: bool,
    channel: Seq<char>,
    b2: Buckets,
    second: bool,
)
    requires
        other != channel,
        !b0.dom().contains(channel),
        check_post(b0, other, b1, first),
        check_post(b1, channel, b2, second),
    ensures
        second,
{
    assert(b1.remove(other).dom().contains(channel) == b0.remove(other).dom().contains(channel));
}

/// A question for one channel leaves the bucket of every other channel as
/// it was.
pub proof fn lemma_other_channel_unaffected(
    pre: Buckets,
    asked: Seq<char>,
    post: Buckets,
    allowed: bool,
    other: Seq<char>,
)
    requires
        asked != other,
        check_post(pre, asked, post, allowed),
    ensures
        post.dom().contains(other) == pre.dom().contains(other),
        pre.dom().contains(other) ==> post[other] == pre[other],
{
    assert(post.remove(asked).dom().contains(other) == pre.remove(asked).dom().contains(other));
    if pre.dom().contains(other) {
        assert(post.remove(asked)[other] == pre.remove(asked)[other]);
    }
}

/// Who sent a message.
#[derive(Debug)]
pub enum Prefix {
    ServerName(String),
    Nickname(String),
}

/// What a message says, as far as the session reads it.
#[derive(Debug)]
pub enum Command {
    /// The server reports an error.
    Error(String),
    /// The message of the day has ended, or there is none: the handshake is
    /// complete.
    EndOfMotd,
    /// Somebody joined a channel.
    Join(String),
    /// Somebody (first) was invited to a channel (second).
    Invite(String, String),
    /// Somebody (second) was kicked from a channel (first), with a reason.
    Kick(String, String, Option<String>),
    /// A text (second) was said to a target (first).
    Privmsg(String, String),
    /// Anything else.
    Other,
}

/// A message that arrived.
#[derive(Debug)]
pub struct Message {
    pub prefix: Option<Prefix>,
    pub command: Command,
}

/// The sender of a message as text.
pub open spec fn source_of(message: Message) -> Seq<char> {
    match message.prefix {
        Some(Prefix::Nickname(nick)) => nick@,
        Some(Prefix::ServerName(server)) => server@,
        None => "unknown"@,
    }
}

/// The sender of a message as text: a nick, a server, or `unknown`.
pub fn message_source(message: &Message) -> (r: &str)
    ensures
        r@ == source_of(*message),
{
    match &message.prefix {
        Some(Prefix::Nickname(nick)) => nick.as_str(),
        Some(Prefix::ServerName(server)) => server.as_str(),
        None => "unknown",
    }
}

/// The kind of title that a command word searches the movie database for.
pub open spec fn omdb_kind(command: Seq<char>) -> Option<Seq<char>> {
    if command == "imdb"@ || command == "omdb"@ {
        Some("Any"@)
    } else if command == "film"@ || command == "movie"@ {
        Some("Movie"@)
    } else if command == "show"@ || command == "series"@ || command == "tv"@ {
        Some("Series"@)
    } else if command == "ep"@ || command == "episode"@ {
        Some("Episode"@)
    } else if command == "game"@ {
        Some("Game"@)
    } else {
        None
    }
}

/// Whether a command word puts a question to the computational engine.
pub open spec fn is_wolfram(command: Seq<char>) -> bool {
    command == "wolfram"@ || command == "calc"@
}

/// The command word and the arguments of a line that starts with the
/// prefix: its first word, and the words after it with one space between
/// each two. `None` for a line that starts otherwise, or has no word.
pub open spec fn parts_of(content: Seq<char>, prefix: Seq<char>) -> Option<(Seq<char>, Seq<char>)> {
    if prefix.is_prefix_of(content) {
        let parts = words(content.skip(prefix.len() as int), true);
        if parts.len() == 0 {
            None
        } else {
            Some((parts[0], joined(parts.skip(1), " "@)))
        }
    } else {
        None
    }
}

/// The command that a command word in lowercase and its arguments stand
/// for. Neither may be empty. A search of the movie database is recognised
/// where `omdb` is set, a question to the engine where `wolfram` is.
pub open spec fn recognised(
    command: Seq<char>,
    args: Seq<char>,
    omdb: bool,
    wolfram: bool,
) -> Option<KeyView> {
    if command.len() == 0 || args.len() == 0 {
        None
    } else if omdb && omdb_kind(command) is Some {
        Some((1u8, omdb_kind(command)->0, args))
    } else if wolfram && is_wolfram(command) {
        Some((3u8, args, Seq::<char>::empty()))
    } else {
        None
    }
}

/// The explicit command that a line holds: what its command word, brought
/// to lowercase, and its arguments stand for.
pub open spec fn explicit_of(
    content: Seq<char>,
    prefix: Seq<char>,
    omdb: bool,
    wolfram: bool,
) -> Option<KeyView> {
    match parts_of(content, prefix) {
        Some((word, args)) => recognised(lowercase_of(word), args, omdb, wolfram),
        None => None,
    }
}

/// The kind of title that a command word searches for.
fn kind_for(command: &str) -> (r: Option<&'static str>)
    ensures
        r.deep_view() == omdb_kind(command@),
{
    if same_text(command, "imdb") || same_text(command, "omdb") {
        Some("Any")
    } else if same_text(command, "film") || same_text(command, "movie") {
        Some("Movie")
    } else if same_text(command, "show") || same_text(command, "series") || same_text(
        command,
        "tv",
    ) {
        Some("Series")
    } else if same_text(command, "ep") || same_text(command, "episode") {
        Some("Episode")
    } else if same_text(command, "game") {
        Some("Game")
    } else {
        None
    }
}

/// Splits a line into its command word and its arguments.
pub fn command_parts(content: &str, prefix: &str) -> (r: Option<(String, String)>)
    ensures
        r.deep_view() == parts_of(content@, prefix@),
{
    if !starts_with(content, prefix) {
        return None;
    }
    let rest = skip_chars(content, prefix.unicode_len());
    let mut parts = split_text(rest.as_str(), true);
    if parts.len() == 0 {
        return None;
    }
    let ghost all = parts.deep_view();
    let first = parts.remove(0);
    assert(parts.deep_view() =~= all.skip(1));
    let args = join(&parts, " ");
    Some((first, args))
}

/// Reads a command word in lowercase and its arguments as a command.
pub fn recognise(command: &str, args: String, omdb: bool, wolfram: bool) -> (r: Option<
    BotCommand,
>)
    ensures
        r is Some == recognised(command@, args@, omdb, wolfram) is Some,
        r is Some ==> Some(r->0@) == recognised(command@, args@, omdb, wolfram),
{
    if command.is_empty() || args.as_str().is_empty() {
        return None;
    }
    if omdb {
        match kind_for(command) {
            Some(kind) => {
                return Some(BotCommand::Omdb(String::from_str(kind), args));
            },
            None => {},
        }
    }
    if wolfram && (same_text(command, "wolfram") || same_text(command, "calc")) {
        return Some(BotCommand::Wolfram(args));
    }
    None
}

/// Reads the explicit command of a line, if it holds one.
pub fn explicit_command(content: &str, config: &BotConfig) -> (r: Option<BotCommand>)
    ensures
        r is Some == explicit_of(
            content@,
            config.command.prefix@,
            config.omdb.api_key is Some,
            config.wolfram.app_id is Some,
        ) is Some,
        r is Some ==> Some(r->0@) == explicit_of(
            content@,
            config.command.prefix@,
            config.omdb.api_key is Some,
            config.wolfram.app_id is Some,
        ),
{
    match command_parts(content, config.command.prefix.as_str()) {
        Some((word, args)) => {
            let command = word.as_str().to_lowercase();
            recognise(
                command.as_str(),
                args,
                config.omdb.api_key.is_some(),
                config.wolfram.app_id.is_some(),
            )
        },
        None => None,
    }
}

/// Whether a line is one that the session answers: it comes from somebody
/// else, is no client-to-client request, holds no colour code, and was said
/// in a configured channel.
pub open spec fn addressed(
    nick: Seq<char>,
    own_nick: Seq<char>,
    target: Seq<char>,
    content: Seq<char>,
    channels: Seq<Seq<char>>,
) -> bool {
    &&& nick != own_nick
    &&& !(content.len() > 0 && content[0] == '\x01')
    &&& !content.contains('\x03')
    &&& channels.contains(target)
}

/// The commands of looking at each of the addresses.
pub open spec fn lookups(urls: Seq<UrlView>) -> Seq<KeyView> {
    Seq::new(urls.len(), |i: int| (0u8, urls[i].text, Seq::<char>::empty()))
}

/// The commands that a line asks for: none where it is not answered; its
/// explicit command where it holds one; else a look at each of its
/// addresses.
pub open spec fn commands_of(
    nick: Seq<char>,
    own_nick: Seq<char>,
    target: Seq<char>,
    content: Seq<char>,
    channels: Seq<Seq<char>>,
    config: BotConfig,
) -> Seq<KeyView> {
    if !addressed(nick, own_nick, target, content, channels) {
        Seq::empty()
    } else {
        match explicit_of(
            content,
            config.command.prefix@,
            config.omdb.api_key is Some,
            config.wolfram.app_id is Some,
        ) {
            Some(command) => seq![command],
            None => lookups(
                candidates_of(
                    content,
                    config.url.ignore_url_regex.deep_view(),
                    config.url.scheme_required,
                    config.url.max_per_message as nat,
                ),
            ),
        }
    }
}

/// The commands as contracts see them.
pub open spec fn command_views(commands: Seq<BotCommand>) -> Seq<KeyView> {
    Seq::new(commands.len(), |i: int| commands[i]@)
}

/// Finds the commands that a line asks for.
pub fn commands_in(
    nick: &str,
    own_nick: &str,
    target: &str,
    content: &str,
    channels: &Vec<String>,
    config: &BotConfig,
) -> (r: Vec<BotCommand>)
    ensures
        command_views(r@) == commands_of(
            nick@,
            own_nick@,
            target@,
            content@,
            channels.deep_view(),
            *config,
        ),
{
    let mut commands: Vec<BotCommand> = Vec::new();
    if same_text(nick, own_nick) || starts_with(content, "\x01") || contains_char(content, '\x03')
        || !contains_text(channels, target) {
        proof {
            reveal_strlit("\x01");
            if "\x01"@.is_prefix_of(content@) {
                assert(content@.subrange(0, 1)[0] == content@[0]);
            }
            if content@.len() > 0 && content@[0] == '\x01' {
                assert("\x01"@ =~= content@.subrange(0, 1));
            }
            assert(command_views(commands@) =~= Seq::<KeyView>::empty());
        }
        return commands;
    }
    proof {
        reveal_strlit("\x01");
        if content@.len() > 0 && content@[0] == '\x01' {
            assert("\x01"@ =~= content@.subrange(0, 1));
        }
    }
    match explicit_command(content, config) {
        Some(command) => {
            commands.push(command);
            assert(command_views(commands@) =~= seq![command@]);
        },
        None => {
            let mut urls = candidates(
                content,
                &config.url.ignore_url_regex,
                config.url.scheme_required,
                config.url.max_per_message,
            );
            let ghost found = url_views(urls@);
            assert(command_views(commands@) =~= lookups(found.take(0)));
            while urls.len() > 0
                invariant
                    commands@.len() + urls@.len() == found.len(),
                    url_views(urls@) == found.skip(commands@.len() as int),
                    command_views(commands@) == lookups(found.take(commands@.len() as int)),
                decreases urls.len(),
            {
                let ghost waiting = url_views(urls@);
                let ghost done = command_views(commands@);
                let ghost n = commands@.len() as int;
                let url = urls.remove(0);
                assert(url@ == waiting[0]);
                assert(waiting[0] == found[n]);
                assert(url_views(urls@) =~= waiting.skip(1));
                assert(waiting.skip(1) =~= found.skip(n + 1));
                let command = BotCommand::Url(url);
                commands.push(command);
                assert(command_views(commands@) =~= done.push(command@));
                assert(lookups(found.take(n + 1)) =~= lookups(found.take(n)).push(
                    (0u8, found[n].text, Seq::<char>::empty()),
                ));
            }
            assert(found.take(found.len() as int) =~= found);
        },
    }
    commands
}

/// What becomes of the commands of a line when the channel is granted
/// `allowed` of them: the handler takes the first `allowed` commands, the
/// handles that it gives are `got`, and the line counts as throttled where
/// a command was left over.
pub open spec fn lookups_post(
    pre: HandlerView,
    commands: Seq<KeyView>,
    allowed: int,
    handles: Seq<Option<Lookup>>,
    post: HandlerView,
    got: Seq<Lookup>,
    throttled: bool,
) -> bool {
    &&& 0 <= allowed <= commands.len()
    &&& spawn_chain(pre, commands.take(allowed), post, handles)
    &&& got == granted(handles)
    &&& throttled == (allowed < commands.len())
}

/// Takes one command of a line, given the answer of the limiter: a command
/// that the limiter refused is not submitted, and `None` says so; any other
/// is submitted, and the answer of the handler is returned.
pub fn submit_one(handler: &mut CommandHandler, allowed: bool, command: BotCommand) -> (r: Option<
    Option<Lookup>,
>)
    requires
        old(handler).wf(),
    ensures
        final(handler).wf(),
        !allowed ==> r is None && final(handler)@ == old(handler)@,
        allowed ==> r is Some && r->0 == answer_for(old(handler)@, handle_of(r->0))
            && exists|swept: int, swept_again: int|
            spawn_post(
                old(handler)@,
                command@,
                swept,
                swept_again,
                final(handler)@,
                handle_of(r->0),
            ),
{
    if allowed {
        let ghost asked = command@;
        let answer = handler.submit(command);
        let r = Some(answer);
        proof {
            let (swept, swept_again) = choose|swept: int, swept_again: int|
                spawn_post(old(handler)@, asked, swept, swept_again, handler@, handle_of(answer));
            assert(spawn_post(
                old(handler)@,
                command@,
                swept,
                swept_again,
                handler@,
                handle_of(r->0),
            ));
        }
        r
    } else {
        None
    }
}

/// What the limiter owes a line: where the line asks for a command and its
/// channel had no bucket, the first command is granted.
pub open spec fn first_granted(pre: Buckets, channel: Seq<char>, asked: nat, allowed: int) -> bool {
    asked > 0 && !pre.dom().contains(channel) ==> allowed >= 1
}

/// What a line does to the buckets of the limiter: it touches the bucket of
/// its channel alone, and that only where it asks for a command.
pub open spec fn buckets_post(pre: Buckets, channel: Seq<char>, asked: nat, post: Buckets) -> bool {
    &&& post.remove(channel) == pre.remove(channel)
    &&& asked == 0 ==> post == pre
    &&& asked > 0 ==> post.dom().contains(channel)
}

/// Submits the commands of a line in their order, each after asking the
/// limiter of the channel. The first refusal of the limiter ends the line:
/// the commands that are left are dropped, and the line counts as
/// throttled. A command that the handler refuses is passed over.
pub fn submit_all(
    handler: &mut CommandHandler,
    limiter: &mut ChannelLimiter,
    channel: &str,
    commands: Vec<BotCommand>,
) -> (r: (Vec<Lookup>, bool))
    requires
        old(handler).wf(),
    ensures
        final(handler).wf(),
        final(limiter).quota() == old(limiter).quota(),
        buckets_post(
            old(limiter).buckets(),
            channel@,
            commands@.len(),
            final(limiter).buckets(),
        ),
        exists|allowed: int, handles: Seq<Option<Lookup>>|
            {
                &&& #[trigger] lookups_post(
                    old(handler)@,
                    command_views(commands@),
                    allowed,
                    handles,
                    final(handler)@,
                    r.0@,
                    r.1,
                )
                &&& first_granted(old(limiter).buckets(), channel@, commands@.len(), allowed)
            },
{
    let ghost all = command_views(commands@);
    let mut pending = commands;
    let mut got: Vec<Lookup> = Vec::new();
    let mut throttled: bool = false;
    let ghost mut handles: Seq<Option<Lookup>> = Seq::empty();
    let ghost before_all = limiter.buckets();
    assert(all.take(0) =~= Seq::<KeyView>::empty());
    assert(all.skip(0) =~= all);
    while pending.len() > 0
        invariant_except_break
            !throttled,
        invariant
            handler.wf(),
            handles.len() + pending@.len() == all.len(),
            command_views(pending@) == all.skip(handles.len() as int),
            spawn_chain(old(handler)@, all.take(handles.len() as int), handler@, handles),
            got@ == granted(handles),
            throttled ==> pending@.len() > 0,
            before_all == old(limiter).buckets(),
            limiter.quota() == old(limiter).quota(),
            limiter.buckets().remove(channel@) == before_all.remove(channel@),
            handles.len() == 0 && !throttled ==> limiter.buckets() == before_all,
            handles.len() > 0 || throttled ==> limiter.buckets().dom().contains(channel@),
            throttled && handles.len() == 0 ==> before_all.dom().contains(channel@),
        ensures
            throttled == (handles.len() < all.len()),
        decreases pending.len(),
    {
        let ghost waiting = command_views(pending@);
        let ghost mid = handler@;
        let ghost done = handles.len() as int;
        let ghost left = pending@;
        let ghost held = limiter.buckets();
        let allowed = limiter.check(channel);
        assert(limiter.buckets().remove(channel@) =~= before_all.remove(channel@));
        if !allowed {
            throttled = true;
            break;
        }
        let command = pending.remove(0);
        let ghost asked = command@;
        assert(asked == waiting[0]);
        assert(waiting[0] == all[done]);
        assert(command_views(pending@) =~= waiting.skip(1));
        assert(waiting.skip(1) =~= all.skip(done + 1));
        let handle = match submit_one(handler, allowed, command) {
            Some(handle) => handle,
            None => None,
        };
        proof {
            let (swept, swept_again) = choose|swept: int, swept_again: int|
                spawn_post(mid, asked, swept, swept_again, handler@, handle_of(handle));
            let ghost before = handles;
            handles = handles.push(handle);
            assert(handles.drop_last() =~= before);
            assert(all.take(done + 1).drop_last() =~= all.take(done));
            assert(all.take(done + 1).last() == asked);
            assert(handles.last() == answer_for(mid, handle_of(handles.last())));
            assert(spawn_post(
                mid,
                all.take(done + 1).last(),
                swept,
                swept_again,
                handler@,
                handle_of(handles.last()),
            ));
        }
        match handle {
            Some(h) => {
                got.push(h);
            },
            None => {},
        }
    }
    let ghost given = got@;
    let r = (got, throttled);
    assert(r.0@ == given && r.1 == throttled);
    assert(all.len() == commands@.len());
    assert(lookups_post(
        old(handler)@,
        command_views(commands@),
        handles.len() as int,
        handles,
        handler@,
        r.0@,
        r.1,
    ));
    assert(first_granted(
        old(limiter).buckets(),
        channel@,
        commands@.len(),
        handles.len() as int,
    ));
    r
}

/// Why a session leaves its network.
#[derive(Clone, Copy, Debug, PartialEq, Eq, Structural)]
pub enum Quit {
    /// The way to the network changed: the session will come back.
    Reconnecting,
    /// The network left the configuration, or the configuration closed.
    Disconnecting,
}

impl Quit {
    /// The reason as it is told to the network.
    pub fn reason(&self) -> (r: &'static str)
        ensures
            *self == Quit::Reconnecting ==> r@ == "Reconnecting"@,
            *self == Quit::Disconnecting ==> r@ == "Disconnecting"@,
    {
        match self {
            Quit::Reconnecting => "Reconnecting",
            Quit::Disconnecting => "Disconnecting",
        }
    }
}

/// One connection of a session: the configuration that it was made with,
/// whether it is to be the last, and its rate limit.
pub struct Connection {
    netconf: NetworkConfig,
    shutdown: bool,
    limiter: ChannelLimiter,
}

/// What a change of the configuration means for a connection that was made
/// with `current`: nothing once the session shuts down; a last quit where
/// the configuration closed or holds the network no more; a quit to come
/// back where the network is reached in another way.
pub open spec fn quit_for(
    shutdown: bool,
    current: NetworkView,
    changed: Option<Option<NetworkView>>,
) -> Option<Quit> {
    if shutdown {
        None
    } else {
        match changed {
            None => Some(Quit::Disconnecting),
            Some(None) => Some(Quit::Disconnecting),
            Some(Some(network)) => if network != current {
                Some(Quit::Reconnecting)
            } else {
                None
            },
        }
    }
}

/// What a session does about a message.
#[derive(Debug)]
pub enum Reaction {
    /// Nothing.
    Nothing,
    /// The handshake is complete.
    Connected,
    /// Join this channel.
    Join(String),
    /// Answer the target of the message with the result of each of these
    /// lookups, as it resolves. The flag says that the channel was
    /// throttled, and commands of the line were dropped.
    Lookups(Vec<Lookup>, bool),
}

impl Connection {
    /// The configuration that the connection was made with.
    pub closed spec fn network(&self) -> NetworkView {
        self.netconf@
    }

    /// Whether the session ends with this connection.
    pub closed spec fn is_shutdown(&self) -> bool {
        self.shutdown
    }

    /// The buckets of the rate limit of the connection.
    pub closed spec fn buckets(&self) -> Buckets {
        self.limiter.buckets()
    }

    /// The number of commands in a minute that each channel is allowed.
    pub closed spec fn quota(&self) -> nat {
        self.limiter.quota()
    }

    /// The state of a new connection to the network with the name; `None`
    /// where the configuration holds no such network. No channel has asked
    /// the rate limit of a new connection yet.
    pub fn open(config: &BotConfig, name: &str) -> (r: Option<Connection>)
        ensures
            r is Some == network_of(config.network@, name@) is Some,
            r is Some ==> r->0.network() == network_of(config.network@, name@)->0
                && !r->0.is_shutdown() && r->0.buckets() == no_buckets()
                && r->0.quota() == CHANNEL_QUOTA,
    {
        match config.network(name) {
            Some(netconf) => Some(
                Connection {
                    netconf: netconf.duplicate(),
                    shutdown: false,
                    limiter: ChannelLimiter::new(),
                },
            ),
            None => None,
        }
    }

    /// Whether the session ends with this connection.
    pub fn shutdown(&self) -> (r: bool)
        ensures
            r == self.is_shutdown(),
    {
        self.shutdown
    }

    /// Takes a change of the configuration: `None` says that the
    /// configuration closed. Returns the quit to send, if any; see
    /// `quit_for`. A last quit marks the connection as the last.
    pub fn on_config(&mut self, name: &str, changed: Option<&BotConfig>) -> (r: Option<Quit>)
        ensures
            final(self).network() == old(self).network(),
            final(self).buckets() == old(self).buckets(),
            final(self).quota() == old(self).quota(),
            r == quit_for(
                old(self).is_shutdown(),
                old(self).network(),
                match changed {
                    Some(config) => Some(network_of(config.network@, name@)),
                    None => None,
                },
            ),
            final(self).is_shutdown() == (old(self).is_shutdown() || r == Some(
                Quit::Disconnecting,
            )),
    {
        if self.shutdown {
            return None;
        }
        match changed {
            Some(config) => match config.network(name) {
                Some(network) => {
                    if !network.same_as(&self.netconf) {
                        Some(Quit::Reconnecting)
                    } else {
                        None
                    }
                },
                None => {
                    self.shutdown = true;
                    Some(Quit::Disconnecting)
                },
            },
            None => {
                self.shutdown = true;
                Some(Quit::Disconnecting)
            },
        }
    }
}

/// Where a session stands.
#[derive(Clone, Copy, Debug, PartialEq, Eq, Structural)]
pub enum Phase {
    /// A connection is being made.
    Connecting,
    /// The connection serves.
    Active,
    /// The connection is being closed for good.
    Draining,
    /// Waiting this many seconds before the next connection is made.
    Backoff(u64),
    /// The session has ended.
    Terminated,
}

/// One session: its network, its backoff and where it stands.
#[derive(Debug)]
pub struct IrcTask {
    name: String,
    throttle: Backoff,
    phase: Phase,
}

/// The phase after a connection has ended, or could not be made: the end
/// where the session is to exit, else a wait for the delay, or none.
pub open spec fn phase_after(exit: bool, delay: Option<u64>) -> Phase {
    if exit {
        Phase::Terminated
    } else {
        match delay {
            Some(secs) => Phase::Backoff(secs),
            None => Phase::Connecting,
        }
    }
}

impl IrcTask {
    /// The name of the network.
    pub closed spec fn name(&self) -> Seq<char> {
        self.name@
    }

    /// Where the session stands.
    pub closed spec fn phase(&self) -> Phase {
        self.phase
    }

    /// Whether the backoff has an attempt on record.
    pub closed spec fn armed(&self) -> bool {
        self.throttle.armed()
    }

    /// The bounds of the backoff, in seconds.
    pub closed spec fn bounds(&self) -> (nat, nat) {
        (self.throttle.min(), self.throttle.max())
    }

    /// A session for the network with the name, about to make its first
    /// connection.
    pub fn spawn(name: String) -> (task: IrcTask)
        ensures
            task.name() == name@,
            task.phase() == Phase::Connecting,
            task.armed(),
            task.bounds() == (10nat, 240nat),
    {
        let mut throttle = Backoff::default();
        let delay = throttle.next();
        IrcTask { name, throttle, phase: Phase::Connecting }
    }

    /// Where the session stands.
    pub fn current(&self) -> (r: Phase)
        ensures
            r == self.phase(),
    {
        self.phase
    }

    /// The name of the network.
    pub fn network_name(&self) -> (r: &str)
        ensures
            r@ == self.name(),
    {
        self.name.as_str()
    }

    /// The connection was made: the session serves.
    pub fn connected(&mut self)
        ensures
            final(self).name() == old(self).name(),
            final(self).armed() == old(self).armed(),
            final(self).bounds() == old(self).bounds(),
            final(self).phase() == if old(self).phase() == Phase::Connecting {
                Phase::Active
            } else {
                old(self).phase()
            },
    {
        if self.phase == Phase::Connecting {
            self.phase = Phase::Active;
        }
    }

    /// The connection is being closed for good: a last quit was sent.
    pub fn draining(&mut self)
        ensures
            final(self).name() == old(self).name(),
            final(self).armed() == old(self).armed(),
            final(self).bounds() == old(self).bounds(),
            final(self).phase() == if old(self).phase() == Phase::Active {
                Phase::Draining
            } else {
                old(self).phase()
            },
    {
        if self.phase == Phase::Active {
            self.phase = Phase::Draining;
        }
    }

    /// The connection has ended, or could not be made. With `exit` the
    /// session ends. Else the attempt is put on record: the next connection
    /// is made at once where the handshake of this one was completed, and
    /// after the delay of the backoff where it was not.
    pub fn disconnected(&mut self, exit: bool) -> (r: Phase)
        ensures
            r == final(self).phase(),
            final(self).name() == old(self).name(),
            final(self).bounds() == old(self).bounds(),
            old(self).phase() == Phase::Terminated ==> r == Phase::Terminated && final(self).armed()
                == old(self).armed(),
            old(self).phase() != Phase::Terminated && exit ==> r == Phase::Terminated
                && final(self).armed() == old(self).armed(),
            old(self).phase() != Phase::Terminated && !exit ==> final(self).armed(),
            old(self).phase() != Phase::Terminated && !exit && !old(self).armed() ==> r
                == Phase::Connecting,
            old(self).phase() != Phase::Terminated && !exit && old(self).armed() ==> exists|gap: nat|
                r == Phase::Backoff(
                    #[trigger] delay_secs(gap, old(self).bounds().0, old(self).bounds().1) as u64,
                ),
    {
        if self.phase == Phase::Terminated {
            return self.phase;
        }
        if exit {
            self.phase = Phase::Terminated;
        } else {
            let delay = self.throttle.next();
            self.phase = match delay {
                Some(secs) => Phase::Backoff(secs),
                None => Phase::Connecting,
            };
            proof {
                if old(self).armed() {
                    let gap = choose|gap: nat|
                        delay == Some(
                            #[trigger] delay_secs(
                                gap,
                                old(self).throttle.min(),
                                old(self).throttle.max(),
                            ) as u64,
                        );
                    assert(self.phase == Phase::Backoff(
                        delay_secs(gap, old(self).bounds().0, old(self).bounds().1) as u64,
                    ));
                }
            }
        }
        self.phase
    }

    /// The delay has passed: the next connection is made.
    pub fn slept(&mut self)
        ensures
            final(self).name() == old(self).name(),
            final(self).armed() == old(self).armed(),
            final(self).bounds() == old(self).bounds(),
            final(self).phase() == if old(self).phase() is Backoff {
                Phase::Connecting
            } else {
                old(self).phase()
            },
    {
        match self.phase {
            Phase::Backoff(_) => {
                self.phase = Phase::Connecting;
            },
            _ => {},
        }
    }

    /// The configuration closed: a session that waits ends, any other goes
    /// on until its connection has ended.
    pub fn config_closed(&mut self)
        ensures
            final(self).name() == old(self).name(),
            final(self).armed() == old(self).armed(),
            final(self).bounds() == old(self).bounds(),
            final(self).phase() == if old(self).phase() is Backoff {
                Phase::Terminated
            } else {
                old(self).phase()
            },
    {
        match self.phase {
            Phase::Backoff(_) => {
                self.phase = Phase::Terminated;
            },
            _ => {},
        }
    }

    /// Deals with a message that arrived on the connection, for the nick
    /// that the session has there.
    ///
    /// The end of the handshake resets the backoff. An invitation of the
    /// session to a configured channel is followed. A line that somebody
    /// said is searched for commands (`commands_of`), which are submitted
    /// as `submit_all` says, under the rate limit of the connection. Nothing
    /// is done about any other message.
    pub fn on_message(
        &mut self,
        connection: &mut Connection,
        handler: &mut CommandHandler,
        config: &BotConfig,
        nickname: &str,
        message: Message,
    ) -> (r: Reaction)
        requires
            old(handler).wf(),
        ensures
            final(handler).wf(),
            final(self).name() == old(self).name(),
            final(self).phase() == old(self).phase(),
            final(self).bounds() == old(self).bounds(),
            final(self).armed() == (old(self).armed() && !(message.command is EndOfMotd)),
            final(connection).network() == old(connection).network(),
            final(connection).is_shutdown() == old(connection).is_shutdown(),
            final(connection).quota() == old(connection).quota(),
            !(message.command is Privmsg) ==> final(connection).buckets()
                == old(connection).buckets(),
            message.command is EndOfMotd ==> r is Connected && final(handler)@ == old(handler)@,
            message.command matches Command::Invite(target, channel) ==> {
                &&& final(handler)@ == old(handler)@
                &&& if target@ == nickname@ && old(connection).network().channels.contains(
                    channel@,
                ) {
                    r is Join && r->Join_0@ == channel@
                } else {
                    r is Nothing
                }
            },
            message.command matches Command::Privmsg(target, content) ==> match message.prefix {
                Some(Prefix::Nickname(nick)) => {
                    let asked = commands_of(
                        nick@,
                        nickname@,
                        target@,
                        content@,
                        old(connection).network().channels,
                        *config,
                    );
                    &&& r is Lookups
                    &&& buckets_post(
                        old(connection).buckets(),
                        target@,
                        asked.len(),
                        final(connection).buckets(),
                    )
                    &&& exists|allowed: int, handles: Seq<Option<Lookup>>|
                        {
                            &&& #[trigger] lookups_post(
                                old(handler)@,
                                asked,
                                allowed,
                                handles,
                                final(handler)@,
                                r->Lookups_0@,
                                r->Lookups_1,
                            )
                            &&& first_granted(
                                old(connection).buckets(),
                                target@,
                                asked.len(),
                                allowed,
                            )
                        }
                },
                _ => r is Nothing && final(handler)@ == old(handler)@
                    && final(connection).buckets() == old(connection).buckets(),
            },
            !(message.command is EndOfMotd || message.command is Invite
                || message.command is Privmsg) ==> r is Nothing && final(handler)@ == old(
                handler,
            )@,
    {
        match message.command {
            Command::EndOfMotd => {
                self.throttle.success();
                Reaction::Connected
            },
            Command::Invite(target, channel) => {
                if same_text(target.as_str(), nickname) && contains_text(
                    &connection.netconf.channels,
                    channel.as_str(),
                ) {
                    Reaction::Join(channel)
                } else {
                    Reaction::Nothing
                }
            },
            Command::Privmsg(target, content) => match message.prefix {
                Some(Prefix::Nickname(nick)) => {
                    let commands = commands_in(
                        nick.as_str(),
                        nickname,
                        target.as_str(),
                        content.as_str(),
                        &connection.netconf.channels,
                        config,
                    );
                    let ghost asked = command_views(commands@);
                    assert(asked == commands_of(
                        nick@,
                        nickname@,
                        target@,
                        content@,
                        connection.network().channels,
                        *config,
                    ));
                    let ghost count = commands@.len();
                    assert(count == asked.len());
                    let (got, throttled) = submit_all(
                        handler,
                        &mut connection.limiter,
                        target.as_str(),
                        commands,
                    );
                    let ghost given = got@;
                    let ghost (allowed, handles) = choose|allowed: int, handles: Seq<Option<Lookup>>|
                        {
                            &&& #[trigger] lookups_post(
                                old(handler)@,
                                asked,
                                allowed,
                                handles,
                                handler@,
                                given,
                                throttled,
                            )
                            &&& first_granted(
                                old(connection).buckets(),
                                target@,
                                count,
                                allowed,
                            )
                        };
                    let r = Reaction::Lookups(got, throttled);
                    assert(r->Lookups_0@ == given && r->Lookups_1 == throttled);
                    assert(lookups_post(
                        old(handler)@,
                        asked,
                        allowed,
                        handles,
                        handler@,
                        r->Lookups_0@,
                        r->Lookups_1,
                    ));
                    assert(first_granted(
                        old(connection).buckets(),
                        target@,
                        asked.len(),
                        allowed,
                    ));
                    r
                },
                _ => Reaction::Nothing,
            },
            _ => Reaction::Nothing,
        }
    }
}

} // verus!
