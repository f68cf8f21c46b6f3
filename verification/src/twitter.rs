//! Posts and users of the social network, and the rule that decides whether a
//! request may be made.

use crate::error::Error;
use crate::irc_string::{safe, IrcString};
use std::time::SystemTime;
use vstd::prelude::*;

verus! {

/// A post as the network returns it.
pub struct RawTweet {
    pub id: u64,
    /// Seconds since the Unix epoch.
    pub created_at: i64,
    pub favorite_count: i32,
    pub quoted_status: Option<Box<RawTweet>>,
    pub retweeted_status: Option<Box<RawTweet>>,
    pub text: String,
    pub user: Option<Box<RawUser>>,
}

/// A user as the network returns it.
pub struct RawUser {
    pub id: u64,
    /// Seconds since the Unix epoch.
    pub created_at: i64,
    pub name: String,
    pub screen_name: String,
    pub url: Option<String>,
    pub verified: bool,
    pub description: Option<String>,
    pub statuses_count: i32,
    pub followers_count: i32,
    pub friends_count: i32,
    pub location: Option<String>,
    pub status: Option<Box<RawTweet>>,
}

/// A post, each text of it safe to send.
#[derive(Debug)]
pub struct Tweet {
    pub id: u64,
    pub created_at: i64,
    pub favourite_count: i32,
    pub quote: Option<Box<Tweet>>,
    pub retweet: Option<Box<Tweet>>,
    pub text: IrcString,
    pub user: Option<Box<Tweeter>>,
}

/// A user, each text of it safe to send.
#[derive(Debug)]
pub struct Tweeter {
    pub id: u64,
    pub created_at: i64,
    pub name: IrcString,
    pub screen_name: IrcString,
    pub url: Option<IrcString>,
    pub verified: bool,
    pub description: Option<IrcString>,
    pub statuses_count: i32,
    pub followers_count: i32,
    pub friends_count: i32,
    pub location: Option<IrcString>,
    pub status: Option<Box<Tweet>>,
}

/// Whether `text` is the sanitized form of `raw`, where there is one.
pub open spec fn safe_option(raw: Option<String>, text: Option<IrcString>) -> bool {
    match (raw, text) {
        (Some(r), Some(t)) => t@ == safe(r@),
        (None, None) => true,
        _ => false,
    }
}

/// Whether `tweet` is the post `raw` with its texts sanitized, and so the
/// posts and the user that it holds.
pub open spec fn is_tweet_of(raw: RawTweet, tweet: Tweet) -> bool
    decreases raw,
{
    &&& tweet.id == raw.id
    &&& tweet.created_at == raw.created_at
    &&& tweet.favourite_count == raw.favorite_count
    &&& tweet.text@ == safe(raw.text@)
    &&& match (raw.quoted_status, tweet.quote) {
        (Some(r), Some(t)) => is_tweet_of(*r, *t),
        (None, None) => true,
        _ => false,
    }
    &&& match (raw.retweeted_status, tweet.retweet) {
        (Some(r), Some(t)) => is_tweet_of(*r, *t),
        (None, None) => true,
        _ => false,
    }
    &&& match (raw.user, tweet.user) {
        (Some(r), Some(t)) => is_tweeter_of(*r, *t),
        (None, None) => true,
        _ => false,
    }
}

/// Whether `user` is the user `raw` with its texts sanitized, and so the post
/// that it holds.
pub open spec fn is_tweeter_of(raw: RawUser, user: Tweeter) -> bool
    decreases raw,
{
    &&& user.id == raw.id
    &&& user.created_at == raw.created_at
    &&& user.name@ == safe(raw.name@)
    &&& user.screen_name@ == safe(raw.screen_name@)
    &&& safe_option(raw.url, user.url)
    &&& user.verified == raw.verified
    &&& safe_option(raw.description, user.description)
    &&& user.statuses_count == raw.statuses_count
    &&& user.followers_count == raw.followers_count
    &&& user.friends_count == raw.friends_count
    &&& safe_option(raw.location, user.location)
    &&& match (raw.status, user.status) {
        (Some(r), Some(t)) => is_tweet_of(*r, *t),
        (None, None) => true,
        _ => false,
    }
}

/// The sanitized form of a text, where there is one.
fn safe_text(raw: &Option<String>) -> (text: Option<IrcString>)
    ensures
        safe_option(*raw, text),
{
    match raw {
        Some(r) => Some(IrcString::from(r.as_str())),
        None => None,
    }
}

impl Tweet {
    /// The post with its texts sanitized.
    pub fn from(tweet: &RawTweet) -> (r: Tweet)
        ensures
            is_tweet_of(*tweet, r),
        decreases *tweet,
    {
        Tweet {
            id: tweet.id,
            created_at: tweet.created_at,
            favourite_count: tweet.favorite_count,
            quote: match &tweet.quoted_status {
                Some(s) => Some(Box::new(Tweet::from(&**s))),
                None => None,
            },
            retweet: match &tweet.retweeted_status {
                Some(s) => Some(Box::new(Tweet::from(&**s))),
                None => None,
            },
            text: IrcString::from(tweet.text.as_str()),
            user: match &tweet.user {
                Some(u) => Some(Box::new(Tweeter::from(&**u))),
                None => None,
            },
        }
    }
}

impl Tweeter {
    /// The user with its texts sanitized.
    pub fn from(user: &RawUser) -> (r: Tweeter)
        ensures
            is_tweeter_of(*user, r),
        decreases *user,
    {
        Tweeter {
            id: user.id,
            created_at: user.created_at,
            name: IrcString::from(user.name.as_str()),
            screen_name: IrcString::from(user.screen_name.as_str()),
            url: safe_text(&user.url),
            verified: user.verified,
            description: safe_text(&user.description),
            statuses_count: user.statuses_count,
            followers_count: user.followers_count,
            friends_count: user.friends_count,
            location: safe_text(&user.location),
            status: match &user.status {
                Some(s) => Some(Box::new(Tweet::from(&**s))),
                None => None,
            },
        }
    }
}

/// What the network said of its limit with the last answer.
#[derive(Debug, Clone, Copy)]
pub struct RateLimit {
    /// The requests allowed in a window.
    pub limit: i32,
    /// The requests left in this window.
    pub remaining: i32,
    /// The Unix time at which the window ends.
    pub reset: i32,
}

/// The end of the window as an unsigned time: a negative time wraps round,
/// and so lies beyond every clock.
pub open spec fn reset_time(reset: i32) -> int {
    if reset < 0 {
        reset + 0x1_0000_0000_0000_0000
    } else {
        reset as int
    }
}

/// Whether requests have to wait at the time `now`: none is left in the
/// window, and the window has not ended.
pub open spec fn limited(limit: Option<RateLimit>, now: u64) -> bool {
    match limit {
        Some(l) => l.remaining == 0 && reset_time(l.reset) > now,
        None => false,
    }
}

/// Whether requests may have to wait at all: a limit is known, and none is
/// left in its window.
pub open spec fn may_wait(limit: Option<RateLimit>) -> bool {
    match limit {
        Some(l) => l.remaining == 0,
        None => false,
    }
}

/// `std::time::SystemTime::now`, as seconds since the Unix epoch
/// (`duration_since`, `Duration::as_secs`); 0 for a clock set before the
/// epoch. Nothing is claimed of the reading.
#[verifier::external_body]
fn unix_now() -> u64 {
    SystemTime::now().duration_since(SystemTime::UNIX_EPOCH).unwrap_or_default().as_secs()
}

/// Access to the social network: the limit that the last answer reported.
#[derive(Debug, Clone)]
pub struct TwitterHandler {
    limiter: Option<RateLimit>,
}

impl TwitterHandler {
    /// What the last answer reported of the limit.
    pub closed spec fn limit(&self) -> Option<RateLimit> {
        self.limiter
    }

    /// A handler that knows of no limit yet.
    pub fn new() -> (r: TwitterHandler)
        ensures
            r.limit() is None,
    {
        TwitterHandler { limiter: None }
    }

    /// Takes over what an answer reported of the limit.
    pub fn record(&mut self, limit: RateLimit)
        ensures
            final(self).limit() == Some(limit),
    {
        self.limiter = Some(limit);
    }

    /// The token for a request at the time `now`: the error `RateLimited`
    /// while requests have to wait, else the configured token, or the error
    /// `NotConfigured` where there is none.
    pub fn token_at(&self, bearer_token: &Option<String>, now: u64) -> (r: Result<String, Error>)
        ensures
            limited(self.limit(), now) ==> r == Err::<String, Error>(Error::RateLimited),
            !limited(self.limit(), now) && bearer_token is None ==> r == Err::<String, Error>(
                Error::NotConfigured,
            ),
            !limited(self.limit(), now) && bearer_token is Some ==> r is Ok && r->Ok_0@
                == bearer_token->0@,
    {
        let waiting = match &self.limiter {
            Some(l) => {
                let reset: u64 = if l.reset < 0 {
                    u64::MAX - ((-(l.reset as i64) - 1) as u64)
                } else {
                    l.reset as u64
                };
                l.remaining == 0 && reset > now
            },
            None => false,
        };
        if waiting {
            return Err(Error::RateLimited);
        }
        match bearer_token {
            Some(token) => Ok(token.clone()),
            None => Err(Error::NotConfigured),
        }
    }

    /// The token for a request made now: `token_at` for the reading of the
    /// clock. Where requests are left in the window, or no limit is known,
    /// the clock decides nothing.
    pub fn get_token(&self, bearer_token: &Option<String>) -> (r: Result<String, Error>)
        ensures
            r is Ok ==> bearer_token is Some && r->Ok_0@ == bearer_token->0@,
            r is Err ==> (r->Err_0 == Error::RateLimited && may_wait(self.limit())) || (r->Err_0
                == Error::NotConfigured && bearer_token is None),
            !may_wait(self.limit()) && bearer_token is Some ==> r is Ok,
            !may_wait(self.limit()) && bearer_token is None ==> r == Err::<String, Error>(
                Error::NotConfigured,
            ),
    {
        self.token_at(bearer_token, unix_now())
    }
}

} // verus!
