//! Videos: what is kept of one, and the identifier that an address names.

use crate::error::Error;
use crate::irc_string::{safe, IrcString};
use crate::links::{same_text, Url, UrlView};
use crate::text::{parse_u64, to_chars, u64_of};
use chrono::DateTime;
use iso8601_duration::Duration as IsoDuration;
use std::time::Duration;
use vstd::prelude::*;

verus! {

/// The date, as `chrono::NaiveDate` displays it, of the local day of a time
/// that `chrono::DateTime::parse_from_rfc3339` reads from the text; `None`
/// where it reads none.
pub uninterp spec fn rfc3339_date(text: Seq<char>) -> Option<Seq<char>>;

/// The whole seconds of the duration that `iso8601_duration::Duration::parse`
/// reads from the text; `None` where it reads none, or one that is no fixed
/// number of seconds.
pub uninterp spec fn iso8601_seconds(text: Seq<char>) -> Option<u64>;

/// `chrono::DateTime::parse_from_rfc3339`, then `date_naive` and the display
/// of the date: the day of a time, as `rfc3339_date` names it.
#[verifier::external_body]
fn parse_date(text: &str) -> (r: Option<String>)
    ensures
        r.deep_view() == rfc3339_date(text@),
{
    DateTime::parse_from_rfc3339(text).ok().map(|d| d.date_naive().to_string())
}

/// `iso8601_duration::Duration::parse` and `num_seconds`, brought to whole
/// seconds through `std::time::Duration`: as `iso8601_seconds` names it.
#[verifier::external_body]
fn parse_seconds(text: &str) -> (r: Option<u64>)
    ensures
        r == iso8601_seconds(text@),
{
    let seconds = IsoDuration::parse(text).ok().and_then(|d| d.num_seconds());
    seconds.and_then(|s| Duration::try_from_secs_f32(s).ok()).map(|d| d.as_secs())
}

/// A video as the platform describes it.
pub struct YouTubeItem {
    pub id: String,
    pub title: String,
    pub description: String,
    pub channel_title: String,
    pub published_at: String,
    pub duration: String,
    pub view_count: String,
    pub like_count: String,
}

/// What is kept of a video.
#[derive(Clone, Debug, PartialEq)]
pub struct YouTube {
    pub id: IrcString,
    pub title: IrcString,
    pub description: IrcString,
    /// The day of publication, where the platform gave a time.
    pub published_at: Option<String>,
    /// The length in seconds.
    pub duration: u64,
    pub channel: IrcString,
    pub views: u64,
    pub likes: u64,
}

/// A number that is 0 where there is none.
pub open spec fn or_zero(n: Option<u64>) -> u64 {
    match n {
        Some(n) => n,
        None => 0,
    }
}

/// Whether `video` is what is kept of `item`: the texts sanitized, the day
/// of publication where the time given is one, and the length and the counts
/// as numbers, 0 where the text is none.
pub open spec fn is_video_of(item: YouTubeItem, video: YouTube) -> bool {
    &&& video.id@ == safe(item.id@)
    &&& video.title@ == safe(item.title@)
    &&& video.description@ == safe(item.description@)
    &&& video.channel@ == safe(item.channel_title@)
    &&& video.published_at.deep_view() == rfc3339_date(item.published_at@)
    &&& video.duration == or_zero(iso8601_seconds(item.duration@))
    &&& video.views == or_zero(u64_of(item.view_count@))
    &&& video.likes == or_zero(u64_of(item.like_count@))
}

impl YouTube {
    /// What is kept of a video, given the day of its publication and its
    /// length in seconds as far as they could be read: the texts sanitized,
    /// and the length and the counts as numbers, 0 where there is none.
    pub fn assemble(y: &YouTubeItem, published_at: Option<String>, seconds: Option<u64>) -> (r:
        YouTube)
        ensures
            r.id@ == safe(y.id@),
            r.title@ == safe(y.title@),
            r.description@ == safe(y.description@),
            r.channel@ == safe(y.channel_title@),
            r.published_at == published_at,
            r.duration == or_zero(seconds),
            r.views == or_zero(u64_of(y.view_count@)),
            r.likes == or_zero(u64_of(y.like_count@)),
    {
        YouTube {
            id: IrcString::from(y.id.as_str()),
            title: IrcString::from(y.title.as_str()),
            description: IrcString::from(y.description.as_str()),
            channel: IrcString::from(y.channel_title.as_str()),
            published_at,
            duration: match seconds {
                Some(n) => n,
                None => 0,
            },
            views: match parse_u64(y.view_count.as_str()) {
                Some(n) => n,
                None => 0,
            },
            likes: match parse_u64(y.like_count.as_str()) {
                Some(n) => n,
                None => 0,
            },
        }
    }

    /// What is kept of a video.
    pub fn from(y: &YouTubeItem) -> (r: YouTube)
        ensures
            is_video_of(*y, r),
    {
        let published_at = parse_date(y.published_at.as_str());
        let seconds = parse_seconds(y.duration.as_str());
        YouTube::assemble(y, published_at, seconds)
    }
}

/// The video of an answer: the last one listed. An answer that lists none is
/// the error `NoItems`.
pub fn pick_item(items: &Vec<YouTubeItem>) -> (r: Result<YouTube, Error>)
    ensures
        items@.len() == 0 ==> r == Err::<YouTube, Error>(Error::NoItems),
        items@.len() > 0 ==> r is Ok && is_video_of(items@.last(), r->Ok_0),
{
    if items.len() == 0 {
        Err(Error::NoItems)
    } else {
        Ok(YouTube::from(&items[items.len() - 1]))
    }
}

/// The characters of a video identifier.
pub open spec fn is_id_char(c: char) -> bool {
    ('a' <= c <= 'z') || ('A' <= c <= 'Z') || ('0' <= c <= '9') || c == '_' || c == '-'
}

/// Whether a text has the form of a video identifier: eleven characters,
/// each a letter or a digit of ASCII, `_` or `-`.
pub open spec fn is_id(s: Seq<char>) -> bool {
    s.len() == 11 && forall|i: int| 0 <= i < s.len() ==> is_id_char(#[trigger] s[i])
}

/// The text, if it has the form of a video identifier.
pub open spec fn id_of(s: Seq<char>) -> Option<Seq<char>> {
    if is_id(s) {
        Some(s)
    } else {
        None
    }
}

/// The value of the first pair of a query that has the key `key`.
pub open spec fn first_value(query: Seq<(Seq<char>, Seq<char>)>, key: Seq<char>) -> Option<
    Seq<char>,
>
    decreases query.len(),
{
    if query.len() == 0 {
        None
    } else if query[0].0 == key {
        Some(query[0].1)
    } else {
        first_value(query.skip(1), key)
    }
}

/// The segment of a path at `index`, where the address has a path that long.
pub open spec fn segment(path: Option<Seq<Seq<char>>>, index: int) -> Option<Seq<char>> {
    match path {
        Some(p) => if 0 <= index < p.len() {
            Some(p[index])
        } else {
            None
        },
        None => None,
    }
}

/// The identifier of the video that an address names: the first segment of
/// the path on the short domain; on the platform's own domain the segment
/// after `shorts` or `embed`, or the value of `v` in the query of `watch`.
/// `None` for any other address, and where what is found has not the form of
/// an identifier.
pub open spec fn youtube_id(url: UrlView) -> Option<Seq<char>> {
    match url.domain {
        None => None,
        Some(domain) => if domain == "youtu.be"@ {
            match segment(url.path, 0) {
                Some(first) => id_of(first),
                None => None,
            }
        } else if domain == "www.youtube.com"@ || domain == "youtube.com"@ {
            match segment(url.path, 0) {
                None => None,
                Some(first) => if first == "shorts"@ || first == "embed"@ {
                    match segment(url.path, 1) {
                        Some(second) => id_of(second),
                        None => None,
                    }
                } else if first == "watch"@ {
                    match first_value(url.query, "v"@) {
                        Some(value) => id_of(value),
                        None => None,
                    }
                } else {
                    None
                },
            }
        } else {
            None
        },
    }
}

/// The text as an identifier, if it has the form of one.
pub fn maybe_id(id: &str) -> (r: Option<String>)
    ensures
        r.deep_view() == id_of(id@),
{
    let chars = to_chars(id);
    if chars.len() != 11 {
        return None;
    }
    let mut i: usize = 0;
    while i < chars.len()
        invariant
            i <= chars.len(),
            chars@ == id@,
            forall|j: int| 0 <= j < i ==> is_id_char(#[trigger] chars@[j]),
        decreases chars.len() - i,
    {
        let c = chars[i];
        if !(('a' <= c && c <= 'z') || ('A' <= c && c <= 'Z') || ('0' <= c && c <= '9') || c == '_'
            || c == '-') {
            assert(!is_id_char(id@[i as int]));
            return None;
        }
        i = i + 1;
    }
    Some(id.to_owned())
}

/// The segment of a path at `index`.
fn segment_at(path: Option<&Vec<String>>, index: usize) -> (r: Option<&str>)
    ensures
        r.deep_view() == segment(path.deep_view(), index as int),
{
    match path {
        Some(p) => if index < p.len() {
            Some(p[index].as_str())
        } else {
            None
        },
        None => None,
    }
}

/// The value of the first pair with the key `key`.
fn value_of<'a>(query: &'a Vec<(String, String)>, key: &str) -> (r: Option<&'a str>)
    ensures
        r.deep_view() == first_value(query.deep_view(), key@),
{
    let mut i: usize = 0;
    assert(query.deep_view().skip(0) =~= query.deep_view());
    while i < query.len()
        invariant
            i <= query.len(),
            first_value(query.deep_view(), key@) == first_value(
                query.deep_view().skip(i as int),
                key@,
            ),
        decreases query.len() - i,
    {
        let ghost rest = query.deep_view().skip(i as int);
        assert(rest[0] == query@[i as int].deep_view());
        assert(rest.skip(1) =~= query.deep_view().skip(i + 1));
        if same_text(query[i].0.as_str(), key) {
            return Some(query[i].1.as_str());
        }
        i = i + 1;
    }
    None
}

/// The identifier of the video that an address names.
pub fn extract_youtube_id(url: &Url) -> (r: Option<String>)
    ensures
        r.deep_view() == youtube_id(url@),
{
    let domain = match url.domain() {
        Some(d) => d,
        None => {
            return None;
        },
    };
    if same_text(domain, "youtu.be") {
        match segment_at(url.path_segments(), 0) {
            Some(first) => maybe_id(first),
            None => None,
        }
    } else if same_text(domain, "www.youtube.com") || same_text(domain, "youtube.com") {
        match segment_at(url.path_segments(), 0) {
            None => None,
            Some(first) => {
                if same_text(first, "shorts") || same_text(first, "embed") {
                    match segment_at(url.path_segments(), 1) {
                        Some(second) => maybe_id(second),
                        None => None,
                    }
                } else if same_text(first, "watch") {
                    match value_of(url.query_pairs(), "v") {
                        Some(value) => maybe_id(value),
                        None => None,
                    }
                } else {
                    None
                }
            },
        }
    } else {
        None
    }
}

} // verus!
