//! The lines that are sent for the result of a command.

use crate::command::Info;
use crate::config::BotConfig;
use crate::error::Error;
use crate::irc_string::{marked, sanitize, sanitized, truncated};
use crate::omdb::Movie;
use crate::page::UrlInfo;
use crate::text::{decimal, push_decimal, push_two_digits, two_digits};
use crate::wolfram::WolframPod;
use crate::youtube::YouTube;
use num_format::{Locale, ToFormattedString};
use vstd::prelude::*;
use vstd::string::StringExecFns;

verus! {

/// The number of pods of an answer that are sent at most.
pub const POD_LINES: usize = 3;

/// A number below 1000 as three decimal digits.
pub open spec fn three_digits(n: nat) -> Seq<char> {
    seq![
        (((n / 100) + 0x30) as u8) as char,
        ((((n / 10) % 10) + 0x30) as u8) as char,
        (((n % 10) + 0x30) as u8) as char,
    ]
}

/// A number in decimal digits, with a comma before every group of three
/// digits, counted from the right.
pub open spec fn grouped_en(n: nat) -> Seq<char>
    decreases n,
{
    if n < 1000 {
        decimal(n)
    } else {
        grouped_en(n / 1000) + ","@ + three_digits(n % 1000)
    }
}

/// `num_format::ToFormattedString::to_formatted_string` with `Locale::en`,
/// whose grouping is the standard one, in threes, and whose separator is a
/// comma.
#[verifier::external_body]
fn group_digits(n: u64) -> (r: String)
    ensures
        r@ == grouped_en(n as nat),
{
    n.to_formatted_string(&Locale::en)
}

/// A text cut to `max` bytes, with the mark of the cut.
pub open spec fn shown(text: Seq<char>, max: nat) -> Seq<char> {
    marked(truncated(text, max))
}

/// The line for a title of the movie database.
pub open spec fn movie_line(movie: Movie) -> Seq<char> {
    "[\x0303IMDB\x0f] \x0304"@ + shown(movie.title@, 30) + "\x0f ("@ + movie.released@ + ") ["@
        + movie.imdb_rating@ + "/10 with "@ + movie.imdb_votes@ + " votes, Metascore: "@
        + movie.metascore@ + "] ["@ + movie.rated@ + "] ["@ + movie.genre@
        + "] \x0303https://www.imdb.com/title/"@ + movie.imdb_id@ + "\x0f - \x0300\x02\x02"@
        + movie.plot@ + "\x0f"@
}

/// Writes the line for a title of the movie database.
pub fn format_movie(movie: &Movie) -> (r: String)
    ensures
        r@ == movie_line(*movie),
{
    let mut r = String::from_str("[\x0303IMDB\x0f] \x0304");
    r.append(movie.title.trunc(30).to_string().as_str());
    r.append("\x0f (");
    r.append(movie.released.as_str());
    r.append(") [");
    r.append(movie.imdb_rating.as_str());
    r.append("/10 with ");
    r.append(movie.imdb_votes.as_str());
    r.append(" votes, Metascore: ");
    r.append(movie.metascore.as_str());
    r.append("] [");
    r.append(movie.rated.as_str());
    r.append("] [");
    r.append(movie.genre.as_str());
    r.append("] \x0303https://www.imdb.com/title/");
    r.append(movie.imdb_id.as_str());
    r.append("\x0f - \x0300\x02\x02");
    r.append(movie.plot.as_str());
    r.append("\x0f");
    r
}

/// A length in seconds as hours, minutes and seconds; the hours are left
/// out where there are none.
pub open spec fn clock(secs: u64) -> Seq<char> {
    let seconds = (secs % 60) as nat;
    let minutes = ((secs / 60) % 60) as nat;
    let hours = ((secs / 60) / 60) as nat;
    if hours > 0 {
        decimal(hours) + ":"@ + two_digits(minutes) + ":"@ + two_digits(seconds)
    } else {
        decimal(minutes) + ":"@ + two_digits(seconds)
    }
}

/// Writes a length in seconds as hours, minutes and seconds.
pub fn format_clock(secs: u64) -> (r: String)
    ensures
        r@ == clock(secs),
{
    let seconds: u64 = secs % 60;
    let minutes: u64 = (secs / 60) % 60;
    let hours: u64 = (secs / 60) / 60;
    let mut r = String::new();
    if hours > 0 {
        push_decimal(&mut r, hours);
        r.append(":");
        push_two_digits(&mut r, minutes);
    } else {
        push_decimal(&mut r, minutes);
    }
    r.append(":");
    push_two_digits(&mut r, seconds);
    assert(r@ =~= clock(secs));
    r
}

/// The day of publication as it stands in a line.
pub open spec fn dated(published_at: Option<String>) -> Seq<char> {
    match published_at {
        Some(day) => " @ "@ + day@,
        None => Seq::empty(),
    }
}

/// The line for a video, with its views and its likes as they are
/// written.
pub open spec fn video_line(item: YouTube, views: Seq<char>, likes: Seq<char>) -> Seq<char> {
    "[\x0303"@ + shown(item.channel@, 16) + "\x0f"@ + dated(item.published_at)
        + "] \x0304\x02\x02"@ + shown(item.title@, 40) + "\x0f - \"\x0300\x02\x02"@ + shown(
        item.description@,
        200,
    ) + "\x0f\" ["@ + clock(item.duration) + "] "@ + views + " views ❤️"@ + likes
}

/// The line for a video: the counts are written with their digits in
/// groups.
pub open spec fn youtube_line(item: YouTube) -> Seq<char> {
    video_line(item, grouped_en(item.views as nat), grouped_en(item.likes as nat))
}

/// Writes the line for a video, given its views and its likes as they are
/// written.
pub fn format_video(item: &YouTube, views: &str, likes: &str) -> (r: String)
    ensures
        r@ == video_line(*item, views@, likes@),
{
    let mut r = String::from_str("[\x0303");
    r.append(item.channel.trunc(16).to_string().as_str());
    r.append("\x0f");
    let ghost before = r@;
    match &item.published_at {
        Some(day) => {
            r.append(" @ ");
            r.append(day.as_str());
            assert(r@ =~= before + dated(item.published_at));
        },
        None => {
            assert(r@ =~= before + dated(item.published_at));
        },
    }
    r.append("] \x0304\x02\x02");
    r.append(item.title.trunc(40).to_string().as_str());
    r.append("\x0f - \"\x0300\x02\x02");
    r.append(item.description.trunc(200).to_string().as_str());
    r.append("\x0f\" [");
    r.append(format_clock(item.duration).as_str());
    r.append("] ");
    r.append(views);
    r.append(" views ❤️");
    r.append(likes);
    r
}

/// Writes the line for a video.
pub fn format_youtube(item: &YouTube) -> (r: String)
    ensures
        r@ == youtube_line(*item),
{
    let views = group_digits(item.views);
    let likes = group_digits(item.likes);
    format_video(item, views.as_str(), likes.as_str())
}

/// The line for a pod: its title and its first value.
pub open spec fn pod_line(pod: WolframPod) -> Seq<char> {
    "[\x0303WolframAlpha\x0f] \x0304\x02\x02"@ + shown(pod.title@, 40) + "\x0f: \x0300\x02\x02"@
        + shown(pod.values@[0]@, 200) + "\x0f"@
}

/// The lines for the pods: one for each of them that has a value.
pub open spec fn pod_lines(pods: Seq<WolframPod>) -> Seq<Seq<char>>
    decreases pods.len(),
{
    if pods.len() == 0 {
        Seq::empty()
    } else if pods.last().values@.len() > 0 {
        pod_lines(pods.drop_last()).push(pod_line(pods.last()))
    } else {
        pod_lines(pods.drop_last())
    }
}

/// The lines for an answer of the computational engine: those of its first
/// [`POD_LINES`] pods.
pub open spec fn wolfram_lines(pods: Seq<WolframPod>) -> Seq<Seq<char>> {
    if pods.len() <= POD_LINES {
        pod_lines(pods)
    } else {
        pod_lines(pods.take(POD_LINES as int))
    }
}

/// Writes the lines for an answer of the computational engine.
pub fn format_wolfram(pods: &Vec<WolframPod>) -> (r: Vec<String>)
    ensures
        r.deep_view() == wolfram_lines(pods@),
{
    let mut lines: Vec<String> = Vec::new();
    let count: usize = if pods.len() <= POD_LINES {
        pods.len()
    } else {
        POD_LINES
    };
    let mut i: usize = 0;
    assert(pods@.take(0) =~= Seq::<WolframPod>::empty());
    assert(lines.deep_view() =~= pod_lines(pods@.take(0)));
    while i < count
        invariant
            i <= count <= pods.len(),
            lines.deep_view() == pod_lines(pods@.take(i as int)),
        decreases count - i,
    {
        assert(pods@.take(i + 1).drop_last() =~= pods@.take(i as int));
        assert(pods@.take(i + 1).last() == pods@[i as int]);
        let pod = &pods[i];
        if pod.values.len() > 0 {
            let ghost before = lines.deep_view();
            let mut line = String::from_str("[\x0303WolframAlpha\x0f] \x0304\x02\x02");
            line.append(pod.title.trunc(40).to_string().as_str());
            line.append("\x0f: \x0300\x02\x02");
            line.append(pod.values[0].trunc(200).to_string().as_str());
            line.append("\x0f");
            lines.push(line);
            assert(lines.deep_view() =~= before.push(pod_line(pods@[i as int])));
        }
        i = i + 1;
    }
    assert(pods@.take(pods@.len() as int) =~= pods@);
    lines
}

/// The host of a page as it stands in a line.
pub open spec fn host_shown(info: UrlInfo) -> Seq<char> {
    sanitized(
        match info.url@.host {
            Some(host) => host,
            None => Seq::empty(),
        },
        30,
    )
}

/// The line for the title of a page.
pub open spec fn title_line(info: UrlInfo) -> Seq<char> {
    "[\x0303\x02\x02"@ + host_shown(info) + "\x0f] \x0300\x02\x02"@ + shown(info.title@, 380)
        + "\x0f"@
}

/// The line for the description of a page.
pub open spec fn description_line(info: UrlInfo, desc: Seq<char>) -> Seq<char> {
    "[\x0303"@ + host_shown(info) + "\x02\x02\x0f] \x0300\x02\x02"@ + shown(desc, 380) + "\x0f"@
}

/// The lines for a page: its title, and its description where it has one
/// and descriptions are wanted.
pub open spec fn url_lines(info: UrlInfo, include_description: bool) -> Seq<Seq<char>> {
    match info.desc {
        Some(desc) => if include_description {
            seq![title_line(info), description_line(info, desc@)]
        } else {
            seq![title_line(info)]
        },
        None => seq![title_line(info)],
    }
}

/// Writes the lines for a page.
pub fn format_url(info: &UrlInfo, include_description: bool) -> (r: Vec<String>)
    ensures
        r.deep_view() == url_lines(*info, include_description),
{
    let host = match info.url.host_str() {
        Some(host) => sanitize(host, 30),
        None => sanitize("", 30),
    };
    proof {
        reveal_strlit("");
        assert(""@ =~= Seq::<char>::empty());
    }
    let mut lines: Vec<String> = Vec::new();
    let mut title = String::from_str("[\x0303\x02\x02");
    title.append(host.as_str());
    title.append("\x0f] \x0300\x02\x02");
    title.append(info.title.trunc(380).to_string().as_str());
    title.append("\x0f");
    lines.push(title);
    if include_description {
        match &info.desc {
            Some(desc) => {
                let mut line = String::from_str("[\x0303");
                line.append(host.as_str());
                line.append("\x02\x02\x0f] \x0300\x02\x02");
                line.append(desc.trunc(380).to_string().as_str());
                line.append("\x0f");
                lines.push(line);
            },
            None => {},
        }
    }
    assert(lines.deep_view() =~= url_lines(*info, include_description));
    lines
}

/// The lines for what a command resolved to. Nothing is sent for a post or
/// a user of the social network.
pub open spec fn response_lines(info: Info, config: BotConfig) -> Seq<Seq<char>> {
    match info {
        Info::Url(page) => url_lines(page, config.url.include_description),
        Info::Movie(movie) => seq![movie_line(movie)],
        Info::YouTube(item) => seq![youtube_line(item)],
        Info::Wolfram(pods) => wolfram_lines(pods@),
        Info::Tweet(_) => Seq::empty(),
        Info::Tweeter(_) => Seq::empty(),
    }
}

/// Writes the lines for what a command resolved to.
pub fn display_response(info: &Info, config: &BotConfig) -> (r: Vec<String>)
    ensures
        r.deep_view() == response_lines(*info, *config),
{
    match info {
        Info::Url(page) => format_url(page, config.url.include_description),
        Info::Movie(movie) => {
            let mut lines: Vec<String> = Vec::new();
            lines.push(format_movie(movie));
            assert(lines.deep_view() =~= seq![movie_line(*movie)]);
            lines
        },
        Info::YouTube(item) => {
            let mut lines: Vec<String> = Vec::new();
            lines.push(format_youtube(item));
            assert(lines.deep_view() =~= seq![youtube_line(*item)]);
            lines
        },
        Info::Wolfram(pods) => format_wolfram(pods),
        Info::Tweet(_) => {
            let lines: Vec<String> = Vec::new();
            assert(lines.deep_view() =~= Seq::<Seq<char>>::empty());
            lines
        },
        Info::Tweeter(_) => {
            let lines: Vec<String> = Vec::new();
            assert(lines.deep_view() =~= Seq::<Seq<char>>::empty());
            lines
        },
    }
}

/// The lines for the resolution of a command: those of its result, and
/// none for an error.
pub open spec fn reply_lines(result: Result<Info, Error>, config: BotConfig) -> Seq<Seq<char>> {
    match result {
        Ok(info) => response_lines(info, config),
        Err(_) => Seq::empty(),
    }
}

/// Writes the lines for the resolution of a command. A command that failed
/// is passed over in silence.
pub fn reply(result: &Result<Info, Error>, config: &BotConfig) -> (r: Vec<String>)
    ensures
        r.deep_view() == reply_lines(*result, *config),
{
    match result {
        Ok(info) => display_response(info, config),
        Err(_) => {
            let lines: Vec<String> = Vec::new();
            assert(lines.deep_view() =~= Seq::<Seq<char>>::empty());
            lines
        },
    }
}

} // verus!
