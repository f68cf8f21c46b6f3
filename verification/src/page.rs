//! Web pages: whether an answer is looked at, how much of it is read, and
//! what is kept of the page.

use crate::error::Error;
use crate::irc_string::{safe, IrcString};
use crate::links::{same_text, Url};
use scraper::{Html, Selector};
use vstd::prelude::*;

verus! {

/// The selector of the title of a page.
pub const TITLE: &'static str = "title";

/// The selector of the elements that describe a page.
pub const DESCRIPTION: &'static str =
    "meta[name=\"description\"], meta[name=\"twitter:description\"], meta[property=\"og:description\"]";

/// The attribute that holds the description.
pub const CONTENT: &'static str = "content";

/// The text that `String::from_utf8_lossy` makes of bytes.
pub uninterp spec fn utf8_lossy(bytes: Seq<u8>) -> Seq<char>;

/// The type and the full text of the media type that `mime::Mime` reads from
/// a text (`type_`, `to_string`); `None` where it reads none.
pub uninterp spec fn mime_of(text: Seq<char>) -> Option<(Seq<char>, Seq<char>)>;

/// The text (`ElementRef::text`, collected) of the first element that the
/// selector selects in the document that `scraper::Html::parse_document`
/// reads; `None` where it selects none, or is no selector.
pub uninterp spec fn html_first_text(html: Seq<char>, selector: Seq<char>) -> Option<Seq<char>>;

/// The value of the attribute `attr` of the first element that the selector
/// selects in the document that `scraper::Html::parse_document` reads; `None`
/// where it selects none, the element has no such attribute, or the selector
/// is none.
pub uninterp spec fn html_first_attr(
    html: Seq<char>,
    selector: Seq<char>,
    attr: Seq<char>,
) -> Option<Seq<char>>;

/// Whether `ip_rfc::global` counts the address that a text names as
/// globally routable; `None` where the text names no address.
pub uninterp spec fn ip_global(address: Seq<char>) -> Option<bool>;

/// The text that `html_escape::decode_html_entities` makes of a text.
pub uninterp spec fn entities_decoded(text: Seq<char>) -> Seq<char>;

/// `String::from_utf8_lossy`.
#[verifier::external_body]
fn lossy_text(bytes: &Vec<u8>) -> (r: String)
    ensures
        r@ == utf8_lossy(bytes@),
{
    String::from_utf8_lossy(bytes).into_owned()
}

/// `mime::Mime::from_str`, with `type_` and `to_string` to read the result.
#[verifier::external_body]
fn parse_mime(text: &str) -> (r: Option<(String, String)>)
    ensures
        r.deep_view() == mime_of(text@),
{
    text.parse::<mime::Mime>().ok().map(|m| (m.type_().as_str().to_string(), m.to_string()))
}

/// `scraper::Selector::parse`, `scraper::Html::parse_document` and
/// `Html::select`: the text of the first element selected.
#[verifier::external_body]
fn first_text(html: &str, selector: &str) -> (r: Option<String>)
    ensures
        r.deep_view() == html_first_text(html@, selector@),
{
    let selector = Selector::parse(selector).ok()?;
    Html::parse_document(html).select(&selector).next().map(|n| n.text().collect::<String>())
}

/// `scraper::Selector::parse`, `scraper::Html::parse_document` and
/// `Html::select`: an attribute (`Element::attr`) of the first element
/// selected.
#[verifier::external_body]
fn first_attr(html: &str, selector: &str, attr: &str) -> (r: Option<String>)
    ensures
        r.deep_view() == html_first_attr(html@, selector@, attr@),
{
    let selector = Selector::parse(selector).ok()?;
    let document = Html::parse_document(html);
    document.select(&selector).next().and_then(|n| n.value().attr(attr).map(|v| v.to_string()))
}

/// `ip_rfc::global` on the address that the text names (`str::parse`):
/// whether the address is globally routable, or `None` where the text names
/// none.
#[verifier::external_body]
fn address_global(address: &str) -> (r: Option<bool>)
    ensures
        r == ip_global(address@),
{
    address.parse().ok().map(|ip| ip_rfc::global(&ip))
}

/// `html_escape::decode_html_entities`.
#[verifier::external_body]
fn decode_entities(text: &str) -> (r: String)
    ensures
        r@ == entities_decoded(text@),
{
    html_escape::decode_html_entities(text).into_owned()
}

/// What is known of an answer before its body is read.
pub struct ResponseHead {
    /// Whether the status is a success.
    pub success: bool,
    /// The status as text.
    pub status: String,
    /// The address that answered, where it is known.
    pub remote: Option<String>,
    /// The content type, where the answer names one that is text.
    pub content_type: Option<String>,
}

/// Whether an answer may not be used for where it came from: only globally
/// routable addresses are allowed, and its address is known not to be one.
pub open spec fn restricted(globally_routable_only: bool, remote_is_global: Option<bool>) -> bool {
    globally_routable_only && remote_is_global == Some(false)
}

/// Whether a media type, given by its type and its full text, is no text.
pub open spec fn not_text(media: Option<(Seq<char>, Seq<char>)>) -> bool {
    match media {
        Some((kind, full)) => kind != "text"@,
        None => false,
    }
}

/// The full text of a media type.
pub open spec fn full_text(media: Option<(Seq<char>, Seq<char>)>) -> Option<Seq<char>> {
    match media {
        Some((kind, full)) => Some(full),
        None => None,
    }
}

/// Whether the address that answered is globally routable, where it is
/// known and an address.
pub open spec fn remote_global(head: ResponseHead) -> Option<bool> {
    match head.remote {
        Some(address) => ip_global(address@),
        None => None,
    }
}

/// The media type of an answer, where it names one that can be read.
pub open spec fn media_type(head: ResponseHead) -> Option<(Seq<char>, Seq<char>)> {
    match head.content_type {
        Some(text) => mime_of(text@),
        None => None,
    }
}

/// Decides whether an answer is looked at, given whether it came from a
/// globally routable address and what its media type is. It is not where
/// its status is no success, where its address is restricted, or where it
/// is no text: the first of these that holds is the error.
pub fn check_answer(
    head: &ResponseHead,
    globally_routable_only: bool,
    remote_is_global: Option<bool>,
    media: Option<(String, String)>,
) -> (r: Result<(), Error>)
    ensures
        !head.success ==> r is Err && r->Err_0 is Status && r->Err_0->Status_0@ == head.status@,
        head.success && restricted(globally_routable_only, remote_is_global) ==> r == Err::<
            (),
            Error,
        >(Error::RestrictedIp),
        head.success && !restricted(globally_routable_only, remote_is_global) && not_text(
            media.deep_view(),
        ) ==> r is Err && r->Err_0 is IgnoredMime && Some(r->Err_0->IgnoredMime_0@) == full_text(
            media.deep_view(),
        ),
        head.success && !restricted(globally_routable_only, remote_is_global) && !not_text(
            media.deep_view(),
        ) ==> r is Ok,
{
    if !head.success {
        return Err(Error::Status(head.status.clone()));
    }
    if globally_routable_only {
        match remote_is_global {
            Some(global) => {
                if !global {
                    return Err(Error::RestrictedIp);
                }
            },
            None => {},
        }
    }
    match media {
        Some((kind, full)) => {
            if !same_text(kind.as_str(), "text") {
                return Err(Error::IgnoredMime(full));
            }
        },
        None => {},
    }
    Ok(())
}

/// Decides whether an answer is looked at: `check_answer` for the address
/// that answered and the media type that the answer names.
pub fn check_head(head: &ResponseHead, globally_routable_only: bool) -> (r: Result<(), Error>)
    ensures
        !head.success ==> r is Err && r->Err_0 is Status && r->Err_0->Status_0@ == head.status@,
        head.success && restricted(globally_routable_only, remote_global(*head)) ==> r == Err::<
            (),
            Error,
        >(Error::RestrictedIp),
        head.success && !restricted(globally_routable_only, remote_global(*head)) && not_text(
            media_type(*head),
        ) ==> r is Err && r->Err_0 is IgnoredMime && Some(r->Err_0->IgnoredMime_0@) == full_text(
            media_type(*head),
        ),
        head.success && !restricted(globally_routable_only, remote_global(*head)) && !not_text(
            media_type(*head),
        ) ==> r is Ok,
{
    let remote_is_global = match &head.remote {
        Some(address) => address_global(address.as_str()),
        None => None,
    };
    let media = match &head.content_type {
        Some(text) => parse_mime(text.as_str()),
        None => None,
    };
    check_answer(head, globally_routable_only, remote_is_global, media)
}

/// The body of a page while it is read, and the limits of the reading.
pub struct PageReader {
    buf: Vec<u8>,
    byte_limit: usize,
    chunks_left: u16,
}

impl PageReader {
    /// The bytes read so far.
    pub closed spec fn body(&self) -> Seq<u8> {
        self.buf@
    }

    /// The number of bytes from which on no more is read.
    pub closed spec fn byte_limit(&self) -> nat {
        self.byte_limit as nat
    }

    /// The number of chunks that may still be read.
    pub closed spec fn chunks_left(&self) -> nat {
        self.chunks_left as nat
    }

    /// A reader that has read nothing.
    pub fn new(max_kb: u16, max_chunks: u16) -> (r: PageReader)
        ensures
            r.body() == Seq::<u8>::empty(),
            r.byte_limit() == max_kb * 1024,
            r.chunks_left() == max_chunks,
    {
        PageReader { buf: Vec::new(), byte_limit: max_kb as usize * 1024, chunks_left: max_chunks }
    }

    /// Takes one more chunk, and says whether another is wanted: it is not
    /// once the bytes have reached their limit or the chunks are used up.
    /// The first chunk is always taken.
    pub fn push(&mut self, chunk: &[u8]) -> (more: bool)
        ensures
            final(self).body() == old(self).body() + chunk@,
            final(self).byte_limit() == old(self).byte_limit(),
            final(self).chunks_left() == if old(self).chunks_left() > 0 {
                old(self).chunks_left() - 1
            } else {
                0
            },
            more == (final(self).body().len() < final(self).byte_limit()
                && final(self).chunks_left() > 0),
    {
        self.buf.extend_from_slice(chunk);
        if self.chunks_left > 0 {
            self.chunks_left = self.chunks_left - 1;
        }
        self.buf.len() < self.byte_limit && self.chunks_left > 0
    }

    /// The bytes that were read.
    pub fn into_body(self) -> (r: Vec<u8>)
        ensures
            r@ == self.body(),
    {
        self.buf
    }
}

/// What is kept of a page: where it is, its title and its description.
#[derive(Clone, Debug, PartialEq)]
pub struct UrlInfo {
    pub url: Url,
    pub title: IrcString,
    pub desc: Option<IrcString>,
}

/// What is kept of the summary of an article: its title, and its extract
/// as the description.
pub fn wiki_info(url: Url, title: &str, extract: &str) -> (r: UrlInfo)
    ensures
        r.url == url,
        r.title@ == safe(title@),
        r.desc is Some,
        r.desc->0@ == safe(extract@),
{
    UrlInfo { url, title: IrcString::from(title), desc: Some(IrcString::from(extract)) }
}

/// A text sanitized, unless nothing is left of it.
pub open spec fn safe_nonempty(text: Option<Seq<char>>) -> Option<Seq<char>> {
    match text {
        Some(t) => if safe(t).len() > 0 {
            Some(safe(t))
        } else {
            None
        },
        None => None,
    }
}

/// The title of a page: the text of its first `title` element.
pub open spec fn page_title(html: Seq<char>) -> Option<Seq<char>> {
    safe_nonempty(html_first_text(html, TITLE@))
}

/// The description of a page: the content of the first element that gives
/// one, with its character references decoded.
pub open spec fn page_description(html: Seq<char>) -> Option<Seq<char>> {
    safe_nonempty(
        match html_first_attr(html, DESCRIPTION@, CONTENT@) {
            Some(content) => Some(entities_decoded(content)),
            None => None,
        },
    )
}

/// What is kept of a page with the given title and description, each as
/// the page gives it: both are sanitized, and one of which nothing is left
/// counts as missing. A page without a title is the error `NoTitle`.
pub fn page_from(url: Url, title: Option<String>, description: Option<String>) -> (r: Result<
    UrlInfo,
    Error,
>)
    ensures
        safe_nonempty(title.deep_view()) is None ==> r == Err::<UrlInfo, Error>(Error::NoTitle),
        safe_nonempty(title.deep_view()) is Some ==> {
            &&& r is Ok
            &&& r->Ok_0.url == url
            &&& Some(r->Ok_0.title@) == safe_nonempty(title.deep_view())
            &&& r->Ok_0.desc.is_some() == safe_nonempty(description.deep_view()).is_some()
            &&& r->Ok_0.desc is Some ==> Some(r->Ok_0.desc->0@) == safe_nonempty(
                description.deep_view(),
            )
        },
{
    let title = match title {
        Some(text) => {
            let title = IrcString::from(text.as_str());
            if title.is_empty() {
                return Err(Error::NoTitle);
            }
            title
        },
        None => {
            return Err(Error::NoTitle);
        },
    };
    let desc = match description {
        Some(text) => {
            let desc = IrcString::from(text.as_str());
            if desc.is_empty() {
                None
            } else {
                Some(desc)
            }
        },
        None => None,
    };
    Ok(UrlInfo { url, title, desc })
}

/// Reads the title and the description out of the body of a page. A page
/// without a title is the error `NoTitle`.
pub fn page_info(url: Url, body: &Vec<u8>) -> (r: Result<UrlInfo, Error>)
    ensures
        page_title(utf8_lossy(body@)) is None ==> r == Err::<UrlInfo, Error>(Error::NoTitle),
        page_title(utf8_lossy(body@)) is Some ==> {
            &&& r is Ok
            &&& r->Ok_0.url == url
            &&& Some(r->Ok_0.title@) == page_title(utf8_lossy(body@))
            &&& r->Ok_0.desc.is_some() == page_description(utf8_lossy(body@)).is_some()
            &&& r->Ok_0.desc is Some ==> Some(r->Ok_0.desc->0@) == page_description(
                utf8_lossy(body@),
            )
        },
{
    let html = lossy_text(body);
    let title = first_text(html.as_str(), TITLE);
    let description = match first_attr(html.as_str(), DESCRIPTION, CONTENT) {
        Some(content) => Some(decode_entities(content.as_str())),
        None => None,
    };
    page_from(url, title, description)
}

} // verus!
