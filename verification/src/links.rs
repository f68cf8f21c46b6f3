//! Web addresses: the parsed form that the rest of the library reads, and the
//! addresses found in a line of chat.

use regex::RegexSet;
use vstd::prelude::*;
use vstd::string::StringExecFns;

verus! {

/// The host that stands in for the social network.
pub const MIRROR_HOST: &'static str = "uk.unofficialbird.com";

/// Why a text is no address.
#[derive(Clone, Copy, Debug, PartialEq, Eq, Structural)]
pub enum ParseError {
    /// The text has no scheme, and there is no base to resolve it against.
    RelativeUrlWithoutBase,
    /// Any other fault.
    Other,
}

/// What is read of a parsed address.
pub struct UrlView {
    /// The address as text, in normal form.
    pub text: Seq<char>,
    /// The host, where there is one.
    pub host: Option<Seq<char>>,
    /// The host where it is a domain name, not an IP address.
    pub domain: Option<Seq<char>>,
    /// The path split at `/`, unless the address cannot be a base.
    pub path: Option<Seq<Seq<char>>>,
    /// The decoded pairs of the query, in their order.
    pub query: Seq<(Seq<char>, Seq<char>)>,
}

/// A parsed address.
#[derive(Clone, Debug, PartialEq, Eq, Hash, PartialOrd, Ord)]
pub struct Url {
    text: String,
    host: Option<String>,
    domain: Option<String>,
    path: Option<Vec<String>>,
    query: Vec<(String, String)>,
}

/// What `url::Url::parse` makes of a text: the parts of the address, or the
/// reason why it is none.
pub uninterp spec fn url_parse(text: Seq<char>) -> Result<UrlView, ParseError>;

/// The text of the address that `url::Url::set_host` leaves when the address
/// `text` is given the host `host`.
pub uninterp spec fn url_with_host(text: Seq<char>, host: Seq<char>) -> Seq<char>;

/// The addresses that `egg_mode_text::url_entities` finds in a text, in their
/// order, each as it stands in the text.
pub uninterp spec fn url_entities_of(text: Seq<char>) -> Seq<Seq<char>>;

/// Whether one of the patterns matches the text, as `regex::RegexSet`
/// decides it; `None` where `RegexSet::new` refuses the patterns.
pub uninterp spec fn regex_set_match(patterns: Seq<Seq<char>>, text: Seq<char>) -> Option<bool>;

impl View for Url {
    type V = UrlView;

    closed spec fn view(&self) -> UrlView {
        UrlView {
            text: self.text@,
            host: self.host.deep_view(),
            domain: self.domain.deep_view(),
            path: self.path.deep_view(),
            query: self.query.deep_view(),
        }
    }
}

/// `url::Url::parse`, with `as_str`, `host_str`, `domain`, `path_segments` and
/// `query_pairs` to read the parts: the result is what `url_parse` names.
#[verifier::external_body]
fn parse_parts(text: &str) -> (r: Result<Url, ParseError>)
    ensures
        r is Ok ==> url_parse(text@) == Ok::<UrlView, ParseError>(r->Ok_0@),
        r is Err ==> url_parse(text@) == Err::<UrlView, ParseError>(r->Err_0),
{
    match ::url::Url::parse(text) {
        Ok(u) => Ok(Url {
            text: u.as_str().to_string(),
            host: u.host_str().map(|h| h.to_string()),
            domain: u.domain().map(|d| d.to_string()),
            path: u.path_segments().map(|p| p.map(|s| s.to_string()).collect()),
            query: u.query_pairs().map(|(k, v)| (k.into_owned(), v.into_owned())).collect(),
        }),
        Err(::url::ParseError::RelativeUrlWithoutBase) => Err(ParseError::RelativeUrlWithoutBase),
        Err(_) => Err(ParseError::Other),
    }
}

/// `url::Url::set_host` on the address parsed from `text`: the text of the
/// address that it leaves, which is the address unchanged where the host is
/// refused. A text that is no address is left out: there is nothing to set
/// a host on.
#[verifier::external_body]
fn text_with_host(text: &str, host: &str) -> (r: String)
    requires
        url_parse(text@) is Ok,
    ensures
        r@ == url_with_host(text@, host@),
{
    let mut u = ::url::Url::parse(text).unwrap();
    let _ = u.set_host(Some(host));
    u.as_str().to_string()
}

/// `egg_mode_text::url_entities`, each entity as the text it covers
/// (`Entity::substr`).
#[verifier::external_body]
fn url_entities(text: &str) -> (r: Vec<String>)
    ensures
        r.deep_view() == url_entities_of(text@),
{
    egg_mode_text::url_entities(text).into_iter().map(|e| e.substr(text).to_string()).collect()
}

/// `regex::RegexSet::new` and `RegexSet::is_match`: whether one of the
/// patterns matches the text, or `None` for patterns that do not compile.
#[verifier::external_body]
fn any_match(patterns: &Vec<String>, text: &str) -> (r: Option<bool>)
    ensures
        r == regex_set_match(patterns.deep_view(), text@),
{
    RegexSet::new(patterns).ok().map(|set| set.is_match(text))
}

/// Whether the patterns are patterns: whether `regex::RegexSet::new` takes
/// them.
pub fn valid_patterns(patterns: &Vec<String>) -> (r: bool)
    ensures
        r == regex_set_match(patterns.deep_view(), Seq::empty()) is Some,
{
    proof {
        reveal_strlit("");
        assert(""@ =~= Seq::<char>::empty());
    }
    any_match(patterns, "").is_some()
}

/// Compares two texts.
pub fn same_text(a: &str, b: &str) -> (r: bool)
    ensures
        r == (a@ == b@),
{
    let x = a.to_owned();
    let y = b.to_owned();
    x == y
}

impl Url {
    /// Parses a text as an absolute address.
    pub fn parse(text: &str) -> (r: Result<Url, ParseError>)
        ensures
            r is Ok ==> url_parse(text@) == Ok::<UrlView, ParseError>(r->Ok_0@),
            r is Err ==> url_parse(text@) == Err::<UrlView, ParseError>(r->Err_0),
    {
        parse_parts(text)
    }

    /// The address as text.
    pub fn as_str(&self) -> (r: &str)
        ensures
            r@ == self@.text,
    {
        self.text.as_str()
    }

    /// The host, where the address has one.
    pub fn host_str(&self) -> (r: Option<&str>)
        ensures
            r.deep_view() == self@.host,
    {
        match &self.host {
            Some(h) => Some(h.as_str()),
            None => None,
        }
    }

    /// The host where it is a domain name.
    pub fn domain(&self) -> (r: Option<&str>)
        ensures
            r.deep_view() == self@.domain,
    {
        match &self.domain {
            Some(d) => Some(d.as_str()),
            None => None,
        }
    }

    /// The segments of the path.
    pub fn path_segments(&self) -> (r: Option<&Vec<String>>)
        ensures
            r.deep_view() == self@.path,
    {
        match &self.path {
            Some(p) => Some(p),
            None => None,
        }
    }

    /// The pairs of the query.
    pub fn query_pairs(&self) -> (r: &Vec<(String, String)>)
        ensures
            r.deep_view() == self@.query,
    {
        &self.query
    }
}

/// The address that a text of a message stands for. An address on the host
/// of the social network is moved to the mirror host. A text without a
/// scheme is read as an `http` address, unless a scheme is required.
pub open spec fn link_of(text: Seq<char>, scheme_required: bool) -> Result<UrlView, ParseError> {
    match url_parse(text) {
        Ok(url) => if url.host == Some("twitter.com"@) {
            match url_parse(url_with_host(text, MIRROR_HOST@)) {
                Ok(moved) => Ok(moved),
                Err(_) => Ok(url),
            }
        } else {
            Ok(url)
        },
        Err(ParseError::RelativeUrlWithoutBase) => if scheme_required {
            Err(ParseError::RelativeUrlWithoutBase)
        } else {
            url_parse("http://"@ + text)
        },
        Err(e) => Err(e),
    }
}

/// Reads a text of a message as an address.
pub fn parse_url(text: &str, scheme_required: bool) -> (r: Result<Url, ParseError>)
    ensures
        r is Ok ==> link_of(text@, scheme_required) == Ok::<UrlView, ParseError>(r->Ok_0@),
        r is Err ==> link_of(text@, scheme_required) == Err::<UrlView, ParseError>(r->Err_0),
{
    match Url::parse(text) {
        Ok(url) => {
            let on_network = match url.host_str() {
                Some(host) => same_text(host, "twitter.com"),
                None => false,
            };
            if on_network {
                let moved = text_with_host(text, MIRROR_HOST);
                match Url::parse(moved.as_str()) {
                    Ok(moved) => Ok(moved),
                    Err(_) => Ok(url),
                }
            } else {
                Ok(url)
            }
        },
        Err(ParseError::RelativeUrlWithoutBase) => {
            if scheme_required {
                Err(ParseError::RelativeUrlWithoutBase)
            } else {
                let mut with_scheme = String::from_str("http://");
                with_scheme.append(text);
                Url::parse(with_scheme.as_str())
            }
        },
        Err(e) => Err(e),
    }
}

/// Whether a text is passed over: one of the patterns matches it.
pub open spec fn ignored(patterns: Seq<Seq<char>>, text: Seq<char>) -> bool {
    regex_set_match(patterns, text) == Some(true)
}

/// The addresses that the texts stand for, in their order: of the texts
/// that are not passed over, those that are addresses.
pub open spec fn links_of(
    texts: Seq<Seq<char>>,
    patterns: Seq<Seq<char>>,
    scheme_required: bool,
) -> Seq<UrlView>
    decreases texts.len(),
{
    if texts.len() == 0 {
        Seq::empty()
    } else {
        let before = links_of(texts.drop_last(), patterns, scheme_required);
        if ignored(patterns, texts.last()) {
            before
        } else {
            match link_of(texts.last(), scheme_required) {
                Ok(url) => before.push(url),
                Err(_) => before,
            }
        }
    }
}

/// Whether an address with the same text is among `urls`.
pub open spec fn has_text(urls: Seq<UrlView>, text: Seq<char>) -> bool {
    exists|i: int| 0 <= i < urls.len() && (#[trigger] urls[i]).text == text
}

/// The addresses without those that repeat an earlier one.
pub open spec fn unique(urls: Seq<UrlView>) -> Seq<UrlView>
    decreases urls.len(),
{
    if urls.len() == 0 {
        Seq::empty()
    } else {
        let before = unique(urls.drop_last());
        if has_text(before, urls.last().text) {
            before
        } else {
            before.push(urls.last())
        }
    }
}

/// The first `max` of a sequence, or all of it where it has no more.
pub open spec fn first_n<A>(s: Seq<A>, max: nat) -> Seq<A> {
    if s.len() <= max {
        s
    } else {
        s.take(max as int)
    }
}

/// The addresses of a message that are looked up: of the addresses found in
/// it, the first `max`, each of them once.
pub open spec fn candidates_of(
    content: Seq<char>,
    patterns: Seq<Seq<char>>,
    scheme_required: bool,
    max: nat,
) -> Seq<UrlView> {
    unique(first_n(links_of(url_entities_of(content), patterns, scheme_required), max))
}

/// No two of the addresses have the same text.
pub open spec fn distinct_texts(urls: Seq<UrlView>) -> bool {
    forall|i: int, j: int|
        0 <= i < j < urls.len() ==> (#[trigger] urls[i]).text != (#[trigger] urls[j]).text
}

/// Dropping repeated addresses leaves each address once: no text is left
/// twice, none is lost, and none is added.
pub proof fn lemma_unique(urls: Seq<UrlView>)
    ensures
        unique(urls).len() <= urls.len(),
        distinct_texts(unique(urls)),
        forall|text: Seq<char>| has_text(unique(urls), text) <==> has_text(urls, text),
    decreases urls.len(),
{
    if urls.len() > 0 {
        let earlier = urls.drop_last();
        let last = urls.last();
        let before = unique(earlier);
        let after = unique(urls);
        lemma_unique(earlier);
        assert forall|text: Seq<char>| has_text(after, text) <==> has_text(urls, text) by {
            if has_text(after, text) {
                let i = choose|i: int| 0 <= i < after.len() && (#[trigger] after[i]).text == text;
                if i < before.len() {
                    assert(after[i] == before[i]);
                    assert(before[i].text == text);
                    assert(has_text(before, text));
                    assert(has_text(earlier, text));
                    let j = choose|j: int|
                        0 <= j < earlier.len() && (#[trigger] earlier[j]).text == text;
                    assert(earlier[j] == urls[j]);
                    assert(urls[j].text == text);
                } else {
                    assert(urls[urls.len() - 1].text == text);
                }
            }
            if has_text(urls, text) {
                let j = choose|j: int| 0 <= j < urls.len() && (#[trigger] urls[j]).text == text;
                if j < earlier.len() {
                    assert(earlier[j] == urls[j]);
                    assert(earlier[j].text == text);
                    assert(has_text(earlier, text));
                    assert(has_text(before, text));
                    let i = choose|i: int|
                        0 <= i < before.len() && (#[trigger] before[i]).text == text;
                    assert(after[i].text == text);
                } else if has_text(before, last.text) {
                    let i = choose|i: int|
                        0 <= i < before.len() && (#[trigger] before[i]).text == last.text;
                    assert(after[i].text == text);
                } else {
                    assert(after[after.len() - 1].text == text);
                }
            }
        }
        assert forall|i: int, j: int| 0 <= i < j < after.len() implies (#[trigger] after[i]).text
            != (#[trigger] after[j]).text by {
            if j < before.len() {
                assert(after[i] == before[i] && after[j] == before[j]);
            } else {
                assert(after[i] == before[i]);
                assert(after[j] == last);
            }
        }
    }
}

/// Of the addresses of one message, no more than `max` are looked up, and
/// none of them twice.
pub proof fn lemma_candidates(
    content: Seq<char>,
    patterns: Seq<Seq<char>>,
    scheme_required: bool,
    max: nat,
)
    ensures
        candidates_of(content, patterns, scheme_required, max).len() <= max,
        distinct_texts(candidates_of(content, patterns, scheme_required, max)),
{
    lemma_unique(first_n(links_of(url_entities_of(content), patterns, scheme_required), max));
}

/// The addresses of more texts start with the addresses of fewer.
proof fn lemma_links_grow(
    texts: Seq<Seq<char>>,
    patterns: Seq<Seq<char>>,
    scheme_required: bool,
    k: int,
)
    requires
        0 <= k <= texts.len(),
    ensures
        links_of(texts.take(k), patterns, scheme_required).is_prefix_of(
            links_of(texts, patterns, scheme_required),
        ),
    decreases texts.len() - k,
{
    if k == texts.len() {
        assert(texts.take(k) =~= texts);
    } else {
        assert(texts.drop_last().take(k) =~= texts.take(k));
        lemma_links_grow(texts.drop_last(), patterns, scheme_required, k);
    }
}

/// The views of addresses.
pub open spec fn url_views(urls: Seq<Url>) -> Seq<UrlView> {
    Seq::new(urls.len(), |i: int| urls[i]@)
}

/// Whether an address with the same text is in the list.
fn contains_url(urls: &Vec<Url>, url: &Url) -> (r: bool)
    ensures
        r == has_text(url_views(urls@), url@.text),
{
    let mut i: usize = 0;
    while i < urls.len()
        invariant
            i <= urls.len(),
            forall|j: int| 0 <= j < i ==> (#[trigger] url_views(urls@)[j]).text != url@.text,
        decreases urls.len() - i,
    {
        if same_text(urls[i].as_str(), url.as_str()) {
            assert(url_views(urls@)[i as int].text == url@.text);
            return true;
        }
        i = i + 1;
    }
    false
}

/// Drops the addresses that repeat an earlier one.
pub fn unique_urls(urls: Vec<Url>) -> (r: Vec<Url>)
    ensures
        url_views(r@) == unique(url_views(urls@)),
{
    let ghost all = url_views(urls@);
    let mut rest = urls;
    let mut kept: Vec<Url> = Vec::new();
    assert(all.take(0) =~= Seq::<UrlView>::empty());
    assert(url_views(kept@) =~= unique(all.take(0)));
    assert(all.skip(0) =~= all);
    let ghost mut done: int = 0;
    while rest.len() > 0
        invariant
            0 <= done <= all.len(),
            done + rest@.len() == all.len(),
            url_views(rest@) == all.skip(done),
            url_views(kept@) == unique(all.take(done)),
        decreases rest.len(),
    {
        let ghost waiting = url_views(rest@);
        let ghost listed = url_views(kept@);
        let url = rest.remove(0);
        assert(url@ == waiting[0]);
        assert(waiting[0] == all[done]);
        assert(url_views(rest@) =~= waiting.skip(1));
        assert(waiting.skip(1) =~= all.skip(done + 1));
        assert(all.take(done + 1).drop_last() =~= all.take(done));
        assert(all.take(done + 1).last() == url@);
        if !contains_url(&kept, &url) {
            kept.push(url);
            assert(url_views(kept@) =~= listed.push(url@));
        }
        proof {
            done = done + 1;
        }
    }
    assert(all.take(all.len() as int) =~= all);
    kept
}

/// Finds the addresses of a message that are looked up.
pub fn candidates(
    content: &str,
    patterns: &Vec<String>,
    scheme_required: bool,
    max: u8,
) -> (r: Vec<Url>)
    ensures
        url_views(r@) == candidates_of(content@, patterns.deep_view(), scheme_required, max as nat),
{
    let texts = url_entities(content);
    let mut found: Vec<Url> = Vec::new();
    let mut i: usize = 0;
    let ghost all = texts.deep_view();
    assert(all.take(0) =~= Seq::<Seq<char>>::empty());
    assert(url_views(found@) =~= Seq::<UrlView>::empty());
    while i < texts.len() && found.len() < max as usize
        invariant
            i <= texts.len(),
            all == texts.deep_view(),
            all == url_entities_of(content@),
            found@.len() <= max,
            url_views(found@) == links_of(all.take(i as int), patterns.deep_view(), scheme_required),
        decreases texts.len() - i,
    {
        let ghost upto = all.take(i + 1);
        assert(upto.drop_last() =~= all.take(i as int));
        assert(upto.last() == texts[i as int]@);
        let pass = match any_match(patterns, texts[i].as_str()) {
            Some(hit) => hit,
            None => false,
        };
        if !pass {
            match parse_url(texts[i].as_str(), scheme_required) {
                Ok(url) => {
                    let ghost before = url_views(found@);
                    found.push(url);
                    assert(url_views(found@) =~= before.push(url@));
                },
                Err(_) => {},
            }
        }
        i = i + 1;
    }
    proof {
        let links = links_of(all, patterns.deep_view(), scheme_required);
        lemma_links_grow(all, patterns.deep_view(), scheme_required, i as int);
        if i == texts.len() {
            assert(all.take(i as int) =~= all);
        } else {
            assert(url_views(found@).len() == max);
            assert(url_views(found@) =~= links.take(max as int));
        }
        assert(url_views(found@) == first_n(links, max as nat));
    }
    unique_urls(found)
}

} // verus!
