//! Text that is safe to send to a chat room: white space collapsed, control
//! codes and stacked combining marks removed, and cut to a length in bytes at
//! the border of a grapheme cluster.

use crate::text::{join, joined, split_text, words};
use regex::Regex;
use unicode_segmentation::UnicodeSegmentation;
use vstd::prelude::*;
use vstd::string::StringExecFns;
use vstd::utf8::encode_utf8;

verus! {

/// The pattern of what is removed from a word: a character of the general
/// category Other, or a run of three or more combining marks.
pub const CONTROL: &'static str = "\\pC|(?:\\pM{2})\\pM+";

/// The mark that a text gets where it was cut.
pub const ELLIPSIS: &'static str = "\u{2026}";

/// The length in bytes that an [`IrcString`] is cut to.
pub const IRC_STRING_BYTES: usize = 450;

/// The text that `regex::Regex::replace_all` returns for the pattern
/// `pattern`, the text `text` and the replacement `with`; `None` where
/// `regex::Regex::new` refuses the pattern.
pub uninterp spec fn regex_replaced(pattern: Seq<char>, text: Seq<char>, with: Seq<char>) -> Option<
    Seq<char>,
>;

/// The extended grapheme clusters of a text, in their order, as
/// `unicode_segmentation::UnicodeSegmentation::graphemes` gives them. They
/// are the parts of the text: one after the other they give it back.
pub uninterp spec fn graphemes_of(text: Seq<char>) -> Seq<Seq<char>>;

/// `regex::Regex::new` and `regex::Regex::replace_all`: the text with every
/// match of the pattern replaced, or `None` for a pattern that does not
/// compile.
#[verifier::external_body]
fn replace_all(pattern: &str, text: &str, with: &str) -> (r: Option<String>)
    ensures
        r.deep_view() == regex_replaced(pattern@, text@, with@),
{
    Regex::new(pattern).ok().map(|re| re.replace_all(text, with).into_owned())
}

/// `unicode_segmentation::UnicodeSegmentation::graphemes`, extended: the
/// grapheme clusters of the text. The iterator hands out slices of the text
/// that follow each other from its start to its end, so the clusters put
/// together are the text.
#[verifier::external_body]
fn graphemes(text: &str) -> (r: Vec<String>)
    ensures
        r.deep_view() == graphemes_of(text@),
        concat(r.deep_view()) == text@,
{
    text.graphemes(true).map(|g| g.to_string()).collect()
}

/// The length of a text in bytes of UTF-8, as `str::len` reports it.
pub open spec fn byte_len(text: Seq<char>) -> nat {
    (encode_utf8(text).len() as usize) as nat
}

/// The texts one after the other.
pub open spec fn concat(parts: Seq<Seq<char>>) -> Seq<char>
    decreases parts.len(),
{
    if parts.len() == 0 {
        Seq::empty()
    } else {
        concat(parts.drop_last()) + parts.last()
    }
}

/// The bytes that the texts take together.
pub open spec fn total_bytes(parts: Seq<Seq<char>>) -> nat
    decreases parts.len(),
{
    if parts.len() == 0 {
        0
    } else {
        total_bytes(parts.drop_last()) + byte_len(parts.last())
    }
}

/// The number of leading clusters that fit into `max_bytes` together: the
/// length of the longest such prefix.
pub open spec fn fitting(clusters: Seq<Seq<char>>, max_bytes: nat) -> nat
    decreases clusters.len(),
{
    if clusters.len() == 0 {
        0
    } else if total_bytes(clusters) <= max_bytes {
        clusters.len()
    } else {
        fitting(clusters.drop_last(), max_bytes)
    }
}

/// A word without what [`CONTROL`] matches.
pub open spec fn stripped(word: Seq<char>) -> Seq<char> {
    match regex_replaced(CONTROL@, word, Seq::empty()) {
        Some(clean) => clean,
        None => word,
    }
}

/// A text, cut or not.
pub struct Cut {
    /// The text that is left.
    pub text: Seq<char>,
    /// Whether anything was cut off.
    pub cut: bool,
}

/// The clusters that fit into `max_bytes`, as one text. It counts as cut
/// where the clusters that fit are shorter than `len` bytes, the length of
/// the whole text: also where none of them fits.
pub open spec fn fitted(clusters: Seq<Seq<char>>, len: nat, max_bytes: nat) -> Cut {
    let kept = clusters.take(fitting(clusters, max_bytes) as int);
    Cut { text: concat(kept), cut: total_bytes(kept) < len }
}

/// `text` cut to the grapheme clusters that fit into `max_bytes`.
pub open spec fn truncated(text: Seq<char>, max_bytes: nat) -> Cut {
    fitted(graphemes_of(text), byte_len(text), max_bytes)
}

/// The text with the mark of a cut, where it was cut.
pub open spec fn marked(cut: Cut) -> Seq<char> {
    if cut.cut {
        cut.text + ELLIPSIS@
    } else {
        cut.text
    }
}

/// Each word stripped.
pub open spec fn stripped_all(words: Seq<Seq<char>>) -> Seq<Seq<char>> {
    Seq::new(words.len(), |i: int| stripped(words[i]))
}

/// The words of `text`, each stripped, with one space between each two.
pub open spec fn collapsed(text: Seq<char>) -> Seq<char> {
    joined(stripped_all(words(text, false)), " "@)
}

/// What [`sanitize`] returns.
pub open spec fn sanitized(text: Seq<char>, max_bytes: nat) -> Seq<char> {
    marked(truncated(collapsed(text), max_bytes))
}

/// A text as an [`IrcString`] holds it.
pub open spec fn safe(text: Seq<char>) -> Seq<char> {
    sanitized(text, IRC_STRING_BYTES as nat)
}

/// A text that was cut short (`Yup`) or not (`Nope`).
pub enum MaybeTruncated {
    Yup(String),
    Nope(String),
}

impl View for MaybeTruncated {
    type V = Cut;

    open spec fn view(&self) -> Cut {
        match self {
            MaybeTruncated::Yup(text) => Cut { text: text@, cut: true },
            MaybeTruncated::Nope(text) => Cut { text: text@, cut: false },
        }
    }
}

impl MaybeTruncated {
    /// The text, followed by an ellipsis where it was cut.
    pub fn to_string(&self) -> (r: String)
        ensures
            r@ == marked(self@),
    {
        match self {
            MaybeTruncated::Yup(text) => {
                let mut r = text.clone();
                r.append(ELLIPSIS);
                r
            },
            MaybeTruncated::Nope(text) => text.clone(),
        }
    }
}

/// Adding a cluster adds its bytes, and more clusters never take fewer bytes.
proof fn lemma_total_bytes_grows(clusters: Seq<Seq<char>>, i: int, j: int)
    requires
        0 <= i <= j <= clusters.len(),
    ensures
        total_bytes(clusters.take(i)) <= total_bytes(clusters.take(j)),
    decreases j - i,
{
    if i < j {
        assert(clusters.take(j).drop_last() =~= clusters.take(j - 1));
        lemma_total_bytes_grows(clusters, i, j - 1);
    }
}

/// No more clusters fit than there are.
pub proof fn lemma_fitting_bound(clusters: Seq<Seq<char>>, max_bytes: nat)
    ensures
        fitting(clusters, max_bytes) <= clusters.len(),
    decreases clusters.len(),
{
    if clusters.len() > 0 && total_bytes(clusters) > max_bytes {
        lemma_fitting_bound(clusters.drop_last(), max_bytes);
    }
}

/// Where the first `k` clusters fit and one more does not, `k` of them fit.
proof fn lemma_fitting(clusters: Seq<Seq<char>>, max_bytes: nat, k: int)
    requires
        0 <= k <= clusters.len(),
        total_bytes(clusters.take(k)) <= max_bytes,
        k < clusters.len() ==> total_bytes(clusters.take(k + 1)) > max_bytes,
    ensures
        fitting(clusters, max_bytes) == k,
    decreases clusters.len() - k,
{
    assert(clusters.take(clusters.len() as int) =~= clusters);
    if k < clusters.len() {
        lemma_total_bytes_grows(clusters, k + 1, clusters.len() as int);
        let shorter = clusters.drop_last();
        assert(shorter.take(k) =~= clusters.take(k));
        if k < shorter.len() {
            assert(shorter.take(k + 1) =~= clusters.take(k + 1));
        }
        lemma_fitting(shorter, max_bytes, k);
    } else if k > 0 {
    }
}

/// Puts the clusters of a text of `len` bytes together again, as far as
/// they fit into `max_bytes`.
pub fn fit(clusters: &Vec<String>, len: usize, max_bytes: usize) -> (r: MaybeTruncated)
    ensures
        r@ == fitted(clusters.deep_view(), len as nat, max_bytes as nat),
{
    let mut text = String::new();
    let mut total: usize = 0;
    let mut i: usize = 0;
    assert(clusters.deep_view().take(0) =~= Seq::<Seq<char>>::empty());
    while i < clusters.len() && clusters[i].as_str().len() <= max_bytes - total
        invariant
            i <= clusters.len(),
            total <= max_bytes,
            total == total_bytes(clusters.deep_view().take(i as int)),
            text@ == concat(clusters.deep_view().take(i as int)),
        decreases clusters.len() - i,
    {
        let ghost upto = clusters.deep_view().take(i + 1);
        assert(upto.drop_last() =~= clusters.deep_view().take(i as int));
        assert(upto.last() == clusters[i as int]@);
        total = total + clusters[i].as_str().len();
        text.append(clusters[i].as_str());
        i = i + 1;
    }
    proof {
        if i < clusters.len() {
            let upto = clusters.deep_view().take(i + 1);
            assert(upto.drop_last() =~= clusters.deep_view().take(i as int));
            assert(upto.last() == clusters[i as int]@);
        }
        lemma_fitting(clusters.deep_view(), max_bytes as nat, i as int);
    }
    if total < len {
        MaybeTruncated::Yup(text)
    } else {
        MaybeTruncated::Nope(text)
    }
}

/// The first parts of a text, put together, are a start of the text.
pub proof fn lemma_concat_prefix(parts: Seq<Seq<char>>, k: int)
    requires
        0 <= k <= parts.len(),
    ensures
        concat(parts.take(k)).is_prefix_of(concat(parts)),
    decreases parts.len() - k,
{
    if k == parts.len() {
        assert(parts.take(k) =~= parts);
        assert(concat(parts) =~= concat(parts).subrange(0, concat(parts).len() as int));
    } else {
        let shorter = parts.drop_last();
        assert(shorter.take(k) =~= parts.take(k));
        lemma_concat_prefix(shorter, k);
        let start = concat(parts.take(k));
        assert(start =~= concat(shorter).subrange(0, start.len() as int));
        assert(concat(parts) == concat(shorter) + parts.last());
        assert(start =~= concat(parts).subrange(0, start.len() as int));
    }
}

/// Cuts a text to the grapheme clusters that fit into `max_bytes`. What is
/// left is a start of the text.
pub fn truncate(s: &str, max_bytes: usize) -> (r: MaybeTruncated)
    ensures
        r@ == truncated(s@, max_bytes as nat),
        r@.text.is_prefix_of(s@),
{
    let clusters = graphemes(s);
    proof {
        lemma_fitting_bound(clusters.deep_view(), max_bytes as nat);
        lemma_concat_prefix(
            clusters.deep_view(),
            fitting(clusters.deep_view(), max_bytes as nat) as int,
        );
    }
    fit(&clusters, s.len(), max_bytes)
}

/// Collapses all white space, strips control codes and stacked combining
/// marks, and cuts the text to `max_bytes`; a text that was cut ends in an
/// ellipsis, and is by those three bytes longer than `max_bytes`.
pub fn sanitize(text: &str, max_bytes: usize) -> (r: String)
    ensures
        r@ == sanitized(text@, max_bytes as nat),
{
    let raw = split_text(text, false);
    let mut clean: Vec<String> = Vec::new();
    let mut i: usize = 0;
    while i < raw.len()
        invariant
            i <= raw.len(),
            clean.len() == i,
            forall|j: int| 0 <= j < i ==> (#[trigger] clean[j])@ == stripped(raw[j]@),
        decreases raw.len() - i,
    {
        let word = match replace_all(CONTROL, raw[i].as_str(), "") {
            Some(word) => word,
            None => raw[i].clone(),
        };
        proof {
            reveal_strlit("");
            assert(""@ =~= Seq::<char>::empty());
            assert(word@ == stripped(raw[i as int]@));
        }
        clean.push(word);
        i = i + 1;
    }
    assert(clean.deep_view() =~= stripped_all(raw.deep_view()));
    let line = join(&clean, " ");
    truncate(line.as_str(), max_bytes).to_string()
}

/// A text as it may be sent: sanitized, and at most [`IRC_STRING_BYTES`]
/// bytes long before the mark of a cut.
#[derive(Debug, Clone, PartialEq, Hash)]
pub struct IrcString(String);

impl View for IrcString {
    type V = Seq<char>;

    closed spec fn view(&self) -> Seq<char> {
        self.0@
    }
}

impl IrcString {
    /// The sanitized form of a text.
    pub fn from(s: &str) -> (r: IrcString)
        ensures
            r@ == safe(s@),
    {
        IrcString(sanitize(s, IRC_STRING_BYTES))
    }

    /// The text cut to `max` bytes: a start of the text.
    pub fn trunc(&self, max: usize) -> (r: MaybeTruncated)
        ensures
            r@ == truncated(self@, max as nat),
            r@.text.is_prefix_of(self@),
    {
        truncate(self.0.as_str(), max)
    }

    /// The text itself.
    pub fn into_string(self) -> (r: String)
        ensures
            r@ == self@,
    {
        self.0
    }

    /// The text itself.
    pub fn as_str(&self) -> (r: &str)
        ensures
            r@ == self@,
    {
        self.0.as_str()
    }

    /// Whether the text is empty.
    pub fn is_empty(&self) -> (r: bool)
        ensures
            r == (self@.len() == 0),
    {
        self.0.as_str().is_empty()
    }
}

} // verus!
