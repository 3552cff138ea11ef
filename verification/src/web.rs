//! Web addresses: what the library reads of a URL, and how it writes one.

use crate::text;
use vstd::prelude::*;

verus! {

/// What the library reads of a parsed URL.
pub struct WebUrl {
    pub scheme: String,
    pub host: Option<String>,
    /// The parts of the path between slashes; `None` where the path has no hierarchy.
    pub segments: Option<Vec<String>>,
    /// The pairs of the query string, decoded, in order.
    pub query: Vec<(String, String)>,
    /// The URL written out.
    pub text: String,
}

/// The texts that a [`WebUrl`] holds.
#[verifier::ext_equal]
pub struct UrlParts {
    pub scheme: Seq<char>,
    pub host: Option<Seq<char>>,
    pub segments: Option<Seq<Seq<char>>>,
    pub query: Seq<(Seq<char>, Seq<char>)>,
    pub text: Seq<char>,
}

/// The texts of a list of pairs.
pub open spec fn pair_texts(v: Seq<(String, String)>) -> Seq<(Seq<char>, Seq<char>)> {
    v.map_values(|p: (String, String)| (p.0@, p.1@))
}

impl View for WebUrl {
    type V = UrlParts;

    open spec fn view(&self) -> UrlParts {
        UrlParts {
            scheme: self.scheme@,
            host: text::text_opt(self.host),
            segments: match self.segments {
                Some(v) => Some(text::texts(v@)),
                None => None,
            },
            query: pair_texts(self.query@),
            text: self.text@,
        }
    }
}

/// The parts of the URL that a text is, or `None` where it is no absolute URL: what
/// `url::Url::parse` makes of it.
pub uninterp spec fn parsed_url(text: Seq<char>) -> Option<UrlParts>;

/// A letter, a digit, `-` or `_`: the characters of video and playlist ids.
pub open spec fn is_id_char(c: char) -> bool {
    text::is_letter(c) || text::is_digit(c) || c == '-' || c == '_'
}

/// Made of id characters alone.
pub open spec fn is_word(s: Seq<char>) -> bool {
    forall|i: int| 0 <= i < s.len() ==> is_id_char(#[trigger] s[i])
}

/// Made of small letters and dots alone, and not empty.
pub open spec fn is_plain_host(h: Seq<char>) -> bool {
    &&& h.len() > 0
    &&& forall|i: int| 0 <= i < h.len() ==> ('a' <= #[trigger] h[i] <= 'z' || h[i] == '.')
}

/// One `key=value` of a query string.
pub open spec fn written_pair(p: (Seq<char>, Seq<char>)) -> Seq<char> {
    p.0 + "="@ + p.1
}

/// A query string with its question mark, or nothing where there is no pair.
pub open spec fn written_query(q: Seq<(Seq<char>, Seq<char>)>) -> Seq<char> {
    if q.len() == 0 {
        Seq::empty()
    } else {
        "?"@ + text::joined(q.map_values(|p: (Seq<char>, Seq<char>)| written_pair(p)), "&"@)
    }
}

/// The URL `scheme://host/segments?query`.
pub open spec fn written_url(
    scheme: Seq<char>,
    host: Seq<char>,
    segments: Seq<Seq<char>>,
    query: Seq<(Seq<char>, Seq<char>)>,
) -> Seq<char> {
    scheme + "://"@ + host + "/"@ + text::joined(segments, "/"@) + written_query(query)
}

/// The parts of a web URL in which every part is written in characters that need no encoding.
pub open spec fn is_plain_url(u: UrlParts) -> bool {
    &&& u.scheme == "http"@ || u.scheme == "https"@
    &&& u.host is Some
    &&& is_plain_host(u.host->0)
    &&& u.segments is Some
    &&& u.segments->0.len() > 0
    &&& forall|i: int|
        0 <= i < u.segments->0.len() ==> (#[trigger] u.segments->0[i]).len() > 0 && is_word(
            u.segments->0[i],
        )
    &&& forall|i: int|
        0 <= i < u.query.len() ==> (#[trigger] u.query[i]).0.len() > 0 && is_word(u.query[i].0)
            && is_word(u.query[i].1)
    &&& u.text == written_url(u.scheme, u.host->0, u.segments->0, u.query)
    &&& u.text.len() <= 0xffff_ffff
}

/// A plainly written URL has no white space at its ends.
pub proof fn lemma_plain_url_trimmed(u: UrlParts)
    requires
        is_plain_url(u),
    ensures
        text::trimmed(u.text) == u.text,
{
    reveal_strlit("http");
    reveal_strlit("https");
    reveal_strlit("=");
    let segments = u.segments->0;
    let path = text::joined(segments, "/"@);
    text::lemma_joined_last(segments, "/"@);
    assert(is_word(segments.last()));
    assert(u.text[0] == u.scheme[0]);
    if u.query.len() == 0 {
        assert(u.text.last() == path.last());
    } else {
        let pairs = u.query.map_values(|p: (Seq<char>, Seq<char>)| written_pair(p));
        assert(pairs.last() == written_pair(u.query.last()));
        text::lemma_joined_last(pairs, "&"@);
        assert(is_word(u.query.last().1));
        assert(u.text.last() == pairs.last().last());
    }
    text::lemma_trimmed_same(u.text);
}

/// Reads a URL with `url::Url::parse`, and takes out of it what `scheme`, `host_str`,
/// `path_segments`, `query_pairs` and `as_str` hand out.
///
/// The result is a function of the text. A text without a colon has no scheme, so it is no
/// absolute URL. A web URL of at most `u32::MAX` characters that is written without any
/// character to encode, decode or normalise comes apart into the parts it was written from.
#[verifier::external_body]
pub(crate) fn parse_url(text: &str) -> (r: Option<WebUrl>)
    ensures
        match r {
            Some(u) => parsed_url(text@) == Some(u@),
            None => parsed_url(text@) is None,
        },
        !text@.contains(':') ==> r is None,
        forall|p: UrlParts| #[trigger]
            is_plain_url(p) && text@ == p.text ==> r is Some && r->0@ == p,
{
    let u = url::Url::parse(text).ok()?;
    Some(WebUrl {
        scheme: u.scheme().to_string(),
        host: u.host_str().map(|h| h.to_string()),
        segments: u.path_segments().map(|s| s.map(|p| p.to_string()).collect()),
        query: u.query_pairs().map(|(k, v)| (k.into_owned(), v.into_owned())).collect(),
        text: u.as_str().to_string(),
    })
}

/// The host of a URL.
pub open spec fn host_of(text: Seq<char>) -> Option<Seq<char>> {
    match parsed_url(text) {
        Some(u) => u.host,
        None => None,
    }
}

/// The host that a URL names; `None` where the text is no URL or names none.
pub fn ip_from_url(u: &str) -> (r: Option<String>)
    ensures
        text::text_opt(r) == host_of(u@),
        !u@.contains(':') ==> r is None,
        forall|p: UrlParts| #[trigger]
            is_plain_url(p) && u@ == p.text ==> text::text_opt(r) == p.host,
{
    match parse_url(u) {
        Some(w) => w.host,
        None => None,
    }
}

/// `base` without the slashes it ends in, and `path` behind it.
pub open spec fn under(base: Seq<char>, path: Seq<char>) -> Seq<char> {
    text::trimmed_end_of(base, '/') + path
}

/// The address of `path` under the web address `base`.
pub fn endpoint(base: &str, path: &str) -> (r: String)
    ensures
        r@ == under(base@, path@),
{
    let mut r = text::trim_end_matches(base, '/');
    r.append(path);
    r
}

// ---------------------------------------------------------------- laws

/// A path is put behind a base that does not end in a slash, and slashes at the end of a base make
/// no difference.
pub proof fn law_path_goes_behind_base(base: Seq<char>, path: Seq<char>)
    ensures
        base.len() > 0 && base[base.len() - 1] != '/' ==> under(base, path) == base + path,
        under(base.push('/'), path) == under(base, path),
        under(Seq::empty(), path) == path,
{
    assert(base.push('/').drop_last() =~= base);
    assert(Seq::<char>::empty() + path =~= path);
}

/// A list of pairs holds one pair of texts for each, in order.
pub proof fn law_one_pair_for_each(v: Seq<(String, String)>, i: int)
    requires
        0 <= i < v.len(),
    ensures
        pair_texts(v).len() == v.len(),
        pair_texts(v)[i].0 == v[i].0@,
        pair_texts(v)[i].1 == v[i].1@,
{
}

/// The host of a text is that of the URL it is, where it is one.
pub proof fn law_host_of_url(t: Seq<char>)
    ensures
        parsed_url(t) matches Some(u) ==> host_of(t) == u.host,
        parsed_url(t) is None ==> host_of(t) is None,
{
}

} // verus!
