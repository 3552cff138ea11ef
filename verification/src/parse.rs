//! What the user asks to be cast: a video or a playlist, by id or by URL.

use crate::text;
use crate::web::{UrlParts, WebUrl};
use crate::web;
use vstd::prelude::*;

verus! {

/// What a command is asked to cast.
#[derive(Debug, PartialEq, Eq)]
pub enum Target {
    Video(String),
    Playlist(String),
}

/// The text that a [`Target`] holds.
pub enum TargetView {
    Video(Seq<char>),
    Playlist(Seq<char>),
}

impl View for Target {
    type V = TargetView;

    open spec fn view(&self) -> TargetView {
        match *self {
            Target::Video(s) => TargetView::Video(s@),
            Target::Playlist(s) => TargetView::Playlist(s@),
        }
    }
}

/// Why a text names nothing to cast.
#[derive(Debug, PartialEq, Eq)]
pub enum TargetError {
    /// Neither a URL nor an id; holds the text.
    Unrecognized(String),
    /// A web URL that names no video and no playlist; holds the URL.
    Unsupported(String),
}

/// The text that a [`TargetError`] holds.
pub enum TargetErrorView {
    Unrecognized(Seq<char>),
    Unsupported(Seq<char>),
}

impl View for TargetError {
    type V = TargetErrorView;

    open spec fn view(&self) -> TargetErrorView {
        match *self {
            TargetError::Unrecognized(s) => TargetErrorView::Unrecognized(s@),
            TargetError::Unsupported(s) => TargetErrorView::Unsupported(s@),
        }
    }
}

/// What is said of a [`TargetError`].
pub open spec fn target_message(e: TargetErrorView) -> Seq<char> {
    match e {
        TargetErrorView::Unrecognized(s) => "could not recognize '"@ + s
            + "' as a YouTube URL, video id, or playlist id"@,
        TargetErrorView::Unsupported(s) => "unsupported YouTube URL: "@ + s,
    }
}

impl TargetError {
    /// What the user is told.
    pub fn message(&self) -> (r: String)
        ensures
            r@ == target_message(self@),
    {
        match self {
            TargetError::Unrecognized(s) => text::concat3(
                "could not recognize '",
                s.as_str(),
                "' as a YouTube URL, video id, or playlist id",
            ),
            TargetError::Unsupported(s) => text::concat2("unsupported YouTube URL: ", s.as_str()),
        }
    }
}

/// The texts of a result of [`parse_target`].
pub open spec fn target_result(r: Result<Target, TargetError>) -> Result<
    TargetView,
    TargetErrorView,
> {
    match r {
        Ok(t) => Ok(t@),
        Err(e) => Err(e@),
    }
}

// ---------------------------------------------------------------- ids

/// Eleven id characters.
pub open spec fn is_video_id(s: Seq<char>) -> bool {
    s.len() == 11 && web::is_word(s)
}

/// The length of a text in UTF-8.
pub open spec fn byte_len(s: Seq<char>) -> nat {
    vstd::utf8::encode_utf8(s).len()
}

/// Longer than a video id, with one of the prefixes that playlist ids have.
pub open spec fn is_playlist_id(s: Seq<char>) -> bool {
    &&& byte_len(s) > 11
    &&& {
        ||| text::has_prefix(s, "PL"@)
        ||| text::has_prefix(s, "RD"@)
        ||| text::has_prefix(s, "UU"@)
        ||| text::has_prefix(s, "LL"@)
        ||| text::has_prefix(s, "FL"@)
        ||| text::has_prefix(s, "OL"@)
        ||| text::has_prefix(s, "RDCLAK"@)
        ||| text::has_prefix(s, "WL"@)
    }
}

/// A video id has no white space around it and no colon in it, and is no playlist id.
pub proof fn lemma_video_id(s: Seq<char>)
    requires
        is_video_id(s),
    ensures
        text::trimmed(s) == s,
        !s.contains(':'),
        !is_playlist_id(s),
{
    assert(web::is_id_char(s[0]) && web::is_id_char(s.last()));
    text::lemma_trimmed_same(s);
    assert forall|i: int| 0 <= i < s.len() implies s[i] != ':' && (s[i] as u32) < 128 by {
        assert(web::is_id_char(s[i]));
    }
    vstd::utf8::is_ascii_chars_encode_utf8(s);
}

/// Whether `s` has the form of a video id.
pub fn looks_like_video_id(s: &str) -> (r: bool)
    ensures
        r == is_video_id(s@),
{
    let v = text::to_chars(s);
    if v.len() != 11 {
        return false;
    }
    let mut i: usize = 0;
    while i < v.len()
        invariant
            0 <= i <= v@.len(),
            v@ == s@,
            v@.len() == 11,
            forall|j: int| 0 <= j < i ==> web::is_id_char(#[trigger] v@[j]),
        decreases v@.len() - i,
    {
        let c = v[i];
        let letter = ('a' <= c && c <= 'z') || ('A' <= c && c <= 'Z');
        let plain = letter || ('0' <= c && c <= '9') || c == '-' || c == '_';
        if !plain {
            assert(!web::is_id_char(s@[i as int]));
            return false;
        }
        i += 1;
    }
    true
}

/// Whether `s` has the form of a playlist id.
pub fn looks_like_playlist_id(s: &str) -> (r: bool)
    ensures
        r == is_playlist_id(s@),
{
    let bytes = s.as_bytes();
    bytes.len() > 11 && (text::starts_with(s, "PL") || text::starts_with(s, "RD")
        || text::starts_with(s, "UU") || text::starts_with(s, "LL") || text::starts_with(s, "FL")
        || text::starts_with(s, "OL") || text::starts_with(s, "RDCLAK")
        || text::starts_with(s, "WL"))
}

/// What an id that stands alone names.
pub open spec fn bare_target(s: Seq<char>) -> Result<TargetView, TargetErrorView> {
    if is_playlist_id(s) {
        Ok(TargetView::Playlist(s))
    } else if is_video_id(s) {
        Ok(TargetView::Video(s))
    } else {
        Err(TargetErrorView::Unrecognized(s))
    }
}

// ---------------------------------------------------------------- URLs

/// `h` without each `www.` that it starts with.
pub open spec fn without_www(h: Seq<char>) -> Seq<char>
    decreases h.len(),
{
    if h.len() >= 4 && text::has_prefix(h, "www."@) {
        without_www(h.skip(4))
    } else {
        h
    }
}

/// The value of the first pair with the given key.
pub open spec fn first_value(q: Seq<(Seq<char>, Seq<char>)>, key: Seq<char>) -> Option<Seq<char>>
    decreases q.len(),
{
    if q.len() == 0 {
        None
    } else if q[0].0 == key {
        Some(q[0].1)
    } else {
        first_value(q.drop_first(), key)
    }
}

/// The segments that are not empty.
pub open spec fn solid(segments: Seq<Seq<char>>) -> Seq<Seq<char>> {
    segments.filter(|s: Seq<char>| s.len() > 0)
}

/// The hosts that serve YouTube's pages.
pub open spec fn is_youtube(host: Seq<char>) -> bool {
    host == "youtube.com"@ || host == "m.youtube.com"@ || host == "music.youtube.com"@
}

/// A page that has the id of its video as the second segment of its path.
pub open spec fn is_video_page(segment: Seq<char>) -> bool {
    segment == "shorts"@ || segment == "embed"@ || segment == "live"@ || segment == "v"@
}

/// What a page of YouTube names.
pub open spec fn page_target(
    segments: Seq<Seq<char>>,
    query: Seq<(Seq<char>, Seq<char>)>,
) -> Option<TargetView> {
    if segments.len() == 0 {
        None
    } else if segments[0] == "watch"@ {
        match (first_value(query, "v"@), first_value(query, "list"@)) {
            (Some(v), _) => Some(TargetView::Video(v)),
            (None, Some(list)) => Some(TargetView::Playlist(list)),
            (None, None) => None,
        }
    } else if segments[0] == "playlist"@ {
        match first_value(query, "list"@) {
            Some(list) => Some(TargetView::Playlist(list)),
            None => None,
        }
    } else if is_video_page(segments[0]) && segments.len() > 1 {
        Some(TargetView::Video(segments[1]))
    } else {
        None
    }
}

/// What a web URL names.
pub open spec fn url_target(u: UrlParts) -> Option<TargetView> {
    let host = match u.host {
        Some(h) => without_www(h),
        None => Seq::empty(),
    };
    let segments = match u.segments {
        Some(s) => solid(s),
        None => Seq::empty(),
    };
    if host == "youtu.be"@ {
        if segments.len() > 0 {
            Some(TargetView::Video(segments[0]))
        } else {
            None
        }
    } else if is_youtube(host) {
        page_target(segments, u.query)
    } else {
        None
    }
}

/// What a web URL names, or the error that shows it.
pub open spec fn url_result(u: UrlParts) -> Result<TargetView, TargetErrorView> {
    match url_target(u) {
        Some(t) => Ok(t),
        None => Err(TargetErrorView::Unsupported(u.text)),
    }
}

/// What the trimmed text `s` names, given what it is as a URL.
pub open spec fn target_of(s: Seq<char>, url: Option<UrlParts>) -> Result<
    TargetView,
    TargetErrorView,
> {
    match url {
        Some(u) => if u.scheme == "http"@ || u.scheme == "https"@ {
            url_result(u)
        } else {
            bare_target(s)
        },
        None => bare_target(s),
    }
}

/// `h` without each `www.` that it starts with.
fn strip_www(h: &str) -> (r: String)
    ensures
        r@ == without_www(h@),
{
    proof {
        reveal_strlit("www.");
    }
    let v = text::to_chars(h);
    let mut rest = text::from_chars(v.as_slice());
    while text::starts_with(rest.as_str(), "www.")
        invariant
            without_www(h@) == without_www(rest@),
            "www."@.len() == 4,
        decreases rest@.len(),
    {
        let c = text::to_chars(rest.as_str());
        let ghost before = rest@;
        rest = text::from_chars(&c[4..c.len()]);
        assert(rest@ =~= before.skip(4));
    }
    rest
}

/// The value of the first pair with the given key.
fn query_value(q: &Vec<(String, String)>, key: &str) -> (r: Option<String>)
    ensures
        text::text_opt(r) == first_value(web::pair_texts(q@), key@),
{
    let mut i: usize = 0;
    let ghost all = web::pair_texts(q@);
    assert(all.skip(0) =~= all);
    while i < q.len()
        invariant
            0 <= i <= q@.len(),
            all == web::pair_texts(q@),
            first_value(all, key@) == first_value(all.skip(i as int), key@),
        decreases q@.len() - i,
    {
        assert(all.skip(i as int)[0] == all[i as int]);
        assert(all.skip(i as int).drop_first() =~= all.skip(i + 1));
        if text::same_text(q[i].0.as_str(), key) {
            return Some(q[i].1.clone());
        }
        i += 1;
    }
    None
}

/// The segments that are not empty.
fn solid_segments(segments: &Option<Vec<String>>) -> (r: Vec<String>)
    ensures
        text::texts(r@) == match *segments {
            Some(v) => solid(text::texts(v@)),
            None => Seq::empty(),
        },
{
    let mut r: Vec<String> = Vec::new();
    assert(text::texts(r@) =~= Seq::empty());
    match segments {
        None => r,
        Some(v) => {
            let ghost keep = |s: Seq<char>| s.len() > 0;
            let ghost all = text::texts(v@);
            let mut i: usize = 0;
            while i < v.len()
                invariant
                    0 <= i <= v@.len(),
                    keep == (|s: Seq<char>| s.len() > 0),
                    all == text::texts(v@),
                    text::texts(r@) == all.take(i as int).filter(keep),
                decreases v@.len() - i,
            {
                let ghost before = r@;
                assert(all.take(i + 1).drop_last() =~= all.take(i as int));
                reveal(Seq::filter);
                if !v[i].as_str().is_empty() {
                    r.push(v[i].clone());
                    assert(text::texts(r@) =~= text::texts(before).push(v@[i as int]@));
                }
                i += 1;
            }
            assert(all.take(all.len() as int) =~= all);
            r
        },
    }
}

/// The video or playlist that a web URL names.
pub fn from_url(url: &WebUrl) -> (r: Result<Target, TargetError>)
    ensures
        target_result(r) == url_result(url@),
{
    let host = match &url.host {
        Some(h) => strip_www(h.as_str()),
        None => String::new(),
    };
    let segments = solid_segments(&url.segments);
    let ghost parts = text::texts(segments@);
    if text::same_text(host.as_str(), "youtu.be") {
        if segments.len() > 0 {
            assert(parts[0] == segments@[0]@);
            return Ok(Target::Video(segments[0].clone()));
        }
    } else if text::same_text(host.as_str(), "youtube.com") || text::same_text(host.as_str(), "m.youtube.com")
        || text::same_text(host.as_str(), "music.youtube.com") {
        if segments.len() > 0 {
            assert(parts[0] == segments@[0]@);
            let page = segments[0].as_str();
            if text::same_text(page, "watch") {
                if let Some(v) = query_value(&url.query, "v") {
                    return Ok(Target::Video(v));
                }
                if let Some(list) = query_value(&url.query, "list") {
                    return Ok(Target::Playlist(list));
                }
            } else if text::same_text(page, "playlist") {
                if let Some(list) = query_value(&url.query, "list") {
                    return Ok(Target::Playlist(list));
                }
            } else if text::same_text(page, "shorts") || text::same_text(page, "embed") || text::same_text(
                page,
                "live",
            ) || text::same_text(page, "v") {
                if segments.len() > 1 {
                    assert(parts[1] == segments@[1]@);
                    return Ok(Target::Video(segments[1].clone()));
                }
            }
        }
    }
    Err(TargetError::Unsupported(url.text.clone()))
}

/// Accepts full YouTube URLs (watch, youtu.be, shorts, embed, live, playlist), bare video ids, or
/// bare playlist ids, with white space around them.
pub fn parse_target(input: &str) -> (r: Result<Target, TargetError>)
    ensures
        target_result(r) == target_of(text::trimmed(input@), web::parsed_url(text::trimmed(input@))),
        !text::trimmed(input@).contains(':') ==> target_result(r) == bare_target(text::trimmed(input@)),
        is_video_id(input@) ==> target_result(r) == Ok::<TargetView, TargetErrorView>(
            TargetView::Video(input@),
        ),
        forall|u: UrlParts| #[trigger]
            web::is_plain_url(u) && input@ == u.text ==> target_result(r) == url_result(u),
{
    proof {
        if is_video_id(input@) {
            lemma_video_id(input@);
        }
        assert forall|u: UrlParts| #[trigger]
            web::is_plain_url(u) && input@ == u.text implies text::trimmed(input@) == u.text by {
            web::lemma_plain_url_trimmed(u);
        }
    }
    let input = text::trim(input);
    if let Some(url) = web::parse_url(input.as_str()) {
        if text::same_text(url.scheme.as_str(), "http") || text::same_text(url.scheme.as_str(), "https") {
            return from_url(&url);
        }
    }
    if looks_like_playlist_id(input.as_str()) {
        return Ok(Target::Playlist(input));
    }
    if looks_like_video_id(input.as_str()) {
        return Ok(Target::Video(input));
    }
    Err(TargetError::Unrecognized(input))
}

// ---------------------------------------------------------------- single videos

/// Why a text does not name a single video.
#[derive(Debug)]
pub enum VideoError {
    Target(TargetError),
    /// It names a playlist.
    Playlist,
}

/// The texts of a [`VideoError`].
pub enum VideoErrorView {
    Target(TargetErrorView),
    Playlist,
}

impl View for VideoError {
    type V = VideoErrorView;

    open spec fn view(&self) -> VideoErrorView {
        match *self {
            VideoError::Target(e) => VideoErrorView::Target(e@),
            VideoError::Playlist => VideoErrorView::Playlist,
        }
    }
}

impl VideoError {
    /// The message for the user; `playlist` is what is said where a playlist was named.
    pub fn message(&self, playlist: &str) -> (r: String)
        ensures
            r@ == match self@ {
                VideoErrorView::Target(e) => target_message(e),
                VideoErrorView::Playlist => playlist@,
            },
    {
        match self {
            VideoError::Target(e) => e.message(),
            VideoError::Playlist => text::copy(playlist),
        }
    }
}

/// What is said where `add` is given a playlist.
pub const ADD_NEEDS_VIDEO: &'static str = "`add` takes a single video; use `play` for a playlist";

/// The single video that a target is.
pub open spec fn video_of(r: Result<TargetView, TargetErrorView>) -> Result<
    Seq<char>,
    VideoErrorView,
> {
    match r {
        Ok(TargetView::Video(id)) => Ok(id),
        Ok(TargetView::Playlist(_)) => Err(VideoErrorView::Playlist),
        Err(e) => Err(VideoErrorView::Target(e)),
    }
}

/// The texts of a video, or of why there is none.
pub open spec fn video_result(r: Result<String, VideoError>) -> Result<Seq<char>, VideoErrorView> {
    match r {
        Ok(id) => Ok(id@),
        Err(e) => Err(e@),
    }
}

/// The single video that a target is.
pub fn require_video(target: Result<Target, TargetError>) -> (r: Result<String, VideoError>)
    ensures
        video_result(r) == video_of(target_result(target)),
{
    match target {
        Ok(Target::Video(id)) => Ok(id),
        Ok(Target::Playlist(_)) => Err(VideoError::Playlist),
        Err(e) => Err(VideoError::Target(e)),
    }
}

/// The single video that a text names.
pub fn single_video(input: &str) -> (r: Result<String, VideoError>)
    ensures
        video_result(r) == video_of(
            target_of(text::trimmed(input@), web::parsed_url(text::trimmed(input@))),
        ),
        is_video_id(input@) ==> video_result(r) == Ok::<Seq<char>, VideoErrorView>(input@),
        forall|u: UrlParts| #[trigger] web::is_plain_url(u) && input@ == u.text ==> video_result(r)
            == video_of(url_result(u)),
{
    require_video(parse_target(input))
}

// ---------------------------------------------------------------- laws

/// A list without empty texts has nothing to leave out.
proof fn lemma_solid_same(s: Seq<Seq<char>>)
    requires
        forall|i: int| 0 <= i < s.len() ==> (#[trigger] s[i]).len() > 0,
    ensures
        solid(s) == s,
    decreases s.len(),
{
    reveal(Seq::filter);
    if s.len() > 0 {
        let t = s.drop_last();
        assert forall|i: int| 0 <= i < t.len() implies (#[trigger] t[i]).len() > 0 by {
            assert(t[i] == s[i]);
        }
        lemma_solid_same(t);
        assert(s.last() == s[s.len() - 1]);
        assert(s =~= t.push(s.last()));
    }
}

/// The names that hosts and pages are told apart by.
proof fn lemma_names_differ()
    ensures
        !is_youtube("youtu.be"@),
        "watch"@ != "playlist"@,
        !is_video_page("watch"@),
        !is_video_page("playlist"@),
{
    reveal_strlit("youtu.be");
    reveal_strlit("youtube.com");
    reveal_strlit("m.youtube.com");
    reveal_strlit("music.youtube.com");
    reveal_strlit("watch");
    reveal_strlit("playlist");
    reveal_strlit("shorts");
    reveal_strlit("embed");
    reveal_strlit("live");
    reveal_strlit("v");
    assert("watch"@[0] != "embed"@[0]);
    assert("youtu.be"@.len() == 8 && "watch"@.len() == 5 && "playlist"@.len() == 8);
}

/// A `youtu.be` link names the video that its path starts with.
pub proof fn law_short_link(u: UrlParts)
    requires
        web::is_plain_url(u),
        without_www(u.host->0) == "youtu.be"@,
    ensures
        url_result(u) == Ok::<TargetView, TargetErrorView>(TargetView::Video(u.segments->0[0])),
{
    lemma_solid_same(u.segments->0);
}

/// A watch page with a video names that video, whatever else its query holds: with a playlist
/// beside it, the single video is preferred.
pub proof fn law_watch_prefers_video(u: UrlParts, id: Seq<char>)
    requires
        web::is_plain_url(u),
        is_youtube(without_www(u.host->0)),
        u.segments->0[0] == "watch"@,
        first_value(u.query, "v"@) == Some(id),
    ensures
        url_result(u) == Ok::<TargetView, TargetErrorView>(TargetView::Video(id)),
{
    lemma_solid_same(u.segments->0);
    lemma_names_differ();
}

/// A watch or playlist page with a list and no video names the playlist.
pub proof fn law_list_names_playlist(u: UrlParts, id: Seq<char>)
    requires
        web::is_plain_url(u),
        is_youtube(without_www(u.host->0)),
        u.segments->0[0] == "playlist"@ || (u.segments->0[0] == "watch"@ && first_value(
            u.query,
            "v"@,
        ) is None),
        first_value(u.query, "list"@) == Some(id),
    ensures
        url_result(u) == Ok::<TargetView, TargetErrorView>(TargetView::Playlist(id)),
{
    lemma_solid_same(u.segments->0);
    lemma_names_differ();
}

/// A shorts, embed or live page names the video behind it in the path.
pub proof fn law_video_page(u: UrlParts)
    requires
        web::is_plain_url(u),
        is_youtube(without_www(u.host->0)),
        is_video_page(u.segments->0[0]),
        u.segments->0.len() > 1,
    ensures
        url_result(u) == Ok::<TargetView, TargetErrorView>(TargetView::Video(u.segments->0[1])),
{
    lemma_solid_same(u.segments->0);
    lemma_names_differ();
}

/// A web URL of any other host names nothing.
pub proof fn law_other_hosts(u: UrlParts)
    requires
        u.host is Some,
        without_www(u.host->0) != "youtu.be"@,
        !is_youtube(without_www(u.host->0)),
    ensures
        url_result(u) == Err::<TargetView, TargetErrorView>(TargetErrorView::Unsupported(u.text)),
{
}

/// A text is a video id or a playlist id, never both.
pub proof fn law_ids_disjoint(s: Seq<char>)
    ensures
        !(is_video_id(s) && is_playlist_id(s)),
{
    if is_video_id(s) {
        lemma_video_id(s);
    }
}

/// The value of a query's key is that of the first pair with the key, wherever that stands.
pub proof fn law_query_value_is_found_anywhere(
    q: Seq<(Seq<char>, Seq<char>)>,
    key: Seq<char>,
    i: int,
)
    requires
        0 <= i < q.len(),
        q[i].0 == key,
        forall|j: int| 0 <= j < i ==> (#[trigger] q[j]).0 != key,
    ensures
        first_value(q, key) == Some(q[i].1),
    decreases i,
{
    if i > 0 {
        let rest = q.drop_first();
        assert(q[0].0 != key);
        assert forall|j: int| 0 <= j < i - 1 implies (#[trigger] rest[j]).0 != key by {
            assert(rest[j] == q[j + 1]);
        }
        assert(rest[i - 1] == q[i]);
        law_query_value_is_found_anywhere(rest, key, i - 1);
    }
}

/// A key that no pair has gives no value.
pub proof fn law_query_value_is_missing(q: Seq<(Seq<char>, Seq<char>)>, key: Seq<char>)
    requires
        forall|j: int| 0 <= j < q.len() ==> (#[trigger] q[j]).0 != key,
    ensures
        first_value(q, key) is None,
    decreases q.len(),
{
    if q.len() > 0 {
        let rest = q.drop_first();
        assert(q[0].0 != key);
        assert forall|j: int| 0 <= j < rest.len() implies (#[trigger] rest[j]).0 != key by {
            assert(rest[j] == q[j + 1]);
        }
        law_query_value_is_missing(rest, key);
    }
}

/// A host is one of YouTube's, with `www.` in front of it or without.
proof fn lemma_www(host: Seq<char>, name: Seq<char>)
    requires
        host == name || host == "www."@ + name,
        name == "youtube.com"@ || name == "m.youtube.com"@ || name == "music.youtube.com"@ || name
            == "youtu.be"@,
    ensures
        without_www(host) == name,
{
    reveal_strlit("www.");
    reveal_strlit("youtube.com");
    reveal_strlit("m.youtube.com");
    reveal_strlit("music.youtube.com");
    reveal_strlit("youtu.be");
    assert("youtube.com"@[0] == 'y' && "m.youtube.com"@[0] == 'm' && "music.youtube.com"@[0] == 'm'
        && "youtu.be"@[0] == 'y');
    law_www_is_dropped(name);
    text::law_prefix_by_place(name, "www."@);
    assert("www."@[0] == 'w');
}

/// Each `www.` at the start of a host goes, and nothing else does.
pub proof fn law_www_is_dropped(host: Seq<char>)
    ensures
        without_www("www."@ + host) == without_www(host),
        !text::has_prefix(host, "www."@) ==> without_www(host) == host,
{
    reveal_strlit("www.");
    let h = "www."@ + host;
    assert(h.subrange(0, 4) =~= "www."@);
    assert(h.skip(4) =~= host);
}

/// On a watch page, at any of YouTube's hosts, the video of the first `v` of the query is the
/// target, wherever that stands and whatever playlist stands beside it.
pub proof fn law_watch_finds_video(u: UrlParts, name: Seq<char>, i: int)
    requires
        web::is_plain_url(u),
        name == "youtube.com"@ || name == "m.youtube.com"@ || name == "music.youtube.com"@,
        u.host->0 == name || u.host->0 == "www."@ + name,
        u.segments->0[0] == "watch"@,
        0 <= i < u.query.len(),
        u.query[i].0 == "v"@,
        forall|j: int| 0 <= j < i ==> (#[trigger] u.query[j]).0 != "v"@,
    ensures
        url_result(u) == Ok::<TargetView, TargetErrorView>(TargetView::Video(u.query[i].1)),
{
    lemma_www(u.host->0, name);
    law_query_value_is_found_anywhere(u.query, "v"@, i);
    law_watch_prefers_video(u, u.query[i].1);
}

/// On a playlist page, and on a watch page without a video, the first `list` of the query is the
/// target, wherever that stands.
pub proof fn law_page_finds_playlist(u: UrlParts, name: Seq<char>, i: int)
    requires
        web::is_plain_url(u),
        name == "youtube.com"@ || name == "m.youtube.com"@ || name == "music.youtube.com"@,
        u.host->0 == name || u.host->0 == "www."@ + name,
        u.segments->0[0] == "playlist"@ || (u.segments->0[0] == "watch"@ && forall|j: int|
            0 <= j < u.query.len() ==> (#[trigger] u.query[j]).0 != "v"@),
        0 <= i < u.query.len(),
        u.query[i].0 == "list"@,
        forall|j: int| 0 <= j < i ==> (#[trigger] u.query[j]).0 != "list"@,
    ensures
        url_result(u) == Ok::<TargetView, TargetErrorView>(TargetView::Playlist(u.query[i].1)),
{
    lemma_www(u.host->0, name);
    law_query_value_is_found_anywhere(u.query, "list"@, i);
    lemma_names_differ();
    if u.segments->0[0] == "watch"@ {
        law_query_value_is_missing(u.query, "v"@);
    }
    law_list_names_playlist(u, u.query[i].1);
}

/// A watch page with neither a video nor a playlist, and a playlist page without a playlist, name
/// nothing.
pub proof fn law_page_without_ids(u: UrlParts, name: Seq<char>)
    requires
        web::is_plain_url(u),
        name == "youtube.com"@ || name == "m.youtube.com"@ || name == "music.youtube.com"@,
        u.host->0 == name || u.host->0 == "www."@ + name,
        u.segments->0[0] == "playlist"@ || (u.segments->0[0] == "watch"@ && forall|j: int|
            0 <= j < u.query.len() ==> (#[trigger] u.query[j]).0 != "v"@),
        forall|j: int| 0 <= j < u.query.len() ==> (#[trigger] u.query[j]).0 != "list"@,
    ensures
        url_result(u) == Err::<TargetView, TargetErrorView>(TargetErrorView::Unsupported(u.text)),
{
    lemma_www(u.host->0, name);
    law_query_value_is_missing(u.query, "list"@);
    lemma_names_differ();
    if u.segments->0[0] == "watch"@ {
        law_query_value_is_missing(u.query, "v"@);
    }
    lemma_solid_same(u.segments->0);
}

/// A shorts, embed, live or `v` page, at any of YouTube's hosts, names the video behind it in the
/// path, and nothing where there is none there.
pub proof fn law_pages_of_videos(u: UrlParts, name: Seq<char>)
    requires
        web::is_plain_url(u),
        name == "youtube.com"@ || name == "m.youtube.com"@ || name == "music.youtube.com"@,
        u.host->0 == name || u.host->0 == "www."@ + name,
        u.segments->0[0] == "shorts"@ || u.segments->0[0] == "embed"@ || u.segments->0[0] == "live"@
            || u.segments->0[0] == "v"@,
    ensures
        u.segments->0.len() > 1 ==> url_result(u) == Ok::<TargetView, TargetErrorView>(
            TargetView::Video(u.segments->0[1]),
        ),
        u.segments->0.len() == 1 ==> url_result(u) == Err::<TargetView, TargetErrorView>(
            TargetErrorView::Unsupported(u.text),
        ),
{
    lemma_www(u.host->0, name);
    lemma_solid_same(u.segments->0);
    lemma_names_differ();
}

/// Any other page of YouTube names nothing.
pub proof fn law_other_pages(u: UrlParts, name: Seq<char>)
    requires
        web::is_plain_url(u),
        name == "youtube.com"@ || name == "m.youtube.com"@ || name == "music.youtube.com"@,
        u.host->0 == name || u.host->0 == "www."@ + name,
        u.segments->0[0] != "watch"@,
        u.segments->0[0] != "playlist"@,
        u.segments->0[0] != "shorts"@,
        u.segments->0[0] != "embed"@,
        u.segments->0[0] != "live"@,
        u.segments->0[0] != "v"@,
    ensures
        url_result(u) == Err::<TargetView, TargetErrorView>(TargetErrorView::Unsupported(u.text)),
{
    lemma_www(u.host->0, name);
    lemma_solid_same(u.segments->0);
    lemma_names_differ();
}

/// A short link names the video its path starts with, whatever stands behind it.
pub proof fn law_short_link_by_host(u: UrlParts)
    requires
        web::is_plain_url(u),
        u.host->0 == "youtu.be"@ || u.host->0 == "www."@ + "youtu.be"@,
    ensures
        url_result(u) == Ok::<TargetView, TargetErrorView>(TargetView::Video(u.segments->0[0])),
{
    lemma_www(u.host->0, "youtu.be"@);
    law_short_link(u);
}

/// A URL of another host names nothing, whatever its path and query are.
pub proof fn law_only_youtube_hosts(u: UrlParts)
    requires
        u.host is Some,
        !text::has_prefix(u.host->0, "www."@),
        u.host->0 != "youtu.be"@,
        u.host->0 != "youtube.com"@,
        u.host->0 != "m.youtube.com"@,
        u.host->0 != "music.youtube.com"@,
    ensures
        url_result(u) == Err::<TargetView, TargetErrorView>(TargetErrorView::Unsupported(u.text)),
{
    law_www_is_dropped(u.host->0);
}

/// Empty parts of a path do not count.
pub proof fn law_empty_segments_do_not_count(segments: Seq<Seq<char>>, x: Seq<char>)
    ensures
        solid(Seq::empty()) == Seq::<Seq<char>>::empty(),
        solid(segments.push(x)) == if x.len() == 0 {
            solid(segments)
        } else {
            solid(segments).push(x)
        },
{
    reveal(Seq::filter);
    assert(segments.push(x).drop_last() =~= segments);
}

/// A video id is eleven characters, each a letter, a digit, a dash or an underscore.
pub proof fn law_video_id_by_place(s: Seq<char>)
    ensures
        is_video_id(s) <==> s.len() == 11 && forall|i: int|
            0 <= i < s.len() ==> {
                ||| 'a' <= #[trigger] s[i] <= 'z'
                ||| 'A' <= s[i] <= 'Z'
                ||| '0' <= s[i] <= '9'
                ||| s[i] == '-'
                ||| s[i] == '_'
            },
{
    if is_video_id(s) {
        assert forall|i: int| 0 <= i < s.len() implies {
            ||| 'a' <= #[trigger] s[i] <= 'z'
            ||| 'A' <= s[i] <= 'Z'
            ||| '0' <= s[i] <= '9'
            ||| s[i] == '-'
            ||| s[i] == '_'
        } by {
            assert(web::is_id_char(s[i]));
        }
    }
}

/// A playlist id is longer than a video id, in UTF-8, and starts with one of seven pairs of
/// letters.
pub proof fn law_playlist_id_by_start(s: Seq<char>)
    ensures
        is_playlist_id(s) <==> s.len() >= 2 && vstd::utf8::encode_utf8(s).len() > 11 && {
            ||| s[0] == 'P' && s[1] == 'L'
            ||| s[0] == 'R' && s[1] == 'D'
            ||| s[0] == 'U' && s[1] == 'U'
            ||| s[0] == 'L' && s[1] == 'L'
            ||| s[0] == 'F' && s[1] == 'L'
            ||| s[0] == 'O' && s[1] == 'L'
            ||| s[0] == 'W' && s[1] == 'L'
        },
{
    reveal_strlit("PL");
    reveal_strlit("RD");
    reveal_strlit("UU");
    reveal_strlit("LL");
    reveal_strlit("FL");
    reveal_strlit("OL");
    reveal_strlit("RDCLAK");
    reveal_strlit("WL");
    text::law_prefix_by_place(s, "PL"@);
    text::law_prefix_by_place(s, "RD"@);
    text::law_prefix_by_place(s, "UU"@);
    text::law_prefix_by_place(s, "LL"@);
    text::law_prefix_by_place(s, "FL"@);
    text::law_prefix_by_place(s, "OL"@);
    text::law_prefix_by_place(s, "RDCLAK"@);
    text::law_prefix_by_place(s, "WL"@);
    if is_playlist_id(s) {
        assert(s.len() >= 2);
        assert(s[0] == s[0] && s[1] == s[1]);
    }
    if s.len() >= 2 {
        assert forall|p: Seq<char>|
            p.len() == 2 && s[0] == p[0] && s[1] == p[1] implies #[trigger] text::has_prefix(s, p) by {
            assert(s.subrange(0, 2) =~= p);
        }
    }
}

/// A text that is no web URL is a playlist or a video by its form alone, or is not recognized; a
/// web URL is what it names as a URL.
pub proof fn law_form_decides_without_url(s: Seq<char>, url: Option<UrlParts>)
    ensures
        url is Some && (url->0.scheme == "http"@ || url->0.scheme == "https"@) ==> target_of(s, url)
            == url_result(url->0),
        url is None || (url->0.scheme != "http"@ && url->0.scheme != "https"@) ==> target_of(s, url)
            == if is_playlist_id(s) {
            Ok::<TargetView, TargetErrorView>(TargetView::Playlist(s))
        } else if is_video_id(s) {
            Ok(TargetView::Video(s))
        } else {
            Err(TargetErrorView::Unrecognized(s))
        },
{
}

/// Where a single video is wanted a video is taken, a playlist refused, and an error handed on.
pub proof fn law_single_video_is_wanted(id: Seq<char>, e: TargetErrorView)
    ensures
        video_of(Ok(TargetView::Video(id))) == Ok::<Seq<char>, VideoErrorView>(id),
        video_of(Ok(TargetView::Playlist(id))) == Err::<Seq<char>, VideoErrorView>(
            VideoErrorView::Playlist,
        ),
        video_of(Err(e)) == Err::<Seq<char>, VideoErrorView>(VideoErrorView::Target(e)),
{
}

/// Each error tells of the text that it is about.
pub proof fn law_target_errors_by_message(s: Seq<char>)
    ensures
        target_message(TargetErrorView::Unrecognized(s)) == "could not recognize '"@ + s
            + "' as a YouTube URL, video id, or playlist id"@,
        target_message(TargetErrorView::Unsupported(s)) == "unsupported YouTube URL: "@ + s,
{
}

} // verus!
