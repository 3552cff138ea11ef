//! Searching for videos: what is asked of a backend, and what its answer says.

use crate::figures;
use crate::json::Json;
use crate::json;
use crate::lucky;
use crate::text;
use crate::web;
use vstd::prelude::*;

verus! {

/// A video that a search found.
#[derive(Debug, Clone)]
pub struct SearchResult {
    pub video_id: String,
    pub title: String,
    pub author: String,
    pub length: String,
    pub views: String,
    pub published: String,
    pub is_live: bool,
}

/// The texts of a [`SearchResult`].
#[verifier::ext_equal]
pub struct SearchResultView {
    pub video_id: Seq<char>,
    pub title: Seq<char>,
    pub author: Seq<char>,
    pub length: Seq<char>,
    pub views: Seq<char>,
    pub published: Seq<char>,
    pub is_live: bool,
}

impl View for SearchResult {
    type V = SearchResultView;

    open spec fn view(&self) -> SearchResultView {
        SearchResultView {
            video_id: self.video_id@,
            title: self.title@,
            author: self.author@,
            length: self.length@,
            views: self.views@,
            published: self.published@,
            is_live: self.is_live,
        }
    }
}

// ---------------------------------------------------------------- labels

/// A list of one text, or of none where the text is empty.
pub open spec fn if_solid(s: Seq<char>) -> Seq<Seq<char>> {
    if s.len() == 0 {
        Seq::empty()
    } else {
        seq![s]
    }
}

/// What a label tells of a video besides its title.
pub open spec fn meta_of(r: SearchResultView) -> Seq<Seq<char>> {
    if_solid(r.author) + (if r.is_live {
        seq!["LIVE"@]
    } else {
        if_solid(r.length)
    }) + if_solid(r.views) + if_solid(r.published)
}

/// The one-line label of a video.
pub open spec fn label_of(r: SearchResultView) -> Seq<char> {
    if meta_of(r).len() == 0 {
        r.title
    } else {
        r.title + "  —  "@ + text::joined(meta_of(r), " · "@)
    }
}

/// Adds a text to a list unless it is empty.
fn push_solid(list: &mut Vec<String>, s: &str)
    ensures
        text::texts(final(list)@) == text::texts(old(list)@) + if_solid(s@),
{
    if !s.is_empty() {
        list.push(text::copy(s));
    }
    assert(text::texts(list@) =~= text::texts(old(list)@) + if_solid(s@));
}

impl SearchResult {
    /// One-line label for pickers and listings.
    pub fn label(&self) -> (r: String)
        ensures
            r@ == label_of(self@),
    {
        let mut meta: Vec<String> = Vec::new();
        push_solid(&mut meta, self.author.as_str());
        if self.is_live {
            proof {
                reveal_strlit("LIVE");
            }
            push_solid(&mut meta, "LIVE");
        } else {
            push_solid(&mut meta, self.length.as_str());
        }
        push_solid(&mut meta, self.views.as_str());
        push_solid(&mut meta, self.published.as_str());
        assert(text::texts(meta@) =~= meta_of(self@));
        assert(meta@.len() == text::texts(meta@).len());
        if meta.len() == 0 {
            text::copy(self.title.as_str())
        } else {
            text::concat3(self.title.as_str(), "  —  ", text::join(&meta, " · ").as_str())
        }
    }
}

/// The line for a video where there is no user to pick one.
pub fn listing_line(result: &SearchResult) -> (r: String)
    ensures
        r@ == result@.video_id + "\t"@ + label_of(result@),
{
    text::concat3(result.video_id.as_str(), "\t", result.label().as_str())
}

/// What is said of a video behind its address.
pub open spec fn suffix_of(r: SearchResultView) -> Seq<char> {
    if r.author.len() == 0 {
        "  ("@ + r.title + ")"@
    } else {
        "  ("@ + r.title + " — "@ + r.author + ")"@
    }
}

/// What is said of a video behind its address.
pub fn cast_suffix(chosen: &SearchResult) -> (r: String)
    ensures
        r@ == suffix_of(chosen@),
{
    let mut r = text::concat2("  (", chosen.title.as_str());
    if !chosen.author.as_str().is_empty() {
        r.append(" — ");
        r.append(chosen.author.as_str());
    }
    r.append(")");
    r
}

// ---------------------------------------------------------------- requests

/// An order for search results.
#[derive(Clone, Copy, Debug, PartialEq, Eq, Structural)]
pub enum Sort {
    /// Most relevant first (default)
    Relevance,
    /// Most recent first
    Date,
    /// Most viewed first
    Views,
    /// Highest rated first
    Rating,
}

impl Sort {
    /// What the search API calls the order.
    pub open spec fn api_param(self) -> Seq<char> {
        match self {
            Sort::Relevance => "relevance"@,
            Sort::Date => "upload_date"@,
            Sort::Views => "view_count"@,
            Sort::Rating => "rating"@,
        }
    }

    /// What the search API calls the order.
    pub fn as_api_param(self) -> (r: &'static str)
        ensures
            r@ == self.api_param(),
    {
        match self {
            Sort::Relevance => "relevance",
            Sort::Date => "upload_date",
            Sort::Views => "view_count",
            Sort::Rating => "rating",
        }
    }
}

/// What a search is narrowed to.
#[derive(Debug)]
pub struct SearchFilter {
    pub live: bool,
    pub sort_by: Option<String>,
}

impl Default for SearchFilter {
    fn default() -> (f: Self)
        ensures
            !f.live,
            f.sort_by is None,
    {
        SearchFilter { live: false, sort_by: None }
    }
}

/// The address of a search.
pub fn search_url(base: &str) -> (r: String)
    ensures
        r@ == web::under(base@, "/api/v1/search"@),
{
    web::endpoint(base, "/api/v1/search")
}

/// The parameters of a search.
pub open spec fn params_of(
    query: Seq<char>,
    page: nat,
    live: bool,
    sort_by: Option<Seq<char>>,
) -> Seq<(Seq<char>, Seq<char>)> {
    seq![("q"@, query), ("type"@, "video"@), ("page"@, text::digits(page))] + (if live {
        seq![("features"@, "live"@)]
    } else {
        Seq::empty()
    }) + (match sort_by {
        Some(s) => if s.len() > 0 {
            seq![("sort_by"@, s)]
        } else {
            Seq::empty()
        },
        None => Seq::empty(),
    })
}

/// The parameters of a search.
pub fn search_params(query: &str, page: usize, filter: &SearchFilter) -> (r: Vec<(String, String)>)
    ensures
        web::pair_texts(r@) == params_of(query@, page as nat, filter.live, text::text_opt(filter.sort_by)),
{
    let mut r: Vec<(String, String)> = Vec::new();
    r.push((text::copy("q"), text::copy(query)));
    r.push((text::copy("type"), text::copy("video")));
    r.push((text::copy("page"), text::decimal(page as i128)));
    if filter.live {
        r.push((text::copy("features"), text::copy("live")));
    }
    if let Some(s) = &filter.sort_by {
        if !s.as_str().is_empty() {
            r.push((text::copy("sort_by"), text::copy(s.as_str())));
        }
    }
    assert(web::pair_texts(r@) =~= params_of(
        query@,
        page as nat,
        filter.live,
        text::text_opt(filter.sort_by),
    ));
    r
}

/// The address of what is known of a video.
pub fn video_url(base: &str, video_id: &str) -> (r: String)
    ensures
        r@ == web::under(base@, "/api/v1/videos/"@) + video_id@,
{
    text::concat2(web::endpoint(base, "/api/v1/videos/").as_str(), video_id)
}

/// The address of a device's search history.
pub fn history_url(web_base: &str) -> (r: String)
    ensures
        r@ == web::under(web_base@, "/api/search-history"@),
{
    web::endpoint(web_base, "/api/search-history")
}

// ---------------------------------------------------------------- answers

/// The text, or nothing.
pub open spec fn or_empty(s: Option<Seq<char>>) -> Seq<char> {
    match s {
        Some(t) => t,
        None => Seq::empty(),
    }
}

/// The entry is no video.
pub open spec fn is_other_kind(kind: Seq<char>) -> bool {
    kind == "channel"@ || kind == "playlist"@ || kind == "shelf"@
}

/// The text of a member where it is there and not empty.
pub open spec fn solid_member(item: Json, key: Seq<char>) -> Option<Seq<char>> {
    match json::member_text(item, key) {
        Some(t) => if t.len() > 0 {
            Some(t)
        } else {
            None
        },
        None => None,
    }
}

/// The number of a member where it is there and positive.
pub open spec fn positive_member(item: Json, key: Seq<char>) -> Option<int> {
    match json::member_int(item, key) {
        Some(n) => if n > 0 {
            Some(n)
        } else {
            None
        },
        None => None,
    }
}

/// How long a video is, as the entry says it or worked out from its seconds.
pub open spec fn length_of(item: Json) -> Seq<char> {
    match (solid_member(item, "lengthText"@), positive_member(item, "lengthSeconds"@)) {
        (Some(t), _) => t,
        (None, Some(secs)) => figures::duration_text(secs),
        (None, None) => Seq::empty(),
    }
}

/// How often a video was seen, as the entry says it or worked out from its count.
pub open spec fn views_of(item: Json) -> Seq<char> {
    match (solid_member(item, "viewCountText"@), positive_member(item, "viewCount"@)) {
        (Some(t), _) => t,
        (None, Some(n)) => figures::count_text(n) + " views"@,
        (None, None) => Seq::empty(),
    }
}

/// When a video came out, as the entry says it or worked out from its date.
pub open spec fn published_of(item: Json, now: int) -> Seq<char> {
    match (solid_member(item, "publishedText"@), positive_member(item, "published"@)) {
        (Some(t), _) => t,
        (None, Some(ts)) => figures::relative_text(now, ts),
        (None, None) => Seq::empty(),
    }
}

/// The video that an entry of an answer is.
pub open spec fn video_of(item: Json, now: int) -> Option<SearchResultView> {
    if is_other_kind(or_empty(json::member_text(item, "type"@))) {
        None
    } else {
        match solid_member(item, "videoId"@) {
            None => None,
            Some(video_id) => Some(
                SearchResultView {
                    video_id,
                    title: or_empty(json::member_text(item, "title"@)),
                    author: or_empty(json::member_text(item, "author"@)),
                    length: length_of(item),
                    views: views_of(item),
                    published: published_of(item, now),
                    is_live: json::as_truth(json::member(item, "liveNow"@)) == Some(true),
                },
            ),
        }
    }
}

/// The text of a member, or nothing.
fn str_field(item: &Json, key: &str) -> (r: String)
    ensures
        r@ == or_empty(json::member_text(*item, key@)),
{
    match item.get_str(key) {
        Some(s) => s,
        None => String::new(),
    }
}

/// The text of a member where it is there and not empty.
fn solid_field(item: &Json, key: &str) -> (r: Option<String>)
    ensures
        text::text_opt(r) == solid_member(*item, key@),
{
    match item.get_str(key) {
        Some(s) => if s.as_str().is_empty() {
            None
        } else {
            Some(s)
        },
        None => None,
    }
}

/// How long a video is.
pub fn length_field(item: &Json) -> (r: String)
    ensures
        r@ == length_of(*item),
{
    if let Some(t) = solid_field(item, "lengthText") {
        return t;
    }
    match item.get_i64("lengthSeconds") {
        Some(secs) if secs > 0 => figures::fmt_duration(secs),
        _ => String::new(),
    }
}

/// How often a video was seen.
pub fn views_field(item: &Json) -> (r: String)
    ensures
        r@ == views_of(*item),
{
    if let Some(t) = solid_field(item, "viewCountText") {
        return t;
    }
    match item.get_i64("viewCount") {
        Some(n) if n > 0 => text::concat2(figures::human_count(n).as_str(), " views"),
        _ => String::new(),
    }
}

/// When a video came out, seen from a time in seconds since the epoch.
pub fn published_field(item: &Json, now: i64) -> (r: String)
    requires
        now >= 0,
    ensures
        r@ == published_of(*item, now as int),
{
    if let Some(t) = solid_field(item, "publishedText") {
        return t;
    }
    match item.get_i64("published") {
        Some(ts) if ts > 0 => figures::fmt_relative_ts(now, ts),
        _ => String::new(),
    }
}

/// The video that an entry of an answer is, seen from a time in seconds since the epoch.
pub fn parse_item_at(item: &Json, now: i64) -> (r: Option<SearchResult>)
    requires
        now >= 0,
    ensures
        match r {
            Some(v) => Some(v@),
            None => None,
        } == video_of(*item, now as int),
{
    // Only videos: must have a videoId and not be a channel/playlist entry.
    let kind = str_field(item, "type");
    if text::same_text(kind.as_str(), "channel") || text::same_text(kind.as_str(), "playlist")
        || text::same_text(kind.as_str(), "shelf") {
        return None;
    }
    let video_id = match solid_field(item, "videoId") {
        Some(id) => id,
        None => {
            return None;
        },
    };
    let is_live = match item.get_bool("liveNow") {
        Some(b) => b,
        None => false,
    };
    let title = str_field(item, "title");
    let author = str_field(item, "author");
    let length = length_field(item);
    let views = views_field(item);
    let published = published_field(item, now);
    Some(SearchResult { video_id, title, author, length, views, published, is_live })
}

/// The video that an entry of an answer is, seen from now. When now is, the clock says: the
/// result is that of [`parse_item_at`] for some time since the epoch.
pub fn parse_item(item: &Json) -> (r: Option<SearchResult>)
    ensures
        exists|now: int|
            0 <= now <= i64::MAX && match r {
                Some(v) => Some(v@),
                None => None,
            } == #[trigger] video_of(*item, now),
{
    let now = figures::unix_now();
    parse_item_at(item, now)
}

/// The entries of an answer: a list, or the list under `items`.
pub open spec fn entries(body: Json) -> Seq<Json> {
    match body {
        Json::Array(v) => v@,
        _ => match json::as_list(json::member(body, "items"@)) {
            Some(v) => v,
            None => Seq::empty(),
        },
    }
}

/// The videos among the entries, in order.
pub open spec fn videos(items: Seq<Json>, now: int) -> Seq<SearchResultView>
    decreases items.len(),
{
    if items.len() == 0 {
        Seq::empty()
    } else {
        match video_of(items.last(), now) {
            Some(v) => videos(items.drop_last(), now).push(v),
            None => videos(items.drop_last(), now),
        }
    }
}

/// The first of the videos, at most so many.
pub open spec fn limited(all: Seq<SearchResultView>, limit: nat) -> Seq<SearchResultView> {
    if all.len() <= limit {
        all
    } else {
        all.take(limit as int)
    }
}

/// The texts of a list of videos.
pub open spec fn result_views(v: Seq<SearchResult>) -> Seq<SearchResultView> {
    v.map_values(|r: SearchResult| r@)
}

/// More entries only add videos at the end.
proof fn lemma_videos_grow(items: Seq<Json>, now: int, i: int)
    requires
        0 <= i <= items.len(),
    ensures
        videos(items.take(i), now).is_prefix_of(videos(items, now)),
    decreases items.len() - i,
{
    if i == items.len() {
        assert(items.take(i) =~= items);
    } else {
        lemma_videos_grow(items, now, i + 1);
        assert(items.take(i + 1).drop_last() =~= items.take(i));
        let a = videos(items.take(i), now);
        let b = videos(items.take(i + 1), now);
        assert(a.is_prefix_of(b));
        assert forall|k: int| 0 <= k < a.len() implies a[k] == videos(items, now)[k] by {
            assert(a[k] == b[k]);
        }
        assert(a =~= videos(items, now).take(a.len() as int));
    }
}

/// The videos of an answer, at most so many, seen from a time in seconds since the epoch.
pub fn results_at(body: &Json, limit: usize, now: i64) -> (r: Vec<SearchResult>)
    requires
        now >= 0,
    ensures
        result_views(r@) == limited(videos(entries(*body), now as int), limit as nat),
{
    let none: Vec<Json> = Vec::new();
    let items = match body {
        Json::Array(v) => v,
        _ => match body.get_list("items") {
            Some(v) => v,
            None => &none,
        },
    };
    assert(items@ =~= entries(*body));
    let mut out: Vec<SearchResult> = Vec::new();
    let mut i: usize = 0;
    assert(items@.take(0) =~= Seq::empty());
    assert(result_views(out@) =~= Seq::empty());
    if limit == 0 {
        return out;
    }
    while i < items.len()
        invariant
            i <= items.len(),
            now >= 0,
            items@ == entries(*body),
            result_views(out@) == videos(items@.take(i as int), now as int),
            out.len() < limit,
        decreases items.len() - i,
    {
        assert(items@.take(i + 1).drop_last() =~= items@.take(i as int));
        let ghost before = out@;
        if let Some(v) = parse_item_at(&items[i], now) {
            let ghost view = v@;
            out.push(v);
            assert(result_views(out@) =~= result_views(before).push(view));
            if out.len() >= limit {
                proof {
                    lemma_videos_grow(items@, now as int, i + 1);
                    assert(result_views(out@).len() == out@.len());
                    let all = videos(items@, now as int);
                    assert(result_views(out@) =~= all.take(out@.len() as int));
                    assert(limited(all, limit as nat) =~= all.take(out@.len() as int));
                }
                return out;
            }
        }
        i += 1;
    }
    assert(items@.take(i as int) =~= items@);
    assert(result_views(out@).len() == out@.len());
    out
}

/// The videos of an answer, at most so many, seen from now. When now is, the clock says: the
/// result is that of [`results_at`] for some time since the epoch.
pub fn search_results(body: &Json, limit: usize) -> (r: Vec<SearchResult>)
    ensures
        exists|now: int|
            0 <= now <= i64::MAX && result_views(r@) == limited(
                #[trigger] videos(entries(*body), now),
                limit as nat,
            ),
{
    let now = figures::unix_now();
    results_at(body, limit, now)
}

/// The title in what a backend knows of a video, trimmed; `None` where it is missing or blank.
pub open spec fn title_of(body: Json) -> Option<Seq<char>> {
    match json::member_text(body, "title"@) {
        Some(t) => if text::trimmed(t).len() > 0 {
            Some(text::trimmed(t))
        } else {
            None
        },
        None => None,
    }
}

/// The title in what a backend knows of a video.
pub fn title_field(body: &Json) -> (r: Option<String>)
    ensures
        text::text_opt(r) == title_of(*body),
{
    match body.get_str("title") {
        Some(t) => {
            let title = text::trim(t.as_str());
            if title.as_str().is_empty() {
                None
            } else {
                Some(title)
            }
        },
        None => None,
    }
}

// ---------------------------------------------------------------- choosing

/// What to do with the videos that were found.
pub enum SearchStep {
    /// Cast the one at this position.
    Cast(usize),
    /// Print these lines: there is no user to ask.
    List(Vec<String>),
    /// Let the user pick from these labels, under this prompt.
    Pick(Vec<String>, &'static str),
    /// Nothing was found.
    Nothing,
}

/// The labels of all videos.
pub open spec fn labels_of(results: Seq<SearchResultView>) -> Seq<Seq<char>> {
    results.map_values(|r: SearchResultView| label_of(r))
}

/// The lines of all videos.
pub open spec fn lines_of(results: Seq<SearchResultView>) -> Seq<Seq<char>> {
    results.map_values(|r: SearchResultView| r.video_id + "\t"@ + label_of(r))
}

/// Decides what to do with the videos that were found: cast the first, or one by chance, or let
/// the user pick, where there is a user to ask.
pub fn search_step(
    results: &Vec<SearchResult>,
    first: bool,
    random: bool,
    interactive: bool,
    queue: bool,
) -> (r: SearchStep)
    ensures
        match r {
            SearchStep::Nothing => results@.len() == 0,
            SearchStep::Cast(i) => i < results@.len() && (first || random) && (first ==> i == 0),
            SearchStep::List(lines) => results@.len() > 0 && !first && !random && !interactive
                && text::texts(lines@) == lines_of(result_views(results@)),
            SearchStep::Pick(labels, prompt) => results@.len() > 0 && !first && !random
                && interactive && text::texts(labels@) == labels_of(result_views(results@)) && prompt@
                == if queue {
                "Queue which video?"@
            } else {
                "Cast which video?"@
            },
        },
{
    if results.len() == 0 {
        return SearchStep::Nothing;
    }
    if first {
        return SearchStep::Cast(0);
    }
    if random {
        return SearchStep::Cast(lucky::random_index(results.len()));
    }
    let mut labels: Vec<String> = Vec::new();
    let mut lines: Vec<String> = Vec::new();
    let ghost views = result_views(results@);
    let mut i: usize = 0;
    while i < results.len()
        invariant
            i <= results.len(),
            views == result_views(results@),
            text::texts(labels@) == labels_of(views).take(i as int),
            text::texts(lines@) == lines_of(views).take(i as int),
        decreases results.len() - i,
    {
        assert(views[i as int] == results@[i as int]@);
        let ghost labels_before = labels@;
        let ghost lines_before = lines@;
        labels.push(results[i].label());
        lines.push(listing_line(&results[i]));
        assert(text::texts(labels@) =~= text::texts(labels_before).push(labels_of(views)[i as int]));
        assert(text::texts(lines@) =~= text::texts(lines_before).push(lines_of(views)[i as int]));
        assert(labels_of(views).take(i as int).push(labels_of(views)[i as int]) =~= labels_of(
            views,
        ).take(i + 1));
        assert(lines_of(views).take(i as int).push(lines_of(views)[i as int]) =~= lines_of(
            views,
        ).take(i + 1));
        i += 1;
    }
    assert(labels_of(views).take(i as int) =~= labels_of(views));
    assert(lines_of(views).take(i as int) =~= lines_of(views));
    if !interactive {
        return SearchStep::List(lines);
    }
    SearchStep::Pick(
        labels,
        if queue {
            "Queue which video?"
        } else {
            "Cast which video?"
        },
    )
}

/// How many videos the picker shows at once on a terminal with so many rows.
pub fn max_visible(rows: usize) -> (r: usize)
    ensures
        r == if rows < 9 {
            5
        } else {
            rows - 4
        },
{
    if rows < 9 {
        5
    } else {
        rows - 4
    }
}

// ---------------------------------------------------------------- laws

/// A limit of videos is kept, and the ones that are kept are the first of all.
pub proof fn law_limit_is_kept(all: Seq<SearchResultView>, limit: nat)
    ensures
        limited(all, limit).len() <= limit,
        limited(all, limit).is_prefix_of(all),
        all.len() <= limit ==> limited(all, limit) == all,
{
}

/// Every video that a search gives has an id.
pub proof fn law_results_have_ids(items: Seq<Json>, now: int, i: int)
    requires
        0 <= i < videos(items, now).len(),
    ensures
        videos(items, now)[i].video_id.len() > 0,
    decreases items.len(),
{
    let before = videos(items.drop_last(), now);
    if i < before.len() {
        law_results_have_ids(items.drop_last(), now, i);
    }
}

/// A list of entries is read the same under `items` as bare.
pub proof fn law_both_shapes_read_alike(list: Json, wrapped: Json)
    requires
        list is Array,
        wrapped is Object,
        json::member(wrapped, "items"@) == Some(list),
    ensures
        entries(wrapped) == entries(list),
{
}

/// A live video is shown as live, whatever its length says.
pub proof fn law_live_hides_length(r: SearchResultView, length: Seq<char>)
    requires
        r.is_live,
    ensures
        label_of(r) == label_of(SearchResultView { length, ..r }),
        meta_of(r).contains("LIVE"@),
{
    let k = if_solid(r.author).len() as int;
    assert(meta_of(r)[k] == "LIVE"@);
}

/// An entry with a video id that is no channel, playlist or shelf is a video, and what is told of
/// it is what the entry says: its id, its title and author where they are there, and that it is
/// live exactly where the entry says so.
pub proof fn law_entry_is_video(e: Json, id: String, now: int)
    requires
        json::member(e, "videoId"@) == Some(Json::Str(id)),
        id@.len() > 0,
        json::member(e, "type"@) matches Some(Json::Str(k)) ==> k@ != "channel"@ && k@ != "playlist"@
            && k@ != "shelf"@,
    ensures
        video_of(e, now) is Some,
        (video_of(e, now)->0).video_id == id@,
        json::member(e, "title"@) matches Some(Json::Str(t)) ==> (video_of(e, now)->0).title == t@,
        json::member(e, "author"@) matches Some(Json::Str(t)) ==> (video_of(e, now)->0).author == t@,
        json::member(e, "title"@) is None || !(json::member(e, "title"@)->0 is Str) ==> (video_of(
            e,
            now,
        )->0).title.len() == 0,
        json::member(e, "author"@) is None || !(json::member(e, "author"@)->0 is Str) ==> (video_of(
            e,
            now,
        )->0).author.len() == 0,
        (video_of(e, now)->0).is_live <==> json::member(e, "liveNow"@) == Some(Json::Bool(true)),
        (video_of(e, now)->0).length == length_of(e),
        (video_of(e, now)->0).views == views_of(e),
        (video_of(e, now)->0).published == published_of(e, now),
{
    reveal_strlit("channel");
    reveal_strlit("playlist");
    reveal_strlit("shelf");
    assert("channel"@.len() == 7 && "playlist"@.len() == 8 && "shelf"@.len() == 5);
    let kind = or_empty(json::member_text(e, "type"@));
    assert(kind != "channel"@ && kind != "playlist"@ && kind != "shelf"@);
}

/// Every entry with a video id that is no channel, playlist or shelf adds its video behind those
/// of the entries before it, whatever else it says, live or not; any other entry adds nothing.
pub proof fn law_videos_entry_by_entry(items: Seq<Json>, e: Json, now: int)
    ensures
        videos(Seq::empty(), now) == Seq::<SearchResultView>::empty(),
        (json::member(e, "videoId"@) matches Some(Json::Str(id)) && id@.len() > 0) && !(json::member(
            e,
            "type"@,
        ) matches Some(Json::Str(k)) && (k@ == "channel"@ || k@ == "playlist"@ || k@ == "shelf"@))
            ==> video_of(e, now) is Some && videos(items.push(e), now) == videos(items, now).push(
            video_of(e, now)->0,
        ),
        !(json::member(e, "videoId"@) matches Some(Json::Str(id)) && id@.len() > 0) ==> videos(
            items.push(e),
            now,
        ) == videos(items, now),
        (json::member(e, "type"@) matches Some(Json::Str(k)) && (k@ == "channel"@ || k@
            == "playlist"@ || k@ == "shelf"@)) ==> videos(items.push(e), now) == videos(items, now),
{
    assert(items.push(e).drop_last() =~= items);
    assert(items.push(e).last() == e);
    if let Some(Json::Str(id)) = json::member(e, "videoId"@) {
        if id@.len() > 0 && !(json::member(e, "type"@) matches Some(Json::Str(k)) && (k@
            == "channel"@ || k@ == "playlist"@ || k@ == "shelf"@)) {
            law_entry_is_video(e, id, now);
        }
    }
}

/// The videos of an answer are those of the entries with a video id that are no channel, playlist
/// or shelf: as many as there are such entries, and in their order.
pub proof fn law_videos_are_all_such_entries(items: Seq<Json>, now: int)
    ensures
        videos(items, now).len() == items.filter(
            |e: Json|
                (json::member(e, "videoId"@) matches Some(Json::Str(id)) && id@.len() > 0) && !(
                json::member(e, "type"@) matches Some(Json::Str(k)) && (k@ == "channel"@ || k@
                    == "playlist"@ || k@ == "shelf"@)),
        ).len(),
        videos(items, now) == items.filter(
            |e: Json|
                (json::member(e, "videoId"@) matches Some(Json::Str(id)) && id@.len() > 0) && !(
                json::member(e, "type"@) matches Some(Json::Str(k)) && (k@ == "channel"@ || k@
                    == "playlist"@ || k@ == "shelf"@)),
        ).map_values(|e: Json| video_of(e, now)->0),
    decreases items.len(),
{
    reveal(Seq::filter);
    let p = |e: Json|
        (json::member(e, "videoId"@) matches Some(Json::Str(id)) && id@.len() > 0) && !(
        json::member(e, "type"@) matches Some(Json::Str(k)) && (k@ == "channel"@ || k@
            == "playlist"@ || k@ == "shelf"@));
    let f = |e: Json| video_of(e, now)->0;
    if items.len() > 0 {
        let init = items.drop_last();
        let e = items.last();
        law_videos_are_all_such_entries(init, now);
        law_videos_entry_by_entry(init, e, now);
        assert(init.push(e) =~= items);
        if p(e) {
            assert(items.filter(p) == init.filter(p).push(e));
            assert(init.filter(p).push(e).map_values(f) =~= init.filter(p).map_values(f).push(f(e)));
        } else {
            assert(items.filter(p) == init.filter(p));
        }
    } else {
        assert(items.filter(p) =~= Seq::empty());
    }
}

/// A video that a search gives is the video of one of the entries, and every entry that is a video
/// is among them.
pub proof fn law_every_video_entry_is_found(items: Seq<Json>, now: int, i: int, id: String)
    requires
        0 <= i < items.len(),
        json::member(items[i], "videoId"@) == Some(Json::Str(id)),
        id@.len() > 0,
        !(json::member(items[i], "type"@) matches Some(Json::Str(k)) && (k@ == "channel"@ || k@
            == "playlist"@ || k@ == "shelf"@)),
    ensures
        exists|n: int| 0 <= n < videos(items, now).len() && (#[trigger] videos(items, now)[n]).video_id
            == id@,
    decreases items.len(),
{
    let init = items.drop_last();
    law_videos_entry_by_entry(init, items.last(), now);
    assert(init.push(items.last()) =~= items);
    let all = videos(items, now);
    if i == items.len() - 1 {
        assert(all[all.len() - 1].video_id == id@);
    } else {
        law_every_video_entry_is_found(init, now, i, id);
        let n = choose|n: int| 0 <= n < videos(init, now).len() && (#[trigger] videos(init, now)[n]).video_id
            == id@;
        assert(all[n] == videos(init, now)[n]);
    }
}

/// Where an entry says how long its video is, that is shown as it stands; else the length is worked
/// out from a positive number of seconds; else nothing is shown.
pub proof fn law_length_is_told(e: Json, t: String, n: i128)
    ensures
        json::member(e, "lengthText"@) == Some(Json::Str(t)) && t@.len() > 0 ==> length_of(e) == t@,
        !(json::member(e, "lengthText"@) matches Some(Json::Str(s)) && s@.len() > 0)
            && json::member(e, "lengthSeconds"@) == Some(Json::Int(n)) && 0 < n
            <= 0x7fff_ffff_ffff_ffff ==> length_of(e) == figures::duration_text(n as int),
        !(json::member(e, "lengthText"@) matches Some(Json::Str(s)) && s@.len() > 0) && !(
        json::member(e, "lengthSeconds"@) matches Some(Json::Int(k)) && 0 < k
            <= 0x7fff_ffff_ffff_ffff) ==> length_of(e).len() == 0,
{
}

/// Where an entry says how often its video was seen, that is shown as it stands; else a positive
/// count is written out, with the word behind it; else nothing is shown.
pub proof fn law_views_are_told(e: Json, t: String, n: i128)
    ensures
        json::member(e, "viewCountText"@) == Some(Json::Str(t)) && t@.len() > 0 ==> views_of(e)
            == t@,
        !(json::member(e, "viewCountText"@) matches Some(Json::Str(s)) && s@.len() > 0)
            && json::member(e, "viewCount"@) == Some(Json::Int(n)) && 0 < n
            <= 0x7fff_ffff_ffff_ffff ==> views_of(e) == figures::count_text(n as int) + seq![
            ' ',
            'v',
            'i',
            'e',
            'w',
            's',
        ],
        !(json::member(e, "viewCountText"@) matches Some(Json::Str(s)) && s@.len() > 0) && !(
        json::member(e, "viewCount"@) matches Some(Json::Int(k)) && 0 < k <= 0x7fff_ffff_ffff_ffff)
            ==> views_of(e).len() == 0,
{
    reveal_strlit(" views");
    assert(" views"@ =~= seq![' ', 'v', 'i', 'e', 'w', 's']);
}

/// Where an entry says when its video came out, that is shown as it stands; else it is worked out
/// from a positive time; else nothing is shown.
pub proof fn law_date_is_told(e: Json, t: String, n: i128, now: int)
    ensures
        json::member(e, "publishedText"@) == Some(Json::Str(t)) && t@.len() > 0 ==> published_of(
            e,
            now,
        ) == t@,
        !(json::member(e, "publishedText"@) matches Some(Json::Str(s)) && s@.len() > 0)
            && json::member(e, "published"@) == Some(Json::Int(n)) && 0 < n
            <= 0x7fff_ffff_ffff_ffff ==> published_of(e, now) == figures::relative_text(
            now,
            n as int,
        ),
        !(json::member(e, "publishedText"@) matches Some(Json::Str(s)) && s@.len() > 0) && !(
        json::member(e, "published"@) matches Some(Json::Int(k)) && 0 < k <= 0x7fff_ffff_ffff_ffff)
            ==> published_of(e, now).len() == 0,
{
}

/// The entries of an answer are the items of a list, or of the list that an object has under
/// `items`; any other answer has none.
pub proof fn law_entries_by_shape(body: Json)
    ensures
        body is Array ==> entries(body) == body->Array_0@,
        body is Object && (json::member(body, "items"@) matches Some(Json::Array(v))) ==> entries(
            body,
        ) == json::member(body, "items"@)->0->Array_0@,
        !(body is Array) && !(json::member(body, "items"@) matches Some(Json::Array(v))) ==> entries(
            body,
        ).len() == 0,
{
}

/// As many videos are kept as the limit lets in: all of them, or as many as the limit says.
pub proof fn law_limit_is_used_up(all: Seq<SearchResultView>, limit: nat)
    ensures
        all.len() <= limit ==> limited(all, limit).len() == all.len(),
        all.len() > limit ==> limited(all, limit).len() == limit,
        forall|i: int|
            0 <= i < limited(all, limit).len() ==> #[trigger] limited(all, limit)[i] == all[i],
{
}

/// The author, how often a video was seen and when it came out are told exactly where there is
/// something to say of each, in that order; of the length and that it is live, live wins.
pub proof fn law_label_parts(r: SearchResultView)
    ensures
        meta_of(r).len() == (if r.author.len() > 0 {
            1int
        } else {
            0
        }) + (if r.is_live || r.length.len() > 0 {
            1int
        } else {
            0
        }) + (if r.views.len() > 0 {
            1int
        } else {
            0
        }) + (if r.published.len() > 0 {
            1int
        } else {
            0
        }),
        r.author.len() > 0 ==> meta_of(r)[0] == r.author,
        r.is_live ==> meta_of(r)[if r.author.len() > 0 {
            1
        } else {
            0
        }] == "LIVE"@,
        !r.is_live && r.length.len() > 0 ==> meta_of(r)[if r.author.len() > 0 {
            1
        } else {
            0
        }] == r.length,
        r.views.len() > 0 ==> meta_of(r)[meta_of(r).len() - (if r.published.len() > 0 {
            2int
        } else {
            1
        })] == r.views,
        r.published.len() > 0 ==> meta_of(r).last() == r.published,
{
}

/// A label is the title, and what else is known of the video behind it, where something is.
pub proof fn law_label_tells_what_is_known(r: SearchResultView)
    ensures
        !r.is_live && r.author.len() == 0 && r.length.len() == 0 && r.views.len() == 0
            && r.published.len() == 0 ==> label_of(r) == r.title,
        r.is_live || r.author.len() > 0 || r.length.len() > 0 || r.views.len() > 0
            || r.published.len() > 0 ==> label_of(r) == r.title + seq![' ', ' ', '—', ' ', ' ']
            + text::joined(meta_of(r), seq![' ', '·', ' ']),
{
    reveal_strlit("  —  ");
    reveal_strlit(" · ");
    assert("  —  "@ =~= seq![' ', ' ', '—', ' ', ' ']);
    assert(" · "@ =~= seq![' ', '·', ' ']);
}

/// There is one label and one line for each video, in order.
pub proof fn law_one_label_for_each(results: Seq<SearchResultView>, i: int)
    requires
        0 <= i < results.len(),
    ensures
        labels_of(results).len() == results.len(),
        lines_of(results).len() == results.len(),
        labels_of(results)[i] == label_of(results[i]),
        lines_of(results)[i] == results[i].video_id + seq!['\t'] + label_of(results[i]),
{
    reveal_strlit("\t");
    assert("\t"@ =~= seq!['\t']);
}

/// Behind an address stand the title and, where there is one, the author, in brackets.
pub proof fn law_suffix_tells_title_and_author(r: SearchResultView)
    ensures
        r.author.len() == 0 ==> suffix_of(r) == seq![' ', ' ', '('] + r.title + seq![')'],
        r.author.len() > 0 ==> suffix_of(r) == seq![' ', ' ', '('] + r.title + seq![' ', '—', ' ']
            + r.author + seq![')'],
{
    reveal_strlit("  (");
    reveal_strlit(" — ");
    reveal_strlit(")");
    assert("  ("@ =~= seq![' ', ' ', '(']);
    assert(" — "@ =~= seq![' ', '—', ' ']);
    assert(")"@ =~= seq![')']);
}

/// A search asks for the query among videos, on the page; for live ones only where it is narrowed
/// to them, and for an order only where one is given.
pub proof fn law_params_ask_for_query(
    query: Seq<char>,
    page: nat,
    live: bool,
    sort_by: Option<Seq<char>>,
)
    ensures
        params_of(query, page, live, sort_by)[0] == ("q"@, query),
        params_of(query, page, live, sort_by)[1] == ("type"@, "video"@),
        params_of(query, page, live, sort_by)[2] == ("page"@, text::digits(page)),
        params_of(query, page, live, sort_by).len() == 3 + (if live {
            1int
        } else {
            0
        }) + (if sort_by is Some && sort_by->0.len() > 0 {
            1int
        } else {
            0
        }),
        live ==> params_of(query, page, live, sort_by)[3] == ("features"@, "live"@),
        sort_by is Some && sort_by->0.len() > 0 ==> params_of(query, page, live, sort_by).last() == (
            "sort_by"@,
            sort_by->0,
        ),
{
}

/// The title of a video is what stands under `title`, without the space around it; there is none
/// where nothing or only space stands there.
pub proof fn law_title_is_trimmed(body: Json, t: String)
    ensures
        json::member(body, "title"@) == Some(Json::Str(t)) && text::trimmed(t@).len() > 0 ==> title_of(
            body,
        ) == Some(text::trimmed(t@)),
        json::member(body, "title"@) == Some(Json::Str(t)) && text::trimmed(t@).len() == 0
            ==> title_of(body) is None,
        !(json::member(body, "title"@) matches Some(Json::Str(s))) ==> title_of(body) is None,
{
}

/// Each order has its own name in the search API.
pub proof fn law_orders_by_name()
    ensures
        Sort::Relevance.api_param() == "relevance"@,
        Sort::Date.api_param() == "upload_date"@,
        Sort::Views.api_param() == "view_count"@,
        Sort::Rating.api_param() == "rating"@,
{
}

/// A list of videos holds one view for each, in order, with its own fields.
pub proof fn law_one_view_for_each(v: Seq<SearchResult>, i: int)
    requires
        0 <= i < v.len(),
    ensures
        result_views(v).len() == v.len(),
        result_views(v)[i] == v[i]@,
        v[i]@.video_id == v[i].video_id@,
        v[i]@.title == v[i].title@,
        v[i]@.author == v[i].author@,
        v[i]@.length == v[i].length@,
        v[i]@.views == v[i].views@,
        v[i]@.published == v[i].published@,
        v[i]@.is_live == v[i].is_live,
{
}

} // verus!
