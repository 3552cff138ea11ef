//! Feeling lucky: a random video for a search, and none that was cast lately where that can be
//! helped.

use crate::search::{SearchFilter, SearchResult, Sort};
use crate::text;
use vstd::prelude::*;

verus! {

/// How many videos are remembered as cast lately.
pub const LUCKY_HISTORY_SIZE: usize = 100;

/// The deepest page of results that is looked at.
pub const DEEPEST_PAGE: usize = 50;

/// How many videos of a page are looked at.
pub const LUCKY_LIMIT: usize = 20;

// ---------------------------------------------------------------- chance

/// Calls `rand::random_range` with the range from zero up to a length, which draws one of its
/// numbers. An empty range has none to draw.
#[verifier::external_body]
fn draw(len: usize) -> (r: usize)
    requires
        len > 0,
    ensures
        r < len,
{
    rand::random_range(0..len)
}

/// A random position in a list of that length.
pub fn random_index(len: usize) -> (r: usize)
    requires
        len > 0,
    ensures
        r < len,
{
    draw(len)
}

/// The order of results that a roll from zero to nine stands for.
pub open spec fn sort_of_roll(roll: int) -> Sort {
    if roll == 0 {
        Sort::Relevance
    } else if roll <= 3 {
        Sort::Date
    } else if roll <= 6 {
        Sort::Views
    } else {
        Sort::Rating
    }
}

/// The order of results that a roll from zero to nine stands for.
pub fn sort_for_roll(roll: usize) -> (r: Sort)
    ensures
        r == sort_of_roll(roll as int),
{
    if roll == 0 {
        Sort::Relevance
    } else if roll <= 3 {
        Sort::Date
    } else if roll <= 6 {
        Sort::Views
    } else {
        Sort::Rating
    }
}

/// Weighted sort — de-emphasize relevance (YouTube's bubble) in favor of
/// sorts that surface different content.
pub fn weighted_sort() -> (r: &'static str)
    ensures
        exists|roll: int| 0 <= roll < 10 && r@ == (#[trigger] sort_of_roll(roll)).api_param(),
{
    // relevance=1, upload_date=3, view_count=3, rating=3 → 10% relevance, 30% each other
    let roll: usize = draw(10);
    sort_for_roll(roll).as_api_param()
}

/// What a lucky search is narrowed to: the order that was asked for, on every attempt, or else one
/// that is drawn.
pub fn lucky_filter(live: bool, fixed: Option<Sort>) -> (r: SearchFilter)
    ensures
        r.live == live,
        match fixed {
            Some(s) => text::text_opt(r.sort_by) == Some(s.api_param()),
            None => exists|roll: int|
                0 <= roll < 10 && text::text_opt(r.sort_by) == Some(
                    (#[trigger] sort_of_roll(roll)).api_param(),
                ),
        },
{
    let sort = match fixed {
        Some(s) => s.as_api_param(),
        None => weighted_sort(),
    };
    SearchFilter { live, sort_by: Some(text::copy(sort)) }
}

/// The page of results that lies so many steps behind the first, down to the deepest.
pub fn page_from_steps(steps: usize) -> (r: usize)
    ensures
        r == if steps + 1 <= DEEPEST_PAGE {
            steps + 1
        } else {
            DEEPEST_PAGE as int
        },
        1 <= r <= DEEPEST_PAGE,
{
    if steps < DEEPEST_PAGE {
        steps + 1
    } else {
        DEEPEST_PAGE
    }
}

// ---------------------------------------------------------------- choosing

/// The ids of a list of videos.
pub open spec fn ids_of(results: Seq<SearchResult>) -> Seq<Seq<char>> {
    results.map_values(|r: SearchResult| r.video_id@)
}

/// The positions of the ids that are not in the history.
pub open spec fn fresh_of(ids: Seq<Seq<char>>, history: Seq<Seq<char>>) -> Seq<int>
    decreases ids.len(),
{
    if ids.len() == 0 {
        Seq::empty()
    } else {
        let before = fresh_of(ids.drop_last(), history);
        if history.contains(ids.last()) {
            before
        } else {
            before.push(ids.len() - 1)
        }
    }
}

/// The positions to choose from: the fresh ones, or all where none is fresh.
pub open spec fn pool_of(ids: Seq<Seq<char>>, history: Seq<Seq<char>>) -> Seq<int> {
    if fresh_of(ids, history).len() == 0 {
        Seq::new(ids.len(), |i: int| i)
    } else {
        fresh_of(ids, history)
    }
}

/// Positions as integers.
pub open spec fn positions(v: Seq<usize>) -> Seq<int> {
    v.map_values(|i: usize| i as int)
}

/// The positions of the videos that are not in the history.
pub fn fresh_indices(results: &Vec<SearchResult>, history: &Vec<String>) -> (r: Vec<usize>)
    ensures
        positions(r@) == fresh_of(ids_of(results@), text::texts(history@)),
{
    let mut r: Vec<usize> = Vec::new();
    let ghost ids = ids_of(results@);
    let mut i: usize = 0;
    assert(ids.take(0) =~= Seq::empty());
    assert(positions(r@) =~= Seq::empty());
    while i < results.len()
        invariant
            i <= results.len(),
            ids == ids_of(results@),
            positions(r@) == fresh_of(ids.take(i as int), text::texts(history@)),
        decreases results.len() - i,
    {
        assert(ids.take(i + 1).drop_last() =~= ids.take(i as int));
        assert(ids.take(i + 1).last() == results@[i as int].video_id@);
        let ghost before = r@;
        if !text::holds_text(history, results[i].video_id.as_str()) {
            r.push(i);
            assert(positions(r@) =~= positions(before).push(i as int));
        }
        i += 1;
    }
    assert(ids.take(i as int) =~= ids);
    r
}

/// Fresh positions are positions, and all that are fresh.
proof fn lemma_fresh(ids: Seq<Seq<char>>, history: Seq<Seq<char>>)
    ensures
        forall|k: int|
            0 <= k < fresh_of(ids, history).len() ==> 0 <= #[trigger] fresh_of(ids, history)[k]
                < ids.len() && !history.contains(ids[fresh_of(ids, history)[k]]),
        forall|i: int|
            0 <= i < ids.len() && !history.contains(#[trigger] ids[i]) ==> fresh_of(
                ids,
                history,
            ).contains(i),
    decreases ids.len(),
{
    if ids.len() > 0 {
        let init = ids.drop_last();
        lemma_fresh(init, history);
        let before = fresh_of(init, history);
        let after = fresh_of(ids, history);
        assert forall|k: int| 0 <= k < after.len() implies 0 <= #[trigger] after[k] < ids.len()
            && !history.contains(ids[after[k]]) by {
            if k < before.len() {
                assert(after[k] == before[k]);
                assert(ids[before[k]] == init[before[k]]);
            }
        }
        assert forall|i: int| 0 <= i < ids.len() && !history.contains(
            #[trigger] ids[i],
        ) implies after.contains(i) by {
            if i < init.len() {
                assert(init[i] == ids[i]);
                let k = before.index_of(i);
                assert(after[k] == i);
            } else {
                assert(after[after.len() - 1] == i);
            }
        }
    }
}

/// The positions to choose from.
pub fn pool(results: &Vec<SearchResult>, history: &Vec<String>) -> (r: Vec<usize>)
    ensures
        positions(r@) == pool_of(ids_of(results@), text::texts(history@)),
        results@.len() > 0 ==> r@.len() > 0,
        forall|k: int| 0 <= k < r@.len() ==> #[trigger] r@[k] < results@.len(),
{
    let fresh = fresh_indices(results, history);
    let ghost ids = ids_of(results@);
    assert(positions(fresh@).len() == fresh@.len());
    if fresh.len() > 0 {
        proof {
            lemma_fresh(ids, text::texts(history@));
            assert forall|k: int| 0 <= k < fresh@.len() implies #[trigger] fresh@[k]
                < results@.len() by {
                assert(positions(fresh@)[k] == fresh@[k]);
            }
        }
        return fresh;
    }
    let mut all: Vec<usize> = Vec::new();
    let mut i: usize = 0;
    while i < results.len()
        invariant
            i <= results.len(),
            all@.len() == i,
            forall|k: int| 0 <= k < i ==> #[trigger] all@[k] == k,
        decreases results.len() - i,
    {
        all.push(i);
        i += 1;
    }
    assert(positions(all@) =~= pool_of(ids, text::texts(history@)));
    all
}

/// Chooses one of the videos by chance: one that is not in the history, where there is one.
pub fn pick(results: &Vec<SearchResult>, history: &Vec<String>) -> (r: usize)
    requires
        results@.len() > 0,
    ensures
        r < results@.len(),
        pool_of(ids_of(results@), text::texts(history@)).contains(r as int),
{
    let from = pool(results, history);
    let k = random_index(from.len());
    assert(positions(from@)[k as int] == from@[k as int]);
    from[k]
}

/// What to do with a page of results.
pub enum LuckyStep {
    /// Try another order and page, on the attempt with this number.
    TryAgain(usize),
    /// Look at the first page.
    FirstPage,
    /// Cast the video at this position.
    Cast(usize),
    /// There is nothing to cast.
    Nothing,
}

/// The step is right for a page of results, on an attempt that counts from zero.
pub open spec fn fits_page(
    step: LuckyStep,
    attempt: int,
    page: int,
    ids: Seq<Seq<char>>,
    history: Seq<Seq<char>>,
) -> bool {
    if ids.len() == 0 {
        if page > 1 && attempt < 2 {
            step matches LuckyStep::TryAgain(next) && next == attempt + 1
        } else {
            step is FirstPage
        }
    } else if fresh_of(ids, history).len() == 0 && attempt < 2 {
        step matches LuckyStep::TryAgain(next) && next == attempt + 1
    } else {
        step matches LuckyStep::Cast(i) && i < ids.len() && pool_of(ids, history).contains(i as int)
    }
}

/// Decides what to do with a page of results, on an attempt that counts from zero. Three attempts
/// are made with different orders and pages.
pub fn lucky_step(
    attempt: usize,
    page: usize,
    results: &Vec<SearchResult>,
    history: &Vec<String>,
) -> (r: LuckyStep)
    ensures
        fits_page(r, attempt as int, page as int, ids_of(results@), text::texts(history@)),
{
    if results.len() == 0 {
        if page > 1 && attempt < 2 {
            return LuckyStep::TryAgain(attempt + 1);
        }
        return LuckyStep::FirstPage;
    }
    let fresh = fresh_indices(results, history);
    assert(positions(fresh@).len() == fresh@.len());
    if fresh.len() == 0 && attempt < 2 {
        LuckyStep::TryAgain(attempt + 1)
    } else {
        LuckyStep::Cast(pick(results, history))
    }
}

/// Decides what to do with the first page of results, once another was empty.
pub fn first_page_step(results: &Vec<SearchResult>, history: &Vec<String>) -> (r: LuckyStep)
    ensures
        if results@.len() == 0 {
            r is Nothing
        } else {
            r matches LuckyStep::Cast(i) && i < results@.len() && pool_of(
                ids_of(results@),
                text::texts(history@),
            ).contains(i as int)
        },
{
    if results.len() == 0 {
        LuckyStep::Nothing
    } else {
        LuckyStep::Cast(pick(results, history))
    }
}

// ---------------------------------------------------------------- history

/// Another video than the one with that id.
pub open spec fn other_than(id: Seq<char>) -> spec_fn(Seq<char>) -> bool {
    |h: Seq<char>| h != id
}

/// The history with a video added at its end: nowhere else, and with the oldest dropped where it
/// grows too long.
pub open spec fn remembered(history: Seq<Seq<char>>, id: Seq<char>) -> Seq<Seq<char>> {
    let all = history.filter(other_than(id)).push(id);
    if all.len() > LUCKY_HISTORY_SIZE {
        all.skip(all.len() - LUCKY_HISTORY_SIZE)
    } else {
        all
    }
}

/// Adds a video to the history.
pub fn remember(history: &Vec<String>, id: &str) -> (r: Vec<String>)
    ensures
        text::texts(r@) == remembered(text::texts(history@), id@),
{
    let ghost keep = other_than(id@);
    let ghost old = text::texts(history@);
    let mut all: Vec<String> = Vec::new();
    let mut i: usize = 0;
    assert(old.take(0) =~= Seq::empty());
    assert(text::texts(all@) =~= old.take(0).filter(keep)) by {
        reveal(Seq::filter);
    }
    while i < history.len()
        invariant
            i <= history.len(),
            old == text::texts(history@),
            keep == other_than(id@),
            text::texts(all@) == old.take(i as int).filter(keep),
        decreases history.len() - i,
    {
        assert(old.take(i + 1).drop_last() =~= old.take(i as int));
        assert(old.take(i + 1).last() == history@[i as int]@);
        let ghost before = all@;
        if !text::same_text(history[i].as_str(), id) {
            all.push(text::copy(history[i].as_str()));
            assert(text::texts(all@) =~= text::texts(before).push(history@[i as int]@));
        }
        proof {
            reveal(Seq::filter);
        }
        i += 1;
    }
    assert(old.take(i as int) =~= old);
    let ghost kept = all@;
    all.push(text::copy(id));
    assert(text::texts(all@) =~= text::texts(kept).push(id@));
    assert(text::texts(all@).len() == all@.len());
    if all.len() <= LUCKY_HISTORY_SIZE {
        return all;
    }
    let start: usize = all.len() - LUCKY_HISTORY_SIZE;
    let mut r: Vec<String> = Vec::new();
    let mut k: usize = start;
    while k < all.len()
        invariant
            start <= k <= all.len(),
            text::texts(r@) == text::texts(all@).subrange(start as int, k as int),
        decreases all.len() - k,
    {
        let ghost before = r@;
        r.push(text::copy(all[k].as_str()));
        assert(text::texts(r@) =~= text::texts(before).push(text::texts(all@)[k as int]));
        assert(text::texts(all@).subrange(start as int, k as int).push(text::texts(all@)[k as int]) =~= text::texts(
            all@,
        ).subrange(start as int, k + 1));
        k += 1;
    }
    assert(text::texts(r@) =~= text::texts(all@).skip(start as int));
    r
}

/// The list of texts that a JSON text is: what `serde_json::from_str` makes of it.
pub uninterp spec fn json_list(text: Seq<char>) -> Option<Seq<Seq<char>>>;

/// The texts of a list that may be missing.
pub open spec fn texts_opt(v: Option<Vec<String>>) -> Option<Seq<Seq<char>>> {
    match v {
        Some(v) => Some(text::texts(v@)),
        None => None,
    }
}

/// Calls `serde_json::from_str` for a list of texts. `None` is its error.
#[verifier::external_body]
fn read_json_list(text: &str) -> (r: Option<Vec<String>>)
    ensures
        texts_opt(r) == json_list(text@),
{
    serde_json::from_str::<Vec<String>>(text).ok()
}

/// The JSON text of a list of texts: what `serde_json::to_string` makes of it.
pub uninterp spec fn json_text(list: Seq<Seq<char>>) -> Seq<char>;

/// Calls `serde_json::to_string` on a list of texts, which cannot fail on one: the list is read
/// back from what was written.
#[verifier::external_body]
fn write_json_list(list: &Vec<String>) -> (r: Option<String>)
    ensures
        r is Some,
        r->0@ == json_text(text::texts(list@)),
        json_list(r->0@) == Some(text::texts(list@)),
{
    serde_json::to_string(list).ok()
}

/// The history in a stored text; nothing where there is none or it cannot be read.
pub open spec fn history_in(text: Option<Seq<char>>) -> Seq<Seq<char>> {
    match text {
        Some(t) => match json_list(t) {
            Some(h) => h,
            None => Seq::empty(),
        },
        None => Seq::empty(),
    }
}

/// The history in what was read, or nothing.
pub fn history_or_empty(read: Option<Vec<String>>) -> (r: Vec<String>)
    ensures
        text::texts(r@) == match texts_opt(read) {
            Some(h) => h,
            None => Seq::empty(),
        },
{
    match read {
        Some(h) => h,
        None => {
            let r: Vec<String> = Vec::new();
            assert(text::texts(r@) =~= Seq::empty());
            r
        },
    }
}

/// The history in a stored text.
pub fn load_history(text: Option<&str>) -> (r: Vec<String>)
    ensures
        text::texts(r@) == history_in(text::str_opt(text)),
{
    match text {
        Some(t) => history_or_empty(read_json_list(t)),
        None => history_or_empty(None),
    }
}

/// The text that stores a history.
pub fn history_text(history: &Vec<String>) -> (r: String)
    ensures
        r@ == json_text(text::texts(history@)),
        json_list(r@) == Some(text::texts(history@)),
{
    match write_json_list(history) {
        Some(t) => t,
        None => String::new(),
    }
}

/// The text that stores a history once a video is added to the one in a stored text.
pub fn push_history(text: Option<&str>, id: &str) -> (r: String)
    ensures
        r@ == json_text(remembered(history_in(text::str_opt(text)), id@)),
        history_in(Some(r@)) == remembered(history_in(text::str_opt(text)), id@),
{
    let history = load_history(text);
    history_text(&remember(&history, id))
}

// ---------------------------------------------------------------- words

/// The word that a line of a dictionary gives: four ASCII letters or more, in small letters.
pub open spec fn word_of(line: Seq<char>) -> Option<Seq<char>> {
    let w = text::trimmed(line);
    if w.len() >= 4 && forall|i: int| 0 <= i < w.len() ==> text::is_letter(#[trigger] w[i]) {
        Some(text::lowered(w))
    } else {
        None
    }
}

/// The word that a line of a dictionary gives.
pub fn usable_word(line: &str) -> (r: Option<String>)
    ensures
        text::text_opt(r) == word_of(line@),
{
    let w = text::trim(line);
    let chars = text::to_chars(w.as_str());
    if chars.len() < 4 {
        return None;
    }
    let mut i: usize = 0;
    while i < chars.len()
        invariant
            i <= chars.len(),
            chars@ == text::trimmed(line@),
            forall|k: int| 0 <= k < i ==> text::is_letter(#[trigger] chars@[k]),
        decreases chars.len() - i,
    {
        let c = chars[i];
        if !(('a' <= c && c <= 'z') || ('A' <= c && c <= 'Z')) {
            assert(!text::is_letter(chars@[i as int]));
            return None;
        }
        i += 1;
    }
    Some(text::to_ascii_lowercase(w.as_str()))
}

/// The words that the lines of a dictionary give, in order.
pub open spec fn words_of(lines: Seq<Seq<char>>) -> Seq<Seq<char>>
    decreases lines.len(),
{
    if lines.len() == 0 {
        Seq::empty()
    } else {
        match word_of(lines.last()) {
            Some(w) => words_of(lines.drop_last()).push(w),
            None => words_of(lines.drop_last()),
        }
    }
}

/// The words that the lines of a dictionary give, in order.
pub fn usable_words(lines: &Vec<String>) -> (r: Vec<String>)
    ensures
        text::texts(r@) == words_of(text::texts(lines@)),
{
    let mut r: Vec<String> = Vec::new();
    let ghost all = text::texts(lines@);
    let mut i: usize = 0;
    assert(all.take(0) =~= Seq::empty());
    assert(text::texts(r@) =~= Seq::empty());
    while i < lines.len()
        invariant
            i <= lines.len(),
            all == text::texts(lines@),
            text::texts(r@) == words_of(all.take(i as int)),
        decreases lines.len() - i,
    {
        assert(all.take(i + 1).drop_last() =~= all.take(i as int));
        assert(all.take(i + 1).last() == lines@[i as int]@);
        let ghost before = r@;
        if let Some(w) = usable_word(lines[i].as_str()) {
            let ghost text = w@;
            r.push(w);
            assert(text::texts(r@) =~= text::texts(before).push(text));
        }
        i += 1;
    }
    assert(all.take(i as int) =~= all);
    r
}

/// What is said where a dictionary has no usable word.
pub const NO_WORDS: &'static str = "no usable words in /usr/share/dict/words";

/// A random word of a dictionary's lines; `None` where they give none.
pub fn random_word(lines: &Vec<String>) -> (r: Option<String>)
    ensures
        match r {
            Some(w) => words_of(text::texts(lines@)).contains(w@),
            None => words_of(text::texts(lines@)).len() == 0,
        },
{
    let words = usable_words(lines);
    assert(text::texts(words@).len() == words@.len());
    if words.len() == 0 {
        return None;
    }
    let i = random_index(words.len());
    assert(text::texts(words@)[i as int] == words@[i as int]@);
    Some(text::copy(words[i].as_str()))
}

// ---------------------------------------------------------------- laws

/// Of the ten rolls, one asks for relevance and three for each of the other orders.
pub proof fn law_sort_weights(sort: Sort)
    ensures
        Seq::new(10, |i: int| i).filter(|i: int| sort_of_roll(i) == sort).len() == if sort
            == Sort::Relevance {
            1nat
        } else {
            3nat
        },
{
    let want = |i: int| sort_of_roll(i) == sort;
    lemma_count(want, 10);
    reveal_with_fuel(count_below, 11);
}

/// How many of the first numbers are wanted.
spec fn count_below(want: spec_fn(int) -> bool, n: nat) -> nat
    decreases n,
{
    if n == 0 {
        0
    } else {
        count_below(want, (n - 1) as nat) + if want(n - 1) {
            1nat
        } else {
            0nat
        }
    }
}

proof fn lemma_count(want: spec_fn(int) -> bool, n: nat)
    ensures
        Seq::new(n, |i: int| i).filter(want).len() == count_below(want, n),
    decreases n,
{
    reveal(Seq::filter);
    if n > 0 {
        lemma_count(want, (n - 1) as nat);
        assert(Seq::new(n, |i: int| i).drop_last() =~= Seq::new((n - 1) as nat, |i: int| i));
    }
}

/// A video that was cast lately is chosen only where all of them were.
pub proof fn law_pool_prefers_fresh(ids: Seq<Seq<char>>, history: Seq<Seq<char>>, i: int)
    requires
        pool_of(ids, history).contains(i),
    ensures
        0 <= i < ids.len(),
        history.contains(ids[i]) ==> forall|k: int|
            0 <= k < ids.len() ==> history.contains(#[trigger] ids[k]),
{
    lemma_fresh(ids, history);
    let pool = pool_of(ids, history);
    let at = pool.index_of(i);
    assert(pool[at] == i);
    if fresh_of(ids, history).len() > 0 {
        assert(fresh_of(ids, history)[at] == i);
    } else {
        assert forall|k: int| 0 <= k < ids.len() implies history.contains(#[trigger] ids[k]) by {
            if !history.contains(ids[k]) {
                assert(fresh_of(ids, history).contains(k));
            }
        }
    }
}

/// There is no fourth attempt: the third is the last.
pub proof fn law_lucky_ends(
    step: LuckyStep,
    attempt: int,
    page: int,
    ids: Seq<Seq<char>>,
    history: Seq<Seq<char>>,
)
    requires
        0 <= attempt,
        fits_page(step, attempt, page, ids, history),
    ensures
        step matches LuckyStep::TryAgain(next) ==> attempt < next <= 2,
{
}

/// The history ends with the video that was cast last, holds it once and never grows too long.
pub proof fn law_history_remembers(history: Seq<Seq<char>>, id: Seq<char>)
    ensures
        remembered(history, id).last() == id,
        0 < remembered(history, id).len() <= LUCKY_HISTORY_SIZE,
        forall|i: int|
            0 <= i < remembered(history, id).len() - 1 ==> #[trigger] remembered(history, id)[i]
                != id,
{
    let keep = other_than(id);
    let kept = history.filter(keep);
    let all = kept.push(id);
    let after = remembered(history, id);
    assert forall|i: int| 0 <= i < after.len() - 1 implies #[trigger] after[i] != id by {
        let k = if all.len() > LUCKY_HISTORY_SIZE {
            i + all.len() - LUCKY_HISTORY_SIZE
        } else {
            i
        };
        assert(after[i] == kept[k]);
        text::lemma_filter_from(history, keep, k);
    }
}

/// A history without repetition stays so.
pub proof fn law_history_stays_distinct(history: Seq<Seq<char>>, id: Seq<char>)
    requires
        history.no_duplicates(),
    ensures
        remembered(history, id).no_duplicates(),
{
    let kept = history.filter(other_than(id));
    lemma_filter_distinct(history, other_than(id));
    assert forall|i: int, j: int| 0 <= i < j < kept.push(id).len() implies kept.push(id)[i]
        != kept.push(id)[j] by {
        text::lemma_filter_from(history, other_than(id), i);
    }
}

/// Filtering a list without repetition leaves one.
proof fn lemma_filter_distinct(s: Seq<Seq<char>>, keep: spec_fn(Seq<char>) -> bool)
    requires
        s.no_duplicates(),
    ensures
        s.filter(keep).no_duplicates(),
    decreases s.len(),
{
    reveal(Seq::filter);
    if s.len() > 0 {
        let init = s.drop_last();
        lemma_filter_distinct(init, keep);
        assert forall|i: int| 0 <= i < init.filter(keep).len() implies init.filter(keep)[i]
            != s.last() by {
            text::lemma_filter_from(init, keep, i);
            let k = init.index_of(init.filter(keep)[i]);
            assert(s[k] == init.filter(keep)[i]);
        }
    }
}

/// A history that is not full forgets nothing.
pub proof fn law_history_keeps_others(history: Seq<Seq<char>>, id: Seq<char>, other: Seq<char>)
    requires
        history.len() < LUCKY_HISTORY_SIZE,
        history.contains(other),
    ensures
        remembered(history, id).contains(other),
{
    let keep = other_than(id);
    let kept = history.filter(keep);
    history.lemma_filter_len(keep);
    if other == id {
        assert(kept.push(id)[kept.len() as int] == id);
    } else {
        let i = history.index_of(other);
        history.lemma_filter_contains(keep, i);
        let k = kept.index_of(other);
        assert(kept.push(id)[k] == other);
    }
}

/// Relevance is asked for on the first of the ten rolls alone, and each of the other orders on
/// three rolls in a row.
pub proof fn law_sort_by_roll(roll: int)
    requires
        0 <= roll < 10,
    ensures
        sort_of_roll(roll) is Relevance <==> roll == 0,
        sort_of_roll(roll) is Date <==> 1 <= roll <= 3,
        sort_of_roll(roll) is Views <==> 4 <= roll <= 6,
        sort_of_roll(roll) is Rating <==> 7 <= roll <= 9,
{
}

/// The fresh positions are exactly those of videos that the history does not hold, each once and
/// in order.
pub proof fn law_fresh_are_not_in_history(ids: Seq<Seq<char>>, history: Seq<Seq<char>>)
    ensures
        forall|i: int| #[trigger]
            fresh_of(ids, history).contains(i) <==> 0 <= i < ids.len() && forall|k: int|
                0 <= k < history.len() ==> #[trigger] history[k] != ids[i],
        forall|j: int, k: int|
            0 <= j < k < fresh_of(ids, history).len() ==> #[trigger] fresh_of(ids, history)[j]
                < #[trigger] fresh_of(ids, history)[k],
    decreases ids.len(),
{
    let fresh = fresh_of(ids, history);
    lemma_fresh(ids, history);
    assert forall|i: int| #[trigger]
        fresh.contains(i) <==> 0 <= i < ids.len() && forall|k: int|
            0 <= k < history.len() ==> #[trigger] history[k] != ids[i] by {
        if fresh.contains(i) {
            let at = fresh.index_of(i);
            assert(fresh[at] == i);
            assert(!history.contains(ids[i]));
        }
        if 0 <= i < ids.len() && forall|k: int|
            0 <= k < history.len() ==> #[trigger] history[k] != ids[i] {
            assert(!history.contains(ids[i]));
        }
    }
    if ids.len() > 0 {
        let init = ids.drop_last();
        let before = fresh_of(init, history);
        law_fresh_are_not_in_history(init, history);
        lemma_fresh(init, history);
        assert forall|j: int, k: int| 0 <= j < k < fresh.len() implies #[trigger] fresh[j]
            < #[trigger] fresh[k] by {
            assert(fresh[j] == before[j]);
            if k < before.len() {
                assert(fresh[k] == before[k]);
                assert(before[j] < before[k]);
            } else {
                assert(before[j] < init.len());
            }
        }
    }
}

/// The videos to choose from are the fresh ones where there are any, and else all.
pub proof fn law_pool_is_fresh_or_all(ids: Seq<Seq<char>>, history: Seq<Seq<char>>, i: int)
    requires
        0 <= i < ids.len(),
    ensures
        (forall|k: int| 0 <= k < ids.len() ==> history.contains(#[trigger] ids[k])) ==> pool_of(
            ids,
            history,
        ).len() == ids.len() && pool_of(ids, history)[i] == i,
        !history.contains(ids[i]) ==> pool_of(ids, history) == fresh_of(ids, history) && pool_of(
            ids,
            history,
        ).contains(i),
{
    lemma_fresh(ids, history);
    let fresh = fresh_of(ids, history);
    if forall|k: int| 0 <= k < ids.len() ==> history.contains(#[trigger] ids[k]) {
        if fresh.len() > 0 {
            assert(history.contains(ids[fresh[0]]));
        }
    }
    if !history.contains(ids[i]) {
        assert(fresh.contains(i));
    }
}

/// What is done with a page: an empty one is given up for another, up to the third attempt and
/// where it was not the first page, and else for the first page; one that is all in the history is
/// given up for another up to the third attempt; from any other a video is cast that is not in the
/// history, or any where all are.
pub proof fn law_page_decides(
    step: LuckyStep,
    attempt: int,
    page: int,
    ids: Seq<Seq<char>>,
    history: Seq<Seq<char>>,
)
    requires
        fits_page(step, attempt, page, ids, history),
    ensures
        ids.len() == 0 && page > 1 && attempt < 2 ==> (step matches LuckyStep::TryAgain(n) && n
            == attempt + 1),
        ids.len() == 0 && (page <= 1 || attempt >= 2) ==> step is FirstPage,
        ids.len() > 0 && attempt < 2 && (forall|k: int|
            0 <= k < ids.len() ==> history.contains(#[trigger] ids[k])) ==> (
        step matches LuckyStep::TryAgain(n) && n == attempt + 1),
        (exists|k: int| 0 <= k < ids.len() && !history.contains(#[trigger] ids[k])) ==> (
        step matches LuckyStep::Cast(i) && i < ids.len() && !history.contains(ids[i as int])),
        ids.len() > 0 && attempt >= 2 ==> (step matches LuckyStep::Cast(i) && i < ids.len()),
{
    lemma_fresh(ids, history);
    let fresh = fresh_of(ids, history);
    if ids.len() > 0 && (forall|k: int|
        0 <= k < ids.len() ==> history.contains(#[trigger] ids[k])) {
        if fresh.len() > 0 {
            assert(history.contains(ids[fresh[0]]));
        }
    }
    if exists|k: int| 0 <= k < ids.len() && !history.contains(#[trigger] ids[k]) {
        let k = choose|k: int| 0 <= k < ids.len() && !history.contains(#[trigger] ids[k]);
        assert(fresh.contains(k));
        assert(fresh.len() > 0);
        let i = step->Cast_0 as int;
        let at = fresh.index_of(i);
        assert(fresh[at] == i);
    }
}

/// The history is what it was without the video, and the video behind it, of which the last
/// hundred are kept.
pub proof fn law_history_by_length(history: Seq<Seq<char>>, id: Seq<char>)
    ensures
        history.filter(|h: Seq<char>| h != id).len() < 100 ==> remembered(history, id)
            == history.filter(|h: Seq<char>| h != id).push(id),
        history.filter(|h: Seq<char>| h != id).len() >= 100 ==> remembered(history, id).len() == 100
            && remembered(history, id) == history.filter(|h: Seq<char>| h != id).push(id).skip(
            history.filter(|h: Seq<char>| h != id).len() - 99,
        ),
{
    assert(other_than(id) =~= (|h: Seq<char>| h != id));
}

/// A line gives its word, without the space around it and in small letters, where that has four
/// letters or more and nothing else; any other line gives none.
pub proof fn law_word_by_letters(line: Seq<char>)
    ensures
        word_of(line) is Some <==> text::trimmed(line).len() >= 4 && forall|i: int|
            0 <= i < text::trimmed(line).len() ==> {
                ||| 'a' <= #[trigger] text::trimmed(line)[i] <= 'z'
                ||| 'A' <= text::trimmed(line)[i] <= 'Z'
            },
        word_of(line) matches Some(w) ==> w == text::lowered(text::trimmed(line)),
{
    let w = text::trimmed(line);
    if word_of(line) is Some {
        assert forall|i: int| 0 <= i < w.len() implies {
            ||| 'a' <= #[trigger] w[i] <= 'z'
            ||| 'A' <= w[i] <= 'Z'
        } by {
            assert(text::is_letter(w[i]));
        }
    }
}

/// Each line with a word adds it behind the words before it, and no other line adds anything.
pub proof fn law_words_line_by_line(lines: Seq<Seq<char>>, line: Seq<char>)
    ensures
        words_of(Seq::empty()) == Seq::<Seq<char>>::empty(),
        word_of(line) is Some ==> words_of(lines.push(line)) == words_of(lines).push(
            word_of(line)->0,
        ),
        word_of(line) is None ==> words_of(lines.push(line)) == words_of(lines),
{
    assert(lines.push(line).drop_last() =~= lines);
}

/// A stored history is the list that its text holds; one that is missing or cannot be read is
/// empty.
pub proof fn law_history_is_what_is_stored(t: Seq<char>)
    ensures
        json_list(t) is Some ==> history_in(Some(t)) == json_list(t)->0,
        json_list(t) is None ==> history_in(Some(t)).len() == 0,
        history_in(None).len() == 0,
{
}

/// A list of videos has one id for each, and a list of positions one number for each, in order.
pub proof fn law_one_id_for_each(results: Seq<SearchResult>, at: Seq<usize>, i: int)
    ensures
        ids_of(results).len() == results.len(),
        positions(at).len() == at.len(),
        0 <= i < results.len() ==> ids_of(results)[i] == results[i].video_id@,
        0 <= i < at.len() ==> positions(at)[i] == at[i],
{
}

} // verus!
