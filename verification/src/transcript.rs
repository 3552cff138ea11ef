//! Transcripts: the text of a WebVTT caption file, and how such a file is asked for.

use crate::text;
use vstd::prelude::*;

verus! {

// ---------------------------------------------------------------- tags

/// After `s`, a tag is open: the last bracket of `s` opens one.
pub open spec fn in_tag(s: Seq<char>) -> bool
    decreases s.len(),
{
    if s.len() == 0 {
        false
    } else if s.last() == '<' {
        true
    } else if s.last() == '>' {
        false
    } else {
        in_tag(s.drop_last())
    }
}

/// The characters of `s` outside its tags, brackets left out.
pub open spec fn untagged(s: Seq<char>) -> Seq<char>
    decreases s.len(),
{
    if s.len() == 0 {
        Seq::empty()
    } else {
        let before = untagged(s.drop_last());
        if s.last() == '<' || s.last() == '>' || in_tag(s.drop_last()) {
            before
        } else {
            before.push(s.last())
        }
    }
}

/// A caption line without its tags and without white space around it.
pub open spec fn stripped(s: Seq<char>) -> Seq<char> {
    text::trimmed(untagged(s))
}

/// A caption line without its tags and without white space around it.
pub fn strip_vtt_tags(s: &str) -> (r: String)
    ensures
        r@ == stripped(s@),
{
    let v = text::to_chars(s);
    let mut out = String::new();
    let mut open = false;
    let mut i: usize = 0;
    while i < v.len()
        invariant
            0 <= i <= v@.len(),
            v@ == s@,
            open == in_tag(v@.take(i as int)),
            out@ == untagged(v@.take(i as int)),
        decreases v@.len() - i,
    {
        let c = v[i];
        assert(v@.take(i + 1).drop_last() =~= v@.take(i as int));
        if c == '<' {
            open = true;
        } else if c == '>' {
            open = false;
        } else if !open {
            out.push(c);
        }
        i += 1;
    }
    assert(v@.take(v@.len() as int) =~= v@);
    text::trim(out.as_str())
}

// ---------------------------------------------------------------- cues

/// A line that says when a cue is shown.
pub open spec fn is_timing(line: Seq<char>) -> bool {
    text::has_within(line, "-->"@)
}

/// A line that belongs to the file and not to the captions: the header, a note, or the number of
/// a cue.
pub open spec fn is_furniture(line: Seq<char>) -> bool {
    ||| text::has_prefix(line, "WEBVTT"@)
    ||| text::has_prefix(line, "NOTE"@)
    ||| forall|i: int| 0 <= i < line.len() ==> text::is_digit(#[trigger] line[i])
}

/// The caption lines behind a timing line: up to an empty line or the next timing line.
pub open spec fn cue_body(lines: Seq<Seq<char>>) -> Seq<Seq<char>>
    decreases lines.len(),
{
    if lines.len() == 0 || is_timing(lines[0]) || lines[0].len() == 0 {
        Seq::empty()
    } else {
        let rest = cue_body(lines.drop_first());
        if is_furniture(lines[0]) || stripped(lines[0]).len() == 0 {
            rest
        } else {
            seq![stripped(lines[0])] + rest
        }
    }
}

/// A list of one cue, or of none where the cue has no lines.
pub open spec fn if_any(cue: Seq<Seq<char>>) -> Seq<Seq<Seq<char>>> {
    if cue.len() == 0 {
        Seq::empty()
    } else {
        seq![cue]
    }
}

/// The cues of a file, each with the caption lines it shows; cues that show none are left out.
pub open spec fn cues_of(lines: Seq<Seq<char>>) -> Seq<Seq<Seq<char>>>
    decreases lines.len(),
{
    if lines.len() == 0 {
        Seq::empty()
    } else if is_timing(lines[0]) {
        if_any(cue_body(lines.drop_first())) + cues_of(lines.drop_first())
    } else {
        cues_of(lines.drop_first())
    }
}

/// The lines of a cue that the cue before it did not show.
pub open spec fn news(cue: Seq<Seq<char>>, before: Seq<Seq<char>>) -> Seq<Seq<char>> {
    cue.filter(|line: Seq<char>| !before.contains(line))
}

/// The cue before the last, or an empty one.
pub open spec fn cue_before(cues: Seq<Seq<Seq<char>>>) -> Seq<Seq<char>> {
    if cues.len() == 0 {
        Seq::empty()
    } else {
        cues.last()
    }
}

/// What the cues say, each line where it is new: captions roll, so a cue repeats lines of the
/// cue before it.
pub open spec fn unrolled(cues: Seq<Seq<Seq<char>>>) -> Seq<Seq<char>>
    decreases cues.len(),
{
    if cues.len() == 0 {
        Seq::empty()
    } else {
        unrolled(cues.drop_last()) + news(cues.last(), cue_before(cues.drop_last()))
    }
}

/// The lines of a file without white space around them.
pub open spec fn trimmed_lines(s: Seq<char>) -> Seq<Seq<char>> {
    text::line_list(s).map_values(|l: Seq<char>| text::trimmed(l))
}

/// The text of a caption file.
pub open spec fn transcript_of(vtt: Seq<char>) -> Seq<char> {
    text::joined(unrolled(cues_of(trimmed_lines(vtt))), "\n"@)
}

/// The texts of a list of cues.
pub open spec fn cue_texts(v: Seq<Vec<String>>) -> Seq<Seq<Seq<char>>> {
    v.map_values(|c: Vec<String>| text::texts(c@))
}

/// The cues still to come from `lines` when the lines of `current` have been read and a cue is
/// open or not.
spec fn coming(current: Seq<Seq<char>>, open: bool, lines: Seq<Seq<char>>) -> Seq<Seq<Seq<char>>> {
    let more = if open {
        cue_body(lines)
    } else {
        Seq::empty()
    };
    if_any(current + more) + cues_of(lines)
}

/// Whether a line is made of digits alone.
fn all_digits(line: &str) -> (r: bool)
    ensures
        r == forall|i: int| 0 <= i < line@.len() ==> text::is_digit(#[trigger] line@[i]),
{
    let v = text::to_chars(line);
    let mut i: usize = 0;
    while i < v.len()
        invariant
            0 <= i <= v@.len(),
            v@ == line@,
            forall|j: int| 0 <= j < i ==> text::is_digit(#[trigger] v@[j]),
        decreases v@.len() - i,
    {
        if !('0' <= v[i] && v[i] <= '9') {
            assert(!text::is_digit(line@[i as int]));
            return false;
        }
        i += 1;
    }
    true
}

/// The cues of a caption file.
fn read_cues(vtt: &str) -> (r: Vec<Vec<String>>)
    ensures
        cue_texts(r@) == cues_of(trimmed_lines(vtt@)),
{
    let raw = text::lines(vtt);
    let mut cues: Vec<Vec<String>> = Vec::new();
    let mut current: Vec<String> = Vec::new();
    let mut open = false;
    let mut i: usize = 0;
    let ghost all = trimmed_lines(vtt@);
    proof {
        assert(all.skip(0) =~= all);
        assert(cue_texts(cues@) =~= Seq::empty());
        assert(text::texts(current@) =~= Seq::empty());
        assert(coming(Seq::empty(), false, all) =~= cues_of(all));
    }
    while i < raw.len()
        invariant
            0 <= i <= raw@.len(),
            text::texts(raw@) == text::line_list(vtt@),
            all == trimmed_lines(vtt@),
            all.len() == raw@.len(),
            cues_of(all) == cue_texts(cues@) + coming(text::texts(current@), open, all.skip(i as int)),
        decreases raw@.len() - i,
    {
        let line = text::trim(raw[i].as_str());
        let ghost here = all.skip(i as int);
        let ghost rest = all.skip(i + 1);
        let ghost had = text::texts(current@);
        proof {
            assert(text::texts(raw@)[i as int] == raw@[i as int]@);
            assert(here[0] == line@);
            assert(here.drop_first() =~= rest);
        }
        if text::contains(line.as_str(), "-->") {
            if current.len() > 0 {
                let ghost before = cues@;
                let full = current;
                cues.push(full);
                current = Vec::new();
                assert(cue_texts(cues@) =~= cue_texts(before).push(had));
            }
            open = true;
            proof {
                assert(text::texts(current@) =~= Seq::empty());
                assert(had + Seq::<Seq<char>>::empty() =~= had);
                assert(Seq::<Seq<char>>::empty() + cue_body(rest) =~= cue_body(rest));
                assert(cues_of(all) =~= cue_texts(cues@) + coming(Seq::empty(), true, rest));
            }
        } else if line.as_str().is_empty() {
            assert(cue_body(here) =~= Seq::empty());
            open = false;
        } else if text::starts_with(line.as_str(), "WEBVTT") || text::starts_with(line.as_str(), "NOTE")
            || all_digits(line.as_str()) {
            assert(is_furniture(line@));
        } else if open {
            let s = strip_vtt_tags(line.as_str());
            if !s.as_str().is_empty() {
                let ghost before = current@;
                let ghost new = s@;
                current.push(s);
                proof {
                    assert(text::texts(current@) =~= text::texts(before).push(new));
                    assert(had + cue_body(here) =~= text::texts(current@) + cue_body(rest));
                }
            }
        }
        i += 1;
    }
    if current.len() > 0 {
        let ghost before = cues@;
        let ghost had = text::texts(current@);
        cues.push(current);
        assert(cue_texts(cues@) =~= cue_texts(before).push(had));
    }
    proof {
        let none = all.skip(i as int);
        assert(none =~= Seq::empty());
        assert(text::texts(current@) + cue_body(none) =~= text::texts(current@));
        assert(text::texts(current@) + Seq::<Seq<char>>::empty() =~= text::texts(current@));
        assert(cues_of(all) =~= cue_texts(cues@));
    }
    cues
}

/// The text of a WebVTT caption file.
pub fn parse_vtt(vtt: &str) -> (r: String)
    ensures
        r@ == transcript_of(vtt@),
{
    let cues = read_cues(vtt);
    let ghost all = cue_texts(cues@);
    let mut out: Vec<String> = Vec::new();
    let nothing: Vec<String> = Vec::new();
    let mut i: usize = 0;
    proof {
        assert(text::texts(out@) =~= Seq::empty());
        assert(text::texts(nothing@) =~= Seq::empty());
        assert(all.take(0) =~= Seq::empty());
    }
    while i < cues.len()
        invariant
            0 <= i <= cues@.len(),
            all == cue_texts(cues@),
            text::texts(nothing@) == Seq::<Seq<char>>::empty(),
            text::texts(out@) == unrolled(all.take(i as int)),
        decreases cues@.len() - i,
    {
        let cue = &cues[i];
        let prev = if i == 0 {
            &nothing
        } else {
            &cues[i - 1]
        };
        let ghost shown = text::texts(cue@);
        let ghost before = text::texts(prev@);
        let ghost keep = |line: Seq<char>| !before.contains(line);
        let ghost start = text::texts(out@);
        proof {
            assert(all[i as int] == shown);
            assert(all.take(i + 1).drop_last() =~= all.take(i as int));
            if i > 0 {
                assert(all[i - 1] == before);
                assert(all.take(i as int).last() == before);
            }
            assert(start + shown.take(0).filter(keep) =~= start) by {
                reveal(Seq::filter);
            }
        }
        let mut j: usize = 0;
        while j < cue.len()
            invariant
                0 <= j <= cue@.len(),
                shown == text::texts(cue@),
                before == text::texts(prev@),
                keep == (|line: Seq<char>| !before.contains(line)),
                text::texts(out@) == start + shown.take(j as int).filter(keep),
            decreases cue@.len() - j,
        {
            let ghost had = out@;
            assert(shown.take(j + 1).drop_last() =~= shown.take(j as int));
            assert(shown[j as int] == cue@[j as int]@);
            if !text::holds_text(prev, cue[j].as_str()) {
                out.push(cue[j].clone());
                assert(text::texts(out@) =~= text::texts(had).push(shown[j as int]));
            }
            proof {
                reveal(Seq::filter);
                assert(text::texts(out@) =~= start + shown.take(j + 1).filter(keep));
            }
            j += 1;
        }
        assert(shown.take(shown.len() as int) =~= shown);
        i += 1;
    }
    assert(all.take(all.len() as int) =~= all);
    text::join(&out, "\n")
}

// ---------------------------------------------------------------- asking for captions

/// What the user is told where a playlist is given to `transcript`.
pub const NEEDS_VIDEO: &'static str = "`transcript` requires a single video, not a playlist";

/// The address of the page of a video.
pub fn watch_url(video_id: &str) -> (r: String)
    ensures
        r@ == "https://www.youtube.com/watch?v="@ + video_id@,
{
    text::concat2("https://www.youtube.com/watch?v=", video_id)
}

/// The name, without its directory, that caption files of a video start with.
pub fn subtitle_stem(video_id: &str) -> (r: String)
    ensures
        r@ == "tubecast_sub_"@ + video_id@,
{
    text::concat2("tubecast_sub_", video_id)
}

/// The path of the caption file that is written for a language.
pub fn subtitle_path(template: &str, lang: &str) -> (r: String)
    ensures
        r@ == template@ + "."@ + lang@ + ".vtt"@,
{
    let mut r = text::concat3(template, ".", lang);
    r.append(".vtt");
    r
}

/// The arguments with which `yt-dlp` writes the captions of a video and nothing else.
pub fn subtitle_args(lang: &str, template: &str, url: &str) -> (r: Vec<String>)
    ensures
        text::texts(r@) == seq![
            "--skip-download"@,
            "--write-auto-subs"@,
            "--sub-lang"@,
            lang@,
            "--sub-format"@,
            "vtt"@,
            "-o"@,
            template@,
            url@,
        ],
{
    let r = vec![
        text::copy("--skip-download"),
        text::copy("--write-auto-subs"),
        text::copy("--sub-lang"),
        text::copy(lang),
        text::copy("--sub-format"),
        text::copy("vtt"),
        text::copy("-o"),
        text::copy(template),
        text::copy(url),
    ];
    assert(text::texts(r@) =~= seq![
        "--skip-download"@,
        "--write-auto-subs"@,
        "--sub-lang"@,
        lang@,
        "--sub-format"@,
        "vtt"@,
        "-o"@,
        template@,
        url@,
    ]);
    r
}

/// What the user is told where `yt-dlp` fails.
pub fn no_captions(lang: &str) -> (r: String)
    ensures
        r@ == "yt-dlp failed (video may have no captions for lang '"@ + lang@ + "')"@,
{
    text::concat3("yt-dlp failed (video may have no captions for lang '", lang, "')")
}

/// What the user is told where `yt-dlp` leaves no subtitles behind.
pub fn no_subtitles(path: &str) -> (r: String)
    ensures
        r@ == "subtitle file not found: "@ + path@,
{
    text::concat2("subtitle file not found: ", path)
}

// ---------------------------------------------------------------- laws

/// What is left of a text after tags are taken out holds no bracket, and nothing that the text
/// did not hold.
proof fn lemma_untagged(s: Seq<char>)
    ensures
        forall|i: int| 0 <= i < untagged(s).len() ==> #[trigger] untagged(s)[i] != '<',
        forall|i: int| 0 <= i < untagged(s).len() ==> #[trigger] untagged(s)[i] != '>',
    decreases s.len(),
{
    if s.len() > 0 {
        lemma_untagged(s.drop_last());
        let before = untagged(s.drop_last());
        let all = untagged(s);
        assert forall|i: int| 0 <= i < all.len() implies #[trigger] all[i] != '<' && all[i]
            != '>' by {
            if i < before.len() {
                assert(all[i] == before[i]);
            }
        }
    }
}

/// A stripped line holds no bracket.
pub proof fn law_stripped_has_no_tags(s: Seq<char>)
    ensures
        !stripped(s).contains('<'),
        !stripped(s).contains('>'),
{
    lemma_untagged(s);
    text::lemma_trimmed_part(untagged(s));
    let (a, b) = choose|a: int, b: int|
        0 <= a <= b <= untagged(s).len() && text::trimmed(untagged(s)) == #[trigger] untagged(
            s,
        ).subrange(a, b);
    assert forall|i: int| 0 <= i < stripped(s).len() implies stripped(s)[i] != '<' && stripped(
        s,
    )[i] != '>' by {
        assert(stripped(s)[i] == untagged(s)[a + i]);
    }
}

/// A text without brackets has no tag in it.
proof fn lemma_no_brackets(s: Seq<char>)
    requires
        forall|i: int| 0 <= i < s.len() ==> #[trigger] s[i] != '<' && s[i] != '>',
    ensures
        !in_tag(s),
        untagged(s) == s,
    decreases s.len(),
{
    if s.len() > 0 {
        let t = s.drop_last();
        assert forall|i: int| 0 <= i < t.len() implies #[trigger] t[i] != '<' && t[i] != '>' by {
            assert(t[i] == s[i]);
        }
        lemma_no_brackets(t);
        assert(s.last() == s[s.len() - 1]);
        assert(t.push(s.last()) =~= s);
    } else {
        assert(untagged(s) =~= s);
    }
}

/// A line without brackets is only trimmed.
pub proof fn law_plain_line_is_kept(s: Seq<char>)
    requires
        !s.contains('<'),
        !s.contains('>'),
    ensures
        stripped(s) == text::trimmed(s),
{
    assert forall|i: int| 0 <= i < s.len() implies #[trigger] s[i] != '<' && s[i] != '>' by {
        assert(s.contains(s[i]));
    }
    lemma_no_brackets(s);
}

/// A cue that repeats the cue before it adds nothing.
pub proof fn law_repeated_cue_adds_nothing(cues: Seq<Seq<Seq<char>>>, cue: Seq<Seq<char>>)
    ensures
        unrolled(cues.push(cue).push(cue)) == unrolled(cues.push(cue)),
{
    let once = cues.push(cue);
    let twice = once.push(cue);
    assert(twice.drop_last() =~= once);
    let keep = |line: Seq<char>| !cue.contains(line);
    lemma_filter_none(cue, keep);
    assert(unrolled(twice) =~= unrolled(once));
}

/// A filter that every item fails leaves nothing.
proof fn lemma_filter_none(s: Seq<Seq<char>>, keep: spec_fn(Seq<char>) -> bool)
    requires
        forall|i: int| 0 <= i < s.len() ==> !keep(#[trigger] s[i]),
    ensures
        s.filter(keep) == Seq::<Seq<char>>::empty(),
    decreases s.len(),
{
    reveal(Seq::filter);
    if s.len() > 0 {
        let t = s.drop_last();
        assert forall|i: int| 0 <= i < t.len() implies !keep(#[trigger] t[i]) by {
            assert(t[i] == s[i]);
        }
        lemma_filter_none(t, keep);
        assert(s.last() == s[s.len() - 1]);
    }
}

/// A filter that every item passes leaves all.
proof fn lemma_filter_all(s: Seq<Seq<char>>, keep: spec_fn(Seq<char>) -> bool)
    requires
        forall|i: int| 0 <= i < s.len() ==> keep(#[trigger] s[i]),
    ensures
        s.filter(keep) == s,
    decreases s.len(),
{
    reveal(Seq::filter);
    if s.len() > 0 {
        let t = s.drop_last();
        assert forall|i: int| 0 <= i < t.len() implies keep(#[trigger] t[i]) by {
            assert(t[i] == s[i]);
        }
        lemma_filter_all(t, keep);
        assert(s.last() == s[s.len() - 1]);
        assert(t.push(s.last()) =~= s);
    }
}

/// A cue that shares no line with the cue before it is told whole.
pub proof fn law_fresh_cue_is_whole(cues: Seq<Seq<Seq<char>>>, cue: Seq<Seq<char>>)
    requires
        forall|i: int| 0 <= i < cue.len() ==> !cue_before(cues).contains(#[trigger] cue[i]),
    ensures
        unrolled(cues.push(cue)) == unrolled(cues) + cue,
{
    let before = cue_before(cues);
    let all = cues.push(cue);
    assert(all.drop_last() =~= cues);
    lemma_filter_all(cue, |line: Seq<char>| !before.contains(line));
}

/// Without a timing line there are no cues.
proof fn lemma_no_cues(lines: Seq<Seq<char>>)
    requires
        forall|i: int| 0 <= i < lines.len() ==> !is_timing(#[trigger] lines[i]),
    ensures
        cues_of(lines) == Seq::<Seq<Seq<char>>>::empty(),
    decreases lines.len(),
{
    if lines.len() > 0 {
        let t = lines.drop_first();
        assert forall|i: int| 0 <= i < t.len() implies !is_timing(#[trigger] t[i]) by {
            assert(t[i] == lines[i + 1]);
        }
        assert(!is_timing(lines[0]));
        lemma_no_cues(t);
    }
}

/// Stripping tags twice is stripping them once.
pub proof fn law_stripped_twice(s: Seq<char>)
    ensures
        stripped(stripped(s)) == stripped(s),
{
    law_stripped_has_no_tags(s);
    law_plain_line_is_kept(stripped(s));
    text::lemma_trimmed_twice(untagged(s));
}

/// A file without a timing line has an empty transcript.
pub proof fn law_no_timing_no_text(vtt: Seq<char>)
    requires
        forall|i: int|
            0 <= i < trimmed_lines(vtt).len() ==> !is_timing(#[trigger] trimmed_lines(vtt)[i]),
    ensures
        transcript_of(vtt) == Seq::<char>::empty(),
{
    lemma_no_cues(trimmed_lines(vtt));
}

/// The lines of a cue are stripped, and none is empty.
proof fn lemma_cue_lines(lines: Seq<Seq<char>>)
    ensures
        forall|i: int|
            0 <= i < cue_body(lines).len() ==> is_clean_line(#[trigger] cue_body(lines)[i]),
    decreases lines.len(),
{
    if lines.len() > 0 {
        lemma_cue_lines(lines.drop_first());
        law_stripped_has_no_tags(lines[0]);
        text::lemma_trimmed_twice(untagged(lines[0]));
        let rest = cue_body(lines.drop_first());
        let all = cue_body(lines);
        assert forall|i: int| 0 <= i < all.len() implies is_clean_line(#[trigger] all[i]) by {
            if all.len() > rest.len() {
                if i > 0 {
                    assert(all[i] == rest[i - 1]);
                }
            } else {
                assert(all[i] == rest[i]);
            }
        }
    }
}

/// A caption line as a transcript shows it: trimmed, not empty, and without brackets.
pub open spec fn is_clean_line(l: Seq<char>) -> bool {
    text::trimmed(l) == l && l.len() > 0 && !l.contains('<') && !l.contains('>')
}

/// The cues of a file hold clean lines only.
proof fn lemma_cues_clean(lines: Seq<Seq<char>>)
    ensures
        forall|i: int, j: int|
            0 <= i < cues_of(lines).len() && 0 <= j < cues_of(lines)[i].len() ==> is_clean_line(
                #[trigger] cues_of(lines)[i][j],
            ),
    decreases lines.len(),
{
    if lines.len() > 0 {
        let t = lines.drop_first();
        lemma_cues_clean(t);
        lemma_cue_lines(t);
        let head = if_any(cue_body(t));
        let all = cues_of(lines);
        assert forall|i: int, j: int|
            0 <= i < all.len() && 0 <= j < all[i].len() implies is_clean_line(
            #[trigger] all[i][j],
        ) by {
            if is_timing(lines[0]) {
                if i < head.len() {
                    assert(all[i] == cue_body(t));
                    assert(is_clean_line(cue_body(t)[j]));
                } else {
                    let k = i - head.len();
                    assert(all[i] == cues_of(t)[k]);
                    assert(is_clean_line(cues_of(t)[k][j]));
                }
            } else {
                assert(is_clean_line(cues_of(t)[i][j]));
            }
        }
    }
}

/// Unrolling brings in no line that no cue holds.
proof fn lemma_unrolled_from_cues(cues: Seq<Seq<Seq<char>>>)
    requires
        forall|i: int, j: int|
            0 <= i < cues.len() && 0 <= j < cues[i].len() ==> is_clean_line(#[trigger] cues[i][j]),
    ensures
        forall|k: int| 0 <= k < unrolled(cues).len() ==> is_clean_line(#[trigger] unrolled(cues)[k]),
    decreases cues.len(),
{
    if cues.len() > 0 {
        let t = cues.drop_last();
        assert forall|i: int, j: int|
            0 <= i < t.len() && 0 <= j < t[i].len() implies is_clean_line(#[trigger] t[i][j]) by {
            assert(cues[i][j] == t[i][j]);
        }
        lemma_unrolled_from_cues(t);
        let before = cue_before(t);
        let keep = |line: Seq<char>| !before.contains(line);
        let cue = cues.last();
        let n = news(cue, before);
        assert forall|k: int| 0 <= k < n.len() implies is_clean_line(#[trigger] n[k]) by {
            text::lemma_filter_from(cue, keep, k);
            let j = choose|j: int| 0 <= j < cue.len() && cue[j] == n[k];
            assert(is_clean_line(cues[cues.len() - 1][j]));
        }
        let all = unrolled(cues);
        assert forall|k: int| 0 <= k < all.len() implies is_clean_line(#[trigger] all[k]) by {
            if k < unrolled(t).len() {
                assert(all[k] == unrolled(t)[k]);
            } else {
                assert(all[k] == n[k - unrolled(t).len()]);
            }
        }
    }
}

/// Every line of a transcript is a caption line, trimmed and without tags, and none is empty.
pub proof fn law_transcript_lines_clean(vtt: Seq<char>)
    ensures
        forall|k: int|
            0 <= k < unrolled(cues_of(trimmed_lines(vtt))).len() ==> is_clean_line(
                #[trigger] unrolled(cues_of(trimmed_lines(vtt)))[k],
            ),
{
    lemma_cues_clean(trimmed_lines(vtt));
    lemma_unrolled_from_cues(cues_of(trimmed_lines(vtt)));
}

/// Behind a closed tag, text and tags go on as at the start.
proof fn lemma_untagged_goes_on(x: Seq<char>, y: Seq<char>)
    requires
        !in_tag(x),
    ensures
        untagged(x + y) == untagged(x) + untagged(y),
        in_tag(x + y) == in_tag(y),
    decreases y.len(),
{
    if y.len() == 0 {
        assert(x + y =~= x);
    } else {
        lemma_untagged_goes_on(x, y.drop_last());
        assert((x + y).drop_last() =~= x + y.drop_last());
    }
}

/// Inside a tag nothing counts until the tag is closed.
proof fn lemma_tag_swallows(x: Seq<char>, b: Seq<char>)
    requires
        in_tag(x),
        !b.contains('>'),
    ensures
        in_tag(x + b),
        untagged(x + b) == untagged(x),
    decreases b.len(),
{
    if b.len() == 0 {
        assert(x + b =~= x);
    } else {
        let t = b.drop_last();
        assert forall|i: int| 0 <= i < t.len() implies t[i] != '>' by {
            assert(b[i] == t[i]);
        }
        assert(b[b.len() - 1] != '>');
        lemma_tag_swallows(x, t);
        assert((x + b).drop_last() =~= x + t);
    }
}

/// A tag goes, from its opening bracket to the next closing one; what stands before and behind it
/// stays. A tag that is never closed takes the rest with it, and a closing bracket that closes
/// nothing goes alone.
pub proof fn law_tag_goes(a: Seq<char>, b: Seq<char>, c: Seq<char>)
    requires
        !b.contains('>'),
    ensures
        untagged(a + seq!['<'] + b + seq!['>'] + c) == untagged(a) + untagged(c),
        untagged(a + seq!['<'] + b) == untagged(a),
        untagged(a + seq!['>'] + c) == untagged(a) + untagged(c),
        stripped(c) == text::trimmed(untagged(c)),
{
    let open = a + seq!['<'];
    assert(open.drop_last() =~= a);
    lemma_tag_swallows(open, b);
    let closed = open + b + seq!['>'];
    assert(closed.drop_last() =~= open + b);
    lemma_untagged_goes_on(closed, c);
    let stray = a + seq!['>'];
    assert(stray.drop_last() =~= a);
    lemma_untagged_goes_on(stray, c);
}

/// A line behind a timing line is a caption line unless it starts like the header or a note, is a
/// number, or is blank once its tags are gone: only digits alone make a number.
pub proof fn law_caption_line_is_kept(line: Seq<char>, rest: Seq<Seq<char>>, i: int)
    requires
        !text::has_within(line, "-->"@),
        !text::has_prefix(line, "WEBVTT"@),
        !text::has_prefix(line, "NOTE"@),
        0 <= i < line.len(),
        !('0' <= line[i] <= '9'),
        stripped(line).len() > 0,
    ensures
        cue_body(seq![line] + rest) == seq![stripped(line)] + cue_body(rest),
{
    assert((seq![line] + rest).drop_first() =~= rest);
}

/// A line that starts like the header or a note, is made of digits alone, or is blank once its
/// tags are gone adds nothing to a cue, and does not end it.
pub proof fn law_other_line_is_skipped(line: Seq<char>, rest: Seq<Seq<char>>)
    requires
        line.len() > 0,
        !text::has_within(line, "-->"@),
        text::has_prefix(line, "WEBVTT"@) || text::has_prefix(line, "NOTE"@) || stripped(line).len()
            == 0 || forall|i: int| 0 <= i < line.len() ==> '0' <= #[trigger] line[i] <= '9',
    ensures
        cue_body(seq![line] + rest) == cue_body(rest),
{
    assert((seq![line] + rest).drop_first() =~= rest);
}

/// A cue goes up to an empty line, the next timing line or the end.
pub proof fn law_cue_ends(line: Seq<char>, rest: Seq<Seq<char>>)
    requires
        line.len() == 0 || text::has_within(line, "-->"@),
    ensures
        cue_body(seq![line] + rest) == Seq::<Seq<char>>::empty(),
        cue_body(Seq::empty()) == Seq::<Seq<char>>::empty(),
{
}

/// A timing line starts a cue, which counts where it has lines; no other line does.
pub proof fn law_timing_starts_cue(line: Seq<char>, rest: Seq<Seq<char>>)
    ensures
        cues_of(Seq::empty()) == Seq::<Seq<Seq<char>>>::empty(),
        !text::has_within(line, "-->"@) ==> cues_of(seq![line] + rest) == cues_of(rest),
        text::has_within(line, "-->"@) && cue_body(rest).len() == 0 ==> cues_of(seq![line] + rest)
            == cues_of(rest),
        text::has_within(line, "-->"@) && cue_body(rest).len() > 0 ==> cues_of(seq![line] + rest)
            == seq![cue_body(rest)] + cues_of(rest),
{
    assert((seq![line] + rest).drop_first() =~= rest);
    assert(Seq::<Seq<Seq<char>>>::empty() + cues_of(rest) =~= cues_of(rest));
}

/// The first cue is told whole.
pub proof fn law_first_cue_is_told(a: Seq<Seq<char>>)
    ensures
        unrolled(Seq::empty()) == Seq::<Seq<char>>::empty(),
        unrolled(seq![a]) == a,
{
    let none = Seq::<Seq<Seq<char>>>::empty();
    law_fresh_cue_is_whole(none, a);
    assert(none.push(a) =~= seq![a]);
    assert(Seq::<Seq<char>>::empty() + a =~= a);
}

/// Captions roll: of each cue the lines are told that the cue before it did not show, in order.
pub proof fn law_rolling_lines_are_told_once(
    cues: Seq<Seq<Seq<char>>>,
    a: Seq<Seq<char>>,
    b: Seq<Seq<char>>,
)
    ensures
        unrolled(cues.push(a).push(b)) == unrolled(cues.push(a)) + b.filter(
            |line: Seq<char>| !a.contains(line),
        ),
{
    let one = cues.push(a);
    let two = one.push(b);
    assert(two.drop_last() =~= one);
    assert(cue_before(one) == a);
    assert((|line: Seq<char>| !a.contains(line)) =~= (|line: Seq<char>| !cue_before(one).contains(
        line,
    )));
}

/// The transcript is the lines that are told, each on a line of its own, of a file whose lines are
/// trimmed.
pub proof fn law_transcript_is_its_lines(vtt: Seq<char>)
    ensures
        transcript_of(vtt) == text::joined(unrolled(cues_of(trimmed_lines(vtt))), seq!['\n']),
        trimmed_lines(vtt).len() == text::line_list(vtt).len(),
        forall|i: int|
            0 <= i < trimmed_lines(vtt).len() ==> #[trigger] trimmed_lines(vtt)[i] == text::trimmed(
                text::line_list(vtt)[i],
            ),
{
    reveal_strlit("\n");
    assert("\n"@ =~= seq!['\n']);
}

/// A line that some cue shows is told: where the cue before shows it too, an earlier one told it.
proof fn lemma_shown_line_is_told(cues: Seq<Seq<Seq<char>>>, c: int, x: Seq<char>)
    requires
        0 <= c < cues.len(),
        cues[c].contains(x),
    ensures
        unrolled(cues).contains(x),
    decreases cues.len(),
{
    let t = cues.drop_last();
    let before = cue_before(t);
    let fresh = news(cues.last(), before);
    let all = unrolled(cues);
    if c < t.len() {
        lemma_shown_line_is_told(t, c, x);
        let k = unrolled(t).index_of(x);
        assert(all[k] == x);
    } else if before.contains(x) {
        assert(t.len() > 0);
        lemma_shown_line_is_told(t, t.len() - 1, x);
        let k = unrolled(t).index_of(x);
        assert(all[k] == x);
    } else {
        let cue = cues.last();
        let j = cue.index_of(x);
        cue.lemma_filter_contains(|line: Seq<char>| !before.contains(line), j);
        let k = fresh.index_of(x);
        assert(all[unrolled(t).len() + k] == x);
    }
}

/// The lines behind a timing line, up to one of its caption lines, bring that line into the cue.
proof fn lemma_line_in_cue(lines: Seq<Seq<char>>, k: int, i: int)
    requires
        0 <= k < lines.len(),
        forall|j: int|
            0 <= j <= k ==> (#[trigger] lines[j]).len() > 0 && !text::has_within(lines[j], "-->"@),
        !text::has_prefix(lines[k], "WEBVTT"@),
        !text::has_prefix(lines[k], "NOTE"@),
        0 <= i < lines[k].len(),
        !('0' <= lines[k][i] <= '9'),
        stripped(lines[k]).len() > 0,
    ensures
        cue_body(lines).contains(stripped(lines[k])),
    decreases k,
{
    let rest = lines.drop_first();
    let body = cue_body(lines);
    assert(lines[0].len() > 0 && !text::has_within(lines[0], "-->"@));
    if k == 0 {
        assert(lines =~= seq![lines[0]] + rest);
        law_caption_line_is_kept(lines[0], rest, i);
        assert(body[0] == stripped(lines[0]));
    } else {
        assert forall|j: int| 0 <= j <= k - 1 implies (#[trigger] rest[j]).len() > 0
            && !text::has_within(rest[j], "-->"@) by {
            assert(rest[j] == lines[j + 1]);
        }
        assert(rest[k - 1] == lines[k]);
        lemma_line_in_cue(rest, k - 1, i);
        let x = stripped(lines[k]);
        let at = cue_body(rest).index_of(x);
        if body.len() == cue_body(rest).len() {
            assert(body[at] == x);
        } else {
            assert(body[at + 1] == x);
        }
    }
}

/// What a later part of the file shows, the file shows.
proof fn lemma_later_cue_counts(lines: Seq<Seq<char>>, t: int) -> (c: int)
    requires
        0 <= t < lines.len(),
        text::has_within(lines[t], "-->"@),
        cue_body(lines.skip(t + 1)).len() > 0,
    ensures
        0 <= c < cues_of(lines).len(),
        cues_of(lines)[c] == cue_body(lines.skip(t + 1)),
    decreases t,
{
    let rest = lines.drop_first();
    assert(lines =~= seq![lines[0]] + rest);
    law_timing_starts_cue(lines[0], rest);
    if t == 0 {
        assert(lines.skip(1) =~= rest);
        0
    } else {
        assert(rest[t - 1] == lines[t]);
        assert(rest.skip(t) =~= lines.skip(t + 1));
        let c = lemma_later_cue_counts(rest, t - 1);
        if cues_of(lines).len() == cues_of(rest).len() {
            c
        } else {
            c + 1
        }
    }
}

/// A joined text holds each of its parts.
proof fn lemma_joined_holds_part(parts: Seq<Seq<char>>, sep: Seq<char>, k: int)
    requires
        0 <= k < parts.len(),
    ensures
        text::has_within(text::joined(parts, sep), parts[k]),
    decreases parts.len(),
{
    let all = text::joined(parts, sep);
    let part = parts[k];
    text::law_within_between_parts(all, part);
    let none = Seq::<char>::empty();
    if parts.len() == 1 {
        assert(all =~= none.add(part).add(none));
    } else if k == parts.len() - 1 {
        let a = text::joined(parts.drop_last(), sep) + sep;
        assert(all =~= a.add(part).add(none));
    } else {
        let init = text::joined(parts.drop_last(), sep);
        lemma_joined_holds_part(parts.drop_last(), sep, k);
        assert(parts.drop_last()[k] == part);
        text::law_within_between_parts(init, part);
        let (a, b) = choose|a: Seq<char>, b: Seq<char>| init == #[trigger] a.add(part).add(b);
        assert(all =~= a.add(part).add(b + sep + parts.last()));
    }
}

/// Every caption line stands in the transcript: a line behind a timing line, with no empty line
/// and no other timing line between them, that starts neither like the header nor like a note,
/// holds a character that is no digit and is not blank once its tags are gone.
pub proof fn law_every_caption_line_stands_in_transcript(vtt: Seq<char>, t: int, k: int, i: int)
    requires
        0 <= t < k < trimmed_lines(vtt).len(),
        text::has_within(trimmed_lines(vtt)[t], "-->"@),
        forall|j: int|
            t < j <= k ==> (#[trigger] trimmed_lines(vtt)[j]).len() > 0 && !text::has_within(
                trimmed_lines(vtt)[j],
                "-->"@,
            ),
        !text::has_prefix(trimmed_lines(vtt)[k], "WEBVTT"@),
        !text::has_prefix(trimmed_lines(vtt)[k], "NOTE"@),
        0 <= i < trimmed_lines(vtt)[k].len(),
        !('0' <= trimmed_lines(vtt)[k][i] <= '9'),
        stripped(trimmed_lines(vtt)[k]).len() > 0,
    ensures
        unrolled(cues_of(trimmed_lines(vtt))).contains(stripped(trimmed_lines(vtt)[k])),
        text::has_within(transcript_of(vtt), stripped(trimmed_lines(vtt)[k])),
{
    let lines = trimmed_lines(vtt);
    let behind = lines.skip(t + 1);
    let n = k - t - 1;
    assert(behind[n] == lines[k]);
    assert forall|j: int| 0 <= j <= n implies (#[trigger] behind[j]).len() > 0
        && !text::has_within(behind[j], "-->"@) by {
        assert(behind[j] == lines[j + t + 1]);
    }
    lemma_line_in_cue(behind, n, i);
    let x = stripped(lines[k]);
    let c = lemma_later_cue_counts(lines, t);
    let cues = cues_of(lines);
    lemma_shown_line_is_told(cues, c, x);
    let told = unrolled(cues);
    lemma_joined_holds_part(told, "\n"@, told.index_of(x));
}

} // verus!
