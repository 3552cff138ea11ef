use tubecast::transcript::{
    no_captions, no_subtitles, parse_vtt, strip_vtt_tags, subtitle_args, subtitle_path,
    subtitle_stem, watch_url, NEEDS_VIDEO,
};


#[test]
fn strip_plain_text_unchanged() {
    assert_eq!(strip_vtt_tags("hello world"), "hello world");
}

#[test]
fn strip_c_tags() {
    assert_eq!(strip_vtt_tags("<c>hello</c>"), "hello");
}

#[test]
fn strip_timestamp_tags() {
    assert_eq!(strip_vtt_tags("<00:00:01.000><c>hello</c>"), "hello");
}

#[test]
fn strip_mixed_inline_tags() {
    assert_eq!(
        strip_vtt_tags("Hello <00:00:01.920><c> world</c>"),
        "Hello  world"
    );
}

#[test]
fn strip_trims_whitespace() {
    assert_eq!(strip_vtt_tags("  <c>text</c>  "), "text");
}

#[test]
fn strip_empty_after_tags() {
    assert_eq!(strip_vtt_tags("<c></c>"), "");
}

#[test]
fn parse_skips_header_and_timestamps() {
    let vtt = "WEBVTT\nKind: captions\n\n\
               00:00:01.000 --> 00:00:03.000\nhello world\n\n";
    assert_eq!(parse_vtt(vtt), "hello world");
}

#[test]
fn parse_strips_inline_tags() {
    let vtt = "WEBVTT\n\n\
               00:00:01.000 --> 00:00:03.000\n<00:00:01.000><c>hello</c>\n\n";
    assert_eq!(parse_vtt(vtt), "hello");
}

#[test]
fn parse_deduplicates_rolling_window() {
    let vtt = "WEBVTT\n\n\
               00:00:01.000 --> 00:00:02.000\nfirst line\n\n\
               00:00:02.000 --> 00:00:03.000\nfirst line\nsecond line\n\n\
               00:00:03.000 --> 00:00:04.000\nsecond line\nthird line\n\n";
    assert_eq!(parse_vtt(vtt), "first line\nsecond line\nthird line");
}

#[test]
fn parse_skips_note_blocks() {
    let vtt = "WEBVTT\n\nNOTE\nsome metadata\n\n\
               00:00:01.000 --> 00:00:02.000\nhello\n\n";
    assert_eq!(parse_vtt(vtt), "hello");
}

#[test]
fn parse_skips_cue_sequence_numbers() {
    let vtt = "WEBVTT\n\n\
               1\n00:00:01.000 --> 00:00:02.000\nfoo\n\n\
               2\n00:00:02.000 --> 00:00:03.000\nfoo\nbar\n\n";
    assert_eq!(parse_vtt(vtt), "foo\nbar");
}

#[test]
fn parse_empty_vtt() {
    assert_eq!(parse_vtt("WEBVTT\n\n"), "");
}

#[test]
fn cue_without_blank_line_is_closed_by_the_next() {
    let vtt = "WEBVTT\n\n00:01.000 --> 00:02.000\none\n00:02.000 --> 00:03.000\ntwo\n";
    assert_eq!(parse_vtt(vtt), "one\ntwo");
}

#[test]
fn text_behind_a_blank_line_is_no_cue() {
    let vtt = "WEBVTT\n\n00:01.000 --> 00:02.000\none\n\nstray\n";
    assert_eq!(parse_vtt(vtt), "one");
}

#[test]
fn repeated_cue_adds_nothing() {
    let vtt = "00:01.000 --> 00:02.000\none\n\n00:02.000 --> 00:03.000\none\n\n";
    assert_eq!(parse_vtt(vtt), "one");
}

#[test]
fn line_that_comes_back_later_is_kept() {
    let vtt = "00:01 --> 00:02\none\n\n00:02 --> 00:03\ntwo\n\n00:03 --> 00:04\none\n";
    assert_eq!(parse_vtt(vtt), "one\ntwo\none");
}

#[test]
fn crlf_lines_are_read() {
    let vtt = "WEBVTT\r\n\r\n00:01.000 --> 00:02.000\r\nhello\u{a0}\r\n";
    assert_eq!(parse_vtt(vtt), "hello");
}

#[test]
fn transcript_lines_hold_no_tags() {
    let vtt = "00:01 --> 00:02\na <b>c</b>\n<i></i>\n";
    assert_eq!(parse_vtt(vtt), "a c");
}

#[test]
fn no_timing_gives_no_text() {
    assert_eq!(parse_vtt("hello\nworld\n"), "");
}

#[test]
fn subtitle_request_is_spelled_out() {
    assert_eq!(watch_url("abc"), "https://www.youtube.com/watch?v=abc");
    assert_eq!(subtitle_stem("abc"), "tubecast_sub_abc");
    assert_eq!(subtitle_path("/tmp/x", "en"), "/tmp/x.en.vtt");
    assert_eq!(
        subtitle_args("en", "/tmp/x", "URL"),
        vec![
            "--skip-download",
            "--write-auto-subs",
            "--sub-lang",
            "en",
            "--sub-format",
            "vtt",
            "-o",
            "/tmp/x",
            "URL"
        ]
    );
    assert_eq!(
        no_captions("de"),
        "yt-dlp failed (video may have no captions for lang 'de')"
    );
    assert_eq!(no_subtitles("/tmp/x"), "subtitle file not found: /tmp/x");
    assert_eq!(NEEDS_VIDEO, "`transcript` requires a single video, not a playlist");
}

#[test]
fn stripping_twice_is_stripping_once() {
    for s in ["  <c> a </c>b ", "a < b > c", "<<x>> y", "plain"] {
        assert_eq!(strip_vtt_tags(&strip_vtt_tags(s)), strip_vtt_tags(s));
    }
}

#[test]
fn transcript_lines_are_trimmed() {
    assert_eq!(parse_vtt("00:01 --> 00:02\n <i> a </i> \n"), "a");
}
