use tubecast::json::Json;
use tubecast::search::{
    cast_suffix, history_url, length_field, listing_line, max_visible, parse_item, parse_item_at,
    published_field, results_at, search_params, search_results, search_step, search_url,
    title_field, video_url, views_field, SearchFilter, SearchResult, SearchStep, Sort,
};

fn to_json(v: &serde_json::Value) -> Json {
    match v {
        serde_json::Value::Null => Json::Null,
        serde_json::Value::Bool(b) => Json::Bool(*b),
        serde_json::Value::Number(n) => match (n.as_i64(), n.as_u64()) {
            (Some(i), _) => Json::Int(i as i128),
            (None, Some(u)) => Json::Int(u as i128),
            (None, None) => Json::Float,
        },
        serde_json::Value::String(s) => Json::Str(s.clone()),
        serde_json::Value::Array(a) => Json::Array(a.iter().map(to_json).collect()),
        serde_json::Value::Object(o) => {
            Json::Object(o.iter().map(|(k, v)| (k.clone(), to_json(v))).collect())
        }
    }
}

fn json(text: &str) -> Json {
    to_json(&serde_json::from_str(text).unwrap())
}

fn result(id: &str, title: &str, author: &str) -> SearchResult {
    SearchResult {
        video_id: id.into(),
        title: title.into(),
        author: author.into(),
        length: "".into(),
        views: "".into(),
        published: "".into(),
        is_live: false,
    }
}

#[test]
fn parses_companion_shape() {
    let item = json(
        r#"{
            "type": "video",
            "videoId": "MM62wjLrgmA",
            "title": "TOOL - Schism (Official Video)",
            "author": "TOOL",
            "lengthText": "7:27",
            "viewCountText": "72M views",
            "publishedText": "7 years ago"
        }"#,
    );
    let r = parse_item(&item).unwrap();
    assert_eq!(r.video_id, "MM62wjLrgmA");
    assert_eq!(r.length, "7:27");
    assert_eq!(r.views, "72M views");
    assert_eq!(r.published, "7 years ago");
    assert!(!r.is_live);
    assert!(r.label().contains("TOOL"));
    assert!(r.label().contains("7 years ago"));
}

#[test]
fn parses_vanilla_shape() {
    let item = json(
        r#"{
            "type": "video",
            "videoId": "dQw4w9WgXcQ",
            "title": "Never Gonna Give You Up",
            "author": "Rick Astley",
            "lengthSeconds": 213,
            "viewCount": 1600000000,
            "published": 572227200
        }"#,
    );
    let r = parse_item(&item).unwrap();
    assert_eq!(r.length, "3:33");
    assert_eq!(r.views, "1.6B views");
    assert!(r.published.contains("years ago"));
    assert!(!r.is_live);
}

#[test]
fn detects_live_video() {
    let item = json(
        r#"{
            "type": "video",
            "videoId": "livetest12x",
            "title": "Live Stream",
            "author": "Streamer",
            "liveNow": true,
            "viewCountText": "1.2K watching"
        }"#,
    );
    let r = parse_item(&item).unwrap();
    assert!(r.is_live);
    assert!(r.label().contains("LIVE"));
    assert!(!r.label().contains("· ·"));
}

#[test]
fn live_label_replaces_length() {
    let r = SearchResult {
        video_id: "x".into(),
        title: "Stream".into(),
        author: "A".into(),
        length: "0:00".into(),
        views: "1K".into(),
        published: "".into(),
        is_live: true,
    };
    let l = r.label();
    assert!(l.contains("LIVE"));
    assert!(!l.contains("0:00"));
}

#[test]
fn label_title_only_when_no_meta() {
    let r = SearchResult {
        video_id: "x".into(),
        title: "Title".into(),
        author: "".into(),
        length: "".into(),
        views: "".into(),
        published: "".into(),
        is_live: false,
    };
    assert_eq!(r.label(), "Title");
}

#[test]
fn parse_item_missing_optional_fields() {
    let item = json(r#"{ "videoId": "abcdefghijk" }"#);
    let r = parse_item(&item).unwrap();
    assert_eq!(r.video_id, "abcdefghijk");
    assert_eq!(r.title, "");
    assert_eq!(r.author, "");
    assert_eq!(r.length, "");
    assert_eq!(r.views, "");
    assert!(!r.is_live);
}

#[test]
fn parse_item_empty_video_id() {
    let item = json(r#"{ "type": "video", "videoId": "" }"#);
    assert!(parse_item(&item).is_none());
}

#[test]
fn parse_item_no_video_id() {
    let item = json(r#"{ "type": "video", "title": "No ID" }"#);
    assert!(parse_item(&item).is_none());
}

#[test]
fn skips_all_non_video_types() {
    for kind in &["channel", "playlist", "shelf"] {
        let item = Json::Object(vec![
            ("type".into(), Json::Str(kind.to_string())),
            ("videoId".into(), Json::Str("abcdefghijk".into())),
        ]);
        assert!(parse_item(&item).is_none(), "should skip type={kind}");
    }
}

#[test]
fn parse_item_never_panics() {
    for vid in ["", "a", "abcdefghijk", "abcdefghijklmno"] {
        for live in [false, true] {
            for secs in [0, 1, 59, 3600, 99_999] {
                for kind in ["video", "channel", "playlist", "shelf", ""] {
                    let mut members = vec![
                        ("title".to_string(), Json::Str("a title".into())),
                        ("lengthSeconds".to_string(), Json::Int(secs)),
                        ("liveNow".to_string(), Json::Bool(live)),
                    ];
                    if !vid.is_empty() {
                        members.push(("videoId".to_string(), Json::Str(vid.into())));
                    }
                    if !kind.is_empty() {
                        members.push(("type".to_string(), Json::Str(kind.into())));
                    }
                    let r = parse_item(&Json::Object(members));
                    let is_video = kind == "video" || kind.is_empty();
                    assert_eq!(r.is_some(), is_video && !vid.is_empty());
                }
            }
        }
    }
}

#[test]
fn fields_come_from_text_first() {
    let item = json(
        r#"{ "videoId": "x", "lengthText": "", "lengthSeconds": 61, "viewCountText": "",
             "viewCount": 999, "publishedText": "", "published": 1000 }"#,
    );
    assert_eq!(length_field(&item), "1:01");
    assert_eq!(views_field(&item), "999 views");
    assert_eq!(published_field(&item, 1000 + 40 * 86400), "1 month ago");
    let r = parse_item_at(&item, 1000).unwrap();
    assert_eq!(r.published, "today");
    assert_eq!(r.label(), "  —  1:01 · 999 views · today");
}

#[test]
fn fields_that_are_not_positive_are_left_out() {
    let item = json(r#"{ "lengthSeconds": 0, "viewCount": -5, "published": 0 }"#);
    assert_eq!(length_field(&item), "");
    assert_eq!(views_field(&item), "");
    assert_eq!(published_field(&item, 5), "");
    let item = json(r#"{ "lengthSeconds": 1.5, "viewCount": "7", "published": 18446744073709551615 }"#);
    assert_eq!(length_field(&item), "");
    assert_eq!(views_field(&item), "");
    assert_eq!(published_field(&item, 5), "");
}

#[test]
fn video_from_the_future_has_no_date() {
    let item = json(r#"{ "videoId": "x", "published": 1000 }"#);
    assert_eq!(parse_item_at(&item, 999).unwrap().published, "");
    assert_eq!(parse_item_at(&item, 1000).unwrap().published, "today");
}

#[test]
fn label_joins_what_is_known() {
    let mut r = result("x", "T", "A");
    r.length = "1:00".into();
    r.views = "2 views".into();
    r.published = "today".into();
    assert_eq!(r.label(), "T  —  A · 1:00 · 2 views · today");
    assert_eq!(listing_line(&r), "x\tT  —  A · 1:00 · 2 views · today");
}

#[test]
fn suffix_names_title_and_author() {
    assert_eq!(cast_suffix(&result("x", "T", "")), "  (T)");
    assert_eq!(cast_suffix(&result("x", "T", "A")), "  (T — A)");
}

#[test]
fn both_shapes_of_an_answer() {
    let items = r#"[{"videoId":"a"},{"type":"channel","videoId":"b"},{"videoId":"c"}]"#;
    let bare = json(items);
    let wrapped = json(&format!("{{\"items\":{items}}}"));
    for body in [&bare, &wrapped] {
        let ids: Vec<String> = results_at(body, 10, 0).into_iter().map(|r| r.video_id).collect();
        assert_eq!(ids, vec!["a", "c"]);
        assert_eq!(search_results(body, 10).len(), 2);
    }
    assert!(results_at(&json(r#"{"items":"x"}"#), 10, 0).is_empty());
    assert!(results_at(&json("null"), 10, 0).is_empty());
}

#[test]
fn limit_keeps_the_first() {
    let body = json(r#"[{"videoId":"a"},{"videoId":"b"},{"videoId":"c"}]"#);
    assert_eq!(results_at(&body, 2, 0).len(), 2);
    assert_eq!(results_at(&body, 2, 0)[1].video_id, "b");
    assert_eq!(results_at(&body, 3, 0).len(), 3);
    assert_eq!(results_at(&body, 1, 0).len(), 1);
    assert!(results_at(&body, 0, 0).is_empty());
    assert!(search_results(&body, 0).is_empty());
}

#[test]
fn parameters_of_a_search() {
    let pair = |k: &str, v: &str| (k.to_string(), v.to_string());
    assert_eq!(
        search_params("a b", 3, &SearchFilter::default()),
        vec![pair("q", "a b"), pair("type", "video"), pair("page", "3")]
    );
    let filter = SearchFilter { live: true, sort_by: Some("rating".into()) };
    assert_eq!(
        search_params("x", 1, &filter)[3..],
        [pair("features", "live"), pair("sort_by", "rating")]
    );
    let filter = SearchFilter { live: false, sort_by: Some("".into()) };
    assert_eq!(search_params("x", 1, &filter).len(), 3);
}

#[test]
fn addresses_of_a_backend() {
    assert_eq!(search_url("http://x//"), "http://x/api/v1/search");
    assert_eq!(video_url("http://x/", "abc"), "http://x/api/v1/videos/abc");
    assert_eq!(history_url("http://x"), "http://x/api/search-history");
}

#[test]
fn sort_orders_of_the_api() {
    assert_eq!(Sort::Relevance.as_api_param(), "relevance");
    assert_eq!(Sort::Date.as_api_param(), "upload_date");
    assert_eq!(Sort::Views.as_api_param(), "view_count");
    assert_eq!(Sort::Rating.as_api_param(), "rating");
}

#[test]
fn title_is_trimmed() {
    assert_eq!(title_field(&json(r#"{"title":"  A title "}"#)), Some("A title".into()));
    assert_eq!(title_field(&json(r#"{"title":"  "}"#)), None);
    assert_eq!(title_field(&json(r#"{"title":1}"#)), None);
    assert_eq!(title_field(&json("[]")), None);
}

#[test]
fn steps_of_a_search() {
    let found = vec![result("a", "A", ""), result("b", "B", "x")];
    assert!(matches!(search_step(&Vec::new(), true, true, true, true), SearchStep::Nothing));
    assert!(matches!(search_step(&found, true, true, true, false), SearchStep::Cast(0)));
    assert!(matches!(search_step(&found, false, true, true, false), SearchStep::Cast(0 | 1)));
    match search_step(&found, false, false, false, false) {
        SearchStep::List(lines) => assert_eq!(lines, vec!["a\tA", "b\tB  —  x"]),
        _ => panic!("expected a listing"),
    }
    match search_step(&found, false, false, true, true) {
        SearchStep::Pick(labels, prompt) => {
            assert_eq!(labels, vec!["A", "B  —  x"]);
            assert_eq!(prompt, "Queue which video?");
        }
        _ => panic!("expected a picker"),
    }
    match search_step(&found, false, false, true, false) {
        SearchStep::Pick(_, prompt) => assert_eq!(prompt, "Cast which video?"),
        _ => panic!("expected a picker"),
    }
}

#[test]
fn picker_height() {
    assert_eq!(max_visible(0), 5);
    assert_eq!(max_visible(8), 5);
    assert_eq!(max_visible(9), 5);
    assert_eq!(max_visible(10), 6);
    assert_eq!(max_visible(40), 36);
}
