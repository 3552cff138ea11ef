use tubecast::json::Json;
use tubecast::playlet::{
    cast_url, current_lines, device_info, keypress_on, keypress_url, neighbour_id, now_playing_id,
    parse_queue, playlet_action, queue_next, queue_url, state_url, PlayletQueue, QueueAction,
    QueueEvent, WebCommand,
};
use tubecast::transport::Action;

fn to_json(v: &serde_json::Value) -> Json {
    match v {
        serde_json::Value::Null => Json::Null,
        serde_json::Value::Bool(b) => Json::Bool(*b),
        serde_json::Value::Number(n) => match (n.as_i64(), n.as_u64()) {
            (Some(i), _) => Json::Int(i as i128),
            (None, Some(u)) => Json::Int(u as i128),
            (None, None) => Json::Float,
        },
        serde_json::Value::String(s) => Json::Str(s.clone()),
        serde_json::Value::Array(a) => Json::Array(a.iter().map(to_json).collect()),
        serde_json::Value::Object(o) => {
            Json::Object(o.iter().map(|(k, v)| (k.clone(), to_json(v))).collect())
        }
    }
}

fn json(text: &str) -> Json {
    to_json(&serde_json::from_str(text).unwrap())
}

#[test]
fn addresses_of_a_tv() {
    assert_eq!(cast_url("http://tv:8888/", true), "http://tv:8888/api/queue");
    assert_eq!(cast_url("http://tv:8888", false), "http://tv:8888/api/queue/play");
    assert_eq!(queue_url("http://tv//"), "http://tv/api/queue");
    assert_eq!(state_url("http://tv"), "http://tv/api/state");
}

#[test]
fn queue_of_a_tv() {
    let q = parse_queue(&json(
        r#"{"index":1,"items":[{"videoid":"a"},{"title":"x"},{"videoid":"b"},{"videoid":3}]}"#,
    ))
    .unwrap();
    assert_eq!((q.index, q.items.clone()), (1, vec!["a".to_string(), "b".to_string()]));
    assert_eq!(q.line(0, None), "   0  https://youtu.be/a");
    assert_eq!(q.line(1, Some("Bee")), " > 1  Bee  (https://youtu.be/b)");
    assert!(parse_queue(&json(r#"{"index":1,"items":[]}"#)).is_none());
    assert!(parse_queue(&json(r#"{"index":1}"#)).is_none());
    let q = parse_queue(&json(r#"{"index":-1,"items":[{"videoid":"a"}]}"#)).unwrap();
    assert_eq!(q.index, 0);
}

#[test]
fn neighbours_in_a_queue() {
    let body = json(r#"{"index":1,"items":[{"videoid":"a"},{"videoid":"b"},{"videoid":"c"}]}"#);
    assert_eq!(neighbour_id(&body, 1), Some("c".into()));
    assert_eq!(neighbour_id(&body, -1), Some("a".into()));
    assert_eq!(neighbour_id(&body, 2), None);
    assert_eq!(neighbour_id(&body, -2), None);
    let body = json(r#"{"items":[{"videoid":"a"}]}"#);
    assert_eq!(neighbour_id(&body, 1), Some("a".into()));
    assert_eq!(neighbour_id(&body, -1), None);
    let body = json(r#"{"index":9223372036854775807,"items":[{"videoid":"a"}]}"#);
    assert_eq!(neighbour_id(&body, 1), None);
}

#[test]
fn web_commands() {
    assert!(matches!(playlet_action(&Action::Next), WebCommand::Navigate(1)));
    assert!(matches!(playlet_action(&Action::Prev), WebCommand::Navigate(-1)));
    for (a, key) in [
        (Action::Resume, "Play"),
        (Action::Pause, "Play"),
        (Action::Mute, "VolumeMute"),
        (Action::Unmute, "VolumeMute"),
    ] {
        match playlet_action(&a) {
            WebCommand::Press(k) => assert_eq!(k, key),
            _ => panic!("expected a key"),
        }
    }
    for a in [Action::SkipAd, Action::Seek("1".into()), Action::Volume(3)] {
        assert!(matches!(playlet_action(&a), WebCommand::Unsupported));
    }
}

#[test]
fn keys_of_the_remote() {
    assert_eq!(
        keypress_url("http://192.168.1.209:8888", "Play"),
        Some("http://192.168.1.209:8060/keypress/Play".into())
    );
    assert_eq!(keypress_url("no url", "Play"), None);
    assert_eq!(keypress_on(Some("h".into()), "K"), Some("http://h:8060/keypress/K".into()));
    assert_eq!(keypress_on(None, "K"), None);
}

#[test]
fn what_a_tv_plays() {
    assert_eq!(now_playing_id(&json(r#"{"nowplaying":{"videoid":"a"}}"#)), Some("a".into()));
    assert_eq!(now_playing_id(&json(r#"{"nowplaying":{"videoid":""}}"#)), None);
    assert_eq!(now_playing_id(&json(r#"{"nowplaying":null}"#)), None);
}

#[test]
fn what_a_tv_is() {
    let body = json(
        r#"{"app_version":"1.2","model_display_name":"TCL","model_type":"x","os_version":"14"}"#,
    );
    assert_eq!(device_info(&body), Some("Playlet 1.2, TCL, OS 14".into()));
    assert_eq!(device_info(&json(r#"{"model_type":"x"}"#)), Some("x".into()));
    assert_eq!(device_info(&json(r#"{"app_version":7}"#)), None);
}

#[test]
fn queue_of_which_one_video_is_known() {
    assert_eq!(current_lines(None, None), vec!["nothing playing (or TV not responding)"]);
    assert_eq!(
        current_lines(Some("a"), Some("T")),
        vec![
            "T",
            "playing https://youtu.be/a",
            "(full queue only available for Playlet devices linked with `link-web`)"
        ]
    );
    assert_eq!(current_lines(Some("a"), None).len(), 2);
}

#[test]
fn members_of_objects() {
    let j = json(r#"{"a":1,"b":[true],"c":"x","d":1e3,"e":18446744073709551615,"f":false}"#);
    assert_eq!((j.get_i64("a"), j.get_u64("a")), (Some(1), Some(1)));
    assert_eq!((j.get_i64("d"), j.get_i64("e")), (None, None));
    assert_eq!(j.get_u64("e"), Some(u64::MAX));
    assert_eq!(j.get_list("b").map(|v| v.len()), Some(1));
    assert_eq!(j.get_str("c"), Some("x".into()));
    assert_eq!((j.get_bool("f"), j.get_bool("a")), (Some(false), None));
    assert!(j.get("z").is_none());
    assert!(Json::Null.get("a").is_none());
}

#[test]
fn order_of_asking_for_the_queue() {
    match queue_next(QueueEvent::Asked(Some("http://tv".into()))) {
        QueueAction::AskWeb(web) => assert_eq!(web, "http://tv"),
        _ => panic!("expected the web server"),
    }
    assert!(matches!(queue_next(QueueEvent::Asked(None)), QueueAction::AskScreen));
    assert!(matches!(queue_next(QueueEvent::WebSaid(None)), QueueAction::AskScreen));
    let q = PlayletQueue { index: 0, items: vec!["a".into()] };
    match queue_next(QueueEvent::WebSaid(Some(q))) {
        QueueAction::TellQueue(q) => assert_eq!(q.items, vec!["a"]),
        _ => panic!("expected the queue"),
    }
    match queue_next(QueueEvent::ScreenSaid(Some("x".into()))) {
        QueueAction::TellCurrent(Some(id)) => assert_eq!(id, "x"),
        _ => panic!("expected a video"),
    }
    assert!(matches!(queue_next(QueueEvent::ScreenSaid(None)), QueueAction::TellCurrent(None)));
}
