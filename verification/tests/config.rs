use tubecast::config::{
    device_label, metadata_base, queue_to_store, search_backend, web_url, BackendError, Config, Device, LocalQueue,
    ResolveError,
};

fn device(alias: &str, screen: &str) -> Device {
    Device {
        alias: alias.into(),
        name: format!("{alias} TV"),
        screen_id: screen.into(),
        lounge_token: format!("token-{screen}"),
        web_url: None,
    }
}

fn config(aliases: &[&str]) -> Config {
    let mut cfg = Config::default();
    for (i, a) in aliases.iter().enumerate() {
        cfg.upsert(device(a, &format!("s{i}")));
    }
    cfg
}

#[test]
fn default_config_is_empty() {
    let cfg = Config::default();
    assert!(cfg.devices.is_empty());
    assert_eq!((cfg.default_device, cfg.search_instance), (None, None));
}

#[test]
fn resolve_without_devices() {
    let cfg = Config::default();
    let e = cfg.resolve(None).unwrap_err();
    assert!(matches!(e, ResolveError::NoDevices));
    assert_eq!(e.message(), "no paired devices. Run `tubecast pair <CODE>` first.");
    assert!(cfg.resolve(Some("x")).is_err());
}

#[test]
fn resolve_by_alias_in_any_case() {
    let cfg = config(&["kitchen", "Bedroom"]);
    assert_eq!(cfg.resolve(Some("KITCHEN")).unwrap().alias, "kitchen");
    assert_eq!(cfg.resolve(Some("bedroom")).unwrap().alias, "Bedroom");
    let e = cfg.resolve(Some("attic")).unwrap_err();
    assert_eq!(e.message(), "no paired device named 'attic'");
    assert!(cfg.resolve(Some("É")).is_err());
}

#[test]
fn resolve_default_then_only_device() {
    let mut cfg = config(&["a", "b"]);
    cfg.default_device = Some("b".into());
    assert_eq!(cfg.resolve(None).unwrap().alias, "b");
    cfg.default_device = Some("B".into());
    let e = cfg.resolve(None).unwrap_err();
    assert_eq!(
        e.message(),
        "multiple devices paired and no default set; pass --device <alias> (one of: a, b)"
    );
    let mut one = config(&["a"]);
    one.default_device = Some("gone".into());
    assert_eq!(one.resolve(None).unwrap().alias, "a");
}

#[test]
fn upsert_replaces_and_keeps_the_web_url() {
    let mut cfg = config(&["a", "b"]);
    cfg.devices[0].web_url = Some("http://tv".into());
    cfg.upsert(device("A", "new"));
    assert_eq!(cfg.devices.len(), 2);
    let d = cfg.resolve(Some("a")).unwrap();
    assert_eq!((d.alias.as_str(), d.screen_id.as_str()), ("A", "new"));
    assert_eq!(d.web_url.as_deref(), Some("http://tv"));
    assert_eq!(cfg.devices[1].screen_id, "s1");

    let mut with_web = device("a", "newer");
    with_web.web_url = Some("http://other".into());
    cfg.upsert(with_web);
    assert_eq!(cfg.devices[0].web_url.as_deref(), Some("http://other"));
}

#[test]
fn upsert_twice_is_once() {
    let mut cfg = config(&["a"]);
    cfg.upsert(device("b", "s"));
    cfg.upsert(device("b", "s"));
    assert_eq!(cfg.aliases(), vec!["a", "b"]);
}

#[test]
fn device_mut_changes_the_device() {
    let mut cfg = config(&["a", "b"]);
    cfg.device_mut("B").unwrap().name = "Bee".into();
    assert_eq!(cfg.devices[1].name, "Bee");
    assert_eq!(cfg.devices[0].name, "a TV");
    assert!(cfg.device_mut("c").is_none());
}

#[test]
fn tokens_reach_every_device_on_the_screen() {
    let mut cfg = config(&["a", "b", "c"]);
    cfg.devices[2].screen_id = "s0".into();
    assert!(cfg.update_token("s0", "fresh"));
    let tokens: Vec<&str> = cfg.devices.iter().map(|d| d.lounge_token.as_str()).collect();
    assert_eq!(tokens, vec!["fresh", "token-s1", "fresh"]);
    assert!(!cfg.update_token("nowhere", "x"));
    assert_eq!(cfg.devices[1].lounge_token, "token-s1");
}

#[test]
fn refresh_moves_a_device_to_another_screen() {
    let mut cfg = config(&["a", "b"]);
    cfg.refresh("B", "s9", "t9");
    assert_eq!((cfg.devices[1].screen_id.as_str(), cfg.devices[1].lounge_token.as_str()), ("s9", "t9"));
    cfg.refresh("nobody", "x", "y");
    assert_eq!(cfg.devices[0].screen_id, "s0");
}

#[test]
fn search_base_prefers_the_device() {
    let mut cfg = config(&["a"]);
    assert_eq!(cfg.devices[0].search_base(&cfg), None);
    cfg.search_instance = Some("https://invidious.example//".into());
    assert_eq!(cfg.devices[0].search_base(&cfg).as_deref(), Some("https://invidious.example"));
    cfg.devices[0].web_url = Some("http://tv:8888/".into());
    assert_eq!(
        cfg.devices[0].search_base(&cfg).as_deref(),
        Some("http://tv:8888/playlet-invidious-backend")
    );
}

#[test]
fn metadata_comes_from_any_device() {
    let mut cfg = config(&["a", "b"]);
    assert_eq!(metadata_base(&cfg, Some("a")), None);
    cfg.devices[1].web_url = Some("http://tv".into());
    let base = Some("http://tv/playlet-invidious-backend".to_string());
    assert_eq!(metadata_base(&cfg, Some("a")), base);
    assert_eq!(metadata_base(&cfg, None), base);
    assert_eq!(metadata_base(&cfg, Some("nobody")), base);
}

#[test]
fn backend_errors() {
    let cfg = config(&["a"]);
    let e = search_backend(&cfg, None).unwrap_err();
    assert!(matches!(e, BackendError::NoBackend(_)));
    assert_eq!(
        e.message(),
        "no search backend for 'a'. Link a Playlet TV with `tubecast link-web http://<tv-ip>:8888`, \
         or set search_instance in the config to an Invidious instance."
    );
    let e = search_backend(&cfg, Some("b")).unwrap_err();
    assert_eq!(e.message(), "no paired device named 'b'");
    let mut cfg = config(&["a"]);
    cfg.search_instance = Some("https://i/".into());
    assert_eq!(search_backend(&cfg, None).unwrap(), "https://i");
}

#[test]
fn labels_and_web_urls() {
    let mut cfg = config(&["a", "b"]);
    assert_eq!(device_label(&cfg, Some("b")), "b TV");
    assert_eq!(device_label(&cfg, None), "the screen");
    assert_eq!(web_url(&cfg, Some("a")), None);
    cfg.devices[0].web_url = Some("http://tv".into());
    assert_eq!(web_url(&cfg, Some("a")).as_deref(), Some("http://tv"));
    assert_eq!(web_url(&cfg, None), None);
    assert_eq!(
        metadata_base(&cfg, Some("a")).as_deref(),
        Some("http://tv/playlet-invidious-backend")
    );
}

#[test]
fn local_queue_grows_from_one_video() {
    assert!(LocalQueue::default().video_ids.is_empty());
    let mut q = LocalQueue::reset("a");
    q.push("b");
    q.push("a");
    assert_eq!(q.video_ids, vec!["a", "b", "a"]);
}

#[test]
fn refreshed_token_is_used_by_commands() {
    let mut cfg = config(&["a"]);
    cfg.upsert(device("b", "s9"));
    assert!(cfg.update_token("s9", "fresh"));
    assert_eq!(cfg.resolve(Some("B")).unwrap().lounge_token, "fresh");
    assert_eq!(cfg.resolve(Some("a")).unwrap().lounge_token, "token-s0");
}

#[test]
fn choice_depends_on_aliases_and_default() {
    let mut a = config(&["x", "y"]);
    let mut b = config(&["x", "y"]);
    b.devices[0].name = "another".into();
    b.devices[1].screen_id = "another".into();
    for default in [None, Some("y".to_string())] {
        a.default_device = default.clone();
        b.default_device = default;
        for device in [None, Some("X"), Some("z")] {
            let chosen = |c: &Config| c.resolve(device).map(|d| d.alias.clone()).ok();
            assert_eq!(chosen(&a), chosen(&b));
        }
    }
}

#[test]
fn stored_queue_grows_at_its_end() {
    let ids = |q: Result<LocalQueue, &'static str>| q.map(|q| q.video_ids);
    assert_eq!(ids(queue_to_store(Ok(None), "a")).unwrap(), vec!["a"]);
    let read = Ok(Some(LocalQueue::reset("a")));
    assert_eq!(ids(queue_to_store(read, "b")).unwrap(), vec!["a", "b"]);
    let read = Ok(Some(LocalQueue { video_ids: vec!["a".into(), "b".into()] }));
    assert_eq!(ids(queue_to_store(read, "a")).unwrap(), vec!["a", "b", "a"]);
    assert_eq!(ids(queue_to_store(Err("unreadable"), "a")).unwrap_err(), "unreadable");
}
