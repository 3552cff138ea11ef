use tubecast::config::{Config, Device};
use tubecast::devices::{
    absorb, absorb_all, check_web_address, device_line, find_lost, link_web, linked_message,
    lost_tv, none_matched, pair_screen, pairing_code, repair_step, same_tv, set_default, typed_code, use_step,
    LinkError, RepairStep, Screen, UseError, UseStep,
};
use tubecast::dial::DialDevice;

fn device(alias: &str, name: &str, screen: &str) -> Device {
    Device {
        alias: alias.into(),
        name: name.into(),
        screen_id: screen.into(),
        lounge_token: "t".into(),
        web_url: None,
    }
}

fn found(name: &str, screen: &str, location: &str) -> DialDevice {
    DialDevice {
        name: name.into(),
        screen_id: screen.into(),
        lounge_token: "fresh".into(),
        location: location.into(),
    }
}

fn screen(name: Option<&str>, id: &str) -> Screen {
    Screen { name: name.map(String::from), screen_id: id.into(), lounge_token: "t".into() }
}

#[test]
fn spaces_in_a_code_are_ignored() {
    assert_eq!(pairing_code("123 456 789 012"), "123456789012");
    assert_eq!(pairing_code("\t12\u{a0}3\n"), "123");
}

#[test]
fn first_paired_device_becomes_default() {
    let mut cfg = Config::default();
    let p = pair_screen(&mut cfg, screen(Some("Living Room TV!"), "s1"), None, false);
    assert_eq!(p.message(), "paired 'Living Room TV!' as 'living-room-tv' (default)");
    assert_eq!(cfg.default_device.as_deref(), Some("living-room-tv"));
    assert_eq!(cfg.resolve(None).unwrap().screen_id, "s1");

    let p = pair_screen(&mut cfg, screen(None, "s2"), None, false);
    assert_eq!(p.message(), "paired 'TV' as 'tv'");
    assert_eq!(cfg.default_device.as_deref(), Some("living-room-tv"));

    let p = pair_screen(&mut cfg, screen(Some("X"), "s3"), Some("den".into()), true);
    assert_eq!((p.name.as_str(), p.alias.as_str(), p.default), ("X", "den", true));
    assert_eq!(cfg.resolve(None).unwrap().screen_id, "s3");
}

#[test]
fn discovery_refreshes_what_is_paired() {
    let mut cfg = Config::default();
    cfg.devices.push(device("den", "Den TV", "old"));
    assert_eq!(absorb(&mut cfg, &found("den tv", "new", "http://h/")), "  refreshed 'den' (den tv)");
    assert_eq!(cfg.devices.len(), 1);
    assert_eq!((cfg.devices[0].screen_id.as_str(), cfg.devices[0].lounge_token.as_str()), ("new", "fresh"));
    assert_eq!(cfg.devices[0].name, "Den TV");
}

#[test]
fn discovery_matches_the_host_of_the_web_server() {
    let mut cfg = Config::default();
    let mut d = device("den", "Den", "old");
    d.web_url = Some("http://10.0.0.7:8888".into());
    cfg.devices.push(d);
    let line = absorb(&mut cfg, &found("Other", "new", "http://10.0.0.7:8060/dd.xml"));
    assert_eq!(line, "  refreshed 'den' (Other)");
    let line = absorb(&mut cfg, &found("Else", "else", "http://10.0.0.8:8060/dd.xml"));
    assert_eq!(line, "  paired 'else' (Else)");
    assert_eq!(cfg.devices.len(), 2);
}

#[test]
fn discovery_adds_what_is_new() {
    let mut cfg = Config::default();
    let lines = absorb_all(&mut cfg, &vec![found("A", "1", "no url"), found("B", "2", "no url"), found("a!", "3", "")]);
    assert_eq!(lines, vec!["  paired 'a' (A) (default)", "  paired 'b' (B)", "  refreshed 'a' (a!)"]);
    assert_eq!(cfg.aliases(), vec!["a", "b"]);
    assert_eq!(cfg.devices[0].screen_id, "3");
    assert_eq!(cfg.default_device.as_deref(), Some("a"));
}

#[test]
fn lost_device_is_found_again() {
    let mut dev = device("den", "The Den", "s");
    dev.web_url = Some("http://10.0.0.7:8888".into());
    let others = vec![found("x", "1", "http://10.0.0.1/")];
    assert_eq!(find_lost(&dev, &others), None);
    assert_eq!(find_lost(&dev, &vec![found("x", "1", ""), found("y", "s", "")]), Some(1));
    assert_eq!(find_lost(&dev, &vec![found("DEN", "1", "")]), Some(0));
    assert_eq!(find_lost(&dev, &vec![found("the den", "1", "")]), Some(0));
    assert_eq!(find_lost(&dev, &vec![found("x", "1", "http://10.0.0.7/d")]), Some(0));
    dev.web_url = None;
    assert_eq!(find_lost(&dev, &vec![found("x", "1", "not a url")]), None);
}

#[test]
fn repair_steps() {
    let dev = device("den", "Den", "s");
    let hit = vec![found("x", "1", ""), found("den", "2", "")];
    let miss = vec![found("x", "1", "")];
    assert!(matches!(repair_step(&dev, Some(&hit), false), RepairStep::Refresh(1)));
    assert!(matches!(repair_step(&dev, Some(&miss), false), RepairStep::Hint));
    assert!(matches!(repair_step(&dev, Some(&miss), true), RepairStep::AskCode));
    assert!(matches!(repair_step(&dev, None, true), RepairStep::AskCode));
    assert_eq!(none_matched(0, "den"), None);
    assert_eq!(none_matched(2, "den").unwrap(), "found 2 device(s) but none matched 'den'.");
    assert_eq!(typed_code("  12 34 "), Some("12 34".into()));
    assert_eq!(typed_code(" \n"), None);
}

#[test]
fn linking_a_web_server() {
    let mut cfg = Config::default();
    cfg.devices.push(device("den", "Den", "s"));
    let (alias, url) = link_web(&mut cfg, "http://tv:8888//", None).unwrap();
    assert_eq!(linked_message(&alias, &url), "linked 'den' -> http://tv:8888 (search enabled)");
    assert_eq!(
        cfg.devices[0].search_base(&cfg).as_deref(),
        Some("http://tv:8888/playlet-invidious-backend")
    );
    let e = link_web(&mut cfg, "tv:8888", None).unwrap_err();
    assert!(matches!(e, LinkError::NotHttp));
    assert_eq!(e.message(), "url must start with http:// or https://");
    let e = link_web(&mut cfg, "https://tv", Some("attic")).unwrap_err();
    assert_eq!(e.message(), "no paired device named 'attic'");
    assert_eq!(cfg.devices[0].web_url.as_deref(), Some("http://tv:8888"));
    assert!(check_web_address("https://x").is_ok());
    assert!(check_web_address("HTTP://x").is_err());
}

#[test]
fn choosing_the_default() {
    let mut cfg = Config::default();
    let e = match use_step(&cfg, None, true) {
        Err(e) => e,
        Ok(_) => panic!("there is no device"),
    };
    assert_eq!(e.message(), "no paired devices. Run `tubecast pair <CODE>` first.");
    cfg.devices.push(device("a", "A", "1"));
    cfg.devices.push(device("b", "B", "2"));
    match use_step(&cfg, Some("B"), false) {
        Ok(UseStep::Chosen(alias)) => assert_eq!(alias, "b"),
        _ => panic!("expected a choice"),
    }
    match use_step(&cfg, None, false) {
        Err(UseError::NeedAlias(v)) => {
            assert_eq!(UseError::NeedAlias(v).message(), "pass a device alias (one of: a, b)")
        }
        _ => panic!("expected an error"),
    }
    match use_step(&cfg, None, true) {
        Ok(UseStep::Pick(labels, start)) => {
            assert_eq!((labels, start), (vec!["a  (A)".to_string(), "b  (B)".to_string()], 0))
        }
        _ => panic!("expected a picker"),
    }
    assert_eq!(set_default(&mut cfg, "b".into()), "default device is now 'b'");
    match use_step(&cfg, None, true) {
        Ok(UseStep::Pick(_, start)) => assert_eq!(start, 1),
        _ => panic!("expected a picker"),
    }
    assert!(use_step(&cfg, Some("c"), true).is_err());
    assert_eq!(device_line(&cfg, &cfg.devices[0]), "a\tA");
    assert_eq!(device_line(&cfg, &cfg.devices[1]), "b (default)\tB");
}

#[test]
fn repairs_keep_the_choice() {
    let mut cfg = Config::default();
    cfg.devices.push(device("a", "A", "1"));
    cfg.devices.push(device("b", "B", "2"));
    cfg.default_device = Some("b".into());
    cfg.refresh("b", "9", "t9");
    assert_eq!(cfg.resolve(None).unwrap().screen_id, "9");
    link_web(&mut cfg, "http://tv", Some("b")).unwrap();
    let d = cfg.resolve(None).unwrap();
    assert_eq!((d.alias.as_str(), d.screen_id.as_str()), ("b", "9"));
    assert_eq!(cfg.resolve(Some("A")).unwrap().screen_id, "1");
}

#[test]
fn tvs_are_told_by_screen_name_or_host() {
    let dev = device("den", "The Den", "s");
    let host = Some("10.0.0.7".to_string());
    let other = Some("10.0.0.8".to_string());
    assert!(same_tv(&dev, &found("x", "s", ""), &None, &None));
    assert!(same_tv(&dev, &found("the-den!", "1", ""), &None, &None));
    assert!(same_tv(&dev, &found("x", "1", ""), &host, &host));
    assert!(!same_tv(&dev, &found("x", "1", ""), &host, &other));
    assert!(!same_tv(&dev, &found("x", "1", ""), &None, &None));
    assert!(!same_tv(&dev, &found("den", "1", ""), &None, &host));
    assert!(lost_tv(&dev, &found("den", "1", ""), &None, &host));
    assert!(!lost_tv(&dev, &found("x", "1", ""), &None, &host));
}
