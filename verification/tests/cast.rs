use tubecast::cast::{
    cast_next, control_step, history_lines, history_source, idle_lines, play_report, playlist_line,
    queued_line, status_lines, status_next, web_control_line, web_line, web_status_lines, CastAction, CastEvent,
    ControlStep, StatusAction, StatusEvent, FIRST_CONFIRM_MS, QUEUE_CONFIRM_MS, TV_MUST_BE_ON,
};
use tubecast::config::{Config, Device};
use tubecast::transport::{Action, CastResult, NowShowing, PlaybackStatus, Reachability};

#[test]
fn order_of_casting() {
    match cast_next(CastEvent::Asked(Some("http://tv".into()))) {
        CastAction::PostWeb(web) => assert_eq!(web, "http://tv"),
        _ => panic!("expected the web server"),
    }
    assert!(matches!(cast_next(CastEvent::Asked(None)), CastAction::CastLounge));
    assert!(matches!(cast_next(CastEvent::WebAnswered(true)), CastAction::Stop));
    assert!(matches!(cast_next(CastEvent::WebAnswered(false)), CastAction::CastLounge));
    assert!(matches!(cast_next(CastEvent::LoungeAnswered(true)), CastAction::Stop));
    assert!(matches!(cast_next(CastEvent::LoungeAnswered(false)), CastAction::Probe));
    assert!(matches!(cast_next(CastEvent::Probed(None)), CastAction::Stop));
    for r in [Reachability::Available, Reachability::Unavailable, Reachability::Unpaired] {
        match cast_next(CastEvent::Probed(Some(r))) {
            CastAction::Repair(s) => assert_eq!(s, r),
            _ => panic!("expected a repair"),
        }
        assert!(matches!(cast_next(CastEvent::Repaired(r, true)), CastAction::RetryLounge));
    }
    assert!(matches!(
        cast_next(CastEvent::Repaired(Reachability::Unavailable, false)),
        CastAction::Advise
    ));
    assert!(matches!(
        cast_next(CastEvent::Repaired(Reachability::Unpaired, false)),
        CastAction::Stop
    ));
    assert!(matches!(cast_next(CastEvent::Retried), CastAction::Stop));
    assert_eq!(TV_MUST_BE_ON, "make sure the TV is on with the YouTube/Playlet app open.");
}

#[test]
fn lines_about_a_cast() {
    assert_eq!(web_line("x", true, ""), "queued https://youtu.be/x (via web API)");
    assert_eq!(web_line("x", false, "  (T)"), "playing https://youtu.be/x  (T) (via web API)");
    assert_eq!(queued_line("x", "", true), "queued https://youtu.be/x");
    assert_eq!(queued_line("x", "  (T)", false), "queued https://youtu.be/x  (T) (unconfirmed)");
    assert_eq!(playlist_line("PLx"), "playing playlist PLx");
}

#[test]
fn reports_of_playing() {
    let r = play_report("dQw4w9WgXcQ", "", &CastResult::Confirmed(PlaybackStatus::Playing));
    assert_eq!((r.line.as_str(), r.note, r.confirmed), ("playing https://youtu.be/dQw4w9WgXcQ", None, true));
    let r = play_report("x", "", &CastResult::Unconfirmed);
    assert_eq!((r.line.as_str(), r.note, r.confirmed), ("playing https://youtu.be/x (unconfirmed)", None, false));
    let r = play_report("x", "  (T)", &CastResult::OtherPlaying("y".into()));
    assert_eq!(r.line, "playing https://youtu.be/x  (T) (unconfirmed)");
    assert_eq!(
        r.note.unwrap(),
        "note: the TV is still on https://youtu.be/y — the cast didn't take effect."
    );
    assert!(!r.confirmed);
}

#[test]
fn steps_of_control() {
    let say = |s: ControlStep| match s {
        ControlStep::Say(t) => t,
        _ => panic!("expected words"),
    };
    assert_eq!(say(control_step(&Action::Pause, false, true, true)), "paused");
    assert!(matches!(control_step(&Action::Pause, false, false, true), ControlStep::Resend(3000)));
    assert!(matches!(control_step(&Action::Pause, true, false, true), ControlStep::TryWeb));
    assert_eq!(say(control_step(&Action::Pause, true, false, false)), "paused (unconfirmed)");
    assert_eq!(say(control_step(&Action::Pause, true, true, false)), "paused");
    assert_eq!(web_control_line(&Action::Next, true), "next (via web API)");
    assert_eq!(web_control_line(&Action::Next, false), "next (unconfirmed)");
    assert_eq!((FIRST_CONFIRM_MS, QUEUE_CONFIRM_MS), (1500, 6000));
}

#[test]
fn lines_of_status() {
    let now = NowShowing {
        video_id: "dQw4w9WgXcQ".into(),
        status: PlaybackStatus::Playing,
        current_time: "12".into(),
        duration: "213".into(),
    };
    assert_eq!(status_lines(&now, None), vec!["Playing: https://youtu.be/dQw4w9WgXcQ [12/213s]"]);
    assert_eq!(status_lines(&now, Some("T"))[0], "T");
    assert_eq!(
        web_status_lines("Den", "x", Some("T")),
        vec!["T", "playing on Den — https://youtu.be/x (via web API)"]
    );
    assert_eq!(idle_lines("Den")[0], "connected to Den, but nothing is playing.");
    assert_eq!(idle_lines("Den").len(), 2);
}

#[test]
fn history_of_a_device() {
    let mut cfg = Config::default();
    assert_eq!(
        history_source(&cfg, None).unwrap_err().message(),
        "no paired devices. Run `tubecast pair <CODE>` first."
    );
    cfg.devices.push(Device {
        alias: "den".into(),
        name: "Den".into(),
        screen_id: "s".into(),
        lounge_token: "t".into(),
        web_url: None,
    });
    assert_eq!(
        history_source(&cfg, None).unwrap_err().message(),
        "'den' exposes no web API, so no history is available. Only Playlet TVs (linked with \
         `tubecast link-web http://<tv-ip>:8888`) expose history; SmartTube and other apps don't."
    );
    cfg.devices[0].web_url = Some("http://tv".into());
    assert_eq!(history_source(&cfg, None).unwrap(), "http://tv");
    assert_eq!(history_lines("den", "Den", &Vec::new()), vec!["no search history on 'den'."]);
    assert_eq!(
        history_lines("den", "Den", &vec!["a".into(), "b".into()]),
        vec!["search history on Den:", "  a", "  b"]
    );
}

#[test]
fn casting_ends_after_six_events() {
    // Everything fails but the repair.
    let mut event = CastEvent::Asked(Some("http://tv".into()));
    let mut events = 1;
    loop {
        event = match cast_next(event) {
            CastAction::PostWeb(_) => CastEvent::WebAnswered(false),
            CastAction::CastLounge => CastEvent::LoungeAnswered(false),
            CastAction::Probe => CastEvent::Probed(Some(Reachability::Available)),
            CastAction::Repair(r) => CastEvent::Repaired(r, true),
            CastAction::RetryLounge => CastEvent::Retried,
            CastAction::Advise | CastAction::Stop => break,
        };
        events += 1;
    }
    assert_eq!(events, 6);
}

#[test]
fn order_of_asking_what_plays() {
    let mut cfg = Config::default();
    cfg.devices.push(Device {
        alias: "den".into(),
        name: "Den".into(),
        screen_id: "s".into(),
        lounge_token: "t".into(),
        web_url: None,
    });
    let now = || NowShowing {
        video_id: "x".into(),
        status: PlaybackStatus::Paused,
        current_time: "1".into(),
        duration: "2".into(),
    };
    assert!(matches!(status_next(StatusEvent::Asked, &cfg, None), StatusAction::AskScreen));
    assert!(matches!(
        status_next(StatusEvent::ScreenSaid(None), &cfg, None),
        StatusAction::TellIdle
    ));
    match status_next(StatusEvent::ScreenSaid(Some(now())), &cfg, None) {
        StatusAction::TellScreen(n, None) => assert_eq!(n.video_id, "x"),
        _ => panic!("expected what the screen said"),
    }
    cfg.devices[0].web_url = Some("http://tv".into());
    let base = "http://tv/playlet-invidious-backend";
    match status_next(StatusEvent::ScreenSaid(Some(now())), &cfg, None) {
        StatusAction::TellScreen(_, Some(b)) => assert_eq!(b, base),
        _ => panic!("expected what the screen said"),
    }
    match status_next(StatusEvent::ScreenSaid(None), &cfg, None) {
        StatusAction::AskWeb(web) => assert_eq!(web, "http://tv"),
        _ => panic!("expected the web server"),
    }
    match status_next(StatusEvent::WebSaid(Some("y".into())), &cfg, None) {
        StatusAction::TellWeb(id, Some(b)) => assert_eq!((id.as_str(), b.as_str()), ("y", base)),
        _ => panic!("expected what the web server said"),
    }
    assert!(matches!(status_next(StatusEvent::WebSaid(None), &cfg, None), StatusAction::TellIdle));
}
