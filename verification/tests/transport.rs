use tubecast::transport::{
    connect_error, connect_step, get_now_playing, looks_unpaired, play_video_confirmed,
    reachability, replay_queue, wait_confirm, wait_playing, wait_queued, wait_showing, Action,
    CastResult, ConnectStep, Event, LoungeFailure, PlayAttempt, PlayStep, Playback, PlaybackStatus,
    QueueCommand, Reachability, Waited, CONNECT_CONTEXT, CONNECT_TIMEOUT, DEVICE_NAME,
    PROBE_CONTEXT, UNPAIRED_HINT, VOLUME_RANGE,
};

fn change(state: &str) -> Event {
    Event::StateChange { state: state.into() }
}

fn playing(id: &str, state: &str) -> Event {
    Event::NowPlaying {
        video_id: id.into(),
        state: state.into(),
        current_time: "12".into(),
        duration: "213".into(),
    }
}

fn session(id: &str, state: &str) -> Event {
    Event::PlaybackSession {
        video_id: id.into(),
        state: state.into(),
        current_time: "1".into(),
        duration: "2".into(),
    }
}

#[test]
fn known_states() {
    for (state, status, label) in [
        ("-1", PlaybackStatus::Stopped, "Stopped"),
        ("0", PlaybackStatus::Buffering, "Buffering"),
        ("1", PlaybackStatus::Playing, "Playing"),
        ("2", PlaybackStatus::Paused, "Paused"),
        ("3", PlaybackStatus::Starting, "Starting"),
        ("1081", PlaybackStatus::Advertisement, "Advertisement"),
        ("4", PlaybackStatus::Unknown, "Unknown"),
    ] {
        assert_eq!(PlaybackStatus::of_state(state), status);
        assert_eq!(status.label(), label);
        assert_eq!(youtube_lounge_rs::PlaybackStatus::from(state).to_string(), label);
    }
}

#[test]
fn odd_states() {
    assert_eq!(PlaybackStatus::of_state("+2"), PlaybackStatus::Paused);
    assert_eq!(PlaybackStatus::of_state("002"), PlaybackStatus::Paused);
    assert_eq!(PlaybackStatus::of_state("-0"), PlaybackStatus::Buffering);
    for odd in ["", "-", "+", " 1", "1 ", "1.0", "x", "--1", "4294967297", "٢"] {
        assert_eq!(PlaybackStatus::of_state(odd), PlaybackStatus::Unknown, "{odd}");
    }
}

#[test]
fn labels_of_commands() {
    let label = |a: Action| a.label();
    assert_eq!(label(Action::Resume), "resumed");
    assert_eq!(label(Action::Pause), "paused");
    assert_eq!(label(Action::Next), "next");
    assert_eq!(label(Action::Prev), "previous");
    assert_eq!(label(Action::SkipAd), "ad skipped");
    assert_eq!(label(Action::Mute), "muted");
    assert_eq!(label(Action::Unmute), "unmuted");
    assert_eq!(label(Action::Seek("90.5".into())), "seeked to 90.5s");
    assert_eq!(label(Action::Volume(-3)), "volume -3");
}

#[test]
fn commands_are_confirmed_by_events() {
    for (state, resumes, pauses) in [("1", true, false), ("3", true, false), ("0", true, false), ("2", false, true), ("-1", false, false)] {
        for ev in [change(state), playing("x", state)] {
            assert_eq!(Action::Resume.confirmed_by(&ev), resumes);
            assert_eq!(Action::Pause.confirmed_by(&ev), pauses);
            assert!(Action::Next.confirmed_by(&ev));
            assert!(Action::Seek("1".into()).confirmed_by(&ev));
            assert!(!Action::Mute.confirmed_by(&ev));
        }
        assert!(!Action::Resume.confirmed_by(&session("x", state)));
        assert!(!Action::Next.confirmed_by(&session("x", state)));
    }
    for a in [Action::Mute, Action::Unmute, Action::Volume(5)] {
        assert!(a.confirmed_by(&Event::VolumeChanged));
        assert!(!a.confirmed_by(&Event::Other));
    }
    assert!(!Action::Prev.confirmed_by(&Event::VolumeChanged));
}

#[test]
fn volume_is_bounded() {
    for (level, ok) in [(-1, false), (0, true), (100, true), (101, false)] {
        assert_eq!(Action::Volume(level).is_sendable(), ok);
    }
    assert!(Action::Seek("-5".into()).is_sendable());
    assert_eq!(VOLUME_RANGE, "volume must be 0-100");
}

#[test]
fn signs_of_a_lost_pairing() {
    for s in ["Token expired", "bad token", "HTTP 404", "Not found", "not found"] {
        assert!(looks_unpaired(s), "{s}");
    }
    assert!(!looks_unpaired("HTTP 500"));
    assert_eq!(connect_error(&LoungeFailure::TokenExpired), UNPAIRED_HINT);
    assert_eq!(connect_error(&LoungeFailure::TokenRefreshFailed), UNPAIRED_HINT);
    assert_eq!(connect_error(&LoungeFailure::InvalidResponse("404".into())), UNPAIRED_HINT);
    assert_eq!(connect_error(&LoungeFailure::InvalidResponse("500".into())), CONNECT_CONTEXT);
    assert_eq!(connect_error(&LoungeFailure::Other), CONNECT_CONTEXT);
}

#[test]
fn reachability_of_a_screen() {
    assert_eq!(reachability(Ok(true)).unwrap(), Reachability::Available);
    assert_eq!(reachability(Ok(false)).unwrap(), Reachability::Unavailable);
    assert_eq!(reachability(Err(LoungeFailure::TokenExpired)).unwrap(), Reachability::Unpaired);
    assert_eq!(
        reachability(Err(LoungeFailure::InvalidResponse("ot found".into()))).unwrap(),
        Reachability::Unpaired
    );
    assert!(reachability(Err(LoungeFailure::Other)).is_err());
    assert_eq!(PROBE_CONTEXT, "checking whether the screen is reachable");
}

#[test]
fn connection_steps() {
    let fail = |state: &str, late: bool| match connect_step(state, late) {
        ConnectStep::Fail(m) => m,
        _ => panic!("expected a failure"),
    };
    assert!(matches!(connect_step("Connected", true), ConnectStep::Ready));
    assert!(matches!(connect_step("Connecting", false), ConnectStep::Wait));
    assert_eq!(fail("Connecting", true), CONNECT_TIMEOUT);
    assert_eq!(fail("Failed(\"HTTP 404\")", false), UNPAIRED_HINT);
    assert_eq!(fail("Failed(\"boom\")", false), "connection failed: Failed(\"boom\")");
    assert_eq!(CONNECT_TIMEOUT, "timed out waiting for the screen to connect");
    assert_eq!(DEVICE_NAME, "tubecast");
}

#[test]
fn waiting_for_confirmation() {
    assert!(matches!(wait_confirm(&Action::Pause, None), Waited::Answer(false)));
    assert!(matches!(wait_confirm(&Action::Pause, Some(&change("1"))), Waited::Again));
    assert!(matches!(wait_confirm(&Action::Pause, Some(&change("2"))), Waited::Answer(true)));
    assert!(matches!(wait_queued(Some(&Event::PlaylistModified)), Waited::Answer(true)));
    assert!(matches!(wait_queued(Some(&Event::Other)), Waited::Again));
    assert!(matches!(wait_queued(None), Waited::Answer(false)));
}

#[test]
fn waiting_for_playback() {
    assert!(matches!(wait_playing(None), Waited::Answer(None)));
    assert!(matches!(wait_playing(Some(&playing("", "1"))), Waited::Again));
    assert!(matches!(wait_playing(Some(&change("1"))), Waited::Again));
    match wait_playing(Some(&session("abc", "2"))) {
        Waited::Answer(Some(p)) => {
            assert_eq!((p.video_id.as_str(), p.status), ("abc", PlaybackStatus::Paused))
        }
        _ => panic!("expected playback"),
    }
    match get_now_playing(Some(&playing("abc", "1"))) {
        Waited::Answer(Some(id)) => assert_eq!(id, "abc"),
        _ => panic!("expected a video"),
    }
    assert!(matches!(get_now_playing(None), Waited::Answer(None)));
    match wait_showing(Some(&playing("abc", "1"))) {
        Waited::Answer(Some(n)) => {
            assert_eq!((n.current_time.as_str(), n.duration.as_str()), ("12", "213"))
        }
        _ => panic!("expected times"),
    }
}

fn heard(id: &str) -> Option<Playback> {
    Some(Playback { video_id: id.into(), status: PlaybackStatus::Playing })
}

fn cast(first: Option<Playback>, second: Option<Playback>) -> (usize, CastResult) {
    let attempt = PlayAttempt::first();
    assert_eq!((attempt.wait_ms(), attempt.context()), (2500, "send play"));
    match play_video_confirmed(attempt, first, "want") {
        PlayStep::Done(r) => (1, r),
        PlayStep::Resend(attempt) => {
            assert_eq!((attempt.wait_ms(), attempt.context()), (5000, "resend play"));
            match play_video_confirmed(attempt, second, "want") {
                PlayStep::Done(r) => (2, r),
                PlayStep::Resend(_) => panic!("sent three times"),
            }
        }
    }
}

#[test]
fn video_is_sent_at_most_twice() {
    assert!(matches!(cast(heard("want"), None), (1, CastResult::Confirmed(PlaybackStatus::Playing))));
    assert!(matches!(cast(None, heard("want")), (2, CastResult::Confirmed(_))));
    assert!(matches!(cast(None, None), (2, CastResult::Unconfirmed)));
    match cast(heard("a"), None) {
        (2, CastResult::OtherPlaying(id)) => assert_eq!(id, "a"),
        _ => panic!("expected another video"),
    }
    match cast(heard("a"), heard("b")) {
        (2, CastResult::OtherPlaying(id)) => assert_eq!(id, "b"),
        _ => panic!("expected another video"),
    }
}

#[test]
fn queue_is_replayed_in_order() {
    let plan = replay_queue("a", &vec!["b".into(), "c".into()]);
    let shown: Vec<Vec<String>> = plan
        .iter()
        .map(|s| {
            s.iter()
                .map(|c| match c {
                    QueueCommand::Play(id) => format!("play {id}"),
                    QueueCommand::Add(id) => format!("add {id}"),
                })
                .collect()
        })
        .collect();
    assert_eq!(shown, vec![vec!["play a"], vec!["add b", "add c"]]);
    assert_eq!(replay_queue("a", &Vec::new()).len(), 1);
}

#[test]
fn waiting_goes_on_until_an_answer() {
    let hear = |action: &Action, events: &[Event]| {
        for ev in events {
            if let Waited::Answer(b) = wait_confirm(action, Some(ev)) {
                return b;
            }
        }
        matches!(wait_confirm(action, None), Waited::Answer(true))
    };
    let events = [Event::Other, change("1"), Event::VolumeChanged, change("2")];
    assert!(hear(&Action::Pause, &events));
    assert!(!hear(&Action::Pause, &events[..3]));
    assert!(hear(&Action::Mute, &events[..3]));

    let mut shown = None;
    for ev in [change("1"), playing("", "1"), session("a", "1"), playing("b", "1")] {
        if let Waited::Answer(n) = wait_showing(Some(&ev)) {
            shown = n;
            break;
        }
    }
    assert_eq!(shown.unwrap().video_id, "a");
}

#[test]
fn queue_change_is_heard_among_other_events() {
    let hear = |events: &[Event]| {
        for ev in events {
            if let Waited::Answer(b) = wait_queued(Some(ev)) {
                return b;
            }
        }
        matches!(wait_queued(None), Waited::Answer(true))
    };
    let events = [Event::Other, change("1"), Event::PlaylistModified];
    assert!(hear(&events));
    assert!(!hear(&events[..2]));
    assert!(!hear(&[]));
}

#[test]
fn first_playback_counts() {
    let mut heard = None;
    for ev in [Event::Other, playing("", "1"), playing("a", "2"), session("b", "1")] {
        if let (Waited::Answer(p), Waited::Answer(id)) =
            (wait_playing(Some(&ev)), get_now_playing(Some(&ev)))
        {
            heard = p.zip(id);
            break;
        }
    }
    let (p, id) = heard.unwrap();
    assert_eq!((p.video_id.as_str(), p.status, id.as_str()), ("a", PlaybackStatus::Paused, "a"));
}
