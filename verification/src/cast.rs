//! Casting a video and controlling a screen: what to try in which order, and what to say of it.

use crate::config::{Config, ConfigView, ResolveError, ResolveErrorView};
use crate::config;
use crate::text;
use crate::transport::{Action, CastResult, CastResultView, NowShowing, NowShowingView, Reachability};
use crate::transport;
use vstd::prelude::*;

verus! {

// ---------------------------------------------------------------- casting

/// What happened last to a video that is being cast.
pub enum CastEvent {
    /// It was asked for, on a device with this web server, if it has one.
    Asked(Option<String>),
    /// The web server took it, or did not.
    WebAnswered(bool),
    /// The lounge was tried: the screen confirmed it, or did not.
    LoungeAnswered(bool),
    /// The screen was looked for; `None` where even that failed.
    Probed(Option<Reachability>),
    /// A screen in this condition was paired with again, or was not.
    Repaired(Reachability, bool),
    /// The lounge was tried once more.
    Retried,
}

/// What to do next about a video that is being cast.
pub enum CastAction {
    /// Send it to this web server.
    PostWeb(String),
    /// Try the lounge.
    CastLounge,
    /// Look for the screen.
    Probe,
    /// Pair with the screen, which is in this condition, again.
    Repair(Reachability),
    /// Read the settings again, wait a second and try the lounge once more.
    RetryLounge,
    /// Say that the TV must be on, and stop.
    Advise,
    /// Stop.
    Stop,
}

/// The action is the right one after the event.
pub open spec fn follows(event: CastEvent, action: CastAction) -> bool {
    match event {
        CastEvent::Asked(Some(web)) => action matches CastAction::PostWeb(w) && w@ == web@,
        CastEvent::Asked(None) => action is CastLounge,
        CastEvent::WebAnswered(taken) => if taken {
            action is Stop
        } else {
            action is CastLounge
        },
        CastEvent::LoungeAnswered(confirmed) => if confirmed {
            action is Stop
        } else {
            action is Probe
        },
        CastEvent::Probed(Some(r)) => action == CastAction::Repair(r),
        CastEvent::Probed(None) => action is Stop,
        CastEvent::Repaired(r, true) => action is RetryLounge,
        CastEvent::Repaired(r, false) => if r == Reachability::Unavailable {
            action is Advise
        } else {
            action is Stop
        },
        CastEvent::Retried => action is Stop,
    }
}

/// Decides what to do next about a video that is being cast (played or queued). For Playlet
/// devices (those with a web_url), the direct web API comes first: it is faster and doesn't depend
/// on the YouTube lounge relay. For other devices (SmartTube, native YouTube), it is the lounge
/// protocol, with a DIAL re-pair as a fallback.
pub fn cast_next(event: CastEvent) -> (r: CastAction)
    ensures
        follows(event, r),
{
    match event {
        CastEvent::Asked(Some(web)) => CastAction::PostWeb(web),
        CastEvent::Asked(None) => CastAction::CastLounge,
        CastEvent::WebAnswered(taken) => if taken {
            CastAction::Stop
        } else {
            CastAction::CastLounge
        },
        CastEvent::LoungeAnswered(confirmed) => if confirmed {
            CastAction::Stop
        } else {
            CastAction::Probe
        },
        CastEvent::Probed(Some(r)) => CastAction::Repair(r),
        CastEvent::Probed(None) => CastAction::Stop,
        CastEvent::Repaired(r, repaired) => if repaired {
            CastAction::RetryLounge
        } else if r == Reachability::Unavailable {
            CastAction::Advise
        } else {
            CastAction::Stop
        },
        CastEvent::Retried => CastAction::Stop,
    }
}

/// What is said where the screen cannot be reached.
pub const TV_MUST_BE_ON: &'static str = "make sure the TV is on with the YouTube/Playlet app open.";

/// The address of a video.
pub open spec fn short_link(video_id: Seq<char>) -> Seq<char> {
    "https://youtu.be/"@ + video_id
}

/// What is said of a video that a web server took.
pub open spec fn web_line_of(video_id: Seq<char>, queue: bool, suffix: Seq<char>) -> Seq<char> {
    (if queue {
        "queued "@
    } else {
        "playing "@
    }) + short_link(video_id) + suffix + " (via web API)"@
}

/// What is said of a video that a web server took.
pub fn web_line(video_id: &str, queue: bool, suffix: &str) -> (r: String)
    ensures
        r@ == web_line_of(video_id@, queue, suffix@),
{
    let verb = if queue {
        "queued "
    } else {
        "playing "
    };
    let mut r = text::concat2(verb, text::concat2("https://youtu.be/", video_id).as_str());
    r.append(suffix);
    r.append(" (via web API)");
    r
}

/// What is said of something that the screen did not confirm.
pub open spec fn doubt(confirmed: bool) -> Seq<char> {
    if confirmed {
        Seq::empty()
    } else {
        " (unconfirmed)"@
    }
}

/// What is said of a video that was queued.
pub fn queued_line(video_id: &str, suffix: &str, confirmed: bool) -> (r: String)
    ensures
        r@ == "queued "@ + short_link(video_id@) + suffix@ + doubt(confirmed),
{
    let mut r = text::concat2("queued ", text::concat2("https://youtu.be/", video_id).as_str());
    r.append(suffix);
    if !confirmed {
        r.append(" (unconfirmed)");
    }
    assert(r@ =~= "queued "@ + short_link(video_id@) + suffix@ + doubt(confirmed));
    r
}

/// What is said of a video that was played.
pub struct PlayReport {
    pub line: String,
    /// What else there is to say.
    pub note: Option<String>,
    /// Whether the screen confirmed it.
    pub confirmed: bool,
}

/// What is said besides where the screen plays something else.
pub open spec fn other_note(c: CastResultView) -> Option<Seq<char>> {
    match c {
        CastResultView::OtherPlaying(other) => Some(
            "note: the TV is still on "@ + short_link(other) + " — the cast didn't take effect."@,
        ),
        _ => None,
    }
}

/// What is said of a video that was played: once it is confirmed,
/// `playing https://youtu.be/dQw4w9WgXcQ`.
pub fn play_report(video_id: &str, suffix: &str, result: &CastResult) -> (r: PlayReport)
    ensures
        r.confirmed == (result@ is Confirmed),
        r.line@ == "playing "@ + short_link(video_id@) + suffix@ + doubt(r.confirmed),
        text::text_opt(r.note) == other_note(result@),
{
    let mut line = text::concat2("playing ", text::concat2("https://youtu.be/", video_id).as_str());
    line.append(suffix);
    match result {
        CastResult::Confirmed(_) => {
            assert(line@ =~= "playing "@ + short_link(video_id@) + suffix@ + doubt(true));
            PlayReport { line, note: None, confirmed: true }
        },
        CastResult::OtherPlaying(other) => {
            line.append(" (unconfirmed)");
            let note = text::concat3(
                "note: the TV is still on ",
                text::concat2("https://youtu.be/", other.as_str()).as_str(),
                " — the cast didn't take effect.",
            );
            PlayReport { line, note: Some(note), confirmed: false }
        },
        CastResult::Unconfirmed => {
            line.append(" (unconfirmed)");
            PlayReport { line, note: None, confirmed: false }
        },
    }
}

/// What is said of a playlist that was sent.
pub fn playlist_line(list: &str) -> (r: String)
    ensures
        r@ == "playing playlist "@ + list@,
{
    text::concat2("playing playlist ", list)
}

// ---------------------------------------------------------------- control

/// What to do next about a command that was sent.
pub enum ControlStep {
    /// Send it once more, and wait so many milliseconds for the screen.
    Resend(u64),
    /// Try the web server instead.
    TryWeb,
    /// Say this, and stop.
    Say(String),
}

/// The step is right for a command that was sent: `resent` tells whether it was sent twice,
/// `confirmed` whether the screen confirmed it, `has_web` whether the device has a web server.
pub open spec fn fits_control(
    step: ControlStep,
    action: Action,
    resent: bool,
    confirmed: bool,
    has_web: bool,
) -> bool {
    if confirmed {
        step matches ControlStep::Say(s) && s@ == transport::action_label(action)
    } else if !resent {
        step matches ControlStep::Resend(ms) && ms == 3000
    } else if has_web {
        step is TryWeb
    } else {
        step matches ControlStep::Say(s) && s@ == transport::action_label(action) + doubt(false)
    }
}

/// Decides what to do about a command that was sent: `resent` tells whether it was sent twice,
/// `confirmed` whether the screen confirmed it, `has_web` whether the device has a web server.
pub fn control_step(action: &Action, resent: bool, confirmed: bool, has_web: bool) -> (r:
    ControlStep)
    ensures
        fits_control(r, *action, resent, confirmed, has_web),
{
    if confirmed {
        return ControlStep::Say(action.label());
    }
    if !resent {
        return ControlStep::Resend(3000);
    }
    if has_web {
        return ControlStep::TryWeb;
    }
    ControlStep::Say(text::concat2(action.label().as_str(), " (unconfirmed)"))
}

/// How long to wait for the screen after a command was sent first, in milliseconds.
pub const FIRST_CONFIRM_MS: u64 = 1500;

/// How long to wait for the screen to confirm a queue change, in milliseconds.
pub const QUEUE_CONFIRM_MS: u64 = 6000;

/// What is said of a command for which the web server stood in, or did not.
pub fn web_control_line(action: &Action, taken: bool) -> (r: String)
    ensures
        r@ == transport::action_label(*action) + if taken {
            " (via web API)"@
        } else {
            doubt(false)
        },
{
    if taken {
        text::concat2(action.label().as_str(), " (via web API)")
    } else {
        text::concat2(action.label().as_str(), " (unconfirmed)")
    }
}

// ---------------------------------------------------------------- status

/// The line of what plays: `Playing: https://youtu.be/dQw4w9WgXcQ [12/213s]`.
pub open spec fn status_line(n: NowShowingView) -> Seq<char> {
    n.status.text() + ": "@ + short_link(n.video_id) + " ["@ + n.current_time + "/"@ + n.duration
        + "s]"@
}

/// What happened last to a question about what plays.
pub enum StatusEvent {
    /// It was asked.
    Asked,
    /// The screen said what plays, or nothing.
    ScreenSaid(Option<NowShowing>),
    /// The web server said which video plays, or none.
    WebSaid(Option<String>),
}

/// What to do next about a question about what plays.
pub enum StatusAction {
    /// Ask the screen.
    AskScreen,
    /// Ask this web server.
    AskWeb(String),
    /// Tell what the screen said, with the title from this backend, if there is one.
    TellScreen(NowShowing, Option<String>),
    /// Tell the video that the web server named, with the title from this backend, if there is
    /// one.
    TellWeb(String, Option<String>),
    /// Tell that nothing plays.
    TellIdle,
}

/// The action is the right one after the event, for the device that a command is for.
pub open spec fn status_follows(
    event: StatusEvent,
    action: StatusAction,
    c: ConfigView,
    alias: Option<Seq<char>>,
) -> bool {
    match event {
        StatusEvent::Asked => action is AskScreen,
        StatusEvent::ScreenSaid(Some(now)) => action matches StatusAction::TellScreen(n, base)
            && n == now && text::text_opt(base) == config::metadata_of(c, alias),
        StatusEvent::ScreenSaid(None) => match config::web_of(c, alias) {
            Some(web) => action matches StatusAction::AskWeb(w) && w@ == web,
            None => action is TellIdle,
        },
        StatusEvent::WebSaid(Some(id)) => action matches StatusAction::TellWeb(i, base) && i == id
            && text::text_opt(base) == config::metadata_of(c, alias),
        StatusEvent::WebSaid(None) => action is TellIdle,
    }
}

/// Decides what to do next about a question about what plays: the screen comes first, then the
/// web server of a device that has one.
pub fn status_next(event: StatusEvent, cfg: &Config, device: Option<&str>) -> (r: StatusAction)
    ensures
        status_follows(event, r, cfg@, text::str_opt(device)),
{
    match event {
        StatusEvent::Asked => StatusAction::AskScreen,
        StatusEvent::ScreenSaid(Some(now)) => StatusAction::TellScreen(
            now,
            config::metadata_base(cfg, device),
        ),
        StatusEvent::ScreenSaid(None) => match config::web_url(cfg, device) {
            Some(web) => StatusAction::AskWeb(web),
            None => StatusAction::TellIdle,
        },
        StatusEvent::WebSaid(Some(id)) => StatusAction::TellWeb(
            id,
            config::metadata_base(cfg, device),
        ),
        StatusEvent::WebSaid(None) => StatusAction::TellIdle,
    }
}

/// A title on a line of its own, where it is known.
pub open spec fn title_line(title: Option<Seq<char>>) -> Seq<Seq<char>> {
    match title {
        Some(t) => seq![t],
        None => Seq::empty(),
    }
}

/// What is said of what plays.
pub fn status_lines(now: &NowShowing, title: Option<&str>) -> (r: Vec<String>)
    ensures
        text::texts(r@) == title_line(text::str_opt(title)).push(status_line(now@)),
{
    let mut r: Vec<String> = Vec::new();
    if let Some(t) = title {
        r.push(text::copy(t));
    }
    assert(text::texts(r@) =~= title_line(text::str_opt(title)));
    let ghost before = r@;
    let mut line = text::concat3(
        now.status.label(),
        ": ",
        text::concat2("https://youtu.be/", now.video_id.as_str()).as_str(),
    );
    line.append(" [");
    line.append(now.current_time.as_str());
    line.append("/");
    line.append(now.duration.as_str());
    line.append("s]");
    r.push(line);
    assert(text::texts(r@) =~= text::texts(before).push(status_line(now@)));
    r
}

/// What is said of what plays, where the web server told it.
pub fn web_status_lines(label: &str, video_id: &str, title: Option<&str>) -> (r: Vec<String>)
    ensures
        text::texts(r@) == title_line(text::str_opt(title)).push(
            "playing on "@ + label@ + " — "@ + short_link(video_id@) + " (via web API)"@,
        ),
{
    let mut r: Vec<String> = Vec::new();
    if let Some(t) = title {
        r.push(text::copy(t));
    }
    assert(text::texts(r@) =~= title_line(text::str_opt(title)));
    let ghost before = r@;
    let mut line = text::concat3("playing on ", label, " — ");
    line.append(text::concat2("https://youtu.be/", video_id).as_str());
    line.append(" (via web API)");
    let ghost text = line@;
    r.push(line);
    assert(text::texts(r@) =~= text::texts(before).push(text));
    r
}

/// What is said where nothing plays.
pub fn idle_lines(label: &str) -> (r: Vec<String>)
    ensures
        text::texts(r@) == seq![
            "connected to "@ + label@ + ", but nothing is playing."@,
            "(if you just switched apps on the TV, playback in the old app stopped — cast again with `tubecast play <video>`)"@,
        ],
{
    let mut r: Vec<String> = Vec::new();
    r.push(text::concat3("connected to ", label, ", but nothing is playing."));
    r.push(
        text::copy(
            "(if you just switched apps on the TV, playback in the old app stopped — cast again with `tubecast play <video>`)",
        ),
    );
    assert(text::texts(r@) =~= seq![
        "connected to "@ + label@ + ", but nothing is playing."@,
        "(if you just switched apps on the TV, playback in the old app stopped — cast again with `tubecast play <video>`)"@,
    ]);
    r
}

// ---------------------------------------------------------------- search history

/// Why there is no history to show.
#[derive(Debug)]
pub enum HistoryError {
    Resolve(ResolveError),
    /// The device with this alias has no web server.
    NoWeb(String),
}

impl HistoryError {
    /// The message for the user.
    pub fn message(&self) -> (r: String)
        ensures
            r@ == match *self {
                HistoryError::Resolve(e) => config::resolve_message(e@),
                HistoryError::NoWeb(alias) => "'"@ + alias@
                    + "' exposes no web API, so no history is available. Only Playlet TVs (linked with `tubecast link-web http://<tv-ip>:8888`) expose history; SmartTube and other apps don't."@,
            },
    {
        match self {
            HistoryError::Resolve(e) => e.message(),
            HistoryError::NoWeb(alias) => text::concat3(
                "'",
                alias.as_str(),
                "' exposes no web API, so no history is available. Only Playlet TVs (linked with `tubecast link-web http://<tv-ip>:8888`) expose history; SmartTube and other apps don't.",
            ),
        }
    }
}

/// The web server that tells the history of the device that a command is for.
pub fn history_source(cfg: &Config, device: Option<&str>) -> (r: Result<String, HistoryError>)
    ensures
        match r {
            Ok(web) => config::resolved(cfg@, text::str_opt(device)) matches Ok(i) && cfg@.devices[i].web_url
                == Some(web@),
            Err(HistoryError::NoWeb(alias)) => config::resolved(cfg@, text::str_opt(device)) matches Ok(i)
                && cfg@.devices[i].web_url is None && cfg@.devices[i].alias == alias@,
            Err(HistoryError::Resolve(e)) => config::resolved(cfg@, text::str_opt(device)) == Err::<
                int,
                ResolveErrorView,
            >(e@),
        },
{
    match cfg.resolve(device) {
        Err(e) => Err(HistoryError::Resolve(e)),
        Ok(d) => match &d.web_url {
            Some(web) => Ok(text::copy(web.as_str())),
            None => Err(HistoryError::NoWeb(text::copy(d.alias.as_str()))),
        },
    }
}

/// What is said of a history.
pub open spec fn history_lines_of(alias: Seq<char>, name: Seq<char>, terms: Seq<Seq<char>>) -> Seq<
    Seq<char>,
> {
    if terms.len() == 0 {
        seq!["no search history on '"@ + alias + "'."@]
    } else {
        seq!["search history on "@ + name + ":"@] + terms.map_values(|t: Seq<char>| "  "@ + t)
    }
}

/// What is said of a history.
pub fn history_lines(alias: &str, name: &str, terms: &Vec<String>) -> (r: Vec<String>)
    ensures
        text::texts(r@) == history_lines_of(alias@, name@, text::texts(terms@)),
{
    let mut r: Vec<String> = Vec::new();
    assert(text::texts(terms@).len() == terms@.len());
    if terms.len() == 0 {
        r.push(text::concat3("no search history on '", alias, "'."));
        assert(text::texts(r@) =~= history_lines_of(alias@, name@, text::texts(terms@)));
        return r;
    }
    r.push(text::concat3("search history on ", name, ":"));
    let ghost all = history_lines_of(alias@, name@, text::texts(terms@));
    let mut i: usize = 0;
    assert(text::texts(r@) =~= all.take(1));
    while i < terms.len()
        invariant
            i <= terms.len(),
            terms.len() > 0,
            text::texts(terms@).len() == terms@.len(),
            all == history_lines_of(alias@, name@, text::texts(terms@)),
            text::texts(r@) == all.take(i + 1),
        decreases terms.len() - i,
    {
        let ghost before = r@;
        assert(all[i + 1] == "  "@ + terms@[i as int]@);
        r.push(text::concat2("  ", terms[i].as_str()));
        assert(text::texts(r@) =~= text::texts(before).push(all[i + 1]));
        assert(all.take(i + 1).push(all[i + 1]) =~= all.take(i + 2));
        i += 1;
    }
    assert(all.take(i + 1) =~= all);
    r
}

// ---------------------------------------------------------------- laws

/// A command that the screen does not confirm is sent once more, and not a third time.
pub proof fn law_command_is_resent_once(
    step: ControlStep,
    action: Action,
    resent: bool,
    confirmed: bool,
    has_web: bool,
)
    requires
        fits_control(step, action, resent, confirmed, has_web),
    ensures
        step is Resend == (!resent && !confirmed),
{
}

/// A question about what plays is answered after two others have been asked at most.
pub proof fn law_status_is_told(
    event: StatusEvent,
    action: StatusAction,
    c: ConfigView,
    alias: Option<Seq<char>>,
)
    requires
        status_follows(event, action, c, alias),
    ensures
        action is AskScreen ==> event is Asked,
        action is AskWeb ==> event is ScreenSaid,
        event is WebSaid ==> action is TellWeb || action is TellIdle,
{
}

/// How much can still be tried after an event.
pub open spec fn tries_left(event: CastEvent) -> nat {
    match event {
        CastEvent::Asked(_) => 5,
        CastEvent::WebAnswered(_) => 4,
        CastEvent::LoungeAnswered(_) => 3,
        CastEvent::Probed(_) => 2,
        CastEvent::Repaired(_, _) => 1,
        CastEvent::Retried => 0,
    }
}

/// The event can come of the action.
pub open spec fn comes_of(action: CastAction, event: CastEvent) -> bool {
    match action {
        CastAction::PostWeb(_) => event is WebAnswered,
        CastAction::CastLounge => event is LoungeAnswered,
        CastAction::Probe => event is Probed,
        CastAction::Repair(r) => event matches CastEvent::Repaired(s, _) && s == r,
        CastAction::RetryLounge => event is Retried,
        CastAction::Advise | CastAction::Stop => false,
    }
}

/// Casting comes to an end: each event leaves less to try than the one before.
pub proof fn law_casting_ends(before: CastEvent, action: CastAction, after: CastEvent)
    requires
        follows(before, action),
        comes_of(action, after),
    ensures
        tries_left(after) < tries_left(before),
{
}

/// Nothing is tried any more once the web server took the video or the screen confirmed it.
pub proof fn law_success_stops(action: CastAction)
    ensures
        follows(CastEvent::WebAnswered(true), action) ==> action is Stop,
        follows(CastEvent::LoungeAnswered(true), action) ==> action is Stop,
{
}

/// Each way is tried exactly where it is due: the web server where there is one, the lounge where
/// there is none or it did not take the video, the screen is looked for where the lounge did not
/// confirm, it is paired with again as it was found, and the lounge is tried once more where that
/// worked.
pub proof fn law_ways_are_tried_in_order(
    event: CastEvent,
    action: CastAction,
    condition: Reachability,
)
    requires
        follows(event, action),
    ensures
        action is PostWeb <==> (event matches CastEvent::Asked(Some(w))),
        event matches CastEvent::Asked(Some(web)) ==> (action matches CastAction::PostWeb(w) && w@
            == web@),
        action is CastLounge <==> event == CastEvent::Asked(None) || event
            == CastEvent::WebAnswered(false),
        action is Probe <==> event == CastEvent::LoungeAnswered(false),
        action == CastAction::Repair(condition) <==> event == CastEvent::Probed(Some(condition)),
        action is RetryLounge <==> (event matches CastEvent::Repaired(c, worked) && worked),
        action is Advise <==> event == CastEvent::Repaired(Reachability::Unavailable, false),
        action is Stop <==> event == CastEvent::WebAnswered(true) || event
            == CastEvent::LoungeAnswered(true) || event == CastEvent::Probed(None) || event is Retried
            || event == CastEvent::Repaired(Reachability::Available, false) || event
            == CastEvent::Repaired(Reachability::Unpaired, false),
{
}

/// A command is told of as done exactly where it is confirmed, is sent once more where it was sent
/// once, goes to the web server where it was sent twice and there is one, and is told of with a
/// doubt where there is none.
pub proof fn law_command_by_confirmation(
    step: ControlStep,
    action: Action,
    resent: bool,
    confirmed: bool,
    has_web: bool,
)
    requires
        fits_control(step, action, resent, confirmed, has_web),
    ensures
        confirmed ==> (step matches ControlStep::Say(s) && s@ == transport::action_label(action)),
        !confirmed && !resent ==> (step matches ControlStep::Resend(ms) && ms == 3000),
        !confirmed && resent && has_web ==> step is TryWeb,
        !confirmed && resent && !has_web ==> (step matches ControlStep::Say(s) && s@
            == transport::action_label(action) + " (unconfirmed)"@),
{
}

/// The screen is asked first, then the web server of a device that has one, and what either says
/// is told with the title from where videos are looked up; where neither says anything, nothing
/// plays.
pub proof fn law_status_is_asked_in_order(
    event: StatusEvent,
    action: StatusAction,
    c: ConfigView,
    alias: Option<Seq<char>>,
)
    requires
        status_follows(event, action, c, alias),
    ensures
        action is AskScreen <==> event is Asked,
        event matches StatusEvent::ScreenSaid(Some(now)) ==> (
        action matches StatusAction::TellScreen(n, base) && n == now && text::text_opt(base)
            == config::metadata_of(c, alias)),
        event matches StatusEvent::WebSaid(Some(id)) ==> (
        action matches StatusAction::TellWeb(i, base) && i == id && text::text_opt(base)
            == config::metadata_of(c, alias)),
        event == StatusEvent::ScreenSaid(None) && config::web_of(c, alias) is Some ==> (
        action matches StatusAction::AskWeb(w) && Some(w@) == config::web_of(c, alias)),
        action is TellIdle <==> event == StatusEvent::WebSaid(None) || (event
            == StatusEvent::ScreenSaid(None) && config::web_of(c, alias) is None),
{
}

/// The line of what plays tells the status, the address, the time the video is at and how long it
/// is, in that order.
pub proof fn law_status_line_by_part(n: NowShowingView)
    ensures
        status_line(n) == n.status.text() + ": https://youtu.be/"@ + n.video_id + " ["@
            + n.current_time + "/"@ + n.duration + "s]"@,
{
    reveal_strlit(": https://youtu.be/");
    reveal_strlit(": ");
    reveal_strlit("https://youtu.be/");
    assert(": https://youtu.be/"@ =~= ": "@ + "https://youtu.be/"@);
    assert(n.status.text() + ": "@ + short_link(n.video_id) =~= n.status.text()
        + ": https://youtu.be/"@ + n.video_id);
}

/// What was sent through a web server is told of as queued or as playing, with its address, and
/// with the way it went.
pub proof fn law_web_line_by_part(id: Seq<char>, suffix: Seq<char>)
    ensures
        short_link(id) == "https://youtu.be/"@ + id,
        web_line_of(id, true, suffix) == "queued "@ + ("https://youtu.be/"@ + id) + suffix
            + " (via web API)"@,
        web_line_of(id, false, suffix) == "playing "@ + ("https://youtu.be/"@ + id) + suffix
            + " (via web API)"@,
{
}

/// A doubt is told exactly where nothing was confirmed, and a note exactly where another video
/// plays.
pub proof fn law_doubt_and_note(status: transport::PlaybackStatus, other: Seq<char>)
    ensures
        doubt(true).len() == 0,
        doubt(false) == " (unconfirmed)"@,
        other_note(CastResultView::Confirmed(status)) is None,
        other_note(CastResultView::Unconfirmed) is None,
        other_note(CastResultView::OtherPlaying(other)) == Some(
            "note: the TV is still on "@ + ("https://youtu.be/"@ + other)
                + " — the cast didn't take effect."@,
        ),
{
}

/// A title that is known stands on a line of its own.
pub proof fn law_title_has_its_line(t: Seq<char>)
    ensures
        title_line(Some(t)) == seq![t],
        title_line(None).len() == 0,
{
}

/// A history is told with one line for each term, in order, below a line for the device; an empty
/// one is told as such.
pub proof fn law_history_term_by_term(
    alias: Seq<char>,
    name: Seq<char>,
    terms: Seq<Seq<char>>,
    i: int,
)
    ensures
        terms.len() == 0 ==> history_lines_of(alias, name, terms) == seq![
            "no search history on '"@ + alias + "'."@,
        ],
        terms.len() > 0 ==> history_lines_of(alias, name, terms).len() == 1 + terms.len(),
        terms.len() > 0 ==> history_lines_of(alias, name, terms)[0] == "search history on "@ + name
            + ":"@,
        0 <= i < terms.len() ==> history_lines_of(alias, name, terms)[i + 1] == "  "@ + terms[i],
{
}

} // verus!
