//! Talking to a screen: commands, what the screen says back, and when to give up waiting.

use crate::text;
use vstd::prelude::*;

verus! {

/// The name under which the screen sees this program.
pub const DEVICE_NAME: &'static str = "tubecast";

/// What is said where the pairing is gone.
pub const UNPAIRED_HINT: &'static str = "this device is no longer paired — the TV dropped the link. On the TV, open the YouTube/Playlet app, find \"Link with TV code\" in settings, then re-pair with `tubecast pair <CODE>`.";

/// What is said of a connection that failed for another reason.
pub const CONNECT_CONTEXT: &'static str = "connecting to screen (is the TV on with Playlet/YouTube open?)";

/// What is said of a reachability check that failed for another reason.
pub const PROBE_CONTEXT: &'static str = "checking whether the screen is reachable";

/// What is said where the screen does not connect in time.
pub const CONNECT_TIMEOUT: &'static str = "timed out waiting for the screen to connect";

// ---------------------------------------------------------------- playback status

/// What a screen does with a video.
#[derive(Debug, Clone, Copy, PartialEq, Eq, Structural)]
pub enum PlaybackStatus {
    Stopped,
    Buffering,
    Playing,
    Paused,
    Starting,
    Advertisement,
    Unknown,
}

/// The number that a run of digits is.
pub open spec fn digits_value(s: Seq<char>) -> nat
    decreases s.len(),
{
    if s.len() == 0 {
        0
    } else {
        10 * digits_value(s.drop_last()) + ((s.last() as u32) - ('0' as u32)) as nat
    }
}

/// The digits of a number without its sign.
pub open spec fn unsigned_part(s: Seq<char>) -> Seq<char> {
    if s.len() > 0 && (s[0] == '-' || s[0] == '+') {
        s.skip(1)
    } else {
        s
    }
}

/// The integer that a text is: digits, with a sign in front or without.
pub open spec fn integer_of(s: Seq<char>) -> Option<int> {
    let d = unsigned_part(s);
    if d.len() > 0 && forall|i: int| 0 <= i < d.len() ==> text::is_digit(#[trigger] d[i]) {
        Some(
            if s[0] == '-' {
                -(digits_value(d) as int)
            } else {
                digits_value(d) as int
            },
        )
    } else {
        None
    }
}

/// The status that a state of the lounge stands for.
pub open spec fn status_of(state: Seq<char>) -> PlaybackStatus {
    match integer_of(state) {
        Some(n) => if n == -1 {
            PlaybackStatus::Stopped
        } else if n == 0 {
            PlaybackStatus::Buffering
        } else if n == 1 {
            PlaybackStatus::Playing
        } else if n == 2 {
            PlaybackStatus::Paused
        } else if n == 3 {
            PlaybackStatus::Starting
        } else if n == 1081 {
            PlaybackStatus::Advertisement
        } else {
            PlaybackStatus::Unknown
        },
        None => PlaybackStatus::Unknown,
    }
}

/// Calls `youtube_lounge_rs::PlaybackStatus::from`, which reads the state as a signed integer and
/// knows six of them. Every other text is an unknown status.
#[verifier::external_body]
fn lounge_status(state: &str) -> (r: PlaybackStatus)
    ensures
        r == status_of(state@),
{
    match youtube_lounge_rs::PlaybackStatus::from(state) {
        youtube_lounge_rs::PlaybackStatus::Stopped => PlaybackStatus::Stopped,
        youtube_lounge_rs::PlaybackStatus::Buffering => PlaybackStatus::Buffering,
        youtube_lounge_rs::PlaybackStatus::Playing => PlaybackStatus::Playing,
        youtube_lounge_rs::PlaybackStatus::Paused => PlaybackStatus::Paused,
        youtube_lounge_rs::PlaybackStatus::Starting => PlaybackStatus::Starting,
        youtube_lounge_rs::PlaybackStatus::Advertisement => PlaybackStatus::Advertisement,
        youtube_lounge_rs::PlaybackStatus::Unknown => PlaybackStatus::Unknown,
    }
}

impl PlaybackStatus {
    /// The status that a state of the lounge stands for.
    pub fn of_state(state: &str) -> (r: PlaybackStatus)
        ensures
            r == status_of(state@),
    {
        lounge_status(state)
    }

    /// What the status is called.
    pub open spec fn text(self) -> Seq<char> {
        match self {
            PlaybackStatus::Stopped => "Stopped"@,
            PlaybackStatus::Buffering => "Buffering"@,
            PlaybackStatus::Playing => "Playing"@,
            PlaybackStatus::Paused => "Paused"@,
            PlaybackStatus::Starting => "Starting"@,
            PlaybackStatus::Advertisement => "Advertisement"@,
            PlaybackStatus::Unknown => "Unknown"@,
        }
    }

    /// What the status is called.
    pub fn label(self) -> (r: &'static str)
        ensures
            r@ == self.text(),
    {
        match self {
            PlaybackStatus::Stopped => "Stopped",
            PlaybackStatus::Buffering => "Buffering",
            PlaybackStatus::Playing => "Playing",
            PlaybackStatus::Paused => "Paused",
            PlaybackStatus::Starting => "Starting",
            PlaybackStatus::Advertisement => "Advertisement",
            PlaybackStatus::Unknown => "Unknown",
        }
    }
}

// ---------------------------------------------------------------- events

/// What a screen says, as far as anything is made of it. Times are in seconds as they are shown.
pub enum Event {
    StateChange { state: String },
    NowPlaying { video_id: String, state: String, current_time: String, duration: String },
    PlaybackSession { video_id: String, state: String, current_time: String, duration: String },
    VolumeChanged,
    PlaylistModified,
    Other,
}

/// A command for the screen.
#[derive(Debug, Clone)]
pub enum Action {
    Resume,
    Pause,
    Next,
    Prev,
    SkipAd,
    Mute,
    Unmute,
    /// To a position in seconds, as it is shown.
    Seek(String),
    Volume(i32),
}

/// What is said once a command is carried out.
pub open spec fn action_label(a: Action) -> Seq<char> {
    match a {
        Action::Resume => "resumed"@,
        Action::Pause => "paused"@,
        Action::Next => "next"@,
        Action::Prev => "previous"@,
        Action::SkipAd => "ad skipped"@,
        Action::Mute => "muted"@,
        Action::Unmute => "unmuted"@,
        Action::Seek(s) => "seeked to "@ + s@ + "s"@,
        Action::Volume(v) => "volume "@ + text::decimal_text(v as int),
    }
}

/// The status that an event reports with a change of state.
pub open spec fn reported(ev: Event) -> Option<PlaybackStatus> {
    match ev {
        Event::StateChange { state } => Some(status_of(state@)),
        Event::NowPlaying { state, .. } => Some(status_of(state@)),
        _ => None,
    }
}

/// The status of a video that runs or is about to.
pub open spec fn is_running(s: PlaybackStatus) -> bool {
    s == PlaybackStatus::Playing || s == PlaybackStatus::Starting || s == PlaybackStatus::Buffering
}

/// The event shows that the command took effect.
pub open spec fn confirms(a: Action, ev: Event) -> bool {
    match a {
        Action::Resume => reported(ev) is Some && is_running(reported(ev)->0),
        Action::Pause => reported(ev) == Some(PlaybackStatus::Paused),
        Action::Mute | Action::Unmute | Action::Volume(_) => ev is VolumeChanged,
        Action::Next | Action::Prev | Action::SkipAd | Action::Seek(_) => ev is StateChange
            || ev is NowPlaying,
    }
}

/// [`reported`], as code.
fn reported_status(ev: &Event) -> (r: Option<PlaybackStatus>)
    ensures
        r == reported(*ev),
{
    match ev {
        Event::StateChange { state } => Some(PlaybackStatus::of_state(state.as_str())),
        Event::NowPlaying { state, .. } => Some(PlaybackStatus::of_state(state.as_str())),
        _ => None,
    }
}

/// What is wrong with a volume outside 0 to 100.
pub const VOLUME_RANGE: &'static str = "volume must be 0-100";

impl Action {
    /// What is said once the command is carried out.
    pub fn label(&self) -> (r: String)
        ensures
            r@ == action_label(*self),
    {
        match self {
            Action::Resume => text::copy("resumed"),
            Action::Pause => text::copy("paused"),
            Action::Next => text::copy("next"),
            Action::Prev => text::copy("previous"),
            Action::SkipAd => text::copy("ad skipped"),
            Action::Mute => text::copy("muted"),
            Action::Unmute => text::copy("unmuted"),
            Action::Seek(s) => text::concat3("seeked to ", s.as_str(), "s"),
            Action::Volume(v) => text::concat2("volume ", text::decimal(*v as i128).as_str()),
        }
    }

    /// Whether an event shows that the command took effect.
    pub fn confirmed_by(&self, ev: &Event) -> (r: bool)
        ensures
            r == confirms(*self, *ev),
    {
        match self {
            Action::Resume => match reported_status(ev) {
                Some(s) => s == PlaybackStatus::Playing || s == PlaybackStatus::Starting || s
                    == PlaybackStatus::Buffering,
                None => false,
            },
            Action::Pause => match reported_status(ev) {
                Some(s) => s == PlaybackStatus::Paused,
                None => false,
            },
            Action::Mute | Action::Unmute | Action::Volume(_) => matches!(ev, Event::VolumeChanged),
            Action::Next | Action::Prev | Action::SkipAd | Action::Seek(_) => matches!(
                ev,
                Event::StateChange { .. } | Event::NowPlaying { .. }
            ),
        }
    }

    /// Whether the command can be sent at all: a volume must be within 0 to 100.
    pub fn is_sendable(&self) -> (r: bool)
        ensures
            r == (*self matches Action::Volume(v) ==> 0 <= v <= 100),
    {
        match self {
            Action::Volume(v) => 0 <= *v && *v <= 100,
            _ => true,
        }
    }
}

// ---------------------------------------------------------------- connecting

/// Whether the paired screen can currently be reached.
#[derive(Debug, Clone, Copy, PartialEq, Eq, Structural)]
pub enum Reachability {
    /// Screen is reachable and the token is valid (possibly just refreshed).
    Available,
    /// Token is valid but the screen isn't available (TV off or app closed).
    Unavailable,
    /// The pairing is dead; a fresh `tubecast pair <CODE>` is required.
    Unpaired,
}

/// Why the lounge refused, as far as anything is made of it.
#[derive(Debug)]
pub enum LoungeFailure {
    TokenExpired,
    TokenRefreshFailed,
    InvalidResponse(String),
    Other,
}

/// The text speaks of a token, or of something that is not found.
pub open spec fn tells_unpaired(s: Seq<char>) -> bool {
    ||| text::has_within(s, "Token"@)
    ||| text::has_within(s, "token"@)
    ||| text::has_within(s, "404"@)
    ||| text::has_within(s, "ot found"@)
}

/// A 401 (token) or 404 (screen forgotten) after auto-refresh means the
/// pairing is gone and a fresh code is needed.
pub fn looks_unpaired(s: &str) -> (r: bool)
    ensures
        r == tells_unpaired(s@),
{
    text::contains(s, "Token") || text::contains(s, "token") || text::contains(s, "404")
        || text::contains(s, "ot found")
}

/// The failure means that the pairing is gone.
pub open spec fn ends_pairing(e: LoungeFailure) -> bool {
    match e {
        LoungeFailure::TokenExpired | LoungeFailure::TokenRefreshFailed => true,
        LoungeFailure::InvalidResponse(m) => tells_unpaired(m@),
        LoungeFailure::Other => false,
    }
}

impl LoungeFailure {
    /// Whether the failure means that the pairing is gone.
    pub fn is_unpaired(&self) -> (r: bool)
        ensures
            r == ends_pairing(*self),
    {
        match self {
            LoungeFailure::TokenExpired | LoungeFailure::TokenRefreshFailed => true,
            LoungeFailure::InvalidResponse(m) => looks_unpaired(m.as_str()),
            LoungeFailure::Other => false,
        }
    }
}

/// What is said of a connection that the lounge refused.
pub fn connect_error(e: &LoungeFailure) -> (r: &'static str)
    ensures
        r@ == if ends_pairing(*e) {
            UNPAIRED_HINT@
        } else {
            CONNECT_CONTEXT@
        },
{
    if e.is_unpaired() {
        UNPAIRED_HINT
    } else {
        CONNECT_CONTEXT
    }
}

/// What the check for a screen says of it. A failure that leaves the pairing alone is handed back.
pub fn reachability(checked: Result<bool, LoungeFailure>) -> (r: Result<Reachability, LoungeFailure>)
    ensures
        match checked {
            Ok(up) => r == Ok::<Reachability, LoungeFailure>(
                if up {
                    Reachability::Available
                } else {
                    Reachability::Unavailable
                },
            ),
            Err(e) => if ends_pairing(e) {
                r == Ok::<Reachability, LoungeFailure>(Reachability::Unpaired)
            } else {
                r == Err::<Reachability, LoungeFailure>(e)
            },
        },
{
    match checked {
        Ok(up) => if up {
            Ok(Reachability::Available)
        } else {
            Ok(Reachability::Unavailable)
        },
        Err(e) => if e.is_unpaired() {
            Ok(Reachability::Unpaired)
        } else {
            Err(e)
        },
    }
}

/// What to do about a connection that is being opened.
pub enum ConnectStep {
    /// It is open.
    Ready,
    /// Look again a little later.
    Wait,
    /// Give up, with this message.
    Fail(String),
}

/// The texts of a [`ConnectStep`].
pub enum ConnectStepView {
    Ready,
    Wait,
    Fail(Seq<char>),
}

impl View for ConnectStep {
    type V = ConnectStepView;

    open spec fn view(&self) -> ConnectStepView {
        match *self {
            ConnectStep::Ready => ConnectStepView::Ready,
            ConnectStep::Wait => ConnectStepView::Wait,
            ConnectStep::Fail(m) => ConnectStepView::Fail(m@),
        }
    }
}

/// What to do about a connection that is in a state, before or past its deadline.
pub open spec fn connect_decision(state: Seq<char>, late: bool) -> ConnectStepView {
    if state == "Connected"@ {
        ConnectStepView::Ready
    } else if text::has_prefix(state, "Failed"@) {
        if tells_unpaired(state.skip("Failed"@.len() as int)) {
            ConnectStepView::Fail(UNPAIRED_HINT@)
        } else {
            ConnectStepView::Fail("connection failed: "@ + state)
        }
    } else if late {
        ConnectStepView::Fail(CONNECT_TIMEOUT@)
    } else {
        ConnectStepView::Wait
    }
}

/// Decides what to do about a connection that is in a state, before or past its deadline.
pub fn connect_step(state: &str, late: bool) -> (r: ConnectStep)
    ensures
        r@ == connect_decision(state@, late),
{
    if text::same_text(state, "Connected") {
        return ConnectStep::Ready;
    }
    if text::starts_with(state, "Failed") {
        proof {
            reveal_strlit("Failed");
        }
        let chars = text::to_chars(state);
        let reason = text::from_chars(&chars[6..chars.len()]);
        assert(reason@ =~= state@.skip("Failed"@.len() as int));
        return if looks_unpaired(reason.as_str()) {
            ConnectStep::Fail(text::copy(UNPAIRED_HINT))
        } else {
            ConnectStep::Fail(text::concat2("connection failed: ", state))
        };
    }
    if late {
        ConnectStep::Fail(text::copy(CONNECT_TIMEOUT))
    } else {
        ConnectStep::Wait
    }
}

// ---------------------------------------------------------------- waiting

/// What came of waiting for the screen once more: an answer, or nothing yet.
pub enum Waited<T> {
    /// This is the answer.
    Answer(T),
    /// Wait on.
    Again,
}

/// What waiting for a command to take effect comes to, where the screen says these things in turn
/// and time is up then.
pub open spec fn waited_confirm(a: Action, events: Seq<Event>) -> bool
    decreases events.len(),
{
    if events.len() == 0 {
        false
    } else if confirms(a, events[0]) {
        true
    } else {
        waited_confirm(a, events.drop_first())
    }
}

/// Decides about waiting for a command to take effect. `heard` is what the screen said, or `None`
/// where time is up or the screen is gone.
pub fn wait_confirm(action: &Action, heard: Option<&Event>) -> (r: Waited<bool>)
    ensures
        match heard {
            None => r == Waited::Answer(false),
            Some(ev) => if confirms(*action, *ev) {
                r == Waited::Answer(true)
            } else {
                r is Again
            },
        },
        heard matches Some(ev) ==> forall|later: Seq<Event>| #[trigger]
            waited_confirm(*action, seq![*ev] + later) == match r {
                Waited::Answer(b) => b,
                Waited::Again => waited_confirm(*action, later),
            },
{
    assert forall|ev: Event, later: Seq<Event>| #[trigger]
        waited_confirm(*action, seq![ev] + later) == (confirms(*action, ev) || waited_confirm(
            *action,
            later,
        )) by {
        assert((seq![ev] + later).drop_first() =~= later);
    }
    match heard {
        None => Waited::Answer(false),
        Some(ev) => if action.confirmed_by(ev) {
            Waited::Answer(true)
        } else {
            Waited::Again
        },
    }
}

/// What waiting for a queue change comes to, where the screen says these things in turn and time
/// is up then.
pub open spec fn waited_queued(events: Seq<Event>) -> bool
    decreases events.len(),
{
    if events.len() == 0 {
        false
    } else if events[0] is PlaylistModified {
        true
    } else {
        waited_queued(events.drop_first())
    }
}

/// Decides about waiting for a queue change. `heard` is as for [`wait_confirm`].
pub fn wait_queued(heard: Option<&Event>) -> (r: Waited<bool>)
    ensures
        match heard {
            None => r == Waited::Answer(false),
            Some(ev) => if ev is PlaylistModified {
                r == Waited::Answer(true)
            } else {
                r is Again
            },
        },
        heard matches Some(ev) ==> forall|later: Seq<Event>| #[trigger]
            waited_queued(seq![*ev] + later) == match r {
                Waited::Answer(b) => b,
                Waited::Again => waited_queued(later),
            },
{
    assert forall|ev: Event, later: Seq<Event>| #[trigger]
        waited_queued(seq![ev] + later) == (ev is PlaylistModified || waited_queued(later)) by {
        assert((seq![ev] + later).drop_first() =~= later);
    }
    match heard {
        None => Waited::Answer(false),
        Some(Event::PlaylistModified) => Waited::Answer(true),
        Some(_) => Waited::Again,
    }
}

/// What a screen plays.
pub struct Playback {
    pub video_id: String,
    pub status: PlaybackStatus,
}

/// The texts of a [`Playback`].
#[verifier::ext_equal]
pub struct PlaybackView {
    pub video_id: Seq<char>,
    pub status: PlaybackStatus,
}

impl View for Playback {
    type V = PlaybackView;

    open spec fn view(&self) -> PlaybackView {
        PlaybackView { video_id: self.video_id@, status: self.status }
    }
}

/// What a screen plays, with the times in seconds as they are shown.
pub struct NowShowing {
    pub video_id: String,
    pub status: PlaybackStatus,
    pub current_time: String,
    pub duration: String,
}

/// The texts of a [`NowShowing`].
#[verifier::ext_equal]
pub struct NowShowingView {
    pub video_id: Seq<char>,
    pub status: PlaybackStatus,
    pub current_time: Seq<char>,
    pub duration: Seq<char>,
}

impl View for NowShowing {
    type V = NowShowingView;

    open spec fn view(&self) -> NowShowingView {
        NowShowingView {
            video_id: self.video_id@,
            status: self.status,
            current_time: self.current_time@,
            duration: self.duration@,
        }
    }
}

/// What an event says that the screen plays: a video with an id.
pub open spec fn shown_by(ev: Event) -> Option<NowShowingView> {
    match ev {
        Event::NowPlaying { video_id, state, current_time, duration } => if video_id@.len() > 0 {
            Some(
                NowShowingView {
                    video_id: video_id@,
                    status: status_of(state@),
                    current_time: current_time@,
                    duration: duration@,
                },
            )
        } else {
            None
        },
        Event::PlaybackSession { video_id, state, current_time, duration } => if video_id@.len()
            > 0 {
            Some(
                NowShowingView {
                    video_id: video_id@,
                    status: status_of(state@),
                    current_time: current_time@,
                    duration: duration@,
                },
            )
        } else {
            None
        },
        _ => None,
    }
}

/// What an event says that the screen plays.
fn shown(ev: &Event) -> (r: Option<NowShowing>)
    ensures
        match r {
            Some(n) => Some(n@),
            None => None,
        } == shown_by(*ev),
{
    match ev {
        Event::NowPlaying { video_id, state, current_time, duration }
        | Event::PlaybackSession { video_id, state, current_time, duration } => {
            if video_id.as_str().is_empty() {
                None
            } else {
                Some(
                    NowShowing {
                        video_id: text::copy(video_id.as_str()),
                        status: PlaybackStatus::of_state(state.as_str()),
                        current_time: text::copy(current_time.as_str()),
                        duration: text::copy(duration.as_str()),
                    },
                )
            }
        },
        _ => None,
    }
}

/// What waiting for what the screen plays comes to, where the screen says these things in turn and
/// time is up then.
pub open spec fn waited_showing(events: Seq<Event>) -> Option<NowShowingView>
    decreases events.len(),
{
    if events.len() == 0 {
        None
    } else if shown_by(events[0]) is Some {
        shown_by(events[0])
    } else {
        waited_showing(events.drop_first())
    }
}

/// Decides about waiting for what the screen plays, with its times. `heard` is as for
/// [`wait_confirm`].
pub fn wait_showing(heard: Option<&Event>) -> (r: Waited<Option<NowShowing>>)
    ensures
        heard matches Some(Event::NowPlaying { video_id, state, current_time, duration }) ==> {
            &&& video_id@.len() > 0 ==> {
                &&& r matches Waited::Answer(Some(n))
                &&& n.video_id@ == video_id@
                &&& n.status == status_of(state@)
                &&& n.current_time@ == current_time@
                &&& n.duration@ == duration@
            }
            &&& video_id@.len() == 0 ==> r is Again
        },
        heard matches Some(Event::PlaybackSession { video_id, state, current_time, duration }) ==> {
            &&& video_id@.len() > 0 ==> {
                &&& r matches Waited::Answer(Some(n))
                &&& n.video_id@ == video_id@
                &&& n.status == status_of(state@)
                &&& n.current_time@ == current_time@
                &&& n.duration@ == duration@
            }
            &&& video_id@.len() == 0 ==> r is Again
        },
        heard matches Some(ev) ==> (!(ev is NowPlaying) && !(ev is PlaybackSession) ==> r is Again),
        match heard {
            None => r == Waited::<Option<NowShowing>>::Answer(None),
            Some(ev) => match shown_by(*ev) {
                Some(n) => r matches Waited::Answer(Some(m)) && m@ == n,
                None => r is Again,
            },
        },
        heard matches Some(ev) ==> forall|later: Seq<Event>| #[trigger]
            waited_showing(seq![*ev] + later) == match r {
                Waited::Answer(Some(n)) => Some(n@),
                Waited::Answer(None) => None,
                Waited::Again => waited_showing(later),
            },
{
    assert forall|ev: Event, later: Seq<Event>| #[trigger]
        waited_showing(seq![ev] + later) == (if shown_by(ev) is Some {
            shown_by(ev)
        } else {
            waited_showing(later)
        }) by {
        assert((seq![ev] + later).drop_first() =~= later);
    }
    match heard {
        None => Waited::Answer(None),
        Some(ev) => match shown(ev) {
            Some(n) => Waited::Answer(Some(n)),
            None => Waited::Again,
        },
    }
}

/// What plays, of what the screen shows.
pub open spec fn playback_of(shown: Option<NowShowingView>) -> Option<PlaybackView> {
    match shown {
        Some(n) => Some(PlaybackView { video_id: n.video_id, status: n.status }),
        None => None,
    }
}

/// The id of what the screen shows.
pub open spec fn id_of(shown: Option<NowShowingView>) -> Option<Seq<char>> {
    match shown {
        Some(n) => Some(n.video_id),
        None => None,
    }
}

/// Decides about waiting for the screen to report active playback. `heard` is as for
/// [`wait_confirm`].
pub fn wait_playing(heard: Option<&Event>) -> (r: Waited<Option<Playback>>)
    ensures
        heard matches Some(Event::NowPlaying { video_id, state, current_time, duration }) ==> {
            &&& video_id@.len() > 0 ==> {
                &&& r matches Waited::Answer(Some(p))
                &&& p.video_id@ == video_id@
                &&& p.status == status_of(state@)
            }
            &&& video_id@.len() == 0 ==> r is Again
        },
        heard matches Some(Event::PlaybackSession { video_id, state, current_time, duration }) ==> {
            &&& video_id@.len() > 0 ==> {
                &&& r matches Waited::Answer(Some(p))
                &&& p.video_id@ == video_id@
                &&& p.status == status_of(state@)
            }
            &&& video_id@.len() == 0 ==> r is Again
        },
        heard matches Some(ev) ==> (!(ev is NowPlaying) && !(ev is PlaybackSession) ==> r is Again),
        match heard {
            None => r == Waited::<Option<Playback>>::Answer(None),
            Some(ev) => match shown_by(*ev) {
                Some(n) => r matches Waited::Answer(Some(p)) && p.video_id@ == n.video_id
                    && p.status == n.status,
                None => r is Again,
            },
        },
        heard matches Some(ev) ==> forall|later: Seq<Event>|
            playback_of(#[trigger] waited_showing(seq![*ev] + later)) == match r {
                Waited::Answer(p) => playback_view(p),
                Waited::Again => playback_of(waited_showing(later)),
            },
{
    match wait_showing(heard) {
        Waited::Answer(Some(n)) => Waited::Answer(
            Some(Playback { video_id: n.video_id, status: n.status }),
        ),
        Waited::Answer(None) => Waited::Answer(None),
        Waited::Again => Waited::Again,
    }
}

/// Decides about waiting for the id of what the screen plays. `heard` is as for
/// [`wait_confirm`].
pub fn get_now_playing(heard: Option<&Event>) -> (r: Waited<Option<String>>)
    ensures
        heard matches Some(Event::NowPlaying { video_id, state, current_time, duration }) ==> {
            &&& video_id@.len() > 0 ==> (r matches Waited::Answer(Some(id)) && id@ == video_id@)
            &&& video_id@.len() == 0 ==> r is Again
        },
        heard matches Some(Event::PlaybackSession { video_id, state, current_time, duration }) ==> {
            &&& video_id@.len() > 0 ==> (r matches Waited::Answer(Some(id)) && id@ == video_id@)
            &&& video_id@.len() == 0 ==> r is Again
        },
        heard matches Some(ev) ==> (!(ev is NowPlaying) && !(ev is PlaybackSession) ==> r is Again),
        match heard {
            None => r == Waited::<Option<String>>::Answer(None),
            Some(ev) => match shown_by(*ev) {
                Some(n) => r matches Waited::Answer(Some(id)) && id@ == n.video_id,
                None => r is Again,
            },
        },
        heard matches Some(ev) ==> forall|later: Seq<Event>|
            id_of(#[trigger] waited_showing(seq![*ev] + later)) == match r {
                Waited::Answer(id) => text::text_opt(id),
                Waited::Again => id_of(waited_showing(later)),
            },
{
    match wait_showing(heard) {
        Waited::Answer(Some(n)) => Waited::Answer(Some(n.video_id)),
        Waited::Answer(None) => Waited::Answer(None),
        Waited::Again => Waited::Again,
    }
}

// ---------------------------------------------------------------- playing a video

/// What came of casting a video.
pub enum CastResult {
    /// The screen confirmed it's playing the requested video.
    Confirmed(PlaybackStatus),
    /// The screen is still playing a different video; the cast didn't take.
    OtherPlaying(String),
    /// No playback update arrived at all.
    Unconfirmed,
}

/// The texts of a [`CastResult`].
pub enum CastResultView {
    Confirmed(PlaybackStatus),
    OtherPlaying(Seq<char>),
    Unconfirmed,
}

impl View for CastResult {
    type V = CastResultView;

    open spec fn view(&self) -> CastResultView {
        match *self {
            CastResult::Confirmed(s) => CastResultView::Confirmed(s),
            CastResult::OtherPlaying(id) => CastResultView::OtherPlaying(id@),
            CastResult::Unconfirmed => CastResultView::Unconfirmed,
        }
    }
}

/// Where the casting of a video stands: how often the command was sent, and what else the screen
/// was last heard to play.
pub struct PlayAttempt {
    pub resent: bool,
    pub other: Option<String>,
}

impl PlayAttempt {
    /// The first attempt.
    pub fn first() -> (r: Self)
        ensures
            !r.resent,
            r.other is None,
    {
        PlayAttempt { resent: false, other: None }
    }

    /// How long to wait for the screen, in milliseconds.
    pub fn wait_ms(&self) -> (r: u64)
        ensures
            r == if self.resent {
                5000u64
            } else {
                2500u64
            },
    {
        if self.resent {
            5000
        } else {
            2500
        }
    }

    /// What is said of a command that could not be sent.
    pub fn context(&self) -> (r: &'static str)
        ensures
            r@ == if self.resent {
                "resend play"@
            } else {
                "send play"@
            },
    {
        if self.resent {
            "resend play"
        } else {
            "send play"
        }
    }
}

/// What the screen was last heard to play besides the video in question.
pub open spec fn other_heard(
    before: Option<Seq<char>>,
    heard: Option<PlaybackView>,
) -> Option<Seq<char>> {
    match heard {
        Some(p) => Some(p.video_id),
        None => before,
    }
}

/// What came of casting a video where the screen never confirmed it.
pub open spec fn unconfirmed(other: Option<Seq<char>>) -> CastResultView {
    match other {
        Some(id) => CastResultView::OtherPlaying(id),
        None => CastResultView::Unconfirmed,
    }
}

/// What the screen was heard to play.
pub open spec fn playback_view(p: Option<Playback>) -> Option<PlaybackView> {
    match p {
        Some(p) => Some(p@),
        None => None,
    }
}

/// What to do next about a video that is being cast.
pub enum PlayStep {
    /// Send the command once more.
    Resend(PlayAttempt),
    /// This came of it.
    Done(CastResult),
}

/// The texts of a [`PlayStep`].
pub enum PlayStepView {
    /// With what else the screen was heard to play.
    Resend(Option<Seq<char>>),
    Done(CastResultView),
}

/// What to do about a video that is being cast: `resent` tells whether the command was sent twice,
/// `other` what else the screen was heard to play before, `heard` what it plays now.
pub open spec fn play_decision(
    resent: bool,
    other: Option<Seq<char>>,
    heard: Option<PlaybackView>,
    video_id: Seq<char>,
) -> PlayStepView {
    if heard is Some && heard->0.video_id == video_id {
        PlayStepView::Done(CastResultView::Confirmed(heard->0.status))
    } else if resent {
        PlayStepView::Done(unconfirmed(other_heard(other, heard)))
    } else {
        PlayStepView::Resend(other_heard(other, heard))
    }
}

/// Decides what to do about a video that is being cast, from what the screen was heard to play.
/// The command is sent once more where the first went unacknowledged.
pub fn play_video_confirmed(attempt: PlayAttempt, heard: Option<Playback>, video_id: &str) -> (r:
    PlayStep)
    ensures
        match play_decision(
            attempt.resent,
            text::text_opt(attempt.other),
            playback_view(heard),
            video_id@,
        ) {
            PlayStepView::Resend(other) => r matches PlayStep::Resend(next) && next.resent
                && text::text_opt(next.other) == other,
            PlayStepView::Done(c) => r matches PlayStep::Done(d) && d@ == c,
        },
{
    let other = match heard {
        Some(p) => if text::same_text(p.video_id.as_str(), video_id) {
            return PlayStep::Done(CastResult::Confirmed(p.status));
        } else {
            Some(p.video_id)
        },
        None => attempt.other,
    };
    if attempt.resent {
        PlayStep::Done(
            match other {
                Some(id) => CastResult::OtherPlaying(id),
                None => CastResult::Unconfirmed,
            },
        )
    } else {
        PlayStep::Resend(PlayAttempt { resent: true, other })
    }
}

// ---------------------------------------------------------------- replaying a queue

/// One thing to send to a screen.
pub enum QueueCommand {
    /// Play this video now.
    Play(String),
    /// Add this video to the queue.
    Add(String),
}

/// The texts of a [`QueueCommand`].
pub enum QueueCommandView {
    Play(Seq<char>),
    Add(Seq<char>),
}

impl View for QueueCommand {
    type V = QueueCommandView;

    open spec fn view(&self) -> QueueCommandView {
        match *self {
            QueueCommand::Play(id) => QueueCommandView::Play(id@),
            QueueCommand::Add(id) => QueueCommandView::Add(id@),
        }
    }
}

/// The texts of a list of commands.
pub open spec fn command_views(v: Seq<QueueCommand>) -> Seq<QueueCommandView> {
    v.map_values(|c: QueueCommand| c@)
}

/// The sessions that bring a queue back: one that plays the current video, and one that adds the
/// rest in order, where there is any.
pub open spec fn replay_plan(current: Seq<char>, tail: Seq<Seq<char>>) -> Seq<
    Seq<QueueCommandView>,
> {
    if tail.len() == 0 {
        seq![seq![QueueCommandView::Play(current)]]
    } else {
        seq![
            seq![QueueCommandView::Play(current)],
            tail.map_values(|id: Seq<char>| QueueCommandView::Add(id)),
        ]
    }
}

/// Plans how a queue is brought back: each list of commands is sent in a session of its own.
pub fn replay_queue(current: &str, tail: &Vec<String>) -> (r: Vec<Vec<QueueCommand>>)
    ensures
        r@.map_values(|s: Vec<QueueCommand>| command_views(s@)) == replay_plan(
            current@,
            text::texts(tail@),
        ),
{
    let mut first: Vec<QueueCommand> = Vec::new();
    first.push(QueueCommand::Play(text::copy(current)));
    assert(command_views(first@) =~= seq![QueueCommandView::Play(current@)]);
    let mut r: Vec<Vec<QueueCommand>> = Vec::new();
    r.push(first);
    assert(text::texts(tail@).len() == tail@.len());
    let ghost adds = text::texts(tail@).map_values(|id: Seq<char>| QueueCommandView::Add(id));
    if tail.len() > 0 {
        let mut rest: Vec<QueueCommand> = Vec::new();
        let mut i: usize = 0;
        while i < tail.len()
            invariant
                i <= tail.len(),
                adds == text::texts(tail@).map_values(|id: Seq<char>| QueueCommandView::Add(id)),
                command_views(rest@) == adds.take(i as int),
            decreases tail.len() - i,
        {
            let ghost before = rest@;
            assert(adds[i as int] == QueueCommandView::Add(tail@[i as int]@));
            rest.push(QueueCommand::Add(text::copy(tail[i].as_str())));
            assert(command_views(rest@) =~= command_views(before).push(adds[i as int]));
            assert(adds.take(i as int).push(adds[i as int]) =~= adds.take(i + 1));
            i += 1;
        }
        assert(adds.take(i as int) =~= adds);
        r.push(rest);
    }
    assert(r@.map_values(|s: Vec<QueueCommand>| command_views(s@)) =~= replay_plan(
        current@,
        text::texts(tail@),
    ));
    r
}

// ---------------------------------------------------------------- laws

/// A resume and a pause are never confirmed by the same event.
pub proof fn law_pause_is_no_resume(ev: Event)
    ensures
        !(confirms(Action::Resume, ev) && confirms(Action::Pause, ev)),
{
}

/// Only an event about the volume confirms a change of volume.
pub proof fn law_volume_needs_volume_event(level: i32, ev: Event)
    ensures
        confirms(Action::Volume(level), ev) == ev is VolumeChanged,
        confirms(Action::Mute, ev) == confirms(Action::Unmute, ev),
{
}

/// Waiting for a command succeeds where the screen confirms it in time, and only there.
pub proof fn law_waiting_hears_confirmation(a: Action, events: Seq<Event>)
    ensures
        waited_confirm(a, events) <==> exists|i: int|
            0 <= i < events.len() && confirms(a, #[trigger] events[i]),
    decreases events.len(),
{
    if events.len() > 0 {
        let rest = events.drop_first();
        law_waiting_hears_confirmation(a, rest);
        if waited_confirm(a, rest) {
            let i = choose|i: int| 0 <= i < rest.len() && confirms(a, #[trigger] rest[i]);
            assert(confirms(a, events[i + 1]));
        }
        if exists|i: int| 0 <= i < events.len() && confirms(a, #[trigger] events[i]) {
            let i = choose|i: int| 0 <= i < events.len() && confirms(a, #[trigger] events[i]);
            if i > 0 {
                assert(rest[i - 1] == events[i]);
            }
        }
    }
}

/// Waiting for a queue change succeeds where the screen tells of one in time, and only there.
pub proof fn law_waiting_hears_queue_change(events: Seq<Event>)
    ensures
        waited_queued(events) <==> exists|i: int|
            0 <= i < events.len() && (#[trigger] events[i]) is PlaylistModified,
    decreases events.len(),
{
    if events.len() > 0 {
        let rest = events.drop_first();
        law_waiting_hears_queue_change(rest);
        if waited_queued(rest) {
            let i = choose|i: int| 0 <= i < rest.len() && (#[trigger] rest[i]) is PlaylistModified;
            assert(events[i + 1] is PlaylistModified);
        }
        if exists|i: int| 0 <= i < events.len() && (#[trigger] events[i]) is PlaylistModified {
            let i = choose|i: int|
                0 <= i < events.len() && (#[trigger] events[i]) is PlaylistModified;
            if i > 0 {
                assert(rest[i - 1] == events[i]);
            }
        }
    }
}

/// Waiting for what plays ends with nothing where no event names a video.
pub proof fn law_no_showing_gives_nothing(events: Seq<Event>)
    requires
        forall|i: int| 0 <= i < events.len() ==> shown_by(#[trigger] events[i]) is None,
    ensures
        waited_showing(events) is None,
    decreases events.len(),
{
    if events.len() > 0 {
        let rest = events.drop_first();
        assert(shown_by(events[0]) is None);
        assert forall|i: int| 0 <= i < rest.len() implies shown_by(#[trigger] rest[i]) is None by {
            assert(rest[i] == events[i + 1]);
        }
        law_no_showing_gives_nothing(rest);
    }
}

/// The first event that names a video counts, whatever else the screen says.
pub proof fn law_first_showing_counts(events: Seq<Event>, i: int)
    requires
        0 <= i < events.len(),
        shown_by(events[i]) is Some,
        forall|j: int| 0 <= j < i ==> shown_by(#[trigger] events[j]) is None,
    ensures
        waited_showing(events) == shown_by(events[i]),
    decreases events.len(),
{
    if i > 0 {
        let rest = events.drop_first();
        assert(shown_by(events[0]) is None);
        assert forall|j: int| 0 <= j < i - 1 implies shown_by(#[trigger] rest[j]) is None by {
            assert(rest[j] == events[j + 1]);
        }
        law_first_showing_counts(rest, i - 1);
    }
}

/// A video is cast with at most two commands. It is confirmed as soon as the screen plays it, and
/// only then; else the last other video that was heard is told.
pub proof fn law_cast_ends_after_two(
    video_id: Seq<char>,
    first: Option<PlaybackView>,
    second: Option<PlaybackView>,
)
    ensures
        first is Some && first->0.video_id == video_id ==> play_decision(false, None, first, video_id)
            == PlayStepView::Done(CastResultView::Confirmed(first->0.status)),
        !(first is Some && first->0.video_id == video_id) ==> (play_decision(
            false,
            None,
            first,
            video_id,
        ) matches PlayStepView::Resend(other) && play_decision(true, other, second, video_id)
            == PlayStepView::Done(
            if second is Some && second->0.video_id == video_id {
                CastResultView::Confirmed(second->0.status)
            } else if second is Some {
                CastResultView::OtherPlaying(second->0.video_id)
            } else if first is Some {
                CastResultView::OtherPlaying(first->0.video_id)
            } else {
                CastResultView::Unconfirmed
            },
        )),
{
}

/// Every video of a queue is sent once, in order, the current one first.
pub proof fn law_replay_sends_all(current: Seq<char>, tail: Seq<Seq<char>>)
    ensures
        replay_plan(current, tail).flatten().len() == 1 + tail.len(),
        replay_plan(current, tail).flatten()[0] == QueueCommandView::Play(current),
        forall|i: int|
            0 <= i < tail.len() ==> #[trigger] replay_plan(current, tail).flatten()[i + 1]
                == QueueCommandView::Add(tail[i]),
{
    let plan = replay_plan(current, tail);
    let first = seq![QueueCommandView::Play(current)];
    let adds = tail.map_values(|id: Seq<char>| QueueCommandView::Add(id));
    reveal_with_fuel(Seq::flatten, 3);
    assert(plan.first() == first);
    if tail.len() == 0 {
        assert(plan.drop_first() =~= Seq::empty());
        assert(plan.flatten() =~= first);
    } else {
        assert(plan.drop_first() =~= seq![adds]);
        assert(seq![adds].drop_first() =~= Seq::empty());
        assert(seq![adds].flatten() =~= adds);
        assert(plan.flatten() =~= first + adds);
    }
}

/// What an event shows is what stands in its own fields: the id, the status of its state, the time
/// the video is at and how long it is, for both events that name a video; one with an empty id,
/// and any other event, shows nothing.
pub proof fn law_event_shows_its_fields(
    video_id: String,
    state: String,
    current_time: String,
    duration: String,
    ev: Event,
)
    ensures
        ev == (Event::NowPlaying { video_id, state, current_time, duration }) || ev == (
        Event::PlaybackSession { video_id, state, current_time, duration }) ==> {
            &&& video_id@.len() > 0 ==> {
                &&& shown_by(ev) is Some
                &&& shown_by(ev)->0.video_id == video_id@
                &&& shown_by(ev)->0.status == status_of(state@)
                &&& shown_by(ev)->0.current_time == current_time@
                &&& shown_by(ev)->0.duration == duration@
            }
            &&& video_id@.len() == 0 ==> shown_by(ev) is None
        },
        !(ev is NowPlaying) && !(ev is PlaybackSession) ==> shown_by(ev) is None,
{
}

/// What plays is the video and its status out of what is shown, and its id is that of what is
/// shown.
pub proof fn law_playback_is_part_of_showing(n: NowShowingView)
    ensures
        playback_of(Some(n)) is Some,
        playback_of(Some(n))->0.video_id == n.video_id,
        playback_of(Some(n))->0.status == n.status,
        id_of(Some(n)) == Some(n.video_id),
        playback_of(None) is None,
        id_of(None) is None,
{
}

/// Each state of the lounge is a status of its own; a number that is no state, and a text that is
/// no number, is unknown.
pub proof fn law_status_by_number(state: Seq<char>)
    ensures
        status_of(state) is Stopped <==> integer_of(state) == Some(-1int),
        status_of(state) is Buffering <==> integer_of(state) == Some(0int),
        status_of(state) is Playing <==> integer_of(state) == Some(1int),
        status_of(state) is Paused <==> integer_of(state) == Some(2int),
        status_of(state) is Starting <==> integer_of(state) == Some(3int),
        status_of(state) is Advertisement <==> integer_of(state) == Some(1081int),
{
}

/// A digit behind a number makes ten times the number and the digit more; a sign in front of it
/// turns it around or leaves it; and anything but digits behind the sign is no number.
pub proof fn law_integer_digit_by_digit(s: Seq<char>, c: char)
    requires
        s.len() > 0,
        forall|i: int| 0 <= i < s.len() ==> '0' <= #[trigger] s[i] <= '9',
    ensures
        integer_of(s) is Some,
        integer_of(s)->0 >= 0,
        '0' <= c <= '9' ==> integer_of(s.push(c)) == Some(
            10 * integer_of(s)->0 + (c as int - '0' as int),
        ),
        '0' <= c <= '9' ==> integer_of(seq![c]) == Some(c as int - '0' as int),
        integer_of(seq!['-'] + s) == Some(-integer_of(s)->0),
        integer_of(seq!['+'] + s) == Some(integer_of(s)->0),
        !('0' <= c <= '9') ==> integer_of(s.push(c)) is None,
        integer_of(Seq::empty()) is None,
{
    assert forall|i: int| 0 <= i < s.len() implies text::is_digit(#[trigger] s[i]) by {}
    assert('0' <= s[0] <= '9');
    assert(unsigned_part(s) == s);
    let t = s.push(c);
    assert(t[0] == s[0]);
    assert(unsigned_part(t) == t);
    assert(t.drop_last() =~= s);
    assert(t.last() == c);
    if '0' <= c <= '9' {
        assert forall|i: int| 0 <= i < t.len() implies text::is_digit(#[trigger] t[i]) by {
            if i < s.len() {
                assert(t[i] == s[i]);
            }
        }
        let one = seq![c];
        assert(unsigned_part(one) == one);
        assert(one.drop_last() =~= Seq::empty());
        assert(digits_value(Seq::empty()) == 0);
        assert(one.last() == c);
        assert(digits_value(one) == (c as int - '0' as int));
        assert forall|i: int| 0 <= i < one.len() implies text::is_digit(#[trigger] one[i]) by {}
    } else {
        assert(!text::is_digit(t[s.len() as int]));
    }
    assert((seq!['-'] + s).skip(1) =~= s);
    assert((seq!['+'] + s).skip(1) =~= s);
    assert((seq!['-'] + s)[0] == '-');
    assert((seq!['+'] + s)[0] == '+');
}

/// A change of state tells of playing on exactly where it is to playing, starting or buffering,
/// and of a pause exactly where it is to a pause; nothing else confirms either.
pub proof fn law_state_confirms_resume_and_pause(ev: Event, state: String)
    requires
        (ev matches Event::StateChange { state: s } && s == state) || (
        ev matches Event::NowPlaying { state: s, .. } && s == state),
    ensures
        confirms(Action::Resume, ev) <==> integer_of(state@) == Some(0int) || integer_of(state@)
            == Some(1int) || integer_of(state@) == Some(3int),
        confirms(Action::Pause, ev) <==> integer_of(state@) == Some(2int),
{
}

/// Only a change of state or a new video confirms a command about what plays, any of them one that
/// does not ask for a status; and only a change of volume one about the volume.
pub proof fn law_confirmation_by_kind(ev: Event, to: String, level: i32)
    ensures
        confirms(Action::Next, ev) <==> ev is StateChange || ev is NowPlaying,
        confirms(Action::Prev, ev) <==> ev is StateChange || ev is NowPlaying,
        confirms(Action::SkipAd, ev) <==> ev is StateChange || ev is NowPlaying,
        confirms(Action::Seek(to), ev) <==> ev is StateChange || ev is NowPlaying,
        confirms(Action::Mute, ev) <==> ev is VolumeChanged,
        confirms(Action::Unmute, ev) <==> ev is VolumeChanged,
        confirms(Action::Volume(level), ev) <==> ev is VolumeChanged,
        !(ev is StateChange) && !(ev is NowPlaying) ==> !confirms(Action::Resume, ev) && !confirms(
            Action::Pause,
            ev,
        ),
{
}

/// A message tells of a lost pairing wherever in it one of the four words stands, and nowhere else.
pub proof fn law_lost_pairing_by_word(a: Seq<char>, w: Seq<char>, b: Seq<char>)
    ensures
        w == seq!['T', 'o', 'k', 'e', 'n'] || w == seq!['t', 'o', 'k', 'e', 'n'] || w == seq![
            '4',
            '0',
            '4',
        ] || w == seq!['o', 't', ' ', 'f', 'o', 'u', 'n', 'd'] ==> tells_unpaired(a + w + b),
        tells_unpaired(a) ==> text::has_within(a, "Token"@) || text::has_within(a, "token"@)
            || text::has_within(a, "404"@) || text::has_within(a, "ot found"@),
{
    reveal_strlit("Token");
    reveal_strlit("token");
    reveal_strlit("404");
    reveal_strlit("ot found");
    assert("Token"@ =~= seq!['T', 'o', 'k', 'e', 'n']);
    assert("token"@ =~= seq!['t', 'o', 'k', 'e', 'n']);
    assert("404"@ =~= seq!['4', '0', '4']);
    assert("ot found"@ =~= seq!['o', 't', ' ', 'f', 'o', 'u', 'n', 'd']);
    assert(a + w + b == a.add(w).add(b));
    text::law_within_between_parts(a + w + b, w);
}

/// A token that expired or cannot be refreshed ends the pairing, and so does an answer that tells
/// of it; any other failure leaves it alone.
pub proof fn law_pairing_ends(m: String)
    ensures
        ends_pairing(LoungeFailure::TokenExpired),
        ends_pairing(LoungeFailure::TokenRefreshFailed),
        !ends_pairing(LoungeFailure::Other),
        ends_pairing(LoungeFailure::InvalidResponse(m)) <==> tells_unpaired(m@),
{
}

/// A connection is ready exactly where it is connected. One that failed is given up whatever the
/// time, with a hint where the reason behind the word tells of a lost pairing and with the state
/// otherwise; any other is waited for until it is late.
pub proof fn law_connection_by_state(reason: Seq<char>, state: Seq<char>, late: bool)
    ensures
        connect_decision(state, late) is Ready <==> state == "Connected"@,
        tells_unpaired(reason) ==> connect_decision("Failed"@ + reason, late)
            == ConnectStepView::Fail(UNPAIRED_HINT@),
        !tells_unpaired(reason) ==> connect_decision("Failed"@ + reason, late)
            == ConnectStepView::Fail("connection failed: "@ + ("Failed"@ + reason)),
        state != "Connected"@ && !text::has_prefix(state, "Failed"@) ==> {
            &&& late ==> connect_decision(state, late) == ConnectStepView::Fail(CONNECT_TIMEOUT@)
            &&& !late ==> connect_decision(state, late) is Wait
        },
{
    reveal_strlit("Failed");
    reveal_strlit("Connected");
    let s = "Failed"@ + reason;
    assert(s[0] == 'F');
    assert("Connected"@[0] == 'C');
    assert(s.subrange(0, 6) =~= "Failed"@);
    assert(text::has_prefix(s, "Failed"@));
    assert(s.skip(6) =~= reason);
}

/// What plays is told where it is another video, the last that was heard; a video that was never
/// heard is not told.
pub proof fn law_other_video_is_told(before: Option<Seq<char>>, p: PlaybackView)
    ensures
        other_heard(before, Some(p)) == Some(p.video_id),
        other_heard(before, None) == before,
        unconfirmed(Some(p.video_id)) == CastResultView::OtherPlaying(p.video_id),
        unconfirmed(None) == CastResultView::Unconfirmed,
{
}

/// A cast is confirmed exactly where the screen plays the video that was asked for, with the
/// status that it has then; else it is sent once more where it was sent once, and given up where
/// it was sent twice.
pub proof fn law_cast_is_confirmed_by_video(
    resent: bool,
    other: Option<Seq<char>>,
    p: PlaybackView,
    video_id: Seq<char>,
)
    ensures
        p.video_id == video_id ==> play_decision(resent, other, Some(p), video_id)
            == PlayStepView::Done(CastResultView::Confirmed(p.status)),
        p.video_id != video_id && resent ==> play_decision(resent, other, Some(p), video_id)
            == PlayStepView::Done(CastResultView::OtherPlaying(p.video_id)),
        p.video_id != video_id && !resent ==> play_decision(resent, other, Some(p), video_id)
            == PlayStepView::Resend(Some(p.video_id)),
        !resent ==> play_decision(resent, other, None, video_id) == PlayStepView::Resend(other),
        resent && other is None ==> play_decision(resent, other, None, video_id)
            == PlayStepView::Done(CastResultView::Unconfirmed),
        resent && other is Some ==> play_decision(resent, other, None, video_id)
            == PlayStepView::Done(CastResultView::OtherPlaying(other->0)),
{
}

/// A queue is brought back in two sessions, one that plays the current video and one for the rest;
/// where there is no rest, in the first alone.
pub proof fn law_replay_by_session(current: Seq<char>, tail: Seq<Seq<char>>)
    ensures
        replay_plan(current, tail)[0] == seq![QueueCommandView::Play(current)],
        tail.len() == 0 ==> replay_plan(current, tail).len() == 1,
        tail.len() > 0 ==> replay_plan(current, tail).len() == 2 && replay_plan(current, tail)[1].len()
            == tail.len(),
        forall|i: int|
            0 <= i < tail.len() ==> #[trigger] replay_plan(current, tail)[1][i]
                == QueueCommandView::Add(tail[i]),
{
}

/// Each command is told of in its own words.
pub proof fn law_commands_by_label(to: String, level: i32)
    ensures
        action_label(Action::Resume) == "resumed"@,
        action_label(Action::Pause) == "paused"@,
        action_label(Action::Next) == "next"@,
        action_label(Action::Prev) == "previous"@,
        action_label(Action::SkipAd) == "ad skipped"@,
        action_label(Action::Mute) == "muted"@,
        action_label(Action::Unmute) == "unmuted"@,
        action_label(Action::Seek(to)) == "seeked to "@ + to@ + "s"@,
        action_label(Action::Volume(level)) == "volume "@ + text::decimal_text(level as int),
{
}

/// Each status is told of in its own word.
pub proof fn law_statuses_by_label()
    ensures
        PlaybackStatus::Stopped.text() == "Stopped"@,
        PlaybackStatus::Buffering.text() == "Buffering"@,
        PlaybackStatus::Playing.text() == "Playing"@,
        PlaybackStatus::Paused.text() == "Paused"@,
        PlaybackStatus::Starting.text() == "Starting"@,
        PlaybackStatus::Advertisement.text() == "Advertisement"@,
        PlaybackStatus::Unknown.text() == "Unknown"@,
{
}

/// What plays and what is shown have their own fields in view.
pub proof fn law_playback_in_view(p: Playback, n: NowShowing, v: Seq<QueueCommand>, i: int)
    ensures
        playback_view(Some(p)) is Some,
        playback_view(Some(p))->0.video_id == p.video_id@,
        playback_view(Some(p))->0.status == p.status,
        playback_view(None) is None,
        n@.video_id == n.video_id@,
        n@.status == n.status,
        n@.current_time == n.current_time@,
        n@.duration == n.duration@,
        command_views(v).len() == v.len(),
        0 <= i < v.len() ==> command_views(v)[i] == v[i]@,
{
}

} // verus!
