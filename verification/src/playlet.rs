//! The web API of a Playlet TV: its queue, what it plays, and what it is.

use crate::json::Json;
use crate::json;
use crate::text;
use crate::transport::Action;
use crate::web;
use vstd::prelude::*;

verus! {

// ---------------------------------------------------------------- casting

/// The address to which a video is sent, to queue it or to play it now.
pub open spec fn cast_address(web: Seq<char>, queue: bool) -> Seq<char> {
    if queue {
        web::under(web, "/api/queue"@)
    } else {
        web::under(web, "/api/queue/play"@)
    }
}

/// The address to which a video is sent, to queue it or to play it now.
pub fn cast_url(web: &str, queue: bool) -> (r: String)
    ensures
        r@ == cast_address(web@, queue),
{
    if queue {
        web::endpoint(web, "/api/queue")
    } else {
        web::endpoint(web, "/api/queue/play")
    }
}

/// The address of the queue.
pub fn queue_url(web: &str) -> (r: String)
    ensures
        r@ == web::under(web@, "/api/queue"@),
{
    web::endpoint(web, "/api/queue")
}

/// The address of what the device says of itself.
pub fn state_url(web: &str) -> (r: String)
    ensures
        r@ == web::under(web@, "/api/state"@),
{
    web::endpoint(web, "/api/state")
}

// ---------------------------------------------------------------- the queue

/// The queue of a device.
pub struct PlayletQueue {
    /// The position of the video that plays.
    pub index: u64,
    /// The ids of the videos.
    pub items: Vec<String>,
}

/// The ids among the entries of a queue, in order.
pub open spec fn queue_ids(items: Seq<Json>) -> Seq<Seq<char>>
    decreases items.len(),
{
    if items.len() == 0 {
        Seq::empty()
    } else {
        match json::member_text(items.last(), "videoid"@) {
            Some(id) => queue_ids(items.drop_last()).push(id),
            None => queue_ids(items.drop_last()),
        }
    }
}

/// The entries of a queue.
pub open spec fn queue_entries(body: Json) -> Seq<Json> {
    match json::as_list(json::member(body, "items"@)) {
        Some(v) => v,
        None => Seq::empty(),
    }
}

/// The position of the video that plays.
pub open spec fn queue_index(body: Json) -> int {
    match json::as_int(json::member(body, "index"@), 0, u64::MAX as int) {
        Some(n) => n,
        None => 0,
    }
}

/// The queue that an answer tells of; `None` where it is empty.
pub fn parse_queue(body: &Json) -> (r: Option<PlayletQueue>)
    ensures
        match r {
            Some(q) => q.index == queue_index(*body) && text::texts(q.items@) == queue_ids(
                queue_entries(*body),
            ) && q.items@.len() > 0,
            None => queue_ids(queue_entries(*body)).len() == 0,
        },
{
    let index: u64 = match body.get_u64("index") {
        Some(n) => n,
        None => 0,
    };
    let none: Vec<Json> = Vec::new();
    let entries = match body.get_list("items") {
        Some(v) => v,
        None => &none,
    };
    assert(entries@ =~= queue_entries(*body));
    let mut items: Vec<String> = Vec::new();
    let mut i: usize = 0;
    assert(entries@.take(0) =~= Seq::empty());
    assert(text::texts(items@) =~= Seq::empty());
    while i < entries.len()
        invariant
            i <= entries.len(),
            text::texts(items@) == queue_ids(entries@.take(i as int)),
        decreases entries.len() - i,
    {
        assert(entries@.take(i + 1).drop_last() =~= entries@.take(i as int));
        let ghost before = items@;
        if let Some(id) = entries[i].get_str("videoid") {
            let ghost text = id@;
            items.push(id);
            assert(text::texts(items@) =~= text::texts(before).push(text));
        }
        i += 1;
    }
    assert(entries@.take(i as int) =~= entries@);
    assert(text::texts(items@).len() == items@.len());
    if items.len() == 0 {
        None
    } else {
        Some(PlayletQueue { index, items })
    }
}

/// The line for a video in the queue: marked where it plays, with its title where that is known.
pub open spec fn queue_line_of(
    position: int,
    plays: bool,
    title: Option<Seq<char>>,
    id: Seq<char>,
) -> Seq<char> {
    let start = (if plays {
        " >"@
    } else {
        "  "@
    }) + " "@ + text::decimal_text(position) + "  "@;
    match title {
        Some(t) => start + t + "  (https://youtu.be/"@ + id + ")"@,
        None => start + "https://youtu.be/"@ + id,
    }
}

impl PlayletQueue {
    /// The line for the video at a position.
    pub fn line(&self, i: usize, title: Option<&str>) -> (r: String)
        requires
            i < self.items@.len(),
        ensures
            r@ == queue_line_of(i as int, i == self.index, text::str_opt(title), self.items@[i as int]@),
    {
        let mut r = if i as u64 == self.index {
            text::copy(" >")
        } else {
            text::copy("  ")
        };
        r.append(" ");
        r.append(text::decimal(i as i128).as_str());
        r.append("  ");
        match title {
            Some(t) => {
                r.append(t);
                r.append("  (https://youtu.be/");
                r.append(self.items[i].as_str());
                r.append(")");
            },
            None => {
                r.append("https://youtu.be/");
                r.append(self.items[i].as_str());
            },
        }
        r
    }
}

/// What happened last to a question about the queue.
pub enum QueueEvent {
    /// It was asked, of a device with this web server, if it has one.
    Asked(Option<String>),
    /// The web server told its queue, or none.
    WebSaid(Option<PlayletQueue>),
    /// The screen named the video that plays, or none.
    ScreenSaid(Option<String>),
}

/// What to do next about a question about the queue.
pub enum QueueAction {
    /// Ask this web server.
    AskWeb(String),
    /// Ask the screen.
    AskScreen,
    /// Tell this queue.
    TellQueue(PlayletQueue),
    /// Tell the video that plays, if one does.
    TellCurrent(Option<String>),
}

/// The action is the right one after the event.
pub open spec fn queue_follows(event: QueueEvent, action: QueueAction) -> bool {
    match event {
        QueueEvent::Asked(Some(web)) => action == QueueAction::AskWeb(web),
        QueueEvent::Asked(None) => action is AskScreen,
        QueueEvent::WebSaid(Some(q)) => action == QueueAction::TellQueue(q),
        QueueEvent::WebSaid(None) => action is AskScreen,
        QueueEvent::ScreenSaid(id) => action == QueueAction::TellCurrent(id),
    }
}

/// Decides what to do next about a question about the queue: the web server of a device that has
/// one comes first, then the screen.
pub fn queue_next(event: QueueEvent) -> (r: QueueAction)
    ensures
        queue_follows(event, r),
{
    match event {
        QueueEvent::Asked(Some(web)) => QueueAction::AskWeb(web),
        QueueEvent::Asked(None) => QueueAction::AskScreen,
        QueueEvent::WebSaid(Some(q)) => QueueAction::TellQueue(q),
        QueueEvent::WebSaid(None) => QueueAction::AskScreen,
        QueueEvent::ScreenSaid(id) => QueueAction::TellCurrent(id),
    }
}

/// What is said of a queue that only its current video is known of.
pub open spec fn only_playing(id: Seq<char>, title: Option<Seq<char>>) -> Seq<Seq<char>> {
    let lines = seq![
        "playing https://youtu.be/"@ + id,
        "(full queue only available for Playlet devices linked with `link-web`)"@,
    ];
    match title {
        Some(t) => seq![t] + lines,
        None => lines,
    }
}

/// What is said of a queue that only its current video is known of: `id` is that video, where the
/// screen plays one.
pub fn current_lines(id: Option<&str>, title: Option<&str>) -> (r: Vec<String>)
    ensures
        text::texts(r@) == match id {
            Some(id) => only_playing(id@, text::str_opt(title)),
            None => seq!["nothing playing (or TV not responding)"@],
        },
{
    let mut r: Vec<String> = Vec::new();
    match id {
        Some(id) => {
            if let Some(t) = title {
                r.push(text::copy(t));
            }
            r.push(text::concat2("playing https://youtu.be/", id));
            r.push(text::copy("(full queue only available for Playlet devices linked with `link-web`)"));
            assert(text::texts(r@) =~= only_playing(id@, text::str_opt(title)));
        },
        None => {
            r.push(text::copy("nothing playing (or TV not responding)"));
            assert(text::texts(r@) =~= seq!["nothing playing (or TV not responding)"@]);
        },
    }
    r
}

// ---------------------------------------------------------------- control

/// The video that stands so many places from the one that plays.
pub open spec fn neighbour(body: Json, offset: int) -> Option<Seq<char>> {
    let index = match json::member_int(body, "index"@) {
        Some(n) => n,
        None => -1,
    };
    let target = index + offset;
    match json::as_list(json::member(body, "items"@)) {
        Some(v) => if 0 <= target < v.len() {
            json::member_text(v[target], "videoid"@)
        } else {
            None
        },
        None => None,
    }
}

/// The video that stands so many places from the one that plays, in a queue's answer.
pub fn neighbour_id(body: &Json, offset: i64) -> (r: Option<String>)
    ensures
        text::text_opt(r) == neighbour(*body, offset as int),
{
    let index: i64 = match body.get_i64("index") {
        Some(n) => n,
        None => -1,
    };
    let target: i128 = index as i128 + offset as i128;
    match body.get_list("items") {
        Some(v) => if 0 <= target && target < v.len() as i128 {
            v[target as usize].get_str("videoid")
        } else {
            None
        },
        None => None,
    }
}

/// What stands in for a command on the web API of a device.
pub enum WebCommand {
    /// Play the video so many places further in the queue.
    Navigate(i64),
    /// Press this key of the remote control.
    Press(&'static str),
    /// There is nothing.
    Unsupported,
}

/// What stands in for a command on the web API of a device.
pub fn playlet_action(action: &Action) -> (r: WebCommand)
    ensures
        match *action {
            Action::Next => r matches WebCommand::Navigate(n) && n == 1,
            Action::Prev => r matches WebCommand::Navigate(n) && n == -1,
            Action::Resume | Action::Pause => r matches WebCommand::Press(k) && k@ == "Play"@,
            Action::Mute | Action::Unmute => r matches WebCommand::Press(k) && k@ == "VolumeMute"@,
            Action::SkipAd | Action::Seek(_) | Action::Volume(_) => r is Unsupported,
        },
{
    match action {
        Action::Next => WebCommand::Navigate(1),
        Action::Prev => WebCommand::Navigate(-1),
        Action::Resume | Action::Pause => WebCommand::Press("Play"),
        Action::Mute | Action::Unmute => WebCommand::Press("VolumeMute"),
        Action::SkipAd | Action::Seek(_) | Action::Volume(_) => WebCommand::Unsupported,
    }
}

/// The address that presses a key of the remote control on a host.
pub open spec fn keypress_address(host: Seq<char>, key: Seq<char>) -> Seq<char> {
    "http://"@ + host + ":8060/keypress/"@ + key
}

/// The address that presses a key of the remote control, where there is a host.
pub fn keypress_on(host: Option<String>, key: &str) -> (r: Option<String>)
    ensures
        text::text_opt(r) == match text::text_opt(host) {
            Some(h) => Some(keypress_address(h, key@)),
            None => None,
        },
{
    match host {
        Some(h) => {
            let mut url = text::concat3("http://", h.as_str(), ":8060/keypress/");
            url.append(key);
            Some(url)
        },
        None => None,
    }
}

/// The address that presses a key of the remote control, on the host of a device's web server.
pub fn keypress_url(web: &str, key: &str) -> (r: Option<String>)
    ensures
        text::text_opt(r) == match web::host_of(web@) {
            Some(h) => Some(keypress_address(h, key@)),
            None => None,
        },
        !web@.contains(':') ==> r is None,
{
    keypress_on(web::ip_from_url(web), key)
}

// ---------------------------------------------------------------- what it plays, what it is

/// The video that plays, in a queue's answer.
pub open spec fn now_playing_of(body: Json) -> Option<Seq<char>> {
    match json::member(body, "nowplaying"@) {
        Some(np) => match json::member_text(np, "videoid"@) {
            Some(id) => if id.len() > 0 {
                Some(id)
            } else {
                None
            },
            None => None,
        },
        None => None,
    }
}

/// The video that plays, in a queue's answer.
pub fn now_playing_id(body: &Json) -> (r: Option<String>)
    ensures
        text::text_opt(r) == now_playing_of(*body),
{
    match body.get("nowplaying") {
        Some(np) => match np.get_str("videoid") {
            Some(id) => if id.as_str().is_empty() {
                None
            } else {
                Some(id)
            },
            None => None,
        },
        None => None,
    }
}

/// A list of a text in front of a member, or of none where the member is missing.
pub open spec fn part(prefix: Seq<char>, text: Option<Seq<char>>) -> Seq<Seq<char>> {
    match text {
        Some(t) => seq![prefix + t],
        None => Seq::empty(),
    }
}

/// What a device says of itself.
pub open spec fn info_parts(body: Json) -> Seq<Seq<char>> {
    let model = match json::member_text(body, "model_display_name"@) {
        Some(m) => Some(m),
        None => json::member_text(body, "model_type"@),
    };
    part("Playlet "@, json::member_text(body, "app_version"@)) + part(Seq::empty(), model) + part(
        "OS "@,
        json::member_text(body, "os_version"@),
    )
}

/// What a device says of itself, on one line; `None` where it says nothing.
pub fn device_info(body: &Json) -> (r: Option<String>)
    ensures
        text::text_opt(r) == if info_parts(*body).len() == 0 {
            None
        } else {
            Some(text::joined(info_parts(*body), ", "@))
        },
{
    let mut parts: Vec<String> = Vec::new();
    if let Some(app) = body.get_str("app_version") {
        parts.push(text::concat2("Playlet ", app.as_str()));
    }
    assert(text::texts(parts@) =~= part("Playlet "@, json::member_text(*body, "app_version"@)));
    let ghost before = text::texts(parts@);
    let ghost model = match json::member_text(*body, "model_display_name"@) {
        Some(m) => Some(m),
        None => json::member_text(*body, "model_type"@),
    };
    if let Some(m) = body.get_str("model_display_name") {
        parts.push(m);
    } else if let Some(m) = body.get_str("model_type") {
        parts.push(m);
    }
    assert(text::texts(parts@) =~= before + part(Seq::empty(), model)) by {
        if let Some(m) = model {
            assert(Seq::<char>::empty() + m =~= m);
        }
    }
    if let Some(os) = body.get_str("os_version") {
        parts.push(text::concat2("OS ", os.as_str()));
    }
    assert(text::texts(parts@) =~= info_parts(*body));
    assert(text::texts(parts@).len() == parts@.len());
    if parts.len() == 0 {
        None
    } else {
        Some(text::join(&parts, ", "))
    }
}

// ---------------------------------------------------------------- laws

/// A question about the queue is answered after two others have been asked at most.
pub proof fn law_queue_is_told(event: QueueEvent, action: QueueAction)
    requires
        queue_follows(event, action),
    ensures
        action is AskWeb ==> event is Asked,
        action is AskScreen ==> !(event is ScreenSaid),
        event is ScreenSaid ==> action is TellCurrent,
{
}

/// There is nothing before the first video of a queue and nothing behind the last.
pub proof fn law_queue_has_ends(body: Json, index: int)
    requires
        json::member_int(body, "index"@) == Some(index),
    ensures
        index <= 0 ==> neighbour(body, -1) is None,
        index >= queue_entries(body).len() - 1 ==> neighbour(body, 1) is None,
{
}

/// Every id of a queue is the id of one of its entries.
pub proof fn law_queue_ids_are_entries(items: Seq<Json>, i: int)
    requires
        0 <= i < queue_ids(items).len(),
    ensures
        exists|k: int|
            0 <= k < items.len() && json::member_text(#[trigger] items[k], "videoid"@) == Some(
                queue_ids(items)[i],
            ),
    decreases items.len(),
{
    let before = queue_ids(items.drop_last());
    if i < before.len() {
        law_queue_ids_are_entries(items.drop_last(), i);
        let k = choose|k: int|
            0 <= k < items.drop_last().len() && json::member_text(
                #[trigger] items.drop_last()[k],
                "videoid"@,
            ) == Some(before[i]);
        assert(items[k] == items.drop_last()[k]);
    } else {
        assert(json::member_text(items[items.len() - 1], "videoid"@) == Some(queue_ids(items)[i]));
    }
}

/// A video is sent to the queue to be queued, and to its play address to be played.
pub proof fn law_cast_addresses(web: Seq<char>)
    ensures
        cast_address(web, true) == web::under(web, "/api/queue"@),
        cast_address(web, false) == web::under(web, "/api/queue/play"@),
{
}

/// Each entry with an id adds it behind those before it, and no other entry adds anything.
pub proof fn law_queue_entry_by_entry(items: Seq<Json>, e: Json)
    ensures
        queue_ids(Seq::empty()) == Seq::<Seq<char>>::empty(),
        json::member(e, "videoid"@) matches Some(Json::Str(id)) ==> queue_ids(items.push(e))
            == queue_ids(items).push(id@),
        !(json::member(e, "videoid"@) matches Some(Json::Str(id))) ==> queue_ids(items.push(e))
            == queue_ids(items),
{
    assert(items.push(e).drop_last() =~= items);
}

/// The entries of a queue are those under `items`, and the video that plays stands at the natural
/// number under `index`, at zero where there is none.
pub proof fn law_queue_by_member(body: Json)
    ensures
        json::member(body, "items"@) matches Some(Json::Array(v)) ==> queue_entries(body) == v@,
        !(json::member(body, "items"@) matches Some(Json::Array(v))) ==> queue_entries(body).len()
            == 0,
        json::member(body, "index"@) matches Some(Json::Int(n)) ==> (0 <= n
            <= 0xffff_ffff_ffff_ffff ==> queue_index(body) == n),
        !(json::member(body, "index"@) matches Some(Json::Int(n)) && 0 <= n
            <= 0xffff_ffff_ffff_ffff) ==> queue_index(body) == 0,
{
}

/// The neighbour of the video that plays is the one of the entry so many places on, where there is
/// such an entry and it has an id.
pub proof fn law_neighbour_by_position(body: Json, index: int, offset: int)
    requires
        json::member(body, "items"@) is Some && json::member(body, "items"@)->0 is Array,
        json::member_int(body, "index"@) == Some(index),
    ensures
        0 <= index + offset < queue_entries(body).len() ==> neighbour(body, offset)
            == json::member_text(queue_entries(body)[index + offset], "videoid"@),
        !(0 <= index + offset < queue_entries(body).len()) ==> neighbour(body, offset) is None,
{
}

/// Where it is not told what plays, the video behind it is the first, and there is none before it;
/// where there is no list of entries there is no neighbour at all.
pub proof fn law_neighbour_without_index(body: Json, offset: int)
    ensures
        json::member_int(body, "index"@) is None && queue_entries(body).len() > 0 ==> neighbour(
            body,
            1,
        ) == json::member_text(queue_entries(body)[0], "videoid"@),
        json::member_int(body, "index"@) is None ==> neighbour(body, -1) is None,
        queue_entries(body).len() == 0 ==> neighbour(body, offset) is None,
{
}

/// The video that plays is the one with an id under `nowplaying`.
pub proof fn law_now_playing_by_member(body: Json, np: Json)
    ensures
        json::member(body, "nowplaying"@) is None ==> now_playing_of(body) is None,
        json::member(body, "nowplaying"@) == Some(np) ==> {
            &&& json::member(np, "videoid"@) matches Some(Json::Str(id)) ==> (id@.len() > 0
                ==> now_playing_of(body) == Some(id@))
            &&& !(json::member(np, "videoid"@) matches Some(Json::Str(id)) && id@.len() > 0)
                ==> now_playing_of(body) is None
        },
{
}

/// The web server is asked exactly where one is asked of that has one, the screen where there is
/// none or it told nothing, and what either told is told on as it is.
pub proof fn law_queue_is_asked_in_order(
    event: QueueEvent,
    action: QueueAction,
    web: String,
    q: PlayletQueue,
    id: Option<String>,
)
    requires
        queue_follows(event, action),
    ensures
        action == QueueAction::AskWeb(web) <==> event == QueueEvent::Asked(Some(web)),
        action is AskScreen <==> event == QueueEvent::Asked(None) || event == QueueEvent::WebSaid(
            None,
        ),
        action == QueueAction::TellQueue(q) <==> event == QueueEvent::WebSaid(Some(q)),
        action == QueueAction::TellCurrent(id) <==> event == QueueEvent::ScreenSaid(id),
{
}

/// The line of a video has its mark, its place in the queue, and its title and address, or its
/// address alone.
pub proof fn law_queue_line_by_part(position: nat, title: Seq<char>, id: Seq<char>)
    ensures
        queue_line_of(position as int, true, Some(title), id) == " >"@ + " "@ + text::digits(position)
            + "  "@ + title + "  (https://youtu.be/"@ + id + ")"@,
        queue_line_of(position as int, false, Some(title), id) == "  "@ + " "@ + text::digits(
            position,
        ) + "  "@ + title + "  (https://youtu.be/"@ + id + ")"@,
        queue_line_of(position as int, true, None, id) == " >"@ + " "@ + text::digits(position)
            + "  "@ + "https://youtu.be/"@ + id,
        queue_line_of(position as int, false, None, id) == "  "@ + " "@ + text::digits(position)
            + "  "@ + "https://youtu.be/"@ + id,
{
}

/// Where only the current video is known its title comes first, where that is known, then its
/// address and why there is no more.
pub proof fn law_current_video_is_told(id: Seq<char>, title: Seq<char>)
    ensures
        only_playing(id, None).len() == 2,
        only_playing(id, None)[0] == "playing https://youtu.be/"@ + id,
        only_playing(id, None)[1]
            == "(full queue only available for Playlet devices linked with `link-web`)"@,
        only_playing(id, Some(title)).len() == 3,
        only_playing(id, Some(title))[0] == title,
        only_playing(id, Some(title)).skip(1) == only_playing(id, None),
{
    assert(only_playing(id, Some(title)).skip(1) =~= only_playing(id, None));
}

/// A key is pressed on the port of the remote control.
pub proof fn law_key_is_pressed_on_host(host: Seq<char>, key: Seq<char>)
    ensures
        keypress_address(host, key) == "http://"@ + host + ":8060/keypress/"@ + key,
{
}

/// A device tells the version of its app, what it is called, else its type, and the version of its
/// system, each where it is known.
pub proof fn law_info_by_member(body: Json)
    ensures
        info_parts(body).len() == (if json::member_text(body, "app_version"@) is Some {
            1int
        } else {
            0
        }) + (if json::member_text(body, "model_display_name"@) is Some || json::member_text(
            body,
            "model_type"@,
        ) is Some {
            1int
        } else {
            0
        }) + (if json::member_text(body, "os_version"@) is Some {
            1int
        } else {
            0
        }),
        json::member_text(body, "app_version"@) matches Some(v) ==> info_parts(body)[0]
            == "Playlet "@ + v,
        json::member_text(body, "model_display_name"@) matches Some(m) ==> info_parts(
            body,
        )[if json::member_text(body, "app_version"@) is Some {
            1
        } else {
            0
        }] == m,
        json::member_text(body, "model_type"@) matches Some(m) ==> (json::member_text(
            body,
            "model_display_name"@,
        ) is None ==> info_parts(body)[if json::member_text(body, "app_version"@) is Some {
            1
        } else {
            0
        }] == m),
        json::member_text(body, "os_version"@) matches Some(v) ==> info_parts(body).last() == "OS "@
            + v,
{
    if let Some(m) = json::member_text(body, "model_display_name"@) {
        assert(Seq::<char>::empty() + m =~= m);
    }
    if let Some(m) = json::member_text(body, "model_type"@) {
        assert(Seq::<char>::empty() + m =~= m);
    }
}

} // verus!
