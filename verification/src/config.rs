//! The paired TVs, and which of them a command is for.

use crate::lists;
use crate::text;
use crate::web;
use vstd::prelude::*;

verus! {

/// A paired TV.
#[derive(Debug, Clone)]
pub struct Device {
    pub alias: String,
    pub name: String,
    pub screen_id: String,
    pub lounge_token: String,
    /// Base URL of the device's web server (e.g. a Playlet TV at
    /// http://192.168.1.209:8888), used as a no-key search backend.
    pub web_url: Option<String>,
}

/// The texts of a [`Device`].
#[verifier::ext_equal]
pub struct DeviceView {
    pub alias: Seq<char>,
    pub name: Seq<char>,
    pub screen_id: Seq<char>,
    pub lounge_token: Seq<char>,
    pub web_url: Option<Seq<char>>,
}

impl View for Device {
    type V = DeviceView;

    open spec fn view(&self) -> DeviceView {
        DeviceView {
            alias: self.alias@,
            name: self.name@,
            screen_id: self.screen_id@,
            lounge_token: self.lounge_token@,
            web_url: text::text_opt(self.web_url),
        }
    }
}

/// The paired TVs and the choices made about them.
#[derive(Debug)]
pub struct Config {
    pub default_device: Option<String>,
    /// Fallback Invidious-style API base used for search when a device has no
    /// web_url (e.g. https://invidious.example).
    pub search_instance: Option<String>,
    pub devices: Vec<Device>,
}

/// The texts of a [`Config`].
#[verifier::ext_equal]
pub struct ConfigView {
    pub default_device: Option<Seq<char>>,
    pub search_instance: Option<Seq<char>>,
    pub devices: Seq<DeviceView>,
}

/// The texts of a list of devices.
pub open spec fn device_views(v: Seq<Device>) -> Seq<DeviceView> {
    v.map_values(|d: Device| d@)
}

impl View for Config {
    type V = ConfigView;

    open spec fn view(&self) -> ConfigView {
        ConfigView {
            default_device: text::text_opt(self.default_device),
            search_instance: text::text_opt(self.search_instance),
            devices: device_views(self.devices@),
        }
    }
}

impl Default for Config {
    fn default() -> (c: Self)
        ensures
            c@ == (ConfigView {
                default_device: None,
                search_instance: None,
                devices: Seq::empty(),
            }),
    {
        let c = Config { default_device: None, search_instance: None, devices: Vec::new() };
        assert(c@.devices =~= Seq::<DeviceView>::empty());
        c
    }
}

// ---------------------------------------------------------------- finding devices

/// The device goes by that alias, in any case.
pub open spec fn named(alias: Seq<char>) -> spec_fn(DeviceView) -> bool {
    |d: DeviceView| text::same_ignoring_case(d.alias, alias)
}

/// The device goes by exactly that alias.
pub open spec fn named_exactly(alias: Seq<char>) -> spec_fn(DeviceView) -> bool {
    |d: DeviceView| d.alias == alias
}

/// The aliases of all devices.
pub open spec fn aliases(c: ConfigView) -> Seq<Seq<char>> {
    c.devices.map_values(|d: DeviceView| d.alias)
}

/// Where the default device stands, where there is one.
pub open spec fn default_position(c: ConfigView) -> Option<int> {
    match c.default_device {
        Some(alias) => lists::position(c.devices, named_exactly(alias)),
        None => None,
    }
}

/// Why no device could be chosen.
#[derive(Debug)]
pub enum ResolveError {
    /// There is no paired device at all.
    NoDevices,
    /// No device goes by the alias that was asked for.
    NoSuchDevice(String),
    /// There are several devices, with these aliases, and no default among them.
    Ambiguous(Vec<String>),
}

/// The texts of a [`ResolveError`].
pub enum ResolveErrorView {
    NoDevices,
    NoSuchDevice(Seq<char>),
    Ambiguous(Seq<Seq<char>>),
}

impl View for ResolveError {
    type V = ResolveErrorView;

    open spec fn view(&self) -> ResolveErrorView {
        match *self {
            ResolveError::NoDevices => ResolveErrorView::NoDevices,
            ResolveError::NoSuchDevice(a) => ResolveErrorView::NoSuchDevice(a@),
            ResolveError::Ambiguous(v) => ResolveErrorView::Ambiguous(text::texts(v@)),
        }
    }
}

/// What is said of a [`ResolveError`].
pub open spec fn resolve_message(e: ResolveErrorView) -> Seq<char> {
    match e {
        ResolveErrorView::NoDevices => "no paired devices. Run `tubecast pair <CODE>` first."@,
        ResolveErrorView::NoSuchDevice(a) => "no paired device named '"@ + a + "'"@,
        ResolveErrorView::Ambiguous(v) =>
            "multiple devices paired and no default set; pass --device <alias> (one of: "@ + text::joined(
            v,
            ", "@,
        ) + ")"@,
    }
}

impl ResolveError {
    /// The message for the user.
    pub fn message(&self) -> (r: String)
        ensures
            r@ == resolve_message(self@),
    {
        match self {
            ResolveError::NoDevices => text::copy("no paired devices. Run `tubecast pair <CODE>` first."),
            ResolveError::NoSuchDevice(a) => text::concat3("no paired device named '", a.as_str(), "'"),
            ResolveError::Ambiguous(v) => text::concat3(
                "multiple devices paired and no default set; pass --device <alias> (one of: ",
                text::join(v, ", ").as_str(),
                ")",
            ),
        }
    }
}

/// The device that a command is for: the one that is asked for, else the default, else the only
/// one.
pub open spec fn resolved(c: ConfigView, alias: Option<Seq<char>>) -> Result<int, ResolveErrorView> {
    if c.devices.len() == 0 {
        Err(ResolveErrorView::NoDevices)
    } else {
        match alias {
            Some(a) => match lists::position(c.devices, named(a)) {
                Some(i) => Ok(i),
                None => Err(ResolveErrorView::NoSuchDevice(a)),
            },
            None => match default_position(c) {
                Some(i) => Ok(i),
                None => if c.devices.len() == 1 {
                    Ok(0int)
                } else {
                    Err(ResolveErrorView::Ambiguous(aliases(c)))
                },
            },
        }
    }
}

/// The device with another screen and token.
pub open spec fn reconnected(
    d: DeviceView,
    screen_id: Seq<char>,
    lounge_token: Seq<char>,
) -> DeviceView {
    DeviceView { screen_id, lounge_token, ..d }
}

/// The settings with a device added, or put in the place of the one with its alias. A web URL
/// stays unless the new one brings its own.
pub open spec fn upserted(c: ConfigView, d: DeviceView) -> ConfigView {
    match lists::position(c.devices, named(d.alias)) {
        Some(i) => {
            let web_url = match d.web_url {
                Some(u) => Some(u),
                None => c.devices[i].web_url,
            };
            ConfigView { devices: c.devices.update(i, DeviceView { web_url, ..d }), ..c }
        },
        None => ConfigView { devices: c.devices.push(d), ..c },
    }
}

/// The device with a new token, where it is the one on that screen.
pub open spec fn retokened(d: DeviceView, screen_id: Seq<char>, token: Seq<char>) -> DeviceView {
    if d.screen_id == screen_id {
        DeviceView { lounge_token: token, ..d }
    } else {
        d
    }
}

/// The settings with a new token for the device on that screen.
pub open spec fn token_updated(c: ConfigView, screen_id: Seq<char>, token: Seq<char>) -> ConfigView {
    ConfigView {
        devices: c.devices.map_values(|d: DeviceView| retokened(d, screen_id, token)),
        ..c
    }
}

/// Some device is on that screen.
pub open spec fn has_screen(c: ConfigView, screen_id: Seq<char>) -> bool {
    exists|i: int| 0 <= i < c.devices.len() && (#[trigger] c.devices[i]).screen_id == screen_id
}

/// The settings with the device of that alias on another screen.
pub open spec fn refreshed(
    c: ConfigView,
    alias: Seq<char>,
    screen_id: Seq<char>,
    lounge_token: Seq<char>,
) -> ConfigView {
    match lists::position(c.devices, named(alias)) {
        Some(i) => ConfigView {
            devices: c.devices.update(i, reconnected(c.devices[i], screen_id, lounge_token)),
            ..c
        },
        None => c,
    }
}

impl Config {
    /// The position of the first device that goes by an alias in any case.
    fn find_named(&self, alias: &str) -> (r: Option<usize>)
        ensures
            match r {
                Some(i) => i < self.devices@.len() && lists::position(self@.devices, named(alias@)) == Some(
                    i as int,
                ),
                None => lists::position(self@.devices, named(alias@)) is None,
            },
    {
        let mut i: usize = 0;
        while i < self.devices.len()
            invariant
                i <= self.devices.len(),
                forall|j: int| 0 <= j < i ==> !named(alias@)(#[trigger] self@.devices[j]),
            decreases self.devices.len() - i,
        {
            assert(self@.devices[i as int] == self.devices@[i as int]@);
            if text::eq_ignore_ascii_case(self.devices[i].alias.as_str(), alias) {
                proof {
                    lists::lemma_position(self@.devices, named(alias@), i as int);
                }
                return Some(i);
            }
            i += 1;
        }
        proof {
            lists::lemma_position_is(self@.devices, named(alias@));
        }
        None
    }

    /// The position of the first device that goes by exactly an alias.
    fn find_named_exactly(&self, alias: &str) -> (r: Option<usize>)
        ensures
            match r {
                Some(i) => i < self.devices@.len() && lists::position(
                    self@.devices,
                    named_exactly(alias@),
                ) == Some(i as int),
                None => lists::position(self@.devices, named_exactly(alias@)) is None,
            },
    {
        let mut i: usize = 0;
        while i < self.devices.len()
            invariant
                i <= self.devices.len(),
                forall|j: int| 0 <= j < i ==> !named_exactly(alias@)(#[trigger] self@.devices[j]),
            decreases self.devices.len() - i,
        {
            assert(self@.devices[i as int] == self.devices@[i as int]@);
            if text::same_text(self.devices[i].alias.as_str(), alias) {
                proof {
                    lists::lemma_position(self@.devices, named_exactly(alias@), i as int);
                }
                return Some(i);
            }
            i += 1;
        }
        proof {
            lists::lemma_position_is(self@.devices, named_exactly(alias@));
        }
        None
    }

    /// The position of the default device.
    pub(crate) fn find_default(&self) -> (r: Option<usize>)
        ensures
            match r {
                Some(i) => i < self.devices@.len() && default_position(self@) == Some(i as int),
                None => default_position(self@) is None,
            },
    {
        match &self.default_device {
            Some(alias) => self.find_named_exactly(alias.as_str()),
            None => None,
        }
    }

    /// The aliases of all devices.
    pub fn aliases(&self) -> (r: Vec<String>)
        ensures
            text::texts(r@) == aliases(self@),
    {
        let mut r: Vec<String> = Vec::new();
        let mut i: usize = 0;
        while i < self.devices.len()
            invariant
                i <= self.devices.len(),
                text::texts(r@) == aliases(self@).take(i as int),
            decreases self.devices.len() - i,
        {
            assert(aliases(self@)[i as int] == self.devices@[i as int].alias@);
            let ghost before = r@;
            r.push(text::copy(self.devices[i].alias.as_str()));
            assert(text::texts(r@) =~= text::texts(before).push(aliases(self@)[i as int]));
            assert(aliases(self@).take(i as int).push(aliases(self@)[i as int]) =~= aliases(
                self@,
            ).take(i + 1));
            i += 1;
        }
        assert(aliases(self@).take(i as int) =~= aliases(self@));
        r
    }

    /// Resolve which device a command targets: explicit alias, else the
    /// configured default, else the only paired device.
    pub fn resolve(&self, alias: Option<&str>) -> (r: Result<&Device, ResolveError>)
        ensures
            match r {
                Ok(d) => resolved(self@, text::str_opt(alias)) matches Ok(i) && 0 <= i
                    < self.devices@.len() && *d == self.devices@[i],
                Err(e) => resolved(self@, text::str_opt(alias)) == Err::<int, ResolveErrorView>(e@),
            },
    {
        if self.devices.len() == 0 {
            return Err(ResolveError::NoDevices);
        }
        if let Some(alias) = alias {
            return match self.find_named(alias) {
                Some(i) => Ok(&self.devices[i]),
                None => Err(ResolveError::NoSuchDevice(text::copy(alias))),
            };
        }
        if let Some(i) = self.find_default() {
            return Ok(&self.devices[i]);
        }
        if self.devices.len() == 1 {
            return Ok(&self.devices[0]);
        }
        Err(ResolveError::Ambiguous(self.aliases()))
    }

    /// Adds a device, or puts it in the place of the one with its alias.
    pub fn upsert(&mut self, device: Device)
        ensures
            final(self)@ == upserted(old(self)@, device@),
    {
        match self.find_named(device.alias.as_str()) {
            Some(i) => {
                let mut device = device;
                // Keep a previously-set web_url unless the new pairing supplies one.
                if device.web_url.is_none() {
                    device.web_url = text::copy_option(&self.devices[i].web_url);
                }
                self.devices.set(i, device);
            },
            None => {
                self.devices.push(device);
            },
        }
        assert(self@.devices =~= upserted(old(self)@, device@).devices);
    }

    /// The device with an alias, to change.
    pub fn device_mut(&mut self, alias: &str) -> (r: Option<&mut Device>)
        ensures
            match r {
                Some(d) => {
                    &&& lists::position(old(self)@.devices, named(alias@)) matches Some(i)
                    &&& 0 <= i < old(self).devices@.len()
                    &&& *d == old(self).devices@[i]
                    &&& final(self).devices@ == old(self).devices@.update(i, *final(d))
                    &&& final(self).default_device == old(self).default_device
                    &&& final(self).search_instance == old(self).search_instance
                },
                None => lists::position(old(self)@.devices, named(alias@)) is None && *final(self) == *old(
                    self,
                ),
            },
    {
        match self.find_named(alias) {
            Some(i) => Some(&mut self.devices[i]),
            None => None,
        }
    }

    /// Puts a new lounge token on the device with a screen id. Returns whether there is one.
    pub fn update_token(&mut self, screen_id: &str, new_token: &str) -> (changed: bool)
        ensures
            final(self)@ == token_updated(old(self)@, screen_id@, new_token@),
            changed == has_screen(old(self)@, screen_id@),
    {
        let mut changed = false;
        let mut i: usize = 0;
        while i < self.devices.len()
            invariant
                i <= self.devices.len(),
                self.devices.len() == old(self).devices.len(),
                self.default_device == old(self).default_device,
                self.search_instance == old(self).search_instance,
                forall|j: int|
                    0 <= j < i ==> (#[trigger] self.devices@[j])@ == retokened(
                        old(self).devices@[j]@,
                        screen_id@,
                        new_token@,
                    ),
                forall|j: int|
                    i <= j < self.devices.len() ==> #[trigger] self.devices@[j] == old(
                        self,
                    ).devices@[j],
                changed == exists|j: int|
                    0 <= j < i && (#[trigger] old(self)@.devices[j]).screen_id == screen_id@,
            decreases self.devices.len() - i,
        {
            assert(old(self)@.devices[i as int] == old(self).devices@[i as int]@);
            if text::same_text(self.devices[i].screen_id.as_str(), screen_id) {
                self.devices[i].lounge_token = text::copy(new_token);
                changed = true;
            }
            i += 1;
        }
        assert(self@.devices =~= token_updated(old(self)@, screen_id@, new_token@).devices);
        changed
    }

    /// Puts the device with an alias on another screen.
    pub fn refresh(&mut self, alias: &str, screen_id: &str, lounge_token: &str)
        ensures
            final(self)@ == refreshed(old(self)@, alias@, screen_id@, lounge_token@),
    {
        if let Some(d) = self.device_mut(alias) {
            d.screen_id = text::copy(screen_id);
            d.lounge_token = text::copy(lounge_token);
        }
        assert(self@.devices =~= refreshed(
            old(self)@,
            alias@,
            screen_id@,
            lounge_token@,
        ).devices);
    }
}

// ---------------------------------------------------------------- search backends

/// The search API base of a device: its own web server, else the configured instance.
pub open spec fn base_of(d: DeviceView, c: ConfigView) -> Option<Seq<char>> {
    match (d.web_url, c.search_instance) {
        (Some(web), _) => Some(web::under(web, "/playlet-invidious-backend"@)),
        (None, Some(s)) => Some(text::trimmed_end_of(s, '/')),
        (None, None) => None,
    }
}

impl Device {
    /// Resolve the Invidious-style search API base for this device, falling
    /// back to a configured global instance.
    pub fn search_base(&self, cfg: &Config) -> (r: Option<String>)
        ensures
            text::text_opt(r) == base_of(self@, cfg@),
    {
        if let Some(web) = &self.web_url {
            return Some(web::endpoint(web.as_str(), "/playlet-invidious-backend"));
        }
        match &cfg.search_instance {
            Some(s) => Some(text::trim_end_matches(s.as_str(), '/')),
            None => None,
        }
    }
}

/// The device has a search API base.
pub open spec fn has_base(c: ConfigView) -> spec_fn(DeviceView) -> bool {
    |d: DeviceView| base_of(d, c) is Some
}

/// The API base for looking up videos: that of the device in question, else of the first device
/// that has one.
pub open spec fn metadata_of(c: ConfigView, alias: Option<Seq<char>>) -> Option<Seq<char>> {
    let own = match resolved(c, alias) {
        Ok(i) => base_of(c.devices[i], c),
        Err(_) => None,
    };
    match (own, lists::position(c.devices, has_base(c))) {
        (Some(b), _) => Some(b),
        (None, Some(i)) => base_of(c.devices[i], c),
        (None, None) => None,
    }
}

/// Pick an Invidious-style backend for looking up video metadata. Metadata is
/// keyed by video id, not by device, so any linked web backend works even when
/// the active device (e.g. SmartTube) has none of its own.
pub fn metadata_base(cfg: &Config, device: Option<&str>) -> (r: Option<String>)
    ensures
        text::text_opt(r) == metadata_of(cfg@, text::str_opt(device)),
{
    if let Ok(d) = cfg.resolve(device) {
        if let Some(b) = d.search_base(cfg) {
            return Some(b);
        }
    }
    let mut i: usize = 0;
    while i < cfg.devices.len()
        invariant
            i <= cfg.devices.len(),
            forall|j: int| 0 <= j < i ==> !has_base(cfg@)(#[trigger] cfg@.devices[j]),
            match resolved(cfg@, text::str_opt(device)) {
                Ok(k) => base_of(cfg@.devices[k], cfg@) is None,
                Err(_) => true,
            },
        decreases cfg.devices.len() - i,
    {
        assert(cfg@.devices[i as int] == cfg.devices@[i as int]@);
        if let Some(b) = cfg.devices[i].search_base(cfg) {
            proof {
                lists::lemma_position(cfg@.devices, has_base(cfg@), i as int);
            }
            return Some(b);
        }
        i += 1;
    }
    proof {
        lists::lemma_position_is(cfg@.devices, has_base(cfg@));
    }
    None
}

/// Why there is nothing to search with.
#[derive(Debug)]
pub enum BackendError {
    Resolve(ResolveError),
    /// The device with this alias has no search backend.
    NoBackend(String),
}

/// The texts of a [`BackendError`].
pub enum BackendErrorView {
    Resolve(ResolveErrorView),
    NoBackend(Seq<char>),
}

impl View for BackendError {
    type V = BackendErrorView;

    open spec fn view(&self) -> BackendErrorView {
        match *self {
            BackendError::Resolve(e) => BackendErrorView::Resolve(e@),
            BackendError::NoBackend(a) => BackendErrorView::NoBackend(a@),
        }
    }
}

/// What is said of a [`BackendError`].
pub open spec fn backend_message(e: BackendErrorView) -> Seq<char> {
    match e {
        BackendErrorView::Resolve(e) => resolve_message(e),
        BackendErrorView::NoBackend(a) => "no search backend for '"@ + a
            + "'. Link a Playlet TV with `tubecast link-web http://<tv-ip>:8888`, or set search_instance in the config to an Invidious instance."@,
    }
}

impl BackendError {
    /// The message for the user.
    pub fn message(&self) -> (r: String)
        ensures
            r@ == backend_message(self@),
    {
        match self {
            BackendError::Resolve(e) => e.message(),
            BackendError::NoBackend(a) => text::concat3(
                "no search backend for '",
                a.as_str(),
                "'. Link a Playlet TV with `tubecast link-web http://<tv-ip>:8888`, or set search_instance in the config to an Invidious instance.",
            ),
        }
    }
}

/// The API base to search with, for the device that a command is for.
pub open spec fn backend_of(c: ConfigView, alias: Option<Seq<char>>) -> Result<
    Seq<char>,
    BackendErrorView,
> {
    match resolved(c, alias) {
        Err(e) => Err(BackendErrorView::Resolve(e)),
        Ok(i) => match base_of(c.devices[i], c) {
            Some(b) => Ok(b),
            None => Err(BackendErrorView::NoBackend(c.devices[i].alias)),
        },
    }
}

/// The API base to search with, for the device that a command is for.
pub fn search_backend(cfg: &Config, device: Option<&str>) -> (r: Result<String, BackendError>)
    ensures
        match r {
            Ok(b) => backend_of(cfg@, text::str_opt(device)) == Ok::<Seq<char>, BackendErrorView>(b@),
            Err(e) => backend_of(cfg@, text::str_opt(device)) == Err::<Seq<char>, BackendErrorView>(e@),
        },
{
    match cfg.resolve(device) {
        Err(e) => Err(BackendError::Resolve(e)),
        Ok(d) => match d.search_base(cfg) {
            Some(b) => Ok(b),
            None => Err(BackendError::NoBackend(text::copy(d.alias.as_str()))),
        },
    }
}

/// The web URL of the device that a command is for.
pub open spec fn web_of(c: ConfigView, alias: Option<Seq<char>>) -> Option<Seq<char>> {
    match resolved(c, alias) {
        Ok(i) => c.devices[i].web_url,
        Err(_) => None,
    }
}

/// The web URL of the device that a command is for.
pub fn web_url(cfg: &Config, device: Option<&str>) -> (r: Option<String>)
    ensures
        text::text_opt(r) == web_of(cfg@, text::str_opt(device)),
{
    match cfg.resolve(device) {
        Ok(d) => text::copy_option(&d.web_url),
        Err(_) => None,
    }
}

/// What the device that a command is for is called.
pub open spec fn label_of(c: ConfigView, alias: Option<Seq<char>>) -> Seq<char> {
    match resolved(c, alias) {
        Ok(i) => c.devices[i].name,
        Err(_) => "the screen"@,
    }
}

/// What the device that a command is for is called.
pub fn device_label(cfg: &Config, device: Option<&str>) -> (r: String)
    ensures
        r@ == label_of(cfg@, text::str_opt(device)),
{
    match cfg.resolve(device) {
        Ok(d) => text::copy(d.name.as_str()),
        Err(_) => text::copy("the screen"),
    }
}

// ---------------------------------------------------------------- the local queue

/// Tracks the locally-known queue so `shuffle` can reorder it without
/// being able to read it back from the TV.
#[derive(Debug)]
pub struct LocalQueue {
    pub video_ids: Vec<String>,
}

impl View for LocalQueue {
    type V = Seq<Seq<char>>;

    open spec fn view(&self) -> Seq<Seq<char>> {
        text::texts(self.video_ids@)
    }
}

impl Default for LocalQueue {
    fn default() -> (q: Self)
        ensures
            q@ == Seq::<Seq<char>>::empty(),
    {
        let q = LocalQueue { video_ids: Vec::new() };
        assert(q@ =~= Seq::<Seq<char>>::empty());
        q
    }
}

impl LocalQueue {
    /// The queue of a single video (called on `play`).
    pub fn reset(video_id: &str) -> (q: Self)
        ensures
            q@ == seq![video_id@],
    {
        let mut video_ids: Vec<String> = Vec::new();
        video_ids.push(text::copy(video_id));
        let q = LocalQueue { video_ids };
        assert(q@ =~= seq![video_id@]);
        q
    }

    /// Append a video to the queue (called on `add`).
    pub fn push(&mut self, video_id: &str)
        ensures
            final(self)@ == old(self)@.push(video_id@),
    {
        self.video_ids.push(text::copy(video_id));
        assert(self@ =~= old(self)@.push(video_id@));
    }
}

/// The queue once a video is added to the stored one, or to an empty one where none is stored.
pub open spec fn queue_after_push(stored: Option<Seq<Seq<char>>>, id: Seq<char>) -> Seq<Seq<char>> {
    match stored {
        Some(q) => q.push(id),
        None => seq![id],
    }
}

/// The texts of a queue that may be missing.
pub open spec fn queue_opt(q: Option<LocalQueue>) -> Option<Seq<Seq<char>>> {
    match q {
        Some(q) => Some(q@),
        None => None,
    }
}

/// The queue to store once a video is added. `read` is what came of reading the stored queue:
/// `None` where there is none. One that cannot be read is left alone: there is nothing to store,
/// and the error is handed back.
pub fn queue_to_store<E>(read: Result<Option<LocalQueue>, E>, video_id: &str) -> (r: Result<
    LocalQueue,
    E,
>)
    ensures
        match read {
            Ok(stored) => r matches Ok(q) && q@ == queue_after_push(queue_opt(stored), video_id@),
            Err(e) => r == Err::<LocalQueue, E>(e),
        },
{
    match read {
        Ok(Some(q)) => {
            let mut q = q;
            q.push(video_id);
            Ok(q)
        },
        Ok(None) => {
            let mut q = LocalQueue::default();
            q.push(video_id);
            assert(q@ =~= seq![video_id@]);
            Ok(q)
        },
        Err(e) => Err(e),
    }
}

// ---------------------------------------------------------------- laws

/// A video that is added stands at the end of the queue, behind all that was stored, repeats
/// included; behind the queue of a single video it is the second.
pub proof fn law_queue_grows_at_its_end(stored: Seq<Seq<char>>, first: Seq<char>, id: Seq<char>)
    ensures
        queue_after_push(Some(stored), id).len() == stored.len() + 1,
        queue_after_push(Some(stored), id).last() == id,
        queue_after_push(Some(stored), id).drop_last() == stored,
        queue_after_push(Some(seq![first]), id) == seq![first, id],
        queue_after_push(None, id) == seq![id],
{
}

/// No two devices go by the same alias.
pub open spec fn distinct_aliases(c: ConfigView) -> bool {
    forall|i: int, j: int|
        0 <= i < j < c.devices.len() ==> !text::same_ignoring_case(
            #[trigger] c.devices[i].alias,
            #[trigger] c.devices[j].alias,
        )
}

/// What [`resolved`] chooses is one of the devices.
pub proof fn law_resolved_in_range(c: ConfigView, alias: Option<Seq<char>>)
    ensures
        resolved(c, alias) matches Ok(i) ==> 0 <= i < c.devices.len(),
{
    if let Some(a) = alias {
        lists::lemma_position_is(c.devices, named(a));
    } else if let Some(a) = c.default_device {
        lists::lemma_position_is(c.devices, named_exactly(a));
    }
}

/// An alias finds the same device in any case.
pub proof fn law_alias_ignores_case(c: ConfigView, a: Seq<char>, b: Seq<char>)
    requires
        text::same_ignoring_case(a, b),
    ensures
        resolved(c, Some(a)) is Ok == resolved(c, Some(b)) is Ok,
        resolved(c, Some(a)) is Ok ==> resolved(c, Some(a)) == resolved(c, Some(b)),
{
    assert(named(a) =~= named(b));
}

/// Which device a command is for depends on the aliases and the default alone.
pub proof fn law_aliases_decide(a: ConfigView, b: ConfigView, alias: Option<Seq<char>>)
    requires
        aliases(a) == aliases(b),
        a.default_device == b.default_device,
    ensures
        resolved(a, alias) == resolved(b, alias),
{
    assert(aliases(a).len() == a.devices.len() && aliases(b).len() == b.devices.len());
    assert forall|i: int| 0 <= i < a.devices.len() implies (#[trigger] a.devices[i]).alias
        == b.devices[i].alias by {
        assert(aliases(a)[i] == aliases(b)[i]);
    }
    if let Some(x) = alias {
        lemma_same_position(a.devices, b.devices, named(x));
    } else if let Some(x) = a.default_device {
        lemma_same_position(a.devices, b.devices, named_exactly(x));
    }
}

/// What holds of a device by its alias is first found at the same place among the same aliases.
proof fn lemma_same_position(
    a: Seq<DeviceView>,
    b: Seq<DeviceView>,
    p: spec_fn(DeviceView) -> bool,
)
    requires
        a.len() == b.len(),
        forall|i: int| 0 <= i < a.len() ==> p(#[trigger] a[i]) == p(b[i]),
    ensures
        lists::position(a, p) == lists::position(b, p),
{
    lists::lemma_position_is(a, p);
    lists::lemma_position_is(b, p);
    if let Some(i) = lists::position(a, p) {
        assert(p(a[i]) == p(b[i]));
        assert forall|j: int| 0 <= j < i implies !p(#[trigger] b[j]) by {
            assert(!p(a[j]));
        }
        lists::lemma_position(b, p, i);
    } else if let Some(i) = lists::position(b, p) {
        assert(p(a[i]) == p(b[i]));
    }
}

/// A default that names a device is what a command without a device is for.
pub proof fn law_default_is_chosen(c: ConfigView, i: int)
    requires
        0 <= i < c.devices.len(),
        c.default_device == Some(c.devices[i].alias),
    ensures
        resolved(c, None) matches Ok(j) && 0 <= j <= i && c.devices[j].alias == c.devices[i].alias,
        distinct_aliases(c) ==> resolved(c, None) == Ok::<int, ResolveErrorView>(i),
{
    lists::lemma_position_exists(c.devices, named_exactly(c.devices[i].alias), i);
    let j = default_position(c)->0;
    if distinct_aliases(c) && j < i {
        assert(!text::same_ignoring_case(c.devices[j].alias, c.devices[i].alias));
    }
}

/// The only device is the one that a command without a device is for.
pub proof fn law_only_device_is_chosen(c: ConfigView)
    requires
        c.devices.len() == 1,
    ensures
        resolved(c, None) == Ok::<int, ResolveErrorView>(0),
{
    law_resolved_in_range(c, None);
}

/// A device that was added is found by its alias, on its screen and with its token, and keeps the
/// web URL that the alias had.
pub proof fn law_upsert_is_found(c: ConfigView, d: DeviceView)
    ensures
        resolved(upserted(c, d), Some(d.alias)) matches Ok(i) && {
            let e = upserted(c, d).devices[i];
            &&& e.alias == d.alias
            &&& e.name == d.name
            &&& e.screen_id == d.screen_id
            &&& e.lounge_token == d.lounge_token
            &&& d.web_url is Some ==> e.web_url == d.web_url
            &&& d.web_url is None && lists::position(c.devices, named(d.alias)) is Some ==> e.web_url
                == c.devices[lists::position(c.devices, named(d.alias))->0].web_url
        },
{
    let after = upserted(c, d);
    lists::lemma_position_is(c.devices, named(d.alias));
    let i = match lists::position(c.devices, named(d.alias)) {
        Some(i) => i,
        None => c.devices.len() as int,
    };
    assert forall|j: int| 0 <= j < i implies !named(d.alias)(#[trigger] after.devices[j]) by {
        assert(after.devices[j] == c.devices[j]);
    }
    assert(lists::is_first(after.devices, named(d.alias), i));
    lists::lemma_position(after.devices, named(d.alias), i);
}

/// Adding a device leaves the devices with other aliases, their order and the other settings as
/// they are.
pub proof fn law_upsert_keeps_others(c: ConfigView, d: DeviceView, i: int)
    requires
        0 <= i < c.devices.len(),
        !text::same_ignoring_case(c.devices[i].alias, d.alias),
    ensures
        upserted(c, d).devices[i] == c.devices[i],
        upserted(c, d).default_device == c.default_device,
        upserted(c, d).search_instance == c.search_instance,
        c.devices.len() <= upserted(c, d).devices.len() <= c.devices.len() + 1,
{
    lists::lemma_position_is(c.devices, named(d.alias));
}

/// Adding a device twice is adding it once.
pub proof fn law_upsert_twice(c: ConfigView, d: DeviceView)
    ensures
        upserted(upserted(c, d), d) == upserted(c, d),
{
    law_upsert_is_found(c, d);
    let once = upserted(c, d);
    assert(upserted(once, d).devices =~= once.devices);
}

/// Aliases stay distinct when a device is added.
pub proof fn law_upsert_keeps_aliases_distinct(c: ConfigView, d: DeviceView)
    requires
        distinct_aliases(c),
    ensures
        distinct_aliases(upserted(c, d)),
{
    let after = upserted(c, d);
    lists::lemma_position_is(c.devices, named(d.alias));
    assert forall|i: int, j: int| 0 <= i < j < after.devices.len() implies !text::same_ignoring_case(
        #[trigger] after.devices[i].alias,
        #[trigger] after.devices[j].alias,
    ) by {
        if let Some(k) = lists::position(c.devices, named(d.alias)) {
            assert(text::same_ignoring_case(c.devices[k].alias, d.alias));
            assert(text::lowered(after.devices[i].alias) == text::lowered(c.devices[i].alias));
            assert(text::lowered(after.devices[j].alias) == text::lowered(c.devices[j].alias));
            assert(!text::same_ignoring_case(c.devices[i].alias, c.devices[j].alias));
        } else {
            assert(after.devices[i] == c.devices[i]);
            assert(!named(d.alias)(c.devices[i]));
            if j < c.devices.len() {
                assert(after.devices[j] == c.devices[j]);
            }
        }
    }
}

/// A refreshed token is the token of each device on that screen, and nothing else changes.
pub proof fn law_token_reaches_its_screen(
    c: ConfigView,
    screen_id: Seq<char>,
    token: Seq<char>,
    i: int,
)
    requires
        0 <= i < c.devices.len(),
    ensures
        token_updated(c, screen_id, token).devices.len() == c.devices.len(),
        c.devices[i].screen_id == screen_id ==> token_updated(c, screen_id, token).devices[i] == (
        DeviceView { lounge_token: token, ..c.devices[i] }),
        c.devices[i].screen_id != screen_id ==> token_updated(c, screen_id, token).devices[i]
            == c.devices[i],
        token_updated(c, screen_id, token).default_device == c.default_device,
        token_updated(c, screen_id, token).search_instance == c.search_instance,
{
}

/// A refreshed token is the one that commands for the paired device then use.
pub proof fn law_refreshed_token_is_used(c: ConfigView, d: DeviceView, token: Seq<char>)
    ensures
        ({
            let after = token_updated(upserted(c, d), d.screen_id, token);
            resolved(after, Some(d.alias)) matches Ok(i) && after.devices[i].screen_id
                == d.screen_id && after.devices[i].lounge_token == token
        }),
{
    let before = upserted(c, d);
    let after = token_updated(before, d.screen_id, token);
    law_upsert_is_found(c, d);
    law_resolved_in_range(before, Some(d.alias));
    assert(aliases(after) =~= aliases(before));
    law_aliases_decide(before, after, Some(d.alias));
}

/// Without a device on that screen, a refreshed token changes nothing.
pub proof fn law_token_for_no_screen(c: ConfigView, screen_id: Seq<char>, token: Seq<char>)
    requires
        !has_screen(c, screen_id),
    ensures
        token_updated(c, screen_id, token) == c,
{
    assert forall|i: int| 0 <= i < c.devices.len() implies token_updated(
        c,
        screen_id,
        token,
    ).devices[i] == c.devices[i] by {
        assert(c.devices[i].screen_id != screen_id);
    }
    assert(token_updated(c, screen_id, token).devices =~= c.devices);
}

/// Where the device that a command is for has a web server, titles come from that.
pub proof fn law_web_server_gives_titles(c: ConfigView, alias: Option<Seq<char>>)
    requires
        web_of(c, alias) is Some,
    ensures
        metadata_of(c, alias) == Some(
            web::under(web_of(c, alias)->0, "/playlet-invidious-backend"@),
        ),
{
}

/// Metadata is missing only where no device has a backend.
pub proof fn law_metadata_from_any_device(c: ConfigView, alias: Option<Seq<char>>, i: int)
    requires
        0 <= i < c.devices.len(),
        base_of(c.devices[i], c) is Some,
    ensures
        metadata_of(c, alias) is Some,
{
    lists::lemma_position_exists(c.devices, has_base(c), i);
}

/// The device that is asked for by its alias is the first one with that alias in any case.
pub proof fn law_alias_is_found(c: ConfigView, alias: Seq<char>, i: int)
    requires
        0 <= i < c.devices.len(),
        text::lowered(c.devices[i].alias) == text::lowered(alias),
        forall|j: int|
            0 <= j < i ==> text::lowered((#[trigger] c.devices[j]).alias) != text::lowered(alias),
    ensures
        resolved(c, Some(alias)) == Ok::<int, ResolveErrorView>(i),
        lists::position(c.devices, named(alias)) == Some(i),
{
    let p = named(alias);
    assert forall|j: int| 0 <= j < i implies !p(#[trigger] c.devices[j]) by {}
    assert(p(c.devices[i]));
    lists::lemma_position(c.devices, p, i);
}

/// Where no device has the alias that is asked for, none is chosen, not even the default or the
/// only one.
pub proof fn law_alias_is_missing(c: ConfigView, alias: Seq<char>)
    requires
        forall|j: int|
            0 <= j < c.devices.len() ==> text::lowered((#[trigger] c.devices[j]).alias)
                != text::lowered(alias),
    ensures
        c.devices.len() > 0 ==> resolved(c, Some(alias)) == Err::<int, ResolveErrorView>(
            ResolveErrorView::NoSuchDevice(alias),
        ),
        lists::position(c.devices, named(alias)) is None,
{
    let p = named(alias);
    lists::lemma_position_is(c.devices, p);
    if lists::position(c.devices, p) is Some {
        let i = lists::position(c.devices, p)->0;
        assert(p(c.devices[i]));
    }
}

/// Without an alias the default device is chosen, wherever it stands.
pub proof fn law_default_is_found(c: ConfigView, i: int)
    requires
        0 <= i < c.devices.len(),
        c.default_device == Some(c.devices[i].alias),
        forall|j: int| 0 <= j < i ==> (#[trigger] c.devices[j]).alias != c.devices[i].alias,
    ensures
        resolved(c, None) == Ok::<int, ResolveErrorView>(i),
        default_position(c) == Some(i),
{
    let p = named_exactly(c.devices[i].alias);
    assert forall|j: int| 0 <= j < i implies !p(#[trigger] c.devices[j]) by {}
    assert(p(c.devices[i]));
    lists::lemma_position(c.devices, p, i);
}

/// Without an alias and without a default that is paired, the only device is chosen; where there
/// are several, none is, and the error names each of them in order; and where there is none, that
/// is the error.
pub proof fn law_choice_without_default(c: ConfigView)
    requires
        c.default_device matches Some(a) ==> forall|j: int|
            0 <= j < c.devices.len() ==> (#[trigger] c.devices[j]).alias != a,
    ensures
        c.devices.len() == 0 ==> resolved(c, None) == Err::<int, ResolveErrorView>(
            ResolveErrorView::NoDevices,
        ),
        c.devices.len() == 1 ==> resolved(c, None) == Ok::<int, ResolveErrorView>(0),
        c.devices.len() > 1 ==> {
            &&& resolved(c, None) matches Err(ResolveErrorView::Ambiguous(v))
            &&& v.len() == c.devices.len()
            &&& forall|j: int| 0 <= j < v.len() ==> #[trigger] v[j] == c.devices[j].alias
        },
        default_position(c) is None,
{
    if let Some(a) = c.default_device {
        let p = named_exactly(a);
        lists::lemma_position_is(c.devices, p);
        if lists::position(c.devices, p) is Some {
            let i = lists::position(c.devices, p)->0;
            assert(p(c.devices[i]));
        }
    }
}

/// Where no device is paired, none is chosen, whatever is asked for.
pub proof fn law_no_devices(c: ConfigView, alias: Option<Seq<char>>)
    requires
        c.devices.len() == 0,
    ensures
        resolved(c, alias) == Err::<int, ResolveErrorView>(ResolveErrorView::NoDevices),
{
}

/// A device with a new alias is added behind the others, which stay as they are.
pub proof fn law_upsert_adds(c: ConfigView, d: DeviceView)
    requires
        forall|j: int|
            0 <= j < c.devices.len() ==> text::lowered((#[trigger] c.devices[j]).alias)
                != text::lowered(d.alias),
    ensures
        upserted(c, d).devices == c.devices.push(d),
        upserted(c, d).default_device == c.default_device,
        upserted(c, d).search_instance == c.search_instance,
{
    law_alias_is_missing(c, d.alias);
}

/// A device with the alias of a paired one takes its place, and its web address where it has none
/// of its own; the other devices stay as they are.
pub proof fn law_upsert_replaces(c: ConfigView, d: DeviceView, i: int)
    requires
        0 <= i < c.devices.len(),
        text::lowered(c.devices[i].alias) == text::lowered(d.alias),
        forall|j: int|
            0 <= j < i ==> text::lowered((#[trigger] c.devices[j]).alias) != text::lowered(d.alias),
    ensures
        upserted(c, d).devices.len() == c.devices.len(),
        forall|j: int|
            0 <= j < c.devices.len() && j != i ==> #[trigger] upserted(c, d).devices[j]
                == c.devices[j],
        upserted(c, d).devices[i].alias == d.alias,
        upserted(c, d).devices[i].name == d.name,
        upserted(c, d).devices[i].screen_id == d.screen_id,
        upserted(c, d).devices[i].lounge_token == d.lounge_token,
        d.web_url is Some ==> upserted(c, d).devices[i].web_url == d.web_url,
        d.web_url is None ==> upserted(c, d).devices[i].web_url == c.devices[i].web_url,
        upserted(c, d).default_device == c.default_device,
        upserted(c, d).search_instance == c.search_instance,
{
    law_alias_is_found(c, d.alias, i);
}

/// A refreshed device has the new screen and token and is otherwise as it was, and so are all the
/// others.
pub proof fn law_refresh_changes_one(
    c: ConfigView,
    alias: Seq<char>,
    screen_id: Seq<char>,
    token: Seq<char>,
    i: int,
)
    requires
        0 <= i < c.devices.len(),
        text::lowered(c.devices[i].alias) == text::lowered(alias),
        forall|j: int|
            0 <= j < i ==> text::lowered((#[trigger] c.devices[j]).alias) != text::lowered(alias),
    ensures
        refreshed(c, alias, screen_id, token).devices.len() == c.devices.len(),
        forall|j: int|
            0 <= j < c.devices.len() && j != i ==> #[trigger] refreshed(
                c,
                alias,
                screen_id,
                token,
            ).devices[j] == c.devices[j],
        refreshed(c, alias, screen_id, token).devices[i].alias == c.devices[i].alias,
        refreshed(c, alias, screen_id, token).devices[i].name == c.devices[i].name,
        refreshed(c, alias, screen_id, token).devices[i].screen_id == screen_id,
        refreshed(c, alias, screen_id, token).devices[i].lounge_token == token,
        refreshed(c, alias, screen_id, token).devices[i].web_url == c.devices[i].web_url,
        refreshed(c, alias, screen_id, token).default_device == c.default_device,
        refreshed(c, alias, screen_id, token).search_instance == c.search_instance,
{
    law_alias_is_found(c, alias, i);
}

/// Refreshing a device that is not there changes nothing.
pub proof fn law_refresh_of_unknown(
    c: ConfigView,
    alias: Seq<char>,
    screen_id: Seq<char>,
    token: Seq<char>,
)
    requires
        forall|j: int|
            0 <= j < c.devices.len() ==> text::lowered((#[trigger] c.devices[j]).alias)
                != text::lowered(alias),
    ensures
        refreshed(c, alias, screen_id, token) == c,
{
    law_alias_is_missing(c, alias);
}

/// A new token goes to every device on the screen and to no other, and changes nothing else.
pub proof fn law_token_goes_to_screen(c: ConfigView, screen_id: Seq<char>, token: Seq<char>, i: int)
    requires
        0 <= i < c.devices.len(),
    ensures
        token_updated(c, screen_id, token).devices.len() == c.devices.len(),
        c.devices[i].screen_id != screen_id ==> token_updated(c, screen_id, token).devices[i]
            == c.devices[i],
        c.devices[i].screen_id == screen_id ==> token_updated(
            c,
            screen_id,
            token,
        ).devices[i].lounge_token == token,
        token_updated(c, screen_id, token).devices[i].screen_id == c.devices[i].screen_id,
        token_updated(c, screen_id, token).devices[i].alias == c.devices[i].alias,
        token_updated(c, screen_id, token).devices[i].name == c.devices[i].name,
        token_updated(c, screen_id, token).devices[i].web_url == c.devices[i].web_url,
        token_updated(c, screen_id, token).default_device == c.default_device,
        token_updated(c, screen_id, token).search_instance == c.search_instance,
        c.devices[i].screen_id == screen_id ==> has_screen(c, screen_id),
{
}

/// A screen that no device is on is on none.
pub proof fn law_screen_of_no_device(c: ConfigView, screen_id: Seq<char>)
    requires
        forall|j: int|
            0 <= j < c.devices.len() ==> (#[trigger] c.devices[j]).screen_id != screen_id,
    ensures
        !has_screen(c, screen_id),
{
}

/// A device searches through its own web server where it has one, else through the configured
/// instance, else not at all.
pub proof fn law_own_server_comes_first(d: DeviceView, c: ConfigView)
    ensures
        d.web_url is Some ==> base_of(d, c) == Some(
            web::under(d.web_url->0, "/playlet-invidious-backend"@),
        ),
        d.web_url is None && c.search_instance is Some ==> base_of(d, c) == Some(
            text::trimmed_end_of(c.search_instance->0, '/'),
        ),
        d.web_url is None && c.search_instance is None ==> base_of(d, c) is None,
{
}

/// What is asked of the device that a command is for is asked of the chosen one: its search
/// backend, its web address and its name; where none is chosen, there is an error, no address, and
/// a name for any screen.
pub proof fn law_chosen_device_answers(c: ConfigView, alias: Option<Seq<char>>)
    ensures
        resolved(c, alias) matches Ok(i) ==> {
            &&& base_of(c.devices[i], c) is Some ==> backend_of(c, alias) == Ok::<
                Seq<char>,
                BackendErrorView,
            >(base_of(c.devices[i], c)->0)
            &&& base_of(c.devices[i], c) is None ==> backend_of(c, alias) == Err::<
                Seq<char>,
                BackendErrorView,
            >(BackendErrorView::NoBackend(c.devices[i].alias))
            &&& web_of(c, alias) == c.devices[i].web_url
            &&& label_of(c, alias) == c.devices[i].name
        },
        resolved(c, alias) matches Err(e) ==> {
            &&& backend_of(c, alias) == Err::<Seq<char>, BackendErrorView>(
                BackendErrorView::Resolve(e),
            )
            &&& web_of(c, alias) is None
            &&& label_of(c, alias) == "the screen"@
        },
{
}

/// Videos are looked up through the chosen device where it can; else through the first device that
/// can; and not at all only where no device can.
pub proof fn law_lookup_finds_backend(c: ConfigView, alias: Option<Seq<char>>, i: int)
    requires
        0 <= i < c.devices.len(),
        base_of(c.devices[i], c) is Some,
        forall|j: int| 0 <= j < i ==> base_of(#[trigger] c.devices[j], c) is None,
    ensures
        (resolved(c, alias) matches Ok(k) && base_of(c.devices[k], c) is Some) ==> metadata_of(
            c,
            alias,
        ) == base_of(c.devices[resolved(c, alias)->Ok_0], c),
        !(resolved(c, alias) matches Ok(k) && base_of(c.devices[k], c) is Some) ==> metadata_of(
            c,
            alias,
        ) == base_of(c.devices[i], c),
{
    let p = has_base(c);
    assert forall|j: int| 0 <= j < i implies !p(#[trigger] c.devices[j]) by {}
    assert(p(c.devices[i]));
    lists::lemma_position(c.devices, p, i);
}

/// Where no device has a backend, there is none to look videos up with.
pub proof fn law_lookup_without_backend(c: ConfigView, alias: Option<Seq<char>>)
    requires
        forall|j: int| 0 <= j < c.devices.len() ==> base_of(#[trigger] c.devices[j], c) is None,
    ensures
        metadata_of(c, alias) is None,
{
    let p = has_base(c);
    lists::lemma_position_is(c.devices, p);
    if lists::position(c.devices, p) is Some {
        let i = lists::position(c.devices, p)->0;
        assert(p(c.devices[i]));
    }
    law_resolved_in_range(c, alias);
}

/// A video is added behind those that are stored, which stay; where none are stored it is the only
/// one.
pub proof fn law_queue_grows_at_end(q: Seq<Seq<char>>, id: Seq<char>)
    ensures
        queue_after_push(Some(q), id).len() == q.len() + 1,
        queue_after_push(Some(q), id).last() == id,
        queue_after_push(Some(q), id).drop_last() == q,
        queue_after_push(None, id) == seq![id],
{
    assert(q.push(id).drop_last() =~= q);
}

/// Each error says what is missing.
pub proof fn law_errors_by_message(a: Seq<char>, v: Seq<Seq<char>>)
    ensures
        resolve_message(ResolveErrorView::NoDevices)
            == "no paired devices. Run `tubecast pair <CODE>` first."@,
        resolve_message(ResolveErrorView::NoSuchDevice(a)) == "no paired device named '"@ + a + "'"@,
        resolve_message(ResolveErrorView::Ambiguous(v))
            == "multiple devices paired and no default set; pass --device <alias> (one of: "@
            + text::joined(v, ", "@) + ")"@,
        backend_message(BackendErrorView::Resolve(ResolveErrorView::NoSuchDevice(a)))
            == "no paired device named '"@ + a + "'"@,
        backend_message(BackendErrorView::NoBackend(a)) == "no search backend for '"@ + a
            + "'. Link a Playlet TV with `tubecast link-web http://<tv-ip>:8888`, or set search_instance in the config to an Invidious instance."@,
{
}

/// The settings show one device for each that is paired, in order, with its own fields.
pub proof fn law_one_device_for_each(c: Config, i: int)
    requires
        0 <= i < c.devices@.len(),
    ensures
        c@.devices.len() == c.devices@.len(),
        c@.devices[i].alias == c.devices@[i].alias@,
        c@.devices[i].name == c.devices@[i].name@,
        c@.devices[i].screen_id == c.devices@[i].screen_id@,
        c@.devices[i].lounge_token == c.devices@[i].lounge_token@,
        c@.devices[i].web_url == text::text_opt(c.devices@[i].web_url),
        c@.default_device == text::text_opt(c.default_device),
        c@.search_instance == text::text_opt(c.search_instance),
{
}

} // verus!
