//! Pairing TVs, finding them again, and choosing among them.

use crate::config::{Config, ConfigView, Device, DeviceView, ResolveError, ResolveErrorView};
use crate::config;
use crate::dial::{DialDevice, DialDeviceView};
use crate::lists;
use crate::slug;
use crate::text;
use crate::web;
use vstd::prelude::*;

verus! {

/// What the lounge says of a screen that was paired with.
pub struct Screen {
    pub name: Option<String>,
    pub screen_id: String,
    pub lounge_token: String,
}

/// The texts of a [`Screen`].
#[verifier::ext_equal]
pub struct ScreenView {
    pub name: Option<Seq<char>>,
    pub screen_id: Seq<char>,
    pub lounge_token: Seq<char>,
}

impl View for Screen {
    type V = ScreenView;

    open spec fn view(&self) -> ScreenView {
        ScreenView {
            name: text::text_opt(self.name),
            screen_id: self.screen_id@,
            lounge_token: self.lounge_token@,
        }
    }
}

/// What became of a pairing.
pub struct Paired {
    pub name: String,
    pub alias: String,
    /// Whether the device became the default.
    pub default: bool,
}

/// The mark behind the default device.
pub open spec fn default_mark(is_default: bool) -> Seq<char> {
    if is_default {
        " (default)"@
    } else {
        Seq::empty()
    }
}

/// [`default_mark`], as code.
fn mark_default(is_default: bool) -> (r: &'static str)
    ensures
        r@ == default_mark(is_default),
{
    if is_default {
        " (default)"
    } else {
        proof {
            reveal_strlit("");
        }
        assert(""@ =~= Seq::empty());
        ""
    }
}

impl Paired {
    /// The message for the user.
    pub fn message(&self) -> (r: String)
        ensures
            r@ == "paired '"@ + self.name@ + "' as '"@ + self.alias@ + "'"@ + default_mark(
                self.default,
            ),
    {
        let mut r = text::concat3("paired '", self.name.as_str(), "' as '");
        r.append(self.alias.as_str());
        r.append("'");
        r.append(mark_default(self.default));
        r
    }
}

/// A pairing code as it is sent: without the white space that the TV shows in it.
pub fn pairing_code(code: &str) -> (r: String)
    ensures
        r@ == text::without_space(code@),
{
    text::remove_space(code)
}

/// The name of a screen.
pub open spec fn screen_name(s: ScreenView) -> Seq<char> {
    match s.name {
        Some(n) => n,
        None => "TV"@,
    }
}

/// The alias that a screen is paired under: the one that was asked for, else one made of its
/// name.
pub open spec fn screen_alias(s: ScreenView, alias: Option<Seq<char>>) -> Seq<char> {
    match alias {
        Some(a) => a,
        None => slug::slug(screen_name(s)),
    }
}

/// The device that a screen becomes.
pub open spec fn screen_device(s: ScreenView, alias: Option<Seq<char>>) -> DeviceView {
    DeviceView {
        alias: screen_alias(s, alias),
        name: screen_name(s),
        screen_id: s.screen_id,
        lounge_token: s.lounge_token,
        web_url: None,
    }
}

/// The settings with a device added, and made the default where that is asked for or where it is
/// the first.
pub open spec fn enrolled(c: ConfigView, d: DeviceView, default: bool) -> ConfigView {
    let after = config::upserted(c, d);
    if default || c.devices.len() == 0 {
        ConfigView { default_device: Some(d.alias), ..after }
    } else {
        after
    }
}

/// Adds a device, and makes it the default where that is asked for or where it is the first.
/// Returns whether it became the default.
fn enroll(cfg: &mut Config, device: Device, default: bool) -> (made_default: bool)
    ensures
        final(cfg)@ == enrolled(old(cfg)@, device@, default),
        made_default == (default || old(cfg)@.devices.len() == 0),
{
    let make_default = default || cfg.devices.len() == 0;
    let alias = text::copy(device.alias.as_str());
    cfg.upsert(device);
    if make_default {
        cfg.default_device = Some(alias);
    }
    make_default
}

/// Pair (or re-pair) a device with the screen that a TV code led to.
/// Returns the device's friendly name, alias, and whether it became default.
pub fn pair_screen(cfg: &mut Config, screen: Screen, alias: Option<String>, default: bool) -> (r:
    Paired)
    ensures
        final(cfg)@ == enrolled(old(cfg)@, screen_device(screen@, text::text_opt(alias)), default),
        r.name@ == screen_name(screen@),
        r.alias@ == screen_alias(screen@, text::text_opt(alias)),
        r.default == (default || old(cfg)@.devices.len() == 0),
{
    let name = match screen.name {
        Some(n) => n,
        None => text::copy("TV"),
    };
    let alias = match alias {
        Some(a) => a,
        None => slug::slugify(name.as_str()),
    };
    let device = Device {
        alias: text::copy(alias.as_str()),
        name: text::copy(name.as_str()),
        screen_id: screen.screen_id,
        lounge_token: screen.lounge_token,
        web_url: None,
    };
    let made_default = enroll(cfg, device, default);
    Paired { name, alias, default: made_default }
}

// ---------------------------------------------------------------- discovery

/// The texts of a list of found devices.
pub open spec fn dial_views(v: Seq<DialDevice>) -> Seq<DialDeviceView> {
    v.map_values(|d: DialDevice| d@)
}

/// The host of a device's web server.
pub open spec fn web_host(web_url: Option<Seq<char>>) -> Option<Seq<char>> {
    match web_url {
        Some(u) => web::host_of(u),
        None => None,
    }
}

/// [`web_host`], as code.
fn host_of_web(web_url: &Option<String>) -> (r: Option<String>)
    ensures
        text::text_opt(r) == web_host(text::text_opt(*web_url)),
{
    match web_url {
        Some(u) => web::ip_from_url(u.as_str()),
        None => None,
    }
}

/// The found device is the paired one: it has its screen, its name up to spelling, or the host of
/// its web server. `host` is that host, `found_host` the one the device was found on.
pub open spec fn is_same_tv(
    d: DeviceView,
    found: DialDeviceView,
    host: Option<Seq<char>>,
    found_host: Option<Seq<char>>,
) -> bool {
    ||| d.screen_id == found.screen_id
    ||| slug::slug(d.name) == slug::slug(found.name)
    ||| (host is Some && found_host == host)
}

/// Whether the found device is the paired one, from the hosts of their addresses.
pub fn same_tv(
    d: &Device,
    found: &DialDevice,
    host: &Option<String>,
    found_host: &Option<String>,
) -> (r: bool)
    ensures
        r == is_same_tv(d@, found@, text::text_opt(*host), text::text_opt(*found_host)),
{
    let same_name = text::same_text(
        slug::slugify(d.name.as_str()).as_str(),
        slug::slugify(found.name.as_str()).as_str(),
    );
    let same_host = host.is_some() && text::same_option(found_host, host);
    text::same_text(d.screen_id.as_str(), found.screen_id.as_str()) || same_name || same_host
}

/// The found device is the paired one.
pub open spec fn is_known_as(found: DialDeviceView) -> spec_fn(DeviceView) -> bool {
    |d: DeviceView| is_same_tv(d, found, web_host(d.web_url), web::host_of(found.location))
}

/// The device that a found one is added as.
pub open spec fn found_device(found: DialDeviceView) -> DeviceView {
    DeviceView {
        alias: slug::slug(found.name),
        name: found.name,
        screen_id: found.screen_id,
        lounge_token: found.lounge_token,
        web_url: None,
    }
}

/// The settings once a found device is taken in: one that is paired gets its new screen and
/// token, another is added.
pub open spec fn absorbed(c: ConfigView, found: DialDeviceView) -> ConfigView {
    match lists::position(c.devices, is_known_as(found)) {
        Some(i) => config::refreshed(c, c.devices[i].alias, found.screen_id, found.lounge_token),
        None => enrolled(c, found_device(found), false),
    }
}

/// What is said of a found device.
pub open spec fn absorbed_line(c: ConfigView, found: DialDeviceView) -> Seq<char> {
    match lists::position(c.devices, is_known_as(found)) {
        Some(i) => "  refreshed '"@ + c.devices[i].alias + "' ("@ + found.name + ")"@,
        None => "  paired '"@ + slug::slug(found.name) + "' ("@ + found.name + ")"@ + default_mark(
            c.devices.len() == 0,
        ),
    }
}

/// The position of the paired device that a found one is.
fn find_known(cfg: &Config, found: &DialDevice) -> (r: Option<usize>)
    ensures
        match r {
            Some(i) => i < cfg.devices@.len() && lists::position(cfg@.devices, is_known_as(found@)) == Some(
                i as int,
            ),
            None => lists::position(cfg@.devices, is_known_as(found@)) is None,
        },
{
    let found_host = web::ip_from_url(found.location.as_str());
    let mut i: usize = 0;
    while i < cfg.devices.len()
        invariant
            i <= cfg.devices.len(),
            text::text_opt(found_host) == web::host_of(found@.location),
            forall|j: int| 0 <= j < i ==> !is_known_as(found@)(#[trigger] cfg@.devices[j]),
        decreases cfg.devices.len() - i,
    {
        assert(cfg@.devices[i as int] == cfg.devices@[i as int]@);
        let d = &cfg.devices[i];
        let host = host_of_web(&d.web_url);
        if same_tv(d, found, &host, &found_host) {
            proof {
                lists::lemma_position(cfg@.devices, is_known_as(found@), i as int);
            }
            return Some(i);
        }
        i += 1;
    }
    proof {
        lists::lemma_position_is(cfg@.devices, is_known_as(found@));
    }
    None
}

/// Takes a found device into the settings. Returns what to say of it.
pub fn absorb(cfg: &mut Config, found: &DialDevice) -> (r: String)
    ensures
        final(cfg)@ == absorbed(old(cfg)@, found@),
        r@ == absorbed_line(old(cfg)@, found@),
{
    match find_known(cfg, found) {
        Some(i) => {
            let alias = text::copy(cfg.devices[i].alias.as_str());
            cfg.refresh(alias.as_str(), found.screen_id.as_str(), found.lounge_token.as_str());
            let mut r = text::concat3("  refreshed '", alias.as_str(), "' (");
            r.append(found.name.as_str());
            r.append(")");
            r
        },
        None => {
            let alias = slug::slugify(found.name.as_str());
            let device = Device {
                alias: text::copy(alias.as_str()),
                name: text::copy(found.name.as_str()),
                screen_id: text::copy(found.screen_id.as_str()),
                lounge_token: text::copy(found.lounge_token.as_str()),
                web_url: None,
            };
            let made_default = enroll(cfg, device, false);
            let mut r = text::concat3("  paired '", alias.as_str(), "' (");
            r.append(found.name.as_str());
            r.append(")");
            r.append(mark_default(made_default));
            r
        },
    }
}

/// The settings once a list of found devices is taken in, one after the other.
pub open spec fn all_absorbed(c: ConfigView, found: Seq<DialDeviceView>) -> ConfigView
    decreases found.len(),
{
    if found.len() == 0 {
        c
    } else {
        absorbed(all_absorbed(c, found.drop_last()), found.last())
    }
}

/// What is said of a list of found devices.
pub open spec fn all_absorbed_lines(c: ConfigView, found: Seq<DialDeviceView>) -> Seq<Seq<char>>
    decreases found.len(),
{
    if found.len() == 0 {
        Seq::empty()
    } else {
        all_absorbed_lines(c, found.drop_last()).push(
            absorbed_line(all_absorbed(c, found.drop_last()), found.last()),
        )
    }
}

/// Takes found devices into the settings, one after the other. Returns what to say of each.
pub fn absorb_all(cfg: &mut Config, found: &Vec<DialDevice>) -> (r: Vec<String>)
    ensures
        final(cfg)@ == all_absorbed(old(cfg)@, dial_views(found@)),
        text::texts(r@) == all_absorbed_lines(old(cfg)@, dial_views(found@)),
{
    let mut r: Vec<String> = Vec::new();
    let mut i: usize = 0;
    assert(dial_views(found@).take(0) =~= Seq::empty());
    assert(text::texts(r@) =~= Seq::empty());
    while i < found.len()
        invariant
            i <= found.len(),
            cfg@ == all_absorbed(old(cfg)@, dial_views(found@).take(i as int)),
            text::texts(r@) == all_absorbed_lines(old(cfg)@, dial_views(found@).take(i as int)),
        decreases found.len() - i,
    {
        let ghost next = dial_views(found@).take(i + 1);
        assert(next.drop_last() =~= dial_views(found@).take(i as int));
        assert(next.last() == found@[i as int]@);
        let ghost before = r@;
        let line = absorb(cfg, &found[i]);
        r.push(line);
        assert(text::texts(r@) =~= text::texts(before).push(line@));
        i += 1;
    }
    assert(dial_views(found@).take(i as int) =~= dial_views(found@));
    r
}

// ---------------------------------------------------------------- repair

/// The found device is the one whose pairing went stale: it is the paired one, or its name makes
/// the alias of that. The hosts are as for [`is_same_tv`].
pub open spec fn is_lost_tv(
    d: DeviceView,
    found: DialDeviceView,
    host: Option<Seq<char>>,
    found_host: Option<Seq<char>>,
) -> bool {
    is_same_tv(d, found, host, found_host) || slug::slug(found.name) == d.alias
}

/// Whether the found device is the one whose pairing went stale, from the hosts of their
/// addresses.
pub fn lost_tv(
    d: &Device,
    found: &DialDevice,
    host: &Option<String>,
    found_host: &Option<String>,
) -> (r: bool)
    ensures
        r == is_lost_tv(d@, found@, text::text_opt(*host), text::text_opt(*found_host)),
{
    same_tv(d, found, host, found_host) || text::same_text(
        slug::slugify(found.name.as_str()).as_str(),
        d.alias.as_str(),
    )
}

/// The found device is the one whose pairing went stale.
pub open spec fn is_lost(d: DeviceView) -> spec_fn(DialDeviceView) -> bool {
    |found: DialDeviceView|
        is_lost_tv(d, found, web_host(d.web_url), web::host_of(found.location))
}

/// The position of the found device that a paired one is.
pub fn find_lost(dev: &Device, found: &Vec<DialDevice>) -> (r: Option<usize>)
    ensures
        match r {
            Some(i) => i < found@.len() && lists::position(dial_views(found@), is_lost(dev@)) == Some(
                i as int,
            ),
            None => lists::position(dial_views(found@), is_lost(dev@)) is None,
        },
{
    let host = host_of_web(&dev.web_url);
    let ghost views = dial_views(found@);
    let mut i: usize = 0;
    while i < found.len()
        invariant
            i <= found.len(),
            views == dial_views(found@),
            text::text_opt(host) == web_host(dev@.web_url),
            forall|j: int| 0 <= j < i ==> !is_lost(dev@)(#[trigger] views[j]),
        decreases found.len() - i,
    {
        assert(views[i as int] == found@[i as int]@);
        let d = &found[i];
        let found_host = web::ip_from_url(d.location.as_str());
        if lost_tv(dev, d, &host, &found_host) {
            proof {
                lists::lemma_position(views, is_lost(dev@), i as int);
            }
            return Some(i);
        }
        i += 1;
    }
    proof {
        lists::lemma_position_is(views, is_lost(dev@));
    }
    None
}

/// What to do about a device whose pairing went stale, once the network was searched.
pub enum RepairStep {
    /// Put the device on the screen of the found device at this position.
    Refresh(usize),
    /// Say how to pair again, and give up.
    Hint,
    /// Ask the user for a fresh code.
    AskCode,
}

/// Decides what to do about a device whose pairing went stale. `found` is what the search found,
/// where it worked; `interactive` tells whether there is a user to ask.
pub fn repair_step(dev: &Device, found: Option<&Vec<DialDevice>>, interactive: bool) -> (r:
    RepairStep)
    ensures
        match r {
            RepairStep::Refresh(i) => found matches Some(f) && i < f@.len() && lists::position(
                dial_views(f@),
                is_lost(dev@),
            ) == Some(i as int),
            RepairStep::Hint => !interactive && (found matches Some(f) ==> lists::position(
                dial_views(f@),
                is_lost(dev@),
            ) is None),
            RepairStep::AskCode => interactive && (found matches Some(f) ==> lists::position(
                dial_views(f@),
                is_lost(dev@),
            ) is None),
        },
{
    if let Some(f) = found {
        if let Some(i) = find_lost(dev, f) {
            return RepairStep::Refresh(i);
        }
    }
    if interactive {
        RepairStep::AskCode
    } else {
        RepairStep::Hint
    }
}

/// What is said where the search found devices, and not the one it was for.
pub fn none_matched(found: usize, alias: &str) -> (r: Option<String>)
    ensures
        text::text_opt(r) == if found == 0 {
            None
        } else {
            Some("found "@ + text::decimal_text(found as int) + " device(s) but none matched '"@ + alias@ + "'."@)
        },
{
    if found == 0 {
        return None;
    }
    let mut r = text::concat3(
        "found ",
        text::decimal(found as i128).as_str(),
        " device(s) but none matched '",
    );
    r.append(alias);
    r.append("'.");
    Some(r)
}

/// The code that the user typed, or `None` where the user skipped it.
pub fn typed_code(input: &str) -> (r: Option<String>)
    ensures
        text::text_opt(r) == if text::trimmed(input@).len() == 0 {
            None
        } else {
            Some(text::trimmed(input@))
        },
{
    let code = text::trim(input);
    if code.as_str().is_empty() {
        None
    } else {
        Some(code)
    }
}

// ---------------------------------------------------------------- web servers

/// Why a web address was not linked.
#[derive(Debug)]
pub enum LinkError {
    /// The address is no web address.
    NotHttp,
    Resolve(ResolveError),
}

impl LinkError {
    /// The message for the user.
    pub fn message(&self) -> (r: String)
        ensures
            r@ == match *self {
                LinkError::NotHttp => "url must start with http:// or https://"@,
                LinkError::Resolve(e) => config::resolve_message(e@),
            },
    {
        match self {
            LinkError::NotHttp => text::copy("url must start with http:// or https://"),
            LinkError::Resolve(e) => e.message(),
        }
    }
}

/// A text that starts like a web address.
pub open spec fn is_web_address(url: Seq<char>) -> bool {
    text::has_prefix(url, "http://"@) || text::has_prefix(url, "https://"@)
}

/// The settings with a web address for the device of that alias.
pub open spec fn linked(c: ConfigView, alias: Seq<char>, url: Seq<char>) -> ConfigView {
    match lists::position(c.devices, config::named(alias)) {
        Some(i) => ConfigView {
            devices: c.devices.update(i, DeviceView { web_url: Some(url), ..c.devices[i] }),
            ..c
        },
        None => c,
    }
}

/// Whether an address can be linked: it is looked at before the settings are read.
pub fn check_web_address(url: &str) -> (r: Result<(), LinkError>)
    ensures
        r is Ok == is_web_address(url@),
        r matches Err(e) ==> e is NotHttp,
{
    if !text::starts_with(url, "http://") && !text::starts_with(url, "https://") {
        return Err(LinkError::NotHttp);
    }
    Ok(())
}

/// Links the device that a command is for with a web address. Returns the device's alias and the
/// address as it was linked.
pub fn link_web(cfg: &mut Config, url: &str, device: Option<&str>) -> (r: Result<
    (String, String),
    LinkError,
>)
    ensures
        match r {
            Ok((alias, trimmed)) => {
                &&& is_web_address(url@)
                &&& config::resolved(old(cfg)@, text::str_opt(device)) matches Ok(i)
                &&& alias@ == old(cfg)@.devices[i].alias
                &&& trimmed@ == text::trimmed_end_of(url@, '/')
                &&& final(cfg)@ == linked(old(cfg)@, alias@, trimmed@)
            },
            Err(LinkError::NotHttp) => !is_web_address(url@) && final(cfg)@ == old(cfg)@,
            Err(LinkError::Resolve(e)) => is_web_address(url@) && config::resolved(
                old(cfg)@,
                text::str_opt(device),
            ) == Err::<int, ResolveErrorView>(e@) && final(cfg)@ == old(cfg)@,
        },
{
    check_web_address(url)?;
    let alias = match cfg.resolve(device) {
        Ok(d) => text::copy(d.alias.as_str()),
        Err(e) => {
            return Err(LinkError::Resolve(e));
        },
    };
    let trimmed = text::trim_end_matches(url, '/');
    if let Some(d) = cfg.device_mut(alias.as_str()) {
        d.web_url = Some(text::copy(trimmed.as_str()));
    }
    assert(cfg@.devices =~= linked(old(cfg)@, alias@, trimmed@).devices);
    Ok((alias, trimmed))
}

/// What is said of a linked device.
pub fn linked_message(alias: &str, url: &str) -> (r: String)
    ensures
        r@ == "linked '"@ + alias@ + "' -> "@ + url@ + " (search enabled)"@,
{
    let mut r = text::concat3("linked '", alias, "' -> ");
    r.append(url);
    r.append(" (search enabled)");
    r
}

// ---------------------------------------------------------------- the default device

/// Why the default device was not chosen.
#[derive(Debug)]
pub enum UseError {
    Resolve(ResolveError),
    /// There is no user to ask, so the alias must be given: it is one of these.
    NeedAlias(Vec<String>),
}

impl UseError {
    /// The message for the user.
    pub fn message(&self) -> (r: String)
        ensures
            r@ == match *self {
                UseError::Resolve(e) => config::resolve_message(e@),
                UseError::NeedAlias(v) => "pass a device alias (one of: "@ + text::joined(
                    text::texts(v@),
                    ", "@,
                ) + ")"@,
            },
    {
        match self {
            UseError::Resolve(e) => e.message(),
            UseError::NeedAlias(v) => text::concat3(
                "pass a device alias (one of: ",
                text::join(v, ", ").as_str(),
                ")",
            ),
        }
    }
}

/// How the default device is chosen.
pub enum UseStep {
    /// The device with this alias is the one.
    Chosen(String),
    /// The user picks from these labels; the cursor stands on the position.
    Pick(Vec<String>, usize),
}

/// How a device is shown to pick from.
pub open spec fn pick_label(d: DeviceView) -> Seq<char> {
    d.alias + "  ("@ + d.name + ")"@
}

/// How all devices are shown to pick from.
pub open spec fn pick_labels(c: ConfigView) -> Seq<Seq<char>> {
    c.devices.map_values(|d: DeviceView| pick_label(d))
}

/// Where the cursor stands at first.
pub open spec fn pick_start(c: ConfigView) -> int {
    match config::default_position(c) {
        Some(i) => i,
        None => 0,
    }
}

/// Decides how the default device is chosen. `interactive` tells whether there is a user to ask.
pub fn use_step(cfg: &Config, alias: Option<&str>, interactive: bool) -> (r: Result<
    UseStep,
    UseError,
>)
    ensures
        match r {
            Ok(UseStep::Chosen(chosen)) => {
                &&& alias is Some
                &&& config::resolved(cfg@, text::str_opt(alias)) matches Ok(i)
                &&& chosen@ == cfg@.devices[i].alias
            },
            Ok(UseStep::Pick(labels, start)) => {
                &&& alias is None
                &&& interactive
                &&& cfg@.devices.len() > 0
                &&& text::texts(labels@) == pick_labels(cfg@)
                &&& start == pick_start(cfg@)
                &&& start < labels@.len()
            },
            Err(UseError::Resolve(e)) => (cfg@.devices.len() == 0 || alias is Some) && config::resolved(
                cfg@,
                text::str_opt(alias),
            ) == Err::<int, ResolveErrorView>(e@),
            Err(UseError::NeedAlias(v)) => alias is None && !interactive && cfg@.devices.len() > 0
                && text::texts(v@) == config::aliases(cfg@),
        },
{
    if cfg.devices.len() == 0 {
        return Err(UseError::Resolve(ResolveError::NoDevices));
    }
    if alias.is_some() {
        return match cfg.resolve(alias) {
            Ok(d) => Ok(UseStep::Chosen(text::copy(d.alias.as_str()))),
            Err(e) => Err(UseError::Resolve(e)),
        };
    }
    if !interactive {
        return Err(UseError::NeedAlias(cfg.aliases()));
    }
    let mut labels: Vec<String> = Vec::new();
    let mut i: usize = 0;
    while i < cfg.devices.len()
        invariant
            i <= cfg.devices.len(),
            text::texts(labels@) == pick_labels(cfg@).take(i as int),
        decreases cfg.devices.len() - i,
    {
        let ghost before = labels@;
        let mut label = text::concat3(cfg.devices[i].alias.as_str(), "  (", cfg.devices[i].name.as_str());
        label.append(")");
        assert(pick_labels(cfg@)[i as int] == label@) by {
            assert(cfg@.devices[i as int] == cfg.devices@[i as int]@);
        }
        labels.push(label);
        assert(text::texts(labels@) =~= text::texts(before).push(pick_labels(cfg@)[i as int]));
        assert(pick_labels(cfg@).take(i as int).push(pick_labels(cfg@)[i as int]) =~= pick_labels(
            cfg@,
        ).take(i + 1));
        i += 1;
    }
    assert(pick_labels(cfg@).take(i as int) =~= pick_labels(cfg@));
    assert(labels@.len() == text::texts(labels@).len());
    let start: usize = match cfg.find_default() {
        Some(i) => i,
        None => 0,
    };
    Ok(UseStep::Pick(labels, start))
}

/// Makes the device with an alias the default. Returns what to say of it.
pub fn set_default(cfg: &mut Config, alias: String) -> (r: String)
    ensures
        final(cfg)@ == (ConfigView { default_device: Some(alias@), ..old(cfg)@ }),
        r@ == "default device is now '"@ + alias@ + "'"@,
{
    let r = text::concat3("default device is now '", alias.as_str(), "'");
    cfg.default_device = Some(alias);
    r
}

// ---------------------------------------------------------------- the list

/// The line for a device in the list.
pub open spec fn device_line_of(c: ConfigView, d: DeviceView) -> Seq<char> {
    d.alias + default_mark(c.default_device == Some(d.alias)) + "\t"@ + d.name
}

/// The line for a device in the list.
pub fn device_line(cfg: &Config, d: &Device) -> (r: String)
    ensures
        r@ == device_line_of(cfg@, d@),
{
    let is_default = match &cfg.default_device {
        Some(alias) => text::same_text(alias.as_str(), d.alias.as_str()),
        None => false,
    };
    let mut r = text::concat3(d.alias.as_str(), mark_default(is_default), "\t");
    r.append(d.name.as_str());
    r
}

// ---------------------------------------------------------------- laws

/// White space anywhere in a pairing code makes no difference.
pub proof fn law_code_ignores_space(a: Seq<char>, c: char, b: Seq<char>)
    requires
        text::is_space(c),
    ensures
        text::without_space(a + seq![c] + b) == text::without_space(a + b),
    decreases b.len(),
{
    reveal(Seq::filter);
    if b.len() == 0 {
        assert((a + seq![c] + b).drop_last() =~= a + b);
    } else {
        law_code_ignores_space(a, c, b.drop_last());
        assert((a + seq![c] + b).drop_last() =~= a + seq![c] + b.drop_last());
        assert((a + b).drop_last() =~= a + b.drop_last());
    }
}

/// The first device that is paired becomes the default, and so does one for which that is asked.
pub proof fn law_enrolled_default_is_chosen(c: ConfigView, d: DeviceView, default: bool)
    requires
        default || c.devices.len() == 0,
    ensures
        config::resolved(enrolled(c, d, default), None) matches Ok(i)
            && config::resolved(enrolled(c, d, default), Some(d.alias)) == Ok::<int, ResolveErrorView>(i)
            && enrolled(c, d, default).devices[i].alias == d.alias,
{
    let after = enrolled(c, d, default);
    config::law_upsert_is_found(c, d);
    let i = config::resolved(config::upserted(c, d), Some(d.alias))->Ok_0;
    lists::lemma_position_is(after.devices, config::named(d.alias));
    assert forall|j: int| 0 <= j < i implies !config::named_exactly(d.alias)(
        #[trigger] after.devices[j],
    ) by {
        assert(!config::named(d.alias)(after.devices[j]));
    }
    lists::lemma_position(after.devices, config::named_exactly(d.alias), i);
}

/// Pairing another device leaves the default as it is, unless that is asked for.
pub proof fn law_enrolled_keeps_default(c: ConfigView, d: DeviceView)
    requires
        c.devices.len() > 0,
    ensures
        enrolled(c, d, false).default_device == c.default_device,
{
    lists::lemma_position_is(c.devices, config::named(d.alias));
}

/// Pairing keeps aliases distinct.
pub proof fn law_enrolled_keeps_aliases_distinct(c: ConfigView, d: DeviceView, default: bool)
    requires
        config::distinct_aliases(c),
    ensures
        config::distinct_aliases(enrolled(c, d, default)),
{
    config::law_upsert_keeps_aliases_distinct(c, d);
}

/// A found device is on its screen, with its token, under some alias.
pub proof fn law_absorbed_is_there(c: ConfigView, found: DialDeviceView)
    ensures
        exists|i: int|
            0 <= i < absorbed(c, found).devices.len() && (#[trigger] absorbed(
                c,
                found,
            ).devices[i]).screen_id == found.screen_id && absorbed(c, found).devices[i].lounge_token
                == found.lounge_token,
{
    lists::lemma_position_is(c.devices, is_known_as(found));
    match lists::position(c.devices, is_known_as(found)) {
        Some(i) => {
            lists::lemma_position_exists(c.devices, config::named(c.devices[i].alias), i);
            let j = lists::position(c.devices, config::named(c.devices[i].alias))->0;
            assert(absorbed(c, found).devices[j].screen_id == found.screen_id);
        },
        None => {
            config::law_upsert_is_found(c, found_device(found));
            let after = config::upserted(c, found_device(found));
            config::law_resolved_in_range(after, Some(slug::slug(found.name)));
            let i = config::resolved(after, Some(slug::slug(found.name)))->Ok_0;
            assert(absorbed(c, found).devices[i].screen_id == found.screen_id);
        },
    }
}

/// Discovery drops no device, and keeps aliases distinct.
pub proof fn law_absorbed_keeps_devices(c: ConfigView, found: DialDeviceView)
    requires
        config::distinct_aliases(c),
    ensures
        config::distinct_aliases(absorbed(c, found)),
        absorbed(c, found).devices.len() >= c.devices.len(),
        forall|i: int|
            0 <= i < c.devices.len() ==> text::same_ignoring_case(
                (#[trigger] absorbed(c, found).devices[i]).alias,
                c.devices[i].alias,
            ),
{
    lists::lemma_position_is(c.devices, is_known_as(found));
    match lists::position(c.devices, is_known_as(found)) {
        Some(i) => {
            lists::lemma_position_is(c.devices, config::named(c.devices[i].alias));
            let after = absorbed(c, found);
            assert(forall|j: int|
                0 <= j < c.devices.len() ==> (#[trigger] after.devices[j]).alias
                    == c.devices[j].alias);
        },
        None => {
            let d = found_device(found);
            config::law_upsert_keeps_aliases_distinct(c, d);
            lists::lemma_position_is(c.devices, config::named(d.alias));
        },
    }
}

/// Neither a new screen nor a web address changes which device a command is for.
pub proof fn law_repairs_keep_choice(
    c: ConfigView,
    target: Seq<char>,
    a: Seq<char>,
    b: Seq<char>,
    alias: Option<Seq<char>>,
)
    ensures
        config::resolved(config::refreshed(c, target, a, b), alias) == config::resolved(c, alias),
        config::resolved(linked(c, target, a), alias) == config::resolved(c, alias),
{
    lists::lemma_position_is(c.devices, config::named(target));
    assert(config::aliases(config::refreshed(c, target, a, b)) =~= config::aliases(c));
    assert(config::aliases(linked(c, target, a)) =~= config::aliases(c));
    config::law_aliases_decide(config::refreshed(c, target, a, b), c, alias);
    config::law_aliases_decide(linked(c, target, a), c, alias);
}

/// A linked device searches through its web server.
pub proof fn law_linked_device_searches(c: ConfigView, alias: Seq<char>, url: Seq<char>)
    requires
        config::resolved(c, Some(alias)) is Ok,
    ensures
        config::resolved(linked(c, alias, url), Some(alias)) == config::resolved(c, Some(alias)),
        config::base_of(
            linked(c, alias, url).devices[config::resolved(c, Some(alias))->Ok_0],
            linked(c, alias, url),
        ) == Some(web::under(url, "/playlet-invidious-backend"@)),
{
    lists::lemma_position_is(c.devices, config::named(alias));
    let i = config::resolved(c, Some(alias))->Ok_0;
    let after = linked(c, alias, url);
    assert forall|j: int| 0 <= j < i implies !config::named(alias)(#[trigger] after.devices[j]) by {
        assert(after.devices[j] == c.devices[j]);
    }
    lists::lemma_position(after.devices, config::named(alias), i);
}

/// A found device that is none of the paired ones is added as a device of its own: its screen is
/// on no paired device, its name makes another alias than the name of every paired device, and its
/// host is that of no paired web server. Every paired device under another alias stays as it is.
pub proof fn law_unknown_tv_is_added(c: ConfigView, found: DialDeviceView)
    requires
        forall|i: int|
            0 <= i < c.devices.len() ==> (#[trigger] c.devices[i]).screen_id != found.screen_id,
        forall|i: int|
            0 <= i < c.devices.len() ==> slug::slug((#[trigger] c.devices[i]).name) != slug::slug(
                found.name,
            ),
        forall|i: int|
            0 <= i < c.devices.len() ==> ((#[trigger] c.devices[i]).web_url matches Some(u) ==> web::host_of(
                u,
            ) is None || web::host_of(u) != web::host_of(found.location)),
    ensures
        forall|i: int|
            0 <= i < c.devices.len() && text::lowered((#[trigger] c.devices[i]).alias)
                != text::lowered(slug::slug(found.name)) ==> absorbed(c, found).devices[i]
                == c.devices[i],
        (forall|i: int|
            0 <= i < c.devices.len() ==> text::lowered((#[trigger] c.devices[i]).alias)
                != text::lowered(slug::slug(found.name))) ==> {
            &&& absorbed(c, found).devices.len() == c.devices.len() + 1
            &&& absorbed(c, found).devices.take(c.devices.len() as int) == c.devices
            &&& absorbed(c, found).devices.last().alias == slug::slug(found.name)
            &&& absorbed(c, found).devices.last().name == found.name
            &&& absorbed(c, found).devices.last().screen_id == found.screen_id
            &&& absorbed(c, found).devices.last().lounge_token == found.lounge_token
            &&& absorbed(c, found).devices.last().web_url is None
        },
        exists|k: int|
            0 <= k < absorbed(c, found).devices.len() && (#[trigger] absorbed(
                c,
                found,
            ).devices[k]).alias == slug::slug(found.name) && absorbed(c, found).devices[k].name
                == found.name && absorbed(c, found).devices[k].screen_id == found.screen_id
                && absorbed(c, found).devices[k].lounge_token == found.lounge_token,
        c.devices.len() > 0 ==> absorbed(c, found).default_device == c.default_device,
        c.devices.len() == 0 ==> absorbed(c, found).default_device == Some(slug::slug(found.name)),
        absorbed(c, found).search_instance == c.search_instance,
        absorbed_line(c, found) == "  paired '"@ + slug::slug(found.name) + "' ("@ + found.name
            + ")"@ + (if c.devices.len() == 0 {
            " (default)"@
        } else {
            Seq::empty()
        }),
{
    let p = is_known_as(found);
    lists::lemma_position_is(c.devices, p);
    if lists::position(c.devices, p) is Some {
        let i = lists::position(c.devices, p)->0;
        assert(p(c.devices[i]));
        assert(c.devices[i].screen_id != found.screen_id);
        assert(slug::slug(c.devices[i].name) != slug::slug(found.name));
        assert(false);
    }
    let d = found_device(found);
    let after = absorbed(c, found);
    let q = config::named(d.alias);
    lists::lemma_position_is(c.devices, q);
    match lists::position(c.devices, q) {
        Some(k) => {
            assert(q(c.devices[k]));
            assert(after.devices[k].alias == slug::slug(found.name));
        },
        None => {
            assert(after.devices == c.devices.push(d));
            assert(after.devices[c.devices.len() as int].alias == slug::slug(found.name));
            assert(after.devices.take(c.devices.len() as int) =~= c.devices);
        },
    }
}

/// A found device that has the screen of a paired one, or a name that makes the same alias, or the
/// host of its web server, is the first such one: that gets the new screen and token and is
/// otherwise as it was, as are all the others.
pub proof fn law_known_tv_is_refreshed(c: ConfigView, found: DialDeviceView, i: int)
    requires
        0 <= i < c.devices.len(),
        c.devices[i].screen_id == found.screen_id || slug::slug(c.devices[i].name) == slug::slug(
            found.name,
        ) || (c.devices[i].web_url matches Some(u) && web::host_of(u) is Some && web::host_of(u)
            == web::host_of(found.location)),
        forall|j: int|
            0 <= j < i ==> (#[trigger] c.devices[j]).screen_id != found.screen_id && slug::slug(
                c.devices[j].name,
            ) != slug::slug(found.name) && (c.devices[j].web_url matches Some(u) ==> web::host_of(
                u,
            ) is None || web::host_of(u) != web::host_of(found.location)),
        forall|j: int|
            0 <= j < c.devices.len() && j != i ==> text::lowered((#[trigger] c.devices[j]).alias)
                != text::lowered(c.devices[i].alias),
    ensures
        absorbed(c, found).devices.len() == c.devices.len(),
        forall|j: int|
            0 <= j < c.devices.len() && j != i ==> #[trigger] absorbed(c, found).devices[j]
                == c.devices[j],
        absorbed(c, found).devices[i].alias == c.devices[i].alias,
        absorbed(c, found).devices[i].name == c.devices[i].name,
        absorbed(c, found).devices[i].web_url == c.devices[i].web_url,
        absorbed(c, found).devices[i].screen_id == found.screen_id,
        absorbed(c, found).devices[i].lounge_token == found.lounge_token,
        absorbed(c, found).default_device == c.default_device,
        absorbed(c, found).search_instance == c.search_instance,
        absorbed_line(c, found) == "  refreshed '"@ + c.devices[i].alias + "' ("@ + found.name
            + ")"@,
{
    let p = is_known_as(found);
    assert forall|j: int| 0 <= j < i implies !p(#[trigger] c.devices[j]) by {
        assert(c.devices[j].screen_id != found.screen_id);
    }
    assert(p(c.devices[i]));
    lists::lemma_position(c.devices, p, i);
    config::law_refresh_changes_one(
        c,
        c.devices[i].alias,
        found.screen_id,
        found.lounge_token,
        i,
    );
}

/// A paired TV is recognized by its screen, by a name that makes the same alias, or by the host of
/// its web server, and by nothing else.
pub proof fn law_tv_is_recognized(
    d: DeviceView,
    found: DialDeviceView,
    host: Option<Seq<char>>,
    found_host: Option<Seq<char>>,
)
    ensures
        d.screen_id == found.screen_id ==> is_same_tv(d, found, host, found_host),
        slug::slug(d.name) == slug::slug(found.name) ==> is_same_tv(d, found, host, found_host),
        host is Some && host == found_host ==> is_same_tv(d, found, host, found_host),
        d.screen_id != found.screen_id && slug::slug(d.name) != slug::slug(found.name) && (host
            is None || host != found_host) ==> !is_same_tv(d, found, host, found_host),
        is_same_tv(d, found, host, found_host) ==> is_lost_tv(d, found, host, found_host),
        slug::slug(found.name) == d.alias ==> is_lost_tv(d, found, host, found_host),
        d.screen_id != found.screen_id && slug::slug(d.name) != slug::slug(found.name) && (host
            is None || host != found_host) && slug::slug(found.name) != d.alias ==> !is_lost_tv(
            d,
            found,
            host,
            found_host,
        ),
{
}

/// A TV whose pairing went stale is the first of the found ones that has its screen, a name that
/// makes the same alias or its own alias, or the host of its web server.
pub proof fn law_lost_tv_is_found(d: DeviceView, found: Seq<DialDeviceView>, i: int)
    requires
        0 <= i < found.len(),
        d.screen_id == found[i].screen_id || slug::slug(d.name) == slug::slug(found[i].name)
            || slug::slug(found[i].name) == d.alias || (d.web_url matches Some(u) && web::host_of(
            u,
        ) is Some && web::host_of(u) == web::host_of(found[i].location)),
        forall|j: int|
            0 <= j < i ==> d.screen_id != (#[trigger] found[j]).screen_id && slug::slug(d.name)
                != slug::slug(found[j].name) && slug::slug(found[j].name) != d.alias && (
            d.web_url matches Some(u) ==> web::host_of(
                u,
            ) is None || web::host_of(u) != web::host_of(found[j].location)),
    ensures
        lists::position(found, is_lost(d)) == Some(i),
{
    let p = is_lost(d);
    assert forall|j: int| 0 <= j < i implies !p(#[trigger] found[j]) by {
        assert(d.screen_id != found[j].screen_id);
    }
    assert(p(found[i]));
    lists::lemma_position(found, p, i);
}

/// Where none of the found TVs has the screen, the name, the alias or the host of a paired one, it
/// is not found.
pub proof fn law_lost_tv_is_not_found(d: DeviceView, found: Seq<DialDeviceView>)
    requires
        forall|j: int|
            0 <= j < found.len() ==> d.screen_id != (#[trigger] found[j]).screen_id && slug::slug(
                d.name,
            ) != slug::slug(found[j].name) && slug::slug(found[j].name) != d.alias && (
            d.web_url matches Some(u) ==> web::host_of(
                u,
            ) is None || web::host_of(u) != web::host_of(found[j].location)),
    ensures
        lists::position(found, is_lost(d)) is None,
{
    let p = is_lost(d);
    lists::lemma_position_is(found, p);
    if lists::position(found, p) is Some {
        let i = lists::position(found, p)->0;
        assert(p(found[i]));
        assert(d.screen_id != found[i].screen_id);
    }
}

/// The host of a device's web server is that of its address, where it has one.
pub proof fn law_web_host(u: Seq<char>)
    ensures
        web_host(Some(u)) == web::host_of(u),
        web_host(None) is None,
{
}

/// Found devices are taken in one after the other, each with a line of its own.
pub proof fn law_found_are_taken_in_order(
    c: ConfigView,
    found: Seq<DialDeviceView>,
    next: DialDeviceView,
)
    ensures
        all_absorbed(c, Seq::empty()) == c,
        all_absorbed(c, found.push(next)) == absorbed(all_absorbed(c, found), next),
        all_absorbed_lines(c, found.push(next)) == all_absorbed_lines(c, found).push(
            absorbed_line(all_absorbed(c, found), next),
        ),
        all_absorbed_lines(c, found).len() == found.len(),
    decreases found.len(),
{
    assert(found.push(next).drop_last() =~= found);
    if found.len() > 0 {
        law_found_are_taken_in_order(c, found.drop_last(), found.last());
        assert(found.drop_last().push(found.last()) =~= found);
    }
}

/// A screen becomes a device with its name, screen and token, without a web address, under the
/// alias that was asked for, else under the one that its name makes.
pub proof fn law_screen_becomes_device(s: ScreenView, alias: Seq<char>)
    ensures
        s.name is Some ==> screen_name(s) == s.name->0,
        s.name is None ==> screen_name(s) == seq!['T', 'V'],
        screen_alias(s, Some(alias)) == alias,
        screen_alias(s, None) == slug::slug(screen_name(s)),
        screen_device(s, Some(alias)).alias == alias,
        screen_device(s, None).alias == slug::slug(screen_name(s)),
        screen_device(s, Some(alias)).name == screen_name(s),
        screen_device(s, Some(alias)).screen_id == s.screen_id,
        screen_device(s, Some(alias)).lounge_token == s.lounge_token,
        screen_device(s, Some(alias)).web_url is None,
        screen_device(s, None) == (DeviceView {
            alias: slug::slug(screen_name(s)),
            ..screen_device(s, Some(alias))
        }),
{
    reveal_strlit("TV");
    assert("TV"@ =~= seq!['T', 'V']);
}

/// Pairing adds the device to the others, and makes it the default where it is the first or that
/// is asked for, and only there.
pub proof fn law_enrolled_by_part(c: ConfigView, d: DeviceView, default: bool)
    ensures
        enrolled(c, d, default).devices == config::upserted(c, d).devices,
        enrolled(c, d, default).search_instance == c.search_instance,
        default ==> enrolled(c, d, default).default_device == Some(d.alias),
        c.devices.len() == 0 ==> enrolled(c, d, default).default_device == Some(d.alias),
        !default && c.devices.len() > 0 ==> enrolled(c, d, default).default_device
            == c.default_device,
{
    lists::lemma_position_is(c.devices, config::named(d.alias));
}

/// A web address starts with one of the two schemes of the web.
pub proof fn law_web_address_by_start(url: Seq<char>)
    ensures
        is_web_address(url) <==> {
            ||| url.len() >= 7 && url.take(7) == seq!['h', 't', 't', 'p', ':', '/', '/']
            ||| url.len() >= 8 && url.take(8) == seq!['h', 't', 't', 'p', 's', ':', '/', '/']
        },
{
    reveal_strlit("http://");
    reveal_strlit("https://");
    assert("http://"@ =~= seq!['h', 't', 't', 'p', ':', '/', '/']);
    assert("https://"@ =~= seq!['h', 't', 't', 'p', 's', ':', '/', '/']);
    if url.len() >= 7 {
        assert(url.take(7) =~= url.subrange(0, 7));
    }
    if url.len() >= 8 {
        assert(url.take(8) =~= url.subrange(0, 8));
    }
}

/// Linking gives the address to the device with the alias and to no other, and changes nothing
/// else.
pub proof fn law_link_changes_one(c: ConfigView, alias: Seq<char>, url: Seq<char>, i: int)
    requires
        0 <= i < c.devices.len(),
        text::lowered(c.devices[i].alias) == text::lowered(alias),
        forall|j: int|
            0 <= j < i ==> text::lowered((#[trigger] c.devices[j]).alias) != text::lowered(alias),
    ensures
        linked(c, alias, url).devices.len() == c.devices.len(),
        forall|j: int|
            0 <= j < c.devices.len() && j != i ==> #[trigger] linked(c, alias, url).devices[j]
                == c.devices[j],
        linked(c, alias, url).devices[i].web_url == Some(url),
        linked(c, alias, url).devices[i].alias == c.devices[i].alias,
        linked(c, alias, url).devices[i].name == c.devices[i].name,
        linked(c, alias, url).devices[i].screen_id == c.devices[i].screen_id,
        linked(c, alias, url).devices[i].lounge_token == c.devices[i].lounge_token,
        linked(c, alias, url).default_device == c.default_device,
        linked(c, alias, url).search_instance == c.search_instance,
{
    config::law_alias_is_found(c, alias, i);
}

/// The user picks from one label for each device, in order, with its alias and its name in it; the
/// cursor stands on the default device, and on the first where there is none.
pub proof fn law_devices_to_pick_from(c: ConfigView, i: int)
    requires
        0 <= i < c.devices.len(),
    ensures
        pick_labels(c).len() == c.devices.len(),
        pick_labels(c)[i] == c.devices[i].alias + seq![' ', ' ', '('] + c.devices[i].name + seq![')'],
        c.default_device == Some(c.devices[i].alias) && (forall|j: int|
            0 <= j < i ==> (#[trigger] c.devices[j]).alias != c.devices[i].alias) ==> pick_start(c)
            == i,
        c.default_device is None ==> pick_start(c) == 0,
        (c.default_device matches Some(a) && forall|j: int|
            0 <= j < c.devices.len() ==> (#[trigger] c.devices[j]).alias != a) ==> pick_start(c) == 0,
{
    reveal_strlit("  (");
    reveal_strlit(")");
    assert("  ("@ =~= seq![' ', ' ', '(']);
    assert(")"@ =~= seq![')']);
    if c.default_device == Some(c.devices[i].alias) && (forall|j: int|
        0 <= j < i ==> (#[trigger] c.devices[j]).alias != c.devices[i].alias) {
        config::law_default_is_found(c, i);
    }
    if c.default_device matches Some(a) && forall|j: int|
        0 <= j < c.devices.len() ==> (#[trigger] c.devices[j]).alias != a {
        config::law_choice_without_default(c);
    }
}

/// The line for a device has its alias and its name, and a mark between them exactly where it is
/// the default.
pub proof fn law_line_marks_default(c: ConfigView, d: DeviceView)
    ensures
        c.default_device == Some(d.alias) ==> device_line_of(c, d) == d.alias + " (default)"@
            + seq!['\t'] + d.name,
        c.default_device != Some(d.alias) ==> device_line_of(c, d) == d.alias + seq!['\t'] + d.name,
{
    reveal_strlit("\t");
    assert("\t"@ =~= seq!['\t']);
    assert(d.alias + Seq::empty() =~= d.alias);
}

/// A list of found devices holds one view for each, in order, with its own fields.
pub proof fn law_one_found_for_each(v: Seq<DialDevice>, i: int)
    requires
        0 <= i < v.len(),
    ensures
        dial_views(v).len() == v.len(),
        dial_views(v)[i].name == v[i].name@,
        dial_views(v)[i].screen_id == v[i].screen_id@,
        dial_views(v)[i].lounge_token == v[i].lounge_token@,
        dial_views(v)[i].location == v[i].location@,
{
}

} // verus!
