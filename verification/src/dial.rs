//! Finding TVs on the local network: the SSDP search and the DIAL descriptions.

use crate::text;
use crate::web;
use vstd::prelude::*;

verus! {

/// Where the SSDP search is sent.
pub const SSDP_ADDR: &'static str = "239.255.255.250:1900";

/// The SSDP search for DIAL devices.
pub const M_SEARCH: &'static str = "M-SEARCH * HTTP/1.1\r\nHOST: 239.255.255.250:1900\r\nMAN: \"ssdp:discover\"\r\nST: urn:dial-multiscreen-org:service:dial:1\r\nMX: 3\r\n\r\n";

/// The header of an SSDP answer that names the device description.
pub const LOCATION: &'static str = "LOCATION";

/// A TV that answered, with what is needed to control it.
pub struct DialDevice {
    pub name: String,
    pub screen_id: String,
    pub lounge_token: String,
    pub location: String,
}

/// The texts of a [`DialDevice`].
#[verifier::ext_equal]
pub struct DialDeviceView {
    pub name: Seq<char>,
    pub screen_id: Seq<char>,
    pub lounge_token: Seq<char>,
    pub location: Seq<char>,
}

impl View for DialDevice {
    type V = DialDeviceView;

    open spec fn view(&self) -> DialDeviceView {
        DialDeviceView {
            name: self.name@,
            screen_id: self.screen_id@,
            lounge_token: self.lounge_token@,
            location: self.location@,
        }
    }
}

// ---------------------------------------------------------------- headers

/// The line starts with the needle, in any case, and goes on behind it.
pub open spec fn is_header(line: Seq<char>, needle: Seq<char>) -> bool {
    line.len() > needle.len() && text::same_ignoring_case(line.take(needle.len() as int), needle)
}

/// The value of the first line that is a header for the needle.
pub open spec fn header_value(lines: Seq<Seq<char>>, needle: Seq<char>) -> Option<Seq<char>>
    decreases lines.len(),
{
    if lines.len() == 0 {
        None
    } else {
        let line = text::trimmed(lines[0]);
        if is_header(line, needle) {
            Some(text::trimmed(line.skip(needle.len() as int)))
        } else {
            header_value(lines.drop_first(), needle)
        }
    }
}

/// A line that is longer than the needle can be cut behind as many bytes as the needle has.
pub open spec fn cuts_clean(line: Seq<char>, needle: Seq<char>) -> bool {
    let bytes = vstd::utf8::encode_utf8(line);
    let cut = vstd::utf8::encode_utf8(needle).len();
    bytes.len() > cut ==> vstd::utf8::is_char_boundary(bytes, cut as int)
}

/// Every line up to the first header for the needle can be cut behind the needle.
pub open spec fn lines_cut_clean(lines: Seq<Seq<char>>, needle: Seq<char>) -> bool
    decreases lines.len(),
{
    if lines.len() == 0 {
        true
    } else {
        let line = text::trimmed(lines[0]);
        cuts_clean(line, needle) && (is_header(line, needle) || lines_cut_clean(
            lines.drop_first(),
            needle,
        ))
    }
}

/// Whether a line is a header for the needle, as code.
fn matches_header(line: &Vec<char>, needle: &Vec<char>) -> (r: bool)
    ensures
        r == is_header(line@, needle@),
{
    if line.len() <= needle.len() {
        return false;
    }
    let head = text::from_chars(&line[0..needle.len()]);
    let name = text::from_chars(needle.as_slice());
    assert(head@ =~= line@.take(needle@.len() as int));
    text::eq_ignore_ascii_case(head.as_str(), name.as_str())
}

/// Whether [`parse_header`] can read a response: it cuts lines behind as many bytes as the
/// header's name and colon have, and a line up to the header that has a longer character there
/// cannot be cut.
pub fn header_is_readable(response: &str, name: &str) -> (r: bool)
    ensures
        r == lines_cut_clean(text::line_list(response@), name@ + ":"@),
{
    let needle = text::concat2(name, ":");
    let needle_chars = text::to_chars(needle.as_str());
    let all = text::lines(response);
    let mut i: usize = 0;
    assert(text::line_list(response@).skip(0) =~= text::line_list(response@));
    while i < all.len()
        invariant
            i <= all.len(),
            needle@ == name@ + ":"@,
            needle_chars@ == needle@,
            text::texts(all@) == text::line_list(response@),
            lines_cut_clean(text::line_list(response@), needle@) == lines_cut_clean(
                text::line_list(response@).skip(i as int),
                needle@,
            ),
        decreases all.len() - i,
    {
        let ghost rest = text::line_list(response@).skip(i as int);
        assert(rest[0] == all@[i as int]@) by {
            assert(text::texts(all@)[i as int] == all@[i as int]@);
        }
        assert(rest.drop_first() =~= text::line_list(response@).skip(i + 1));
        let line = text::trim(all[i].as_str());
        let cut: usize = needle.as_str().as_bytes().len();
        if line.as_str().as_bytes().len() > cut && !line.as_str().is_char_boundary(cut) {
            return false;
        }
        let line_chars = text::to_chars(line.as_str());
        if matches_header(&line_chars, &needle_chars) {
            return true;
        }
        i += 1;
    }
    assert(text::line_list(response@).skip(i as int).len() == 0);
    true
}

/// The value of a header in an HTTP-style response. The name is matched in any case.
pub fn parse_header(response: &str, name: &str) -> (r: Option<String>)
    requires
        lines_cut_clean(text::line_list(response@), name@ + ":"@),
    ensures
        text::text_opt(r) == header_value(text::line_list(response@), name@ + ":"@),
{
    let needle = text::concat2(name, ":");
    let needle_chars = text::to_chars(needle.as_str());
    let all = text::lines(response);
    let mut i: usize = 0;
    assert(text::line_list(response@).skip(0) =~= text::line_list(response@));
    while i < all.len()
        invariant
            i <= all.len(),
            needle@ == name@ + ":"@,
            needle_chars@ == needle@,
            text::texts(all@) == text::line_list(response@),
            header_value(text::line_list(response@), needle@) == header_value(
                text::line_list(response@).skip(i as int),
                needle@,
            ),
        decreases all.len() - i,
    {
        let ghost rest = text::line_list(response@).skip(i as int);
        assert(rest[0] == all@[i as int]@) by {
            assert(text::texts(all@)[i as int] == all@[i as int]@);
        }
        assert(rest.drop_first() =~= text::line_list(response@).skip(i + 1));
        let line = text::to_chars(text::trim(all[i].as_str()).as_str());
        if matches_header(&line, &needle_chars) {
            let value = text::from_chars(&line[needle_chars.len()..line.len()]);
            assert(value@ =~= line@.skip(needle@.len() as int));
            return Some(text::trim(value.as_str()));
        }
        i += 1;
    }
    assert(text::line_list(response@).skip(i as int).len() == 0);
    None
}

// ---------------------------------------------------------------- the search

/// A text that holds bytes which are not all UTF-8: what `String::from_utf8_lossy` makes of
/// them.
pub uninterp spec fn lossy_text(bytes: Seq<u8>) -> Seq<char>;

/// Calls `String::from_utf8_lossy`, which replaces what is not UTF-8 and keeps the rest: the
/// bytes of a text come back as that text.
#[verifier::external_body]
fn from_utf8_lossy(bytes: &[u8]) -> (r: String)
    ensures
        r@ == lossy_text(bytes@),
        forall|s: Seq<char>| bytes@ == #[trigger] vstd::utf8::encode_utf8(s) ==> r@ == s,
{
    String::from_utf8_lossy(bytes).into_owned()
}

/// The text of a datagram.
pub fn packet_text(bytes: &[u8]) -> (r: String)
    ensures
        r@ == lossy_text(bytes@),
        forall|s: Seq<char>| bytes@ == #[trigger] vstd::utf8::encode_utf8(s) ==> r@ == s,
{
    from_utf8_lossy(bytes)
}

/// The locations with one more, where it is new.
pub open spec fn with_location(known: Seq<Seq<char>>, loc: Option<Seq<char>>) -> Seq<Seq<char>> {
    match loc {
        Some(l) => if known.contains(l) {
            known
        } else {
            known.push(l)
        },
        None => known,
    }
}

/// Takes an SSDP answer in: its location joins the list unless it is there already.
pub fn note_response(locations: &mut Vec<String>, response: &str)
    requires
        lines_cut_clean(text::line_list(response@), LOCATION@ + ":"@),
    ensures
        text::texts(final(locations)@) == with_location(
            text::texts(old(locations)@),
            header_value(text::line_list(response@), LOCATION@ + ":"@),
        ),
{
    if let Some(loc) = parse_header(response, LOCATION) {
        if !text::holds_text(locations, loc.as_str()) {
            locations.push(loc);
        }
    }
    assert(text::texts(locations@) =~= with_location(
        text::texts(old(locations)@),
        header_value(text::line_list(response@), LOCATION@ + ":"@),
    ));
}

// ---------------------------------------------------------------- descriptions

/// The text with the five XML entities decoded, one after the other.
pub open spec fn decoded(s: Seq<char>) -> Seq<char> {
    let s1 = text::replaced(s, "&amp;"@, "&"@);
    let s2 = text::replaced(s1, "&lt;"@, "<"@);
    let s3 = text::replaced(s2, "&gt;"@, ">"@);
    let s4 = text::replaced(s3, "&quot;"@, "\""@);
    text::replaced(s4, "&apos;"@, "'"@)
}

/// Decodes the five XML entities, one after the other.
pub fn decode_xml_entities(s: &str) -> (r: String)
    ensures
        r@ == decoded(s@),
{
    proof {
        reveal_strlit("&amp;");
        reveal_strlit("&lt;");
        reveal_strlit("&gt;");
        reveal_strlit("&quot;");
        reveal_strlit("&apos;");
    }
    let s1 = text::replace(s, "&amp;", "&");
    let s2 = text::replace(s1.as_str(), "&lt;", "<");
    let s3 = text::replace(s2.as_str(), "&gt;", ">");
    let s4 = text::replace(s3.as_str(), "&quot;", "\"");
    text::replace(s4.as_str(), "&apos;", "'")
}

/// The tag that opens an element.
pub open spec fn open_tag(tag: Seq<char>) -> Seq<char> {
    "<"@ + tag + ">"@
}

/// The tag that closes an element.
pub open spec fn close_tag(tag: Seq<char>) -> Seq<char> {
    "</"@ + tag + ">"@
}

/// What stands in the first element of that name, up to the first closing tag behind it.
pub open spec fn element_body(xml: Seq<char>, tag: Seq<char>) -> Option<Seq<char>> {
    match text::found_at(xml, open_tag(tag)) {
        None => None,
        Some(i) => {
            let rest = xml.skip(i + open_tag(tag).len());
            match text::found_at(rest, close_tag(tag)) {
                None => None,
                Some(j) => Some(rest.take(j)),
            }
        },
    }
}

/// The text of the first element of that name, trimmed and decoded; `None` where it is missing
/// or blank.
pub open spec fn element_text(xml: Seq<char>, tag: Seq<char>) -> Option<Seq<char>> {
    match element_body(xml, tag) {
        Some(b) => if text::trimmed(b).len() == 0 {
            None
        } else {
            Some(decoded(text::trimmed(b)))
        },
        None => None,
    }
}

/// The text of the first element of that name in an XML text.
pub fn xml_text(xml: &str, tag: &str) -> (r: Option<String>)
    ensures
        text::text_opt(r) == element_text(xml@, tag@),
{
    let open = text::to_chars(text::concat3("<", tag, ">").as_str());
    let close = text::to_chars(text::concat3("</", tag, ">").as_str());
    let all = text::to_chars(xml);
    match text::find_chars(all.as_slice(), open.as_slice()) {
        None => None,
        Some(i) => {
            assert(i + open@.len() <= all@.len() && all.len() == all@.len());
            let rest = &all[i + open.len()..all.len()];
            assert(rest@ =~= all@.skip(i + open@.len()));
            match text::find_chars(rest, close.as_slice()) {
                None => None,
                Some(j) => {
                    let body = text::from_chars(&rest[0..j]);
                    assert(body@ =~= rest@.take(j as int));
                    let text = text::trim(body.as_str());
                    if text.as_str().is_empty() {
                        None
                    } else {
                        Some(decode_xml_entities(text.as_str()))
                    }
                },
            }
        },
    }
}

/// The address of the YouTube app, from the `Application-URL` of a device.
pub fn youtube_url(app_url: &str) -> (r: String)
    ensures
        r@ == web::under(app_url@, "/YouTube"@),
{
    web::endpoint(app_url, "/YouTube")
}

/// The element where it is there and not empty.
pub open spec fn solid_text(xml: Seq<char>, tag: Seq<char>) -> Option<Seq<char>> {
    match element_text(xml, tag) {
        Some(t) => if t.len() > 0 {
            Some(t)
        } else {
            None
        },
        None => None,
    }
}

/// [`solid_text`], as code.
fn solid_element(xml: &str, tag: &str) -> (r: Option<String>)
    ensures
        text::text_opt(r) == solid_text(xml@, tag@),
{
    match xml_text(xml, tag) {
        Some(t) => if t.as_str().is_empty() {
            None
        } else {
            Some(t)
        },
        None => None,
    }
}

/// The id of the screen that the YouTube app of a device shows.
pub fn screen_id_of(app_body: &str) -> (r: Option<String>)
    ensures
        text::text_opt(r) == solid_text(app_body@, "screenId"@),
{
    solid_element(app_body, "screenId")
}

/// What is known of a device once its screen id is: `refreshed` is the token for remote control
/// that the lounge gave for that id, and without one the app's own token stands in.
pub open spec fn probed(
    location: Seq<char>,
    description: Seq<char>,
    app_body: Seq<char>,
    refreshed: Option<Seq<char>>,
) -> Option<DialDeviceView> {
    let name = match element_text(description, "friendlyName"@) {
        Some(n) => n,
        None => Seq::empty(),
    };
    let token = match refreshed {
        Some(t) => Some(t),
        None => solid_text(app_body, "loungeToken"@),
    };
    match (solid_text(app_body, "screenId"@), token) {
        (Some(id), Some(t)) => Some(
            DialDeviceView { name, screen_id: id, lounge_token: t, location },
        ),
        _ => None,
    }
}

/// The device at a location, from its description, the body of its YouTube app and the token
/// that the lounge gave for its screen id, if it gave one.
pub fn probe_dial(
    location: &str,
    description: &str,
    app_body: &str,
    refreshed: Option<String>,
) -> (r: Option<DialDevice>)
    ensures
        match r {
            Some(d) => Some(d@),
            None => None,
        } == probed(location@, description@, app_body@, text::text_opt(refreshed)),
{
    let name = match xml_text(description, "friendlyName") {
        Some(n) => n,
        None => String::new(),
    };
    let screen_id = match screen_id_of(app_body) {
        Some(id) => id,
        None => {
            return None;
        },
    };
    let lounge_token = match refreshed {
        Some(t) => t,
        None => match solid_element(app_body, "loungeToken") {
            Some(t) => t,
            None => {
                return None;
            },
        },
    };
    Some(DialDevice { name, screen_id, lounge_token, location: text::copy(location) })
}

// ---------------------------------------------------------------- laws

/// A list of locations stays without repetition, keeps what it has in place, and has the new
/// location.
pub proof fn law_locations_stay_unique(known: Seq<Seq<char>>, loc: Option<Seq<char>>)
    requires
        known.no_duplicates(),
    ensures
        with_location(known, loc).no_duplicates(),
        known.is_prefix_of(with_location(known, loc)),
        loc is Some ==> with_location(known, loc).contains(loc->0),
{
    if let Some(l) = loc {
        if !known.contains(l) {
            assert(with_location(known, loc)[known.len() as int] == l);
        }
    }
}

/// A header line gives its value back, trimmed, whatever the case of its name.
pub proof fn law_header_reads_value(name: Seq<char>, written: Seq<char>, value: Seq<char>)
    requires
        text::same_ignoring_case(name, written),
        value.len() > 0,
        text::trimmed(written + ":"@ + value) == written + ":"@ + value,
    ensures
        header_value(seq![written + ":"@ + value], name + ":"@) == Some(text::trimmed(value)),
{
    reveal_strlit(":");
    let line = written + ":"@ + value;
    let needle = name + ":"@;
    assert(text::lowered(name).len() == text::lowered(written).len());
    assert(line.take(needle.len() as int) =~= written + ":"@);
    assert(text::lowered(written + ":"@) =~= text::lowered(written) + text::lowered(":"@));
    assert(text::lowered(needle) =~= text::lowered(name) + text::lowered(":"@));
    assert(line.skip(needle.len() as int) =~= value);
}

/// A text without the first character of what is replaced stays as it is.
proof fn lemma_nothing_replaced(s: Seq<char>, from: Seq<char>, to: Seq<char>)
    requires
        from.len() > 0,
        !s.contains(from[0]),
    ensures
        text::replaced(s, from, to) == s,
{
    assert forall|i: int| !text::first_occurs_at(s, from, i) by {
        if text::first_occurs_at(s, from, i) {
            assert(s.subrange(i, i + from.len())[0] == from[0]);
            assert(s[i] == from[0]);
        }
    }
}

/// A text without an ampersand has nothing to decode.
pub proof fn law_plain_text_is_decoded_already(s: Seq<char>)
    requires
        !s.contains('&'),
    ensures
        decoded(s) == s,
{
    reveal_strlit("&amp;");
    reveal_strlit("&lt;");
    reveal_strlit("&gt;");
    reveal_strlit("&quot;");
    reveal_strlit("&apos;");
    lemma_nothing_replaced(s, "&amp;"@, "&"@);
    lemma_nothing_replaced(s, "&lt;"@, "<"@);
    lemma_nothing_replaced(s, "&gt;"@, ">"@);
    lemma_nothing_replaced(s, "&quot;"@, "\""@);
    lemma_nothing_replaced(s, "&apos;"@, "'"@);
}

/// Replacing by a character that a text does not hold leaves no new place for that text, and none
/// at all where it is what was replaced.
proof fn lemma_replaced_clear(s: Seq<char>, from: Seq<char>, c: char, gone: Seq<char>)
    requires
        from.len() > 0,
        gone.len() > 0,
        !gone.contains(c),
        gone == from || !text::has_within(s, gone),
    ensures
        !text::has_within(text::replaced(s, from, seq![c]), gone),
    decreases s.len(),
{
    let r = text::replaced(s, from, seq![c]);
    if text::found_at(s, from) is None {
        assert forall|k: int| !text::occurs_at(s, gone, k) by {
            if text::occurs_at(s, gone, k) && gone == from {
                text::lemma_first_exists(s, from, k);
            }
        }
    } else {
        let i = text::found_at(s, from)->0;
        assert(text::first_occurs_at(s, from, i));
        let tail = s.skip(i + from.len());
        let rest = text::replaced(tail, from, seq![c]);
        if gone != from {
            assert forall|k: int| !text::occurs_at(tail, gone, k) by {
                if text::occurs_at(tail, gone, k) {
                    let at = i + from.len() + k;
                    assert(s.subrange(at, at + gone.len()) =~= tail.subrange(k, k + gone.len()));
                    assert(text::occurs_at(s, gone, at));
                }
            }
        }
        lemma_replaced_clear(tail, from, c, gone);
        assert(r =~= s.take(i) + seq![c] + rest);
        assert forall|k: int| !text::occurs_at(r, gone, k) by {
            if text::occurs_at(r, gone, k) {
                let window = r.subrange(k, k + gone.len());
                if k + gone.len() <= i {
                    assert(s.subrange(k, k + gone.len()) =~= window);
                    assert(text::occurs_at(s, gone, k));
                } else if k <= i {
                    assert(window[i - k] == c);
                } else {
                    let at = k - i - 1;
                    assert(rest.subrange(at, at + gone.len()) =~= window);
                    assert(text::occurs_at(rest, gone, at));
                }
            }
        }
    }
}

/// A decoded text holds none of the entities that are decoded last. An ampersand may be left, as
/// its entity is decoded first and only once.
pub proof fn law_decoded_holds_no_entities(s: Seq<char>)
    ensures
        !text::has_within(decoded(s), "&lt;"@),
        !text::has_within(decoded(s), "&gt;"@),
        !text::has_within(decoded(s), "&quot;"@),
        !text::has_within(decoded(s), "&apos;"@),
{
    reveal_strlit("&lt;");
    reveal_strlit("&gt;");
    reveal_strlit("&quot;");
    reveal_strlit("&apos;");
    reveal_strlit("<");
    reveal_strlit(">");
    reveal_strlit("\"");
    reveal_strlit("'");
    assert("<"@ =~= seq!['<'] && ">"@ =~= seq!['>']);
    assert("\""@ =~= seq!['"'] && "'"@ =~= seq!['\'']);
    let s1 = text::replaced(s, "&amp;"@, "&"@);
    let s2 = text::replaced(s1, "&lt;"@, "<"@);
    let s3 = text::replaced(s2, "&gt;"@, ">"@);
    let s4 = text::replaced(s3, "&quot;"@, "\""@);
    lemma_replaced_clear(s1, "&lt;"@, '<', "&lt;"@);
    lemma_replaced_clear(s2, "&gt;"@, '>', "&lt;"@);
    lemma_replaced_clear(s2, "&gt;"@, '>', "&gt;"@);
    lemma_replaced_clear(s3, "&quot;"@, '"', "&lt;"@);
    lemma_replaced_clear(s3, "&quot;"@, '"', "&gt;"@);
    lemma_replaced_clear(s3, "&quot;"@, '"', "&quot;"@);
    lemma_replaced_clear(s4, "&apos;"@, '\'', "&lt;"@);
    lemma_replaced_clear(s4, "&apos;"@, '\'', "&gt;"@);
    lemma_replaced_clear(s4, "&apos;"@, '\'', "&quot;"@);
    lemma_replaced_clear(s4, "&apos;"@, '\'', "&apos;"@);
}

/// What stands in an element is read back from wherever the element first stands.
pub proof fn law_element_reads_body(
    before: Seq<char>,
    tag: Seq<char>,
    body: Seq<char>,
    after: Seq<char>,
)
    requires
        !body.contains('<'),
        forall|i: int|
            0 <= i < before.len() ==> !#[trigger] text::occurs_at(
                before + open_tag(tag) + body + close_tag(tag) + after,
                open_tag(tag),
                i,
            ),
    ensures
        element_body(before + open_tag(tag) + body + close_tag(tag) + after, tag) == Some(body),
{
    reveal_strlit("</");
    let xml = before + open_tag(tag) + body + close_tag(tag) + after;
    let i = before.len() as int;
    assert(xml.subrange(i, i + open_tag(tag).len()) =~= open_tag(tag));
    assert(text::first_occurs_at(xml, open_tag(tag), i));
    text::lemma_found_at(xml, open_tag(tag), i);
    let rest = xml.skip(i + open_tag(tag).len());
    assert(rest =~= body + close_tag(tag) + after);
    let j = body.len() as int;
    assert(rest.subrange(j, j + close_tag(tag).len()) =~= close_tag(tag));
    assert forall|k: int| 0 <= k < j implies !text::occurs_at(rest, close_tag(tag), k) by {
        if text::occurs_at(rest, close_tag(tag), k) {
            assert(rest.subrange(k, k + close_tag(tag).len())[0] == close_tag(tag)[0]);
            assert(body[k] == '<');
            assert(body.contains('<'));
        }
    }
    assert(text::first_occurs_at(rest, close_tag(tag), j));
    text::lemma_found_at(rest, close_tag(tag), j);
    assert(rest.take(j) =~= body);
}

/// A header is found in whichever line it stands first, in any case and with any space around it,
/// and its value is what stands behind it in the line, without the space around it.
pub proof fn law_header_is_found_in_any_line(
    lines: Seq<Seq<char>>,
    needle: Seq<char>,
    i: int,
)
    requires
        0 <= i < lines.len(),
        text::trimmed(lines[i]).len() > needle.len(),
        text::lowered(text::trimmed(lines[i]).take(needle.len() as int)) == text::lowered(needle),
        forall|j: int|
            0 <= j < i ==> text::trimmed(#[trigger] lines[j]).len() <= needle.len() || text::lowered(
                text::trimmed(lines[j]).take(needle.len() as int),
            ) != text::lowered(needle),
    ensures
        header_value(lines, needle) == Some(
            text::trimmed(text::trimmed(lines[i]).skip(needle.len() as int)),
        ),
    decreases i,
{
    if i > 0 {
        let rest = lines.drop_first();
        assert(lines[0] == lines[0]);
        assert(!is_header(text::trimmed(lines[0]), needle));
        assert forall|j: int| 0 <= j < i - 1 implies text::trimmed(#[trigger] rest[j]).len()
            <= needle.len() || text::lowered(text::trimmed(rest[j]).take(needle.len() as int))
            != text::lowered(needle) by {
            assert(rest[j] == lines[j + 1]);
        }
        assert(rest[i - 1] == lines[i]);
        law_header_is_found_in_any_line(rest, needle, i - 1);
    }
}

/// Where no line has the header there is no value.
pub proof fn law_header_is_missing(lines: Seq<Seq<char>>, needle: Seq<char>)
    requires
        forall|j: int|
            0 <= j < lines.len() ==> text::trimmed(#[trigger] lines[j]).len() <= needle.len()
                || text::lowered(text::trimmed(lines[j]).take(needle.len() as int))
                != text::lowered(needle),
    ensures
        header_value(lines, needle) is None,
    decreases lines.len(),
{
    if lines.len() > 0 {
        let rest = lines.drop_first();
        assert(!is_header(text::trimmed(lines[0]), needle));
        assert forall|j: int| 0 <= j < rest.len() implies text::trimmed(#[trigger] rest[j]).len()
            <= needle.len() || text::lowered(text::trimmed(rest[j]).take(needle.len() as int))
            != text::lowered(needle) by {
            assert(rest[j] == lines[j + 1]);
        }
        law_header_is_missing(rest, needle);
    }
}

/// A new location joins the list at its end, and nothing else changes it.
pub proof fn law_new_location_joins(known: Seq<Seq<char>>, l: Seq<char>)
    ensures
        (forall|i: int| 0 <= i < known.len() ==> #[trigger] known[i] != l) ==> with_location(
            known,
            Some(l),
        ) == known.push(l),
        (exists|i: int| 0 <= i < known.len() && #[trigger] known[i] == l) ==> with_location(
            known,
            Some(l),
        ) == known,
        with_location(known, None) == known,
{
}

/// An entity between texts without ampersands is replaced where it is the one in question, and is
/// left alone by the replacing of one that differs from it somewhere.
proof fn lemma_entity(a: Seq<char>, e: Seq<char>, b: Seq<char>, from: Seq<char>, to: Seq<char>, p: int)
    requires
        !a.contains('&'),
        !b.contains('&'),
        e.len() > 0,
        from.len() > 0,
        from[0] == '&',
        forall|i: int| 0 < i < e.len() ==> #[trigger] e[i] != '&',
        from == e || (0 <= p < from.len() && p < e.len() && from[p] != e[p]),
    ensures
        from == e ==> text::replaced(a + e + b, from, to) == a + to + b,
        from != e ==> text::replaced(a + e + b, from, to) == a + e + b,
{
    let s = a + e + b;
    assert forall|k: int| 0 <= k && k != a.len() implies !#[trigger] text::occurs_at(s, from, k) by {
        if text::occurs_at(s, from, k) {
            assert(s.subrange(k, k + from.len())[0] == from[0]);
            assert(s[k] == '&');
            if k < a.len() {
                assert(a[k] == '&');
            } else if k < a.len() + e.len() {
                assert(e[k - a.len()] == '&');
            } else {
                assert(b[k - a.len() - e.len()] == '&');
            }
        }
    }
    if from == e {
        text::law_replace_left_to_right(a, e, b, to);
        lemma_nothing_replaced(b, from, to);
    } else {
        assert forall|i: int| !text::first_occurs_at(s, from, i) by {
            if text::first_occurs_at(s, from, i) {
                assert(text::occurs_at(s, from, i));
                assert(i == a.len());
                assert(s.subrange(i, i + from.len())[p] == from[p]);
                assert(s[i + p] == e[p]);
            }
        }
    }
}

/// What is made of one entity after the other: of each but one nothing, and of that one the
/// character that it stands for.
proof fn lemma_decoded_steps(
    s: Seq<char>,
    s1: Seq<char>,
    s2: Seq<char>,
    s3: Seq<char>,
    s4: Seq<char>,
    s5: Seq<char>,
)
    requires
        text::replaced(s, "&amp;"@, "&"@) == s1,
        text::replaced(s1, "&lt;"@, "<"@) == s2,
        text::replaced(s2, "&gt;"@, ">"@) == s3,
        text::replaced(s3, "&quot;"@, "\""@) == s4,
        text::replaced(s4, "&apos;"@, "'"@) == s5,
    ensures
        decoded(s) == s5,
{
}

/// The five entities, character by character.
proof fn lemma_entity_characters()
    ensures
        "&amp;"@ == seq!['&', 'a', 'm', 'p', ';'],
        "&lt;"@ == seq!['&', 'l', 't', ';'],
        "&gt;"@ == seq!['&', 'g', 't', ';'],
        "&quot;"@ == seq!['&', 'q', 'u', 'o', 't', ';'],
        "&apos;"@ == seq!['&', 'a', 'p', 'o', 's', ';'],
        "<"@ == seq!['<'],
        ">"@ == seq!['>'],
        "\""@ == seq!['"'],
        "'"@ == seq!['\''],
{
    reveal_strlit("&amp;");
    reveal_strlit("&lt;");
    reveal_strlit("&gt;");
    reveal_strlit("&quot;");
    reveal_strlit("&apos;");
    reveal_strlit("<");
    reveal_strlit(">");
    reveal_strlit("\"");
    reveal_strlit("'");
}

/// The entity `&lt;` stands for its character, between whatever texts without ampersands it stands.
pub proof fn law_less_than_by_entity(a: Seq<char>, b: Seq<char>)
    requires
        !a.contains('&'),
        !b.contains('&'),
    ensures
        decoded(a + seq!['&', 'l', 't', ';'] + b) == a + seq!['<'] + b,
{
    lemma_entity_characters();
    let e = "&lt;"@;
    let s = a + e + b;
    let t = a + seq!['<'] + b;
    lemma_entity(a, e, b, "&amp;"@, "&"@, 1);
    lemma_entity(a, e, b, e, "<"@, 1);
    lemma_no_ampersand(a, '<', b);
    lemma_nothing_replaced(t, "&gt;"@, ">"@);
    lemma_nothing_replaced(t, "&quot;"@, "\""@);
    lemma_nothing_replaced(t, "&apos;"@, "'"@);
    lemma_decoded_steps(s, s, t, t, t, t);
}

/// The entity `&gt;` stands for its character, between whatever texts without ampersands it stands.
pub proof fn law_greater_than_by_entity(a: Seq<char>, b: Seq<char>)
    requires
        !a.contains('&'),
        !b.contains('&'),
    ensures
        decoded(a + seq!['&', 'g', 't', ';'] + b) == a + seq!['>'] + b,
{
    lemma_entity_characters();
    let e = "&gt;"@;
    let s = a + e + b;
    let t = a + seq!['>'] + b;
    lemma_entity(a, e, b, "&amp;"@, "&"@, 1);
    lemma_entity(a, e, b, "&lt;"@, "<"@, 1);
    lemma_entity(a, e, b, e, ">"@, 1);
    lemma_no_ampersand(a, '>', b);
    lemma_nothing_replaced(t, "&quot;"@, "\""@);
    lemma_nothing_replaced(t, "&apos;"@, "'"@);
    lemma_decoded_steps(s, s, s, t, t, t);
}

/// The entity `&quot;` stands for its character, between whatever texts without ampersands it stands.
pub proof fn law_quote_by_entity(a: Seq<char>, b: Seq<char>)
    requires
        !a.contains('&'),
        !b.contains('&'),
    ensures
        decoded(a + seq!['&', 'q', 'u', 'o', 't', ';'] + b) == a + seq!['"'] + b,
{
    lemma_entity_characters();
    let e = "&quot;"@;
    let s = a + e + b;
    let t = a + seq!['"'] + b;
    lemma_entity(a, e, b, "&amp;"@, "&"@, 1);
    lemma_entity(a, e, b, "&lt;"@, "<"@, 1);
    lemma_entity(a, e, b, "&gt;"@, ">"@, 1);
    lemma_entity(a, e, b, e, "\""@, 1);
    lemma_no_ampersand(a, '"', b);
    lemma_nothing_replaced(t, "&apos;"@, "'"@);
    lemma_decoded_steps(s, s, s, s, t, t);
}

/// The entity `&apos;` stands for its character, between whatever texts without ampersands it stands.
pub proof fn law_apostrophe_by_entity(a: Seq<char>, b: Seq<char>)
    requires
        !a.contains('&'),
        !b.contains('&'),
    ensures
        decoded(a + seq!['&', 'a', 'p', 'o', 's', ';'] + b) == a + seq!['\''] + b,
{
    lemma_entity_characters();
    let e = "&apos;"@;
    let s = a + e + b;
    let t = a + seq!['\''] + b;
    lemma_entity(a, e, b, "&amp;"@, "&"@, 2);
    lemma_entity(a, e, b, "&lt;"@, "<"@, 1);
    lemma_entity(a, e, b, "&gt;"@, ">"@, 1);
    lemma_entity(a, e, b, "&quot;"@, "\""@, 1);
    lemma_entity(a, e, b, e, "'"@, 1);
    lemma_decoded_steps(s, s, s, s, s, t);
}

/// A character that is no ampersand brings none.
proof fn lemma_no_ampersand(a: Seq<char>, c: char, b: Seq<char>)
    requires
        !a.contains('&'),
        !b.contains('&'),
        c != '&',
    ensures
        !(a + seq![c] + b).contains('&'),
{
    let s = a + seq![c] + b;
    if s.contains('&') {
        let i = choose|i: int| 0 <= i < s.len() && s[i] == '&';
        if i < a.len() {
            assert(a[i] == '&');
        } else if i > a.len() {
            assert(b[i - a.len() - 1] == '&');
        }
    }
}

/// The entity of the ampersand stands for it, where no other entity comes of it.
pub proof fn law_ampersand_by_entity(a: Seq<char>, b: Seq<char>)
    requires
        !a.contains('&'),
        !b.contains('&'),
        b.len() > 0 ==> b[0] != 'l' && b[0] != 'g' && b[0] != 'q' && b[0] != 'a',
    ensures
        decoded(a + seq!['&', 'a', 'm', 'p', ';'] + b) == a + seq!['&'] + b,
{
    lemma_entity_characters();
    reveal_strlit("&");
    assert("&"@ =~= seq!['&']);
    let e = "&amp;"@;
    let s = a + e + b;
    let t = a + seq!['&'] + b;
    lemma_entity(a, e, b, e, "&"@, 1);
    assert("&lt;"@[1] == 'l' && "&gt;"@[1] == 'g' && "&quot;"@[1] == 'q' && "&apos;"@[1] == 'a');
    lemma_ampersand_stays(a, b, "&lt;"@, "<"@);
    lemma_ampersand_stays(a, b, "&gt;"@, ">"@);
    lemma_ampersand_stays(a, b, "&quot;"@, "\""@);
    lemma_ampersand_stays(a, b, "&apos;"@, "'"@);
    lemma_decoded_steps(s, t, t, t, t, t);
}

/// An ampersand before another character than an entity has stays.
proof fn lemma_ampersand_stays(a: Seq<char>, b: Seq<char>, from: Seq<char>, to: Seq<char>)
    requires
        !a.contains('&'),
        !b.contains('&'),
        from.len() > 1,
        from[0] == '&',
        b.len() > 0 ==> b[0] != from[1],
    ensures
        text::replaced(a + seq!['&'] + b, from, to) == a + seq!['&'] + b,
{
    let s = a + seq!['&'] + b;
    assert forall|i: int| !text::first_occurs_at(s, from, i) by {
        if text::first_occurs_at(s, from, i) {
            assert(text::occurs_at(s, from, i));
            let t = s.subrange(i, i + from.len());
            assert(t[0] == from[0] && t[1] == from[1]);
            assert(s[i] == '&' && s[i + 1] == from[1]);
            if i < a.len() {
                assert(a[i] == '&');
            } else if i > a.len() {
                assert(b[i - a.len() - 1] == '&');
            } else {
                assert(s[i + 1] == b[0]);
            }
        }
    }
}

/// The text of an element is what stands in it, without the space around it and decoded; a blank
/// element, and one that is missing, has none.
pub proof fn law_element_text_is_trimmed(xml: Seq<char>, tag: Seq<char>)
    ensures
        element_body(xml, tag) is None ==> element_text(xml, tag) is None,
        element_body(xml, tag) matches Some(b) ==> {
            &&& text::trimmed(b).len() == 0 ==> element_text(xml, tag) is None
            &&& text::trimmed(b).len() > 0 ==> element_text(xml, tag) == Some(
                decoded(text::trimmed(b)),
            )
        },
        element_text(xml, tag) matches Some(t) ==> (t.len() > 0 ==> solid_text(xml, tag) == Some(t)),
        element_text(xml, tag) matches Some(t) ==> (t.len() == 0 ==> solid_text(xml, tag) is None),
        element_text(xml, tag) is None ==> solid_text(xml, tag) is None,
{
}

/// An element that is never opened has no body, nor has one that is not closed behind where it is
/// opened first.
pub proof fn law_element_is_missing(a: Seq<char>, tag: Seq<char>, b: Seq<char>)
    ensures
        !text::has_within(a, seq!['<'] + tag + seq!['>']) ==> element_body(a, tag) is None,
        !text::has_within(b, seq!['<', '/'] + tag + seq!['>']) && (forall|k: int|
            0 <= k < a.len() ==> !#[trigger] text::occurs_at(
                a + (seq!['<'] + tag + seq!['>']) + b,
                seq!['<'] + tag + seq!['>'],
                k,
            )) ==> element_body(a + (seq!['<'] + tag + seq!['>']) + b, tag) is None,
{
    reveal_strlit("<");
    reveal_strlit("</");
    reveal_strlit(">");
    assert("<"@ =~= seq!['<']);
    assert("</"@ =~= seq!['<', '/']);
    assert(">"@ =~= seq!['>']);
    let open = open_tag(tag);
    let xml = a + open + b;
    if forall|k: int| 0 <= k < a.len() ==> !#[trigger] text::occurs_at(xml, open, k) {
        let i = a.len() as int;
        assert(xml.subrange(i, i + open.len()) =~= open);
        assert(text::first_occurs_at(xml, open, i));
        text::lemma_found_at(xml, open, i);
        assert(xml.skip(i + open.len()) =~= b);
    }
}

/// A device is known once its app tells its screen and there is a token for it: the one that the
/// lounge gave, else the app's own. It has the name of its description, or none.
pub proof fn law_device_is_probed(
    location: Seq<char>,
    description: Seq<char>,
    app: Seq<char>,
    refreshed: Option<Seq<char>>,
)
    ensures
        probed(location, description, app, refreshed) is Some <==> solid_text(app, "screenId"@)
            is Some && (refreshed is Some || solid_text(app, "loungeToken"@) is Some),
        probed(location, description, app, refreshed) matches Some(d) ==> {
            &&& d.location == location
            &&& solid_text(app, "screenId"@) == Some(d.screen_id)
            &&& refreshed is Some ==> refreshed == Some(d.lounge_token)
            &&& refreshed is None ==> solid_text(app, "loungeToken"@) == Some(d.lounge_token)
            &&& element_text(description, "friendlyName"@) is Some ==> element_text(
                description,
                "friendlyName"@,
            ) == Some(d.name)
            &&& element_text(description, "friendlyName"@) is None ==> d.name.len() == 0
        },
{
}

} // verus!
