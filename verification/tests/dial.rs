use tubecast::dial::{
    decode_xml_entities, header_is_readable, note_response, packet_text, parse_header, probe_dial,
    screen_id_of, xml_text, youtube_url, LOCATION, M_SEARCH, SSDP_ADDR,
};

#[test]
fn parse_ssdp_location() {
    let resp = "HTTP/1.1 200 OK\r\n\
                LOCATION: http://192.168.1.42:8888/dial/abc/dd.xml\r\n\
                ST: urn:dial-multiscreen-org:service:dial:1\r\n\r\n";
    assert_eq!(
        parse_header(resp, "LOCATION"),
        Some("http://192.168.1.42:8888/dial/abc/dd.xml".into())
    );
}

#[test]
fn parse_header_case_insensitive() {
    let resp = "location: http://example.com\r\n";
    assert_eq!(
        parse_header(resp, "LOCATION"),
        Some("http://example.com".into())
    );
}

#[test]
fn parse_header_missing() {
    assert_eq!(parse_header("HTTP/1.1 200 OK\r\n", "LOCATION"), None);
}

#[test]
fn extract_xml_tags() {
    let xml = "<root><screenId>abc123</screenId><loungeToken>tok</loungeToken></root>";
    assert_eq!(xml_text(xml, "screenId"), Some("abc123".into()));
    assert_eq!(xml_text(xml, "loungeToken"), Some("tok".into()));
    assert_eq!(xml_text(xml, "missing"), None);
}

#[test]
fn xml_text_empty_returns_none() {
    assert_eq!(xml_text("<screenId></screenId>", "screenId"), None);
}

#[test]
fn xml_text_decodes_entities() {
    let xml = "<friendlyName>Playlet on 50&quot; TCL Roku TV</friendlyName>";
    assert_eq!(
        xml_text(xml, "friendlyName"),
        Some("Playlet on 50\" TCL Roku TV".into())
    );
}

#[test]
fn decodes_all_xml_entities() {
    assert_eq!(decode_xml_entities("a&amp;b"), "a&b");
    assert_eq!(decode_xml_entities("&lt;tag&gt;"), "<tag>");
    assert_eq!(decode_xml_entities("&quot;hi&quot;"), "\"hi\"");
    assert_eq!(decode_xml_entities("it&apos;s"), "it's");
}

#[test]
fn xml_text_trims_whitespace() {
    assert_eq!(
        xml_text("<friendlyName>  My TV  </friendlyName>", "friendlyName"),
        Some("My TV".into())
    );
}

#[test]
fn parses_full_dial_youtube_response() {
    let xml = r#"<?xml version="1.0"?>
<service dialVer="1.7" xmlns="urn:dial-multiscreen-org:schemas:dial">
  <name>YouTube</name>
  <options allowStop="true"/>
  <state>running</state>
  <link rel="run" href="run"/>
  <additionalData>
    <theme>cl</theme>
    <deviceId>XXXXXXXX-XXXX-XXXX-XXXX-XXXXXXXXXXXX</deviceId>
    <screenId>screen123abc</screenId>
    <loungeToken>AGdO5p_token_here</loungeToken>
  </additionalData>
</service>"#;
    assert_eq!(xml_text(xml, "screenId"), Some("screen123abc".into()));
    assert_eq!(xml_text(xml, "loungeToken"), Some("AGdO5p_token_here".into()));
    assert_eq!(xml_text(xml, "state"), Some("running".into()));
}

#[test]
fn header_with_empty_value_is_passed_over() {
    assert_eq!(parse_header("LOCATION:\r\nLocation: x\r\n", "LOCATION"), Some("x".into()));
}

#[test]
fn first_header_counts() {
    assert_eq!(parse_header("a: 1\nA: 2\n", "a"), Some("1".into()));
}

#[test]
fn readable_headers() {
    assert!(header_is_readable("LOCATION: x", "LOCATION"));
    assert!(header_is_readable("é: x", "LOCATION"));
    // The ninth byte of the line stands inside a character.
    assert!(!header_is_readable("12345678é and more", "LOCATION"));
    assert!(header_is_readable("LOCATION: x\n12345678é and more", "LOCATION"));
}

#[test]
fn entities_are_decoded_one_after_the_other() {
    assert_eq!(decode_xml_entities("&amp;lt;"), "<");
    assert_eq!(decode_xml_entities("&unknown;"), "&unknown;");
}

#[test]
fn xml_text_without_close_is_none() {
    assert_eq!(xml_text("<a>text", "a"), None);
    assert_eq!(xml_text("</a><a>x</a>", "a"), Some("x".into()));
    assert_eq!(xml_text("<a> \u{2003} </a>", "a"), None);
}

#[test]
fn locations_are_kept_once_in_order() {
    let mut known = Vec::new();
    for answer in ["LOCATION: b\r\n", "LOCATION: a\r\n", "location: b\r\n", "nothing\r\n"] {
        note_response(&mut known, answer);
    }
    assert_eq!(known, vec!["b", "a"]);
}

#[test]
fn packets_become_text() {
    assert_eq!(packet_text("LOCATION: é".as_bytes()), "LOCATION: é");
    assert_eq!(packet_text(&[0x61, 0xff, 0x62]), "a\u{fffd}b");
}

#[test]
fn youtube_app_address() {
    assert_eq!(youtube_url("http://tv:8060/dial//"), "http://tv:8060/dial/YouTube");
}

#[test]
fn probe_takes_the_refreshed_token() {
    let app = "<screenId>s</screenId><loungeToken>t</loungeToken>";
    let d = probe_dial("loc", "<friendlyName>My TV</friendlyName>", app, Some("new".into())).unwrap();
    assert_eq!((d.name.as_str(), d.screen_id.as_str()), ("My TV", "s"));
    assert_eq!((d.lounge_token.as_str(), d.location.as_str()), ("new", "loc"));
}

#[test]
fn probe_falls_back_to_the_apps_token() {
    let app = "<screenId>s</screenId><loungeToken>t</loungeToken>";
    let d = probe_dial("loc", "", app, None).unwrap();
    assert_eq!((d.name.as_str(), d.lounge_token.as_str()), ("", "t"));
}

#[test]
fn probe_needs_screen_and_token() {
    assert!(probe_dial("loc", "", "<loungeToken>t</loungeToken>", Some("n".into())).is_none());
    assert!(probe_dial("loc", "", "<screenId>s</screenId>", None).is_none());
    assert_eq!(screen_id_of("<screenId> s </screenId>"), Some("s".into()));
    assert_eq!(screen_id_of("<screenId/>"), None);
}

#[test]
fn search_datagram() {
    assert_eq!(SSDP_ADDR, "239.255.255.250:1900");
    assert_eq!(LOCATION, "LOCATION");
    assert_eq!(
        M_SEARCH,
        "M-SEARCH * HTTP/1.1\r\nHOST: 239.255.255.250:1900\r\nMAN: \"ssdp:discover\"\r\n\
         ST: urn:dial-multiscreen-org:service:dial:1\r\nMX: 3\r\n\r\n"
    );
}

#[test]
fn text_without_entities_stays() {
    assert_eq!(decode_xml_entities("a <b> \"c\" 'd'; é"), "a <b> \"c\" 'd'; é");
}

#[test]
fn decoded_text_holds_no_entities() {
    for s in ["&&lt;lt;", "&l&gt;t;", "&amp;lt;&quot;&apos;&gt;", "&&amp;gt;gt;"] {
        let r = decode_xml_entities(s);
        for entity in ["&lt;", "&gt;", "&quot;", "&apos;"] {
            assert!(!r.contains(entity), "{s} gives {r}");
        }
    }
}
