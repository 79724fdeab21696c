use obelisk::net::{IpAddress, SocketAddress};
use obelisk::settings::{
    DisplayNameSource, RtpPortRange, SipRegistrarSettings, SipSettings, SipTransport,
};
use obelisk::sip::{
    caller_name, classify_info_request, contains_text, invite_body, InviteBody, generate_contact_uri, generate_id_uri,
    maybe_add_sip_scheme, media_ip, public_address_action, PubAddrAction, picture_fast_update_status, register_response_action, starts_with,
    stun_server_with_port, trim_start_matches_str, CallerUri, InfoRequest, RegisterResponseAction,
};

fn sip_settings(id: Option<&str>, contact: Option<&str>, username: Option<&str>, registrar: Option<&str>) -> SipSettings {
    SipSettings {
        addr: "0.0.0.0".to_string(),
        port: 5060,
        transport: SipTransport::UdpTcp,
        inbound_addr: None,
        inbound_media_ip: None,
        id: id.map(|s| s.to_string()),
        contact: contact.map(|s| s.to_string()),
        username: username.map(|s| s.to_string()),
        registrar: registrar.map(|r| SipRegistrarSettings {
            password: None,
            realm: None,
            registrar: r.to_string(),
            outbound_proxy: None,
            enforce_qop: false,
            nat_ping_delta_secs: 30,
        }),
        stun_server: None,
        rtp_port_range: RtpPortRange { start: 40000, end: 49999 },
        offer_srtp: false,
        max_video_bitrate: 6_000_000,
        encode_video_at_half_bitrate: false,
        display_name_source: DisplayNameSource::Contact,
    }
}

#[test]
fn sip_scheme_is_added_when_missing() {
    assert_eq!(maybe_add_sip_scheme("registrar.example.org"), "sip:registrar.example.org");
    assert_eq!(maybe_add_sip_scheme("sip:registrar.example.org"), "sip:registrar.example.org");
    assert_eq!(maybe_add_sip_scheme("sips:registrar.example.org"), "sips:registrar.example.org");
    assert_eq!(maybe_add_sip_scheme(""), "sip:");
}

#[test]
fn prefix_and_trim_helpers() {
    assert!(starts_with("sip:x", "sip:"));
    assert!(!starts_with("si", "sip:"));
    assert_eq!(trim_start_matches_str("sip:sip:host", "sip:"), "host");
    assert_eq!(trim_start_matches_str("host", "sip:"), "host");
    assert!(contains_text("<picture_fast_update/>", "picture_fast_update"));
    assert!(!contains_text("picture", "picture_fast_update"));
}

#[test]
fn id_uri_generation() {
    let configured = sip_settings(Some("sip:me@conf.example"), None, Some("alice"), Some("sip:reg.example"));
    assert_eq!(generate_id_uri(&configured, "1.2.3.4:5060"), "sip:me@conf.example");
    let with_registrar = sip_settings(None, None, Some("alice"), Some("sip:sip:reg.example"));
    assert_eq!(generate_id_uri(&with_registrar, "1.2.3.4:5060"), "sip:alice@reg.example");
    let sips_registrar = sip_settings(None, None, None, Some("sips:reg.example"));
    assert_eq!(generate_id_uri(&sips_registrar, "1.2.3.4:5060"), "sip:reg.example");
    let plain = sip_settings(None, None, None, None);
    assert_eq!(generate_id_uri(&plain, "1.2.3.4:5060"), "sip:1.2.3.4:5060");
}

#[test]
fn contact_uri_generation() {
    let configured = sip_settings(None, Some("sip:bridge@10.0.0.1"), Some("alice"), None);
    assert_eq!(generate_contact_uri(&configured, "1.2.3.4:5060"), "sip:bridge@10.0.0.1");
    let user = sip_settings(None, None, Some("alice"), None);
    assert_eq!(generate_contact_uri(&user, "1.2.3.4:5060"), "sip:alice@1.2.3.4:5060");
    let anon = sip_settings(None, None, None, None);
    assert_eq!(generate_contact_uri(&anon, "[::1]:5060"), "sip:[::1]:5060");
}

#[test]
fn id_without_registrar_matches_contact() {
    let user = sip_settings(None, None, Some("alice"), None);
    assert_eq!(generate_id_uri(&user, "192.0.2.1:5060"), generate_contact_uri(&user, "192.0.2.1:5060"));
    assert_eq!(generate_id_uri(&user, "192.0.2.1:5060"), "sip:alice@192.0.2.1:5060");
}

#[test]
fn stun_server_default_port() {
    assert_eq!(stun_server_with_port("stun.example.org"), "stun.example.org:3478");
    assert_eq!(stun_server_with_port("stun.example.org:19302"), "stun.example.org:19302");
}

#[test]
fn register_response_handling() {
    assert_eq!(register_response_action(200, false), RegisterResponseAction::Registered);
    assert_eq!(register_response_action(202, true), RegisterResponseAction::Registered);
    assert_eq!(register_response_action(401, false), RegisterResponseAction::Authenticate);
    assert_eq!(register_response_action(407, true), RegisterResponseAction::Authenticate);
    assert_eq!(register_response_action(423, false), RegisterResponseAction::RetryAfterError);
    assert_eq!(register_response_action(423, true), RegisterResponseAction::Fail);
    assert_eq!(register_response_action(503, false), RegisterResponseAction::Fail);
    assert_eq!(register_response_action(100, false), RegisterResponseAction::Fail);
}

#[test]
fn caller_name_by_source() {
    let contact = CallerUri { display_name: None, user: Some("+4930123".to_string()) };
    let from = CallerUri { display_name: Some("Alice".to_string()), user: Some("alice".to_string()) };
    assert_eq!(caller_name(DisplayNameSource::Contact, &contact, &from), Some("+4930123".to_string()));
    assert_eq!(caller_name(DisplayNameSource::From, &contact, &from), Some("Alice".to_string()));
    let nobody = CallerUri { display_name: None, user: None };
    assert_eq!(caller_name(DisplayNameSource::Contact, &nobody, &from), None);
}

#[test]
fn info_request_classification() {
    let body = "<?xml version=\"1.0\" encoding=\"utf-8\"?><media_control><vc_primitive><to_encoder><picture_fast_update></picture_fast_update></to_encoder></vc_primitive></media_control>";
    assert_eq!(
        classify_info_request(Some("application/media_control+xml"), Some(body)),
        InfoRequest::PictureFastUpdate
    );
    assert_eq!(classify_info_request(Some("application/media_control+xml"), Some("<x/>")), InfoRequest::Other);
    assert_eq!(classify_info_request(Some("application/media_control+xml"), None), InfoRequest::Other);
    assert_eq!(classify_info_request(Some("application/dtmf-relay"), Some(body)), InfoRequest::NotMediaControl);
    assert_eq!(classify_info_request(None, Some(body)), InfoRequest::NotMediaControl);
    assert_eq!(picture_fast_update_status(true), 200);
    assert_eq!(picture_fast_update_status(false), 404);
}

#[test]
fn public_address_sources() {
    let inbound = SocketAddress { ip: IpAddress::V4(0xC000_0201), port: 5060 };
    let mut sip = sip_settings(None, None, Some("alice"), None);
    assert!(matches!(public_address_action(&sip, true), PubAddrAction::ResolveBind));
    sip.inbound_addr = Some(inbound);
    assert!(matches!(public_address_action(&sip, true), PubAddrAction::UseInbound(a) if a == inbound));
    sip.stun_server = Some("stun.example.org".to_string());
    match public_address_action(&sip, true) {
        PubAddrAction::QueryStun(s) => assert_eq!(s, "stun.example.org:3478"),
        _ => panic!("a configured STUN server is asked"),
    }
    assert!(matches!(public_address_action(&sip, false), PubAddrAction::ResolveBind));
}

#[test]
fn media_ip_prefers_inbound_media_ip() {
    let pub_addr = SocketAddress { ip: IpAddress::V4(0xC000_0201), port: 5060 };
    assert_eq!(media_ip(None, pub_addr), IpAddress::V4(0xC000_0201));
    assert_eq!(media_ip(Some(IpAddress::V4(0x0A00_0001)), pub_addr), IpAddress::V4(0x0A00_0001));
}

#[test]
fn invite_bodies_by_content_type() {
    assert_eq!(invite_body(None), InviteBody::NoOffer);
    assert_eq!(invite_body(Some("application/sdp")), InviteBody::Offer);
    assert_eq!(invite_body(Some("text/plain")), InviteBody::NotAcceptable);
}
