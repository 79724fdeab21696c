use obelisk::codec::MediaType;
use obelisk::net::IpAddress;
use obelisk::sdp::{AllocatedPair, MediaChange, MediaSessionId, SdpError, SessionState};
use obelisk::sdp_parse::{
    description_of, is_utf8, parse_description, HostAddress, RawAttribute, RawBandwidth, RawMedia,
    RawSession,
};
use obelisk::sdp_write::sdp_text;
use obelisk::sdp_model::{
    Direction, SdpMediaType, SrtpSuite, TaggedAddress, TransportProtocol, XyRange,
};
use obelisk::settings::{
    AuthSettings, ControllerSettings, DisplayNameSource, Language, RtpPortRange, Settings,
    SipSettings, SipTransport,
};
use obelisk::sip_codec::DecoderCapability;
use std::sync::Arc;

fn settings(offer_srtp: bool) -> Arc<Settings> {
    Arc::new(Settings {
        language: Language::EN,
        auth: AuthSettings {
            issuer: "https://auth.example".to_string(),
            client_id: "obelisk".to_string(),
            client_secret: "SECRET-REDACTED".to_string(),
        },
        monitoring: None,
        controller: ControllerSettings { domain: "controller.example".to_string(), insecure: false },
        sip: SipSettings {
            addr: "0.0.0.0".to_string(),
            port: 5060,
            transport: SipTransport::UdpTcp,
            inbound_addr: None,
            inbound_media_ip: None,
            id: None,
            contact: None,
            username: None,
            registrar: None,
            stun_server: None,
            rtp_port_range: RtpPortRange { start: 40000, end: 49999 },
            offer_srtp,
            max_video_bitrate: 6_000_000,
            encode_video_at_half_bitrate: false,
            display_name_source: DisplayNameSource::Contact,
        },
    })
}

fn cap() -> DecoderCapability {
    DecoderCapability {
        profile_idc: 66,
        profile_iop: 0xe0,
        level_idc: 31,
        max_mbps: 108000,
        max_fs: 3600,
        max_cpb: 0,
        max_dpb: 0,
        max_br: 0,
    }
}

fn offered_state() -> SessionState<u8> {
    let mut state: SessionState<u8> = SessionState::empty(settings(false), IpAddress::V4(0x0a000001), 1000, cap());
    assert_eq!(state.missing_offer_media(), (true, true));
    state.add_offered_session(MediaType::Audio, AllocatedPair { public_rtp_port: 40000, public_rtcp_port: 40001, pair: 7 });
    assert_eq!(state.missing_offer_media(), (false, true));
    state
}


const ANSWER: &str = "v=0\r\n\
o=- 1 2 IN IP4 192.168.0.1\r\n\
s=pbx\r\n\
c=IN IP4 192.168.0.1\r\n\
t=0 0\r\n\
m=audio 50000 RTP/AVP 8 101\r\n\
a=rtpmap:8 PCMA/8000\r\n\
a=rtpmap:101 telephone-event/8000\r\n\
a=fmtp:101 0-15\r\n\
a=sendrecv\r\n";

#[test]
fn a_body_reads_into_the_description() {
    let d = parse_description(&ANSWER.as_bytes().to_vec(), &Vec::new()).unwrap();
    assert_eq!(d.name, "pbx");
    assert_eq!(d.origin, None);
    assert!(matches!(d.connection, Some(TaggedAddress::Ip(IpAddress::V4(0xc0a80001)))));
    assert_eq!(d.media_descriptions.len(), 1);
    let m = &d.media_descriptions[0];
    assert_eq!(m.media_type, SdpMediaType::Audio);
    assert_eq!(m.port, 50000);
    assert_eq!(m.proto, TransportProtocol::RtpAvp);
    assert_eq!(m.fmts, vec![8, 101]);
    assert_eq!(m.direction, Direction::SendRecv);
    let maps: Vec<(u8, &str, u32)> = m.rtpmap.iter().map(|r| (r.payload, r.encoding.as_str(), r.clock_rate)).collect();
    assert_eq!(maps, vec![(8, "PCMA", 8000), (101, "telephone-event", 8000)]);
    assert_eq!(m.fmtp.len(), 1);
    assert_eq!((m.fmtp[0].format, m.fmtp[0].params.as_str()), (101, "0-15"));
}

#[test]
fn attributes_of_a_video_section() {
    let body = "v=0\r\no=- 1 2 IN IP4 10.0.0.2\r\ns=-\r\nt=0 0\r\n\
m=video 50002 RTP/SAVP 96 x\r\n\
c=IN IP4 pbx.example\r\n\
b=AS:2000\r\n\
a=rtcp:50009 IN IP4 10.0.0.2\r\n\
a=recvonly\r\n\
a=rtpmap:96 H264/90000\r\n\
a=rtpmap:bad\r\n\
a=crypto:1 AES_CM_128_HMAC_SHA1_80 inline:WVNfX19zZW1jdGwgKCkgewkyMjA7fQp9CnVubGVz|2^20|1:4\r\n\
a=crypto:2 AES_CM_128_HMAC_SHA1_32 lifetime\r\n\
a=imageattr:96 send [x=640,y=360] recv [x=[320:16:1280],y=[180:9:720],q=0.4] [x=1920,y=1080,q=0.6]\r\n";
    let hosts = vec![HostAddress { name: "pbx.example".to_string(), ip: IpAddress::V4(0x0a000003) }];
    let d = parse_description(&body.as_bytes().to_vec(), &hosts).unwrap();
    let m = &d.media_descriptions[0];
    assert_eq!(m.media_type, SdpMediaType::Video);
    assert_eq!(m.proto, TransportProtocol::RtpSavp);
    assert_eq!(m.fmts, vec![96]);
    match &m.connection {
        Some(TaggedAddress::Fqdn { name, resolved }) => {
            assert_eq!(name, "pbx.example");
            assert_eq!(*resolved, Some(IpAddress::V4(0x0a000003)));
        }
        _ => panic!("a host name stays a host name"),
    }
    assert_eq!(m.bandwidth.len(), 1);
    assert_eq!((m.bandwidth[0].type_.as_str(), m.bandwidth[0].bandwidth), ("AS", 2000));
    assert_eq!(m.rtcp_port, Some(50009));
    assert_eq!(m.direction, Direction::RecvOnly);
    assert_eq!(m.rtpmap.len(), 1);
    assert_eq!(m.crypto.len(), 1);
    assert_eq!(m.crypto[0].tag, 1);
    assert_eq!(m.crypto[0].suite, SrtpSuite::AES_CM_128_HMAC_SHA1_80);
    assert_eq!(m.crypto[0].keys, vec!["WVNfX19zZW1jdGwgKCkgewkyMjA7fQp9CnVubGVz".to_string()]);
    assert_eq!(m.imageattr.len(), 1);
    assert_eq!(m.imageattr[0].pt, Some(96));
    match &m.imageattr[0].recv_best {
        Some((XyRange::Value(1920), XyRange::Value(1080))) => {}
        other => panic!("the receive set with the highest q is kept, got {other:?}"),
    }
}

#[test]
fn image_attribute_ranges_and_ties() {
    let body = "v=0\r\no=- 1 2 IN IP4 10.0.0.2\r\ns=-\r\nt=0 0\r\n\
m=video 50002 RTP/AVP 96\r\n\
a=imageattr:* recv [x=[320:1280],y=[180:16:720]] [x=[640,1280],y=360]\r\n\
a=imageattr:96 recv [x=[9:1],y=1]\r\n";
    let d = parse_description(&body.as_bytes().to_vec(), &Vec::new()).unwrap();
    let m = &d.media_descriptions[0];
    assert_eq!(m.imageattr.len(), 1);
    assert_eq!(m.imageattr[0].pt, None);
    match &m.imageattr[0].recv_best {
        Some((XyRange::List(xs), XyRange::Value(360))) => assert_eq!(xs, &vec![640, 1280]),
        other => panic!("the later of two equal sets is kept, got {other:?}"),
    }
}

#[test]
fn bodies_that_are_no_sdp_are_refused() {
    assert_eq!(parse_description(&vec![0xff, 0xfe, 0x00], &Vec::new()).err(), Some(SdpError::InvalidSdp));
    assert_eq!(parse_description(&b"hello".to_vec(), &Vec::new()).err(), Some(SdpError::InvalidSdp));
    let mut state = offered_state();
    assert_eq!(state.receive_answer_sdp(&b"hello".to_vec(), &Vec::new()), Err(SdpError::InvalidSdp));
    assert_eq!(state.media_sessions.len(), 1);
    assert_eq!(state.plan_offer_sdp(&vec![0xff], &Vec::new()).err(), Some(SdpError::InvalidSdp));
}

#[test]
fn an_answer_body_establishes_the_offered_session() {
    let mut state = offered_state();
    let changes = state.receive_answer_sdp(&ANSWER.as_bytes().to_vec(), &Vec::new()).unwrap();
    assert_eq!(changes, vec![MediaChange::AddSender(MediaSessionId(0)), MediaChange::AddReceiver(MediaSessionId(0))]);
    assert!(state.media_by_id(MediaSessionId(0)).state.is_established());
}

#[test]
fn the_own_description_is_written_as_sdp() {
    let state = offered_state();
    let text = sdp_text(&state.build_sdp());
    assert_eq!(
        text,
        "v=0\r\n\
o=- 1000 1001 IN IP4 10.0.0.1\r\n\
s=opentalk-obelisk\r\n\
t=0 0\r\n\
m=audio 40000 RTP/AVP 9 8 0 101\r\n\
c=IN IP4 10.0.0.1\r\n\
a=rtcp:40001\r\n\
a=sendrecv\r\n\
a=rtpmap:9 G722/8000\r\n\
a=rtpmap:8 PCMA/8000\r\n\
a=rtpmap:0 PCMU/8000\r\n\
a=rtpmap:101 telephone-event/8000\r\n"
    );
    let again = parse_description(&text.as_bytes().to_vec(), &Vec::new()).unwrap();
    assert_eq!(again.media_descriptions[0].fmts, vec![9, 8, 0, 101]);
}

#[test]
fn a_second_setup_adds_nothing() {
    let mut state: SessionState<u8> = SessionState::empty(settings(false), IpAddress::V4(0x0a000001), 1000, cap());
    let pair = |p: u16, tag: u8| Some(AllocatedPair { public_rtp_port: p, public_rtcp_port: p + 1, pair: tag });
    assert_eq!(state.setup_offer(pair(40000, 1), pair(40002, 2)), Ok(()));
    assert_eq!(state.media_sessions.len(), 2);
    assert_eq!(state.media_sessions[0].media_type, MediaType::Audio);
    assert_eq!(state.media_sessions[0].socket_pair, 1);
    assert_eq!(state.media_sessions[1].media_type, MediaType::Video);
    assert_eq!(state.media_sessions[1].socket_pair, 2);
    assert_eq!(state.missing_offer_media(), (false, false));
    assert_eq!(state.setup_offer(None, None), Ok(()));
    assert_eq!(state.media_sessions.len(), 2);
    assert_eq!(state.next_media_session_id, 2);
}

#[test]
fn a_setup_without_ports_fails() {
    let mut state: SessionState<u8> = SessionState::empty(settings(false), IpAddress::V4(0x0a000001), 1000, cap());
    assert_eq!(state.setup_offer(None, Some(AllocatedPair { public_rtp_port: 1, public_rtcp_port: 2, pair: 0 })), Err(SdpError::NoPorts));
    assert_eq!(state.media_sessions.len(), 0);
    assert_eq!(state.setup_offer(Some(AllocatedPair { public_rtp_port: 1, public_rtcp_port: 2, pair: 0 }), None), Err(SdpError::NoPorts));
    assert_eq!(state.media_sessions.len(), 1);
    assert_eq!(state.missing_offer_media(), (false, true));
}

#[test]
fn an_offer_body_creates_a_session_on_the_bound_pair() {
    let mut state: SessionState<u8> = SessionState::empty(settings(false), IpAddress::V4(0x0a000001), 1000, cap());
    let offer = "v=0\r\no=- 1 2 IN IP4 192.168.0.1\r\ns=pbx\r\nc=IN IP4 192.168.0.1\r\nt=0 0\r\n\
m=audio 50000 RTP/AVP 8\r\na=rtpmap:8 PCMA/8000\r\n";
    let plan = state.plan_offer_sdp(&offer.as_bytes().to_vec(), &Vec::new()).unwrap();
    assert_eq!(plan.entries.len(), 1);
    let sockets = vec![Some(AllocatedPair { public_rtp_port: 40000, public_rtcp_port: 40001, pair: 42 })];
    let changes = state.apply_offer(plan, sockets);
    assert!(!changes.is_empty());
    assert_eq!(state.media_sessions.len(), 1);
    assert_eq!(state.media_sessions[0].socket_pair, 42);
    assert_eq!(state.media_sessions[0].media_type, MediaType::Audio);
}

#[test]
fn utf8_checks() {
    assert!(is_utf8(&"héllo €𝄞".as_bytes().to_vec()));
    assert!(is_utf8(&vec![]));
    assert!(!is_utf8(&vec![0xc0, 0x80]));
    assert!(!is_utf8(&vec![0xed, 0xa0, 0x80]));
    assert!(!is_utf8(&vec![0xe2, 0x82]));
    assert!(!is_utf8(&vec![0xf4, 0x90, 0x80, 0x80]));
    assert!(!is_utf8(&vec![0xff]));
}

#[test]
fn a_body_with_invalid_utf8_in_any_line_is_refused() {
    let mut body = ANSWER.as_bytes().to_vec();
    body.extend_from_slice(b"x=");
    body.push(0xff);
    body.extend_from_slice(b"\r\n");
    assert_eq!(parse_description(&body, &Vec::new()).err(), Some(SdpError::InvalidSdp));
    let mut state = offered_state();
    assert_eq!(state.receive_answer_sdp(&body, &Vec::new()), Err(SdpError::InvalidSdp));
}

#[test]
fn raw_lines_read_into_a_description() {
    let raw = RawSession {
        name: "pbx".to_string(),
        connection: Some("192.168.0.1".to_string()),
        media: vec![RawMedia {
            media: "audio".to_string(),
            port: 50000,
            proto: "RTP/AVP".to_string(),
            fmt: "0 8".to_string(),
            connections: vec![],
            bandwidths: vec![RawBandwidth { kind: "AS".to_string(), value: 64 }],
            attributes: vec![
                RawAttribute { name: "sendonly".to_string(), value: None },
                RawAttribute { name: "rtpmap".to_string(), value: Some("0 PCMU/8000".to_string()) },
                RawAttribute { name: "rtcp".to_string(), value: Some("x".to_string()) },
            ],
        }],
    };
    let d = description_of(&raw, &Vec::new());
    assert!(matches!(d.connection, Some(TaggedAddress::Ip(IpAddress::V4(0xc0a80001)))));
    let m = &d.media_descriptions[0];
    assert_eq!(m.fmts, vec![0, 8]);
    assert_eq!(m.direction, Direction::SendOnly);
    assert_eq!(m.rtpmap.len(), 1);
    assert_eq!(m.rtcp_port, None);
    assert_eq!(m.bandwidth[0].bandwidth, 64);
}

#[test]
fn a_reinvite_without_body_keeps_the_call() {
    let mut state = offered_state();
    state.receive_answer_sdp(&ANSWER.as_bytes().to_vec(), &Vec::new()).unwrap();
    assert!(state.media_by_id(MediaSessionId(0)).state.is_established());
    // the re-offer adds a video session and re-announces the audio one
    let video = Some(AllocatedPair { public_rtp_port: 40002, public_rtcp_port: 40003, pair: 9 });
    assert_eq!(state.setup_offer(None, video), Ok(()));
    assert_eq!(state.media_sessions.len(), 2);
    // an answer for the established audio session only
    let changes = state.receive_reanswer_sdp(&ANSWER.as_bytes().to_vec(), &Vec::new()).unwrap();
    assert!(changes.is_empty());
    assert_eq!(state.media_sessions.len(), 1);
    assert!(state.media_by_id(MediaSessionId(0)).state.is_established());
    // with every session established, the answer leaves everything as it is
    let changes = state.receive_reanswer_sdp(&ANSWER.as_bytes().to_vec(), &Vec::new()).unwrap();
    assert!(changes.is_empty());
    assert_eq!(state.media_sessions.len(), 1);
    // the plain answer step refuses such an answer
    assert_eq!(state.receive_answer_sdp(&ANSWER.as_bytes().to_vec(), &Vec::new()), Err(SdpError::NotOffered));
}
